//! Paths as sequences of components.

use crate::text::str_eq;
use vstd::prelude::*;
use vstd::string::StringExecFns;

verus! {

/// A filesystem path, held as the list of its components from the root
/// down. Two paths are the same path when their components agree; one path
/// lies under another when the other's components are a prefix of its own.
#[derive(Debug, PartialEq, Eq, Hash)]
pub struct ProjectPath {
    components: Vec<String>,
}

/// The components of a path, each as its characters.
pub open spec fn components_view(components: Seq<String>) -> Seq<Seq<char>> {
    Seq::new(components.len(), |i: int| components[i]@)
}

/// A path written out: its components with a `/` between two of them, but
/// for a component that is the `/` of the root, which is followed at once
/// by the next.
pub open spec fn path_text(components: Seq<Seq<char>>) -> Seq<char>
    decreases components.len(),
{
    if components.len() == 0 {
        Seq::empty()
    } else if components.len() == 1 {
        components[0]
    } else if components[components.len() - 2] == "/"@ {
        path_text(components.drop_last()) + components.last()
    } else {
        path_text(components.drop_last()) + "/"@ + components.last()
    }
}

impl View for ProjectPath {
    type V = Seq<Seq<char>>;

    closed spec fn view(&self) -> Seq<Seq<char>> {
        components_view(self.components@)
    }
}

impl Clone for ProjectPath {
    fn clone(&self) -> (r: Self)
        ensures
            r@ == self@,
    {
        let mut components: Vec<String> = Vec::new();
        let mut i: usize = 0;
        while i < self.components.len()
            invariant
                i <= self.components.len(),
                components@.len() == i,
                forall|k: int| 0 <= k < i ==> components@[k]@ == self.components@[k]@,
            decreases self.components.len() - i,
        {
            components.push(self.components[i].clone());
            i += 1;
        }
        assert(components_view(components@) =~= components_view(self.components@));
        ProjectPath { components }
    }
}

impl ProjectPath {
    /// The path with no components.
    pub fn new() -> (r: Self)
        ensures
            r@ == Seq::<Seq<char>>::empty(),
    {
        let r = ProjectPath { components: Vec::new() };
        assert(r@ =~= Seq::<Seq<char>>::empty());
        r
    }

    /// The path made of `components`, in this order.
    pub fn from_components(components: Vec<String>) -> (r: Self)
        ensures
            r@ == components_view(components@),
    {
        ProjectPath { components }
    }

    /// The path written out, as `/home/me/demo`.
    pub fn to_string(&self) -> (s: String)
        ensures
            s@ == path_text(self@),
    {
        let mut s: String = String::new();
        let mut i: usize = 0;
        assert(self@.take(0) =~= Seq::<Seq<char>>::empty());
        while i < self.components.len()
            invariant
                i <= self.components.len(),
                s@ == path_text(self@.take(i as int)),
            decreases self.components.len() - i,
        {
            let ghost before = s@;
            proof {
                assert(self@.take(i + 1).drop_last() =~= self@.take(i as int));
                assert(self@.take(i + 1).last() == self@[i as int]);
                if i > 0 {
                    assert(self@.take(i + 1)[i - 1] == self@[i - 1]);
                } else {
                    assert(self@.take(1)[0] == self@[0]);
                }
            }
            if i > 0 && !str_eq(self.components[i - 1].as_str(), "/") {
                s.append("/");
            }
            s.append(self.components[i].as_str());
            proof {
                if i == 0 {
                    assert(s@ =~= self@[0]);
                } else if self@[i - 1] == "/"@ {
                    assert(s@ =~= before + self@[i as int]);
                } else {
                    assert(s@ =~= before + "/"@ + self@[i as int]);
                }
            }
            i += 1;
        }
        assert(self@.take(self@.len() as int) =~= self@);
        s
    }

    /// The components, from the root down.
    pub fn components(&self) -> (r: &Vec<String>)
        ensures
            components_view(r@) == self@,
    {
        &self.components
    }

    /// Number of components.
    pub fn len(&self) -> (r: usize)
        ensures
            r == self@.len(),
    {
        self.components.len()
    }

    /// Whether both paths have the same components.
    pub fn same_as(&self, other: &ProjectPath) -> (r: bool)
        ensures
            r == (self@ == other@),
    {
        if self.components.len() != other.components.len() {
            assert(self@.len() != other@.len());
            return false;
        }
        let mut i: usize = 0;
        while i < self.components.len()
            invariant
                i <= self.components.len(),
                self.components.len() == other.components.len(),
                forall|k: int| 0 <= k < i ==> self@[k] == other@[k],
            decreases self.components.len() - i,
        {
            if self.components[i] != other.components[i] {
                assert(self@[i as int] != other@[i as int]);
                return false;
            }
            i += 1;
        }
        assert(self@ =~= other@);
        true
    }

    /// Whether `base` is this path or one of its ancestors: whether the
    /// components of `base` are the first components of this path.
    pub fn starts_with(&self, base: &ProjectPath) -> (r: bool)
        ensures
            r == base@.is_prefix_of(self@),
    {
        if base.components.len() > self.components.len() {
            assert(base@.len() > self@.len());
            return false;
        }
        let mut i: usize = 0;
        while i < base.components.len()
            invariant
                i <= base.components.len(),
                base.components.len() <= self.components.len(),
                forall|k: int| 0 <= k < i ==> self@[k] == base@[k],
            decreases base.components.len() - i,
        {
            if self.components[i] != base.components[i] {
                assert(self@[i as int] != base@[i as int]);
                return false;
            }
            i += 1;
        }
        assert(base@ =~= self@.subrange(0, base@.len() as int));
        true
    }

    /// Whether this path is made of the first `n` components of `other`.
    pub fn equals_prefix(&self, other: &ProjectPath, n: usize) -> (r: bool)
        requires
            n <= other@.len(),
        ensures
            r == (self@ == other@.take(n as int)),
    {
        if self.components.len() != n {
            assert(self@.len() != other@.take(n as int).len());
            return false;
        }
        let mut i: usize = 0;
        while i < n
            invariant
                i <= n,
                n == self.components.len(),
                n <= other.components.len(),
                forall|k: int| 0 <= k < i ==> self@[k] == other@[k],
            decreases n - i,
        {
            if self.components[i] != other.components[i] {
                assert(self@[i as int] != other@.take(n as int)[i as int]);
                return false;
            }
            i += 1;
        }
        assert(self@ =~= other@.take(n as int));
        true
    }

    /// The first `n` components of this path.
    pub fn prefix(&self, n: usize) -> (r: Self)
        requires
            n <= self@.len(),
        ensures
            r@ == self@.take(n as int),
    {
        let mut components: Vec<String> = Vec::new();
        let mut i: usize = 0;
        while i < n
            invariant
                i <= n,
                n <= self.components.len(),
                components@.len() == i,
                forall|k: int| 0 <= k < i ==> components@[k]@ == self.components@[k]@,
            decreases n - i,
        {
            components.push(self.components[i].clone());
            i += 1;
        }
        let r = ProjectPath { components };
        assert(r@ =~= self@.take(n as int));
        r
    }

    /// The last component, if the path has one.
    pub fn file_name(&self) -> (r: Option<&String>)
        ensures
            match r {
                Some(name) => self@.len() > 0 && name@ == self@.last(),
                None => self@.len() == 0,
            },
    {
        let n: usize = self.components.len();
        if n == 0 {
            None
        } else {
            Some(&self.components[n - 1])
        }
    }

    /// The path without its last component; `None` for the empty path.
    pub fn parent(&self) -> (r: Option<ProjectPath>)
        ensures
            match r {
                Some(p) => self@.len() > 0 && p@ == self@.drop_last(),
                None => self@.len() == 0,
            },
    {
        let n: usize = self.components.len();
        if n == 0 {
            None
        } else {
            let p = self.prefix(n - 1);
            assert(self@.take(n - 1) =~= self@.drop_last());
            Some(p)
        }
    }

    /// This path with `name` as one more component.
    pub fn join(&self, name: &str) -> (r: ProjectPath)
        ensures
            r@ == self@.push(name@),
    {
        let mut r = self.clone();
        r.components.push(name.to_owned());
        assert(r@ =~= self@.push(name@));
        r
    }
}

} // verus!
