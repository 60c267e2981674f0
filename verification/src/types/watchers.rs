//! The registry of watched directories.

use crate::external::current_time;
use crate::types::errors::ProjectsError;
use crate::types::keyed::{
    has_key, keyed_map, lemma_keyed_map_at, lemma_keyed_map_empty, lemma_keyed_map_push,
    lemma_keyed_map_remove, lemma_keyed_map_update, unique_keys,
};
use crate::types::path::ProjectPath;
use crate::types::project::{watcher_views, WatcherConfig, WatcherView};
use crate::types::values::{Timestamp, WatcherName};
use vstd::prelude::*;
use vstd::string::StringExecFns;

verus! {

/// The key of a watcher record: its name.
pub open spec fn name_of() -> spec_fn(WatcherView) -> Seq<char> {
    |w: WatcherView| w.name
}

/// The parts of a watcher registry, as they are saved.
#[derive(Debug)]
pub struct WatcherParts {
    pub watchers: Vec<WatcherConfig>,
    pub last_updated: Timestamp,
}

/// The watched directories, each under its name.
#[derive(Debug)]
pub struct WatcherRegistry {
    watchers: Vec<WatcherConfig>,
    last_updated: Timestamp,
}

impl WatcherRegistry {
    /// The watcher records, in the order in which they are stored.
    pub closed spec fn records(&self) -> Seq<WatcherView> {
        watcher_views(self.watchers@)
    }

    /// When a watcher was last added by name.
    pub closed spec fn last_updated_value(&self) -> Timestamp {
        self.last_updated
    }

    /// The watchers: from each name to its record.
    pub open spec fn by_name(&self) -> Map<Seq<char>, WatcherView> {
        keyed_map(self.records(), name_of())
    }

    /// What holds of every watcher registry: no name is registered twice.
    pub open spec fn wf(&self) -> bool {
        unique_keys(self.records(), name_of())
    }

    /// An empty registry, stamped `now`.
    pub fn new_at(now: Timestamp) -> (r: Self)
        ensures
            r.wf(),
            r.records() == Seq::<WatcherView>::empty(),
            r.by_name() == Map::<Seq<char>, WatcherView>::empty(),
            r.last_updated_value() == now,
    {
        let r = WatcherRegistry { watchers: Vec::new(), last_updated: now };
        proof {
            assert(r.records() =~= Seq::<WatcherView>::empty());
            lemma_keyed_map_empty::<WatcherView, Seq<char>>(name_of());
        }
        r
    }

    /// An empty registry, stamped with the current time.
    pub fn new() -> (r: Self)
        ensures
            r.wf(),
            r.records() == Seq::<WatcherView>::empty(),
            r.by_name() == Map::<Seq<char>, WatcherView>::empty(),
    {
        Self::new_at(current_time())
    }

    /// Puts a registry together from its parts, as they were read from a
    /// saved registry. Records that share a name are refused as a parse
    /// error.
    pub fn from_parts(watchers: Vec<WatcherConfig>, last_updated: Timestamp) -> (r: Result<
        WatcherRegistry,
        ProjectsError,
    >)
        ensures
            match r {
                Ok(registry) => {
                    &&& unique_keys(watcher_views(watchers@), name_of())
                    &&& registry.wf()
                    &&& registry.records() == watcher_views(watchers@)
                    &&& registry.last_updated_value() == last_updated
                },
                Err(e) => {
                    &&& !unique_keys(watcher_views(watchers@), name_of())
                    &&& e matches ProjectsError::ParseError { message }
                    &&& message@ == "watcher registry holds a name twice"@
                },
            },
    {
        let ghost views = watcher_views(watchers@);
        let mut j: usize = 0;
        while j < watchers.len()
            invariant
                j <= watchers.len(),
                views == watcher_views(watchers@),
                forall|a: int, b: int|
                    0 <= a < b < j ==> #[trigger] name_of()(views[a]) != #[trigger] name_of()(
                        views[b],
                    ),
            decreases watchers.len() - j,
        {
            let mut i: usize = 0;
            while i < j
                invariant
                    i <= j,
                    j < watchers.len(),
                    views == watcher_views(watchers@),
                    forall|a: int|
                        0 <= a < i ==> #[trigger] name_of()(views[a]) != name_of()(views[j as int]),
                decreases j - i,
            {
                if crate::text::str_eq(watchers[i].name.as_str(), watchers[j].name.as_str()) {
                    assert(name_of()(views[i as int]) == name_of()(views[j as int]));
                    return Err(
                        ProjectsError::ParseError {
                            message: String::from_str("watcher registry holds a name twice"),
                        },
                    );
                }
                i += 1;
            }
            j += 1;
        }
        Ok(WatcherRegistry { watchers, last_updated })
    }

    /// The registry that a file holds, given the parts that were read from
    /// the file, or `None` where there is no file. No file stands for an
    /// empty registry, stamped `now`; records that share a name are a parse
    /// error.
    pub fn load_at(saved: Option<WatcherParts>, now: Timestamp) -> (r: Result<
        WatcherRegistry,
        ProjectsError,
    >)
        ensures
            match saved {
                Some(parts) => match r {
                    Ok(registry) => {
                        &&& unique_keys(watcher_views(parts.watchers@), name_of())
                        &&& registry.wf()
                        &&& registry.records() == watcher_views(parts.watchers@)
                        &&& registry.last_updated_value() == parts.last_updated
                    },
                    Err(e) => {
                        &&& !unique_keys(watcher_views(parts.watchers@), name_of())
                        &&& e matches ProjectsError::ParseError { message }
                        &&& message@ == "watcher registry holds a name twice"@
                    },
                },
                None => {
                    &&& r is Ok
                    &&& r->Ok_0.wf()
                    &&& r->Ok_0.records() == Seq::<WatcherView>::empty()
                    &&& r->Ok_0.last_updated_value() == now
                },
            },
    {
        match saved {
            Some(parts) => Self::from_parts(parts.watchers, parts.last_updated),
            None => Ok(Self::new_at(now)),
        }
    }

    /// The registry that a file holds; with no file an empty registry,
    /// stamped with the current time. See `load_at`.
    pub fn load(saved: Option<WatcherParts>) -> (r: Result<WatcherRegistry, ProjectsError>)
        ensures
            saved is None ==> r is Ok && r->Ok_0.wf() && r->Ok_0.records() == Seq::<
                WatcherView,
            >::empty(),
            saved is Some ==> (r is Ok <==> unique_keys(
                watcher_views(saved->0.watchers@),
                name_of(),
            )),
            saved is Some && r is Ok ==> r->Ok_0.wf() && r->Ok_0.records() == watcher_views(
                saved->0.watchers@,
            ) && r->Ok_0.last_updated_value() == saved->0.last_updated,
    {
        Self::load_at(saved, current_time())
    }

    /// The parts of the registry, to save them.
    pub fn into_parts(self) -> (parts: WatcherParts)
        ensures
            watcher_views(parts.watchers@) == self.records(),
            parts.last_updated == self.last_updated_value(),
    {
        WatcherParts { watchers: self.watchers, last_updated: self.last_updated }
    }

    /// The watcher records, in the order in which they are stored.
    pub fn watchers(&self) -> (r: &Vec<WatcherConfig>)
        ensures
            watcher_views(r@) == self.records(),
    {
        &self.watchers
    }

    pub fn last_updated(&self) -> (r: Timestamp)
        ensures
            r == self.last_updated_value(),
    {
        self.last_updated
    }

    /// Where the watcher called `name` is stored.
    fn position(&self, name: &str) -> (r: Option<usize>)
        ensures
            match r {
                Some(i) => i < self.records().len() && self.records()[i as int].name == name@,
                None => !has_key(self.records(), name_of(), name@),
            },
    {
        let mut i: usize = 0;
        while i < self.watchers.len()
            invariant
                i <= self.watchers.len(),
                forall|k: int| 0 <= k < i ==> self.records()[k].name != name@,
            decreases self.watchers.len() - i,
        {
            if crate::text::str_eq(self.watchers[i].name.as_str(), name) {
                return Some(i);
            }
            i += 1;
        }
        assert forall|k: int| 0 <= k < self.records().len() implies #[trigger] name_of()(
            self.records()[k],
        ) != name@ by {}
        None
    }

    /// Stores `watcher` under its name, in place of a watcher of that name.
    pub fn save(&mut self, watcher: WatcherConfig)
        requires
            old(self).wf(),
        ensures
            final(self).wf(),
            final(self).by_name() == old(self).by_name().insert(watcher@.name, watcher@),
            final(self).last_updated_value() == old(self).last_updated_value(),
    {
        let ghost before = self.records();
        match self.position(watcher.name.as_str()) {
            Some(i) => {
                proof {
                    lemma_keyed_map_update(before, name_of(), i as int, watcher@);
                }
                self.watchers[i] = watcher;
                assert(self.records() =~= before.update(i as int, watcher@));
            },
            None => {
                proof {
                    lemma_keyed_map_push(before, name_of(), watcher@);
                }
                self.watchers.push(watcher);
                assert(self.records() =~= before.push(watcher@));
            },
        }
    }

    /// Registers the directory `path` under `name`, created at `now`, in
    /// place of a watcher of that name.
    pub fn add_watcher_at(&mut self, name: &WatcherName, path: ProjectPath, now: Timestamp)
        requires
            old(self).wf(),
        ensures
            final(self).wf(),
            final(self).by_name() == old(self).by_name().insert(
                name@,
                WatcherView { name: name@, path: path@, created_at: now },
            ),
            final(self).last_updated_value() == now,
    {
        self.save(WatcherConfig { name: name.clone(), path, created_at: now });
        self.last_updated = now;
    }

    /// Registers the directory `path` under `name`, created at the current
    /// time, in place of a watcher of that name.
    pub fn add_watcher(&mut self, name: &WatcherName, path: ProjectPath)
        requires
            old(self).wf(),
        ensures
            final(self).wf(),
            final(self).by_name().dom() == old(self).by_name().dom().insert(name@),
            final(self).by_name()[name@].name == name@,
            final(self).by_name()[name@].path == path@,
            final(self).by_name().remove(name@) == old(self).by_name().remove(name@),
    {
        let ghost before = self.by_name();
        let now = current_time();
        self.add_watcher_at(name, path, now);
        proof {
            let w = WatcherView { name: name@, path: path@, created_at: now };
            assert(before.insert(name@, w).dom() =~= before.dom().insert(name@));
            assert(before.insert(name@, w).remove(name@) =~= before.remove(name@));
        }
    }

    /// Copies of all watcher records, in the order in which they are stored.
    pub fn find_all(&self) -> (r: Vec<WatcherConfig>)
        ensures
            watcher_views(r@) == self.records(),
    {
        let mut out: Vec<WatcherConfig> = Vec::new();
        let mut i: usize = 0;
        while i < self.watchers.len()
            invariant
                i <= self.watchers.len(),
                out@.len() == i,
                forall|k: int| 0 <= k < i ==> out@[k]@ == self.watchers@[k]@,
            decreases self.watchers.len() - i,
        {
            out.push(self.watchers[i].clone());
            i += 1;
        }
        assert(watcher_views(out@) =~= self.records());
        out
    }

    /// The watcher called `name`.
    pub fn find_by_name(&self, name: &WatcherName) -> (r: Option<WatcherConfig>)
        requires
            self.wf(),
        ensures
            match r {
                Some(w) => self.by_name().contains_key(name@) && w@ == self.by_name()[name@],
                None => !self.by_name().contains_key(name@),
            },
    {
        match self.position(name.as_str()) {
            Some(i) => {
                proof {
                    lemma_keyed_map_at(self.records(), name_of(), i as int);
                }
                Some(self.watchers[i].clone())
            },
            None => None,
        }
    }

    /// Whether a watcher is called `name`.
    pub fn contains_name(&self, name: &WatcherName) -> (r: bool)
        requires
            self.wf(),
        ensures
            r == self.by_name().contains_key(name@),
    {
        match self.position(name.as_str()) {
            Some(i) => {
                proof {
                    lemma_keyed_map_at(self.records(), name_of(), i as int);
                }
                true
            },
            None => false,
        }
    }

    /// Takes the watcher called `name` out and says whether there was one.
    pub fn remove(&mut self, name: &WatcherName) -> (r: bool)
        requires
            old(self).wf(),
        ensures
            final(self).wf(),
            r == old(self).by_name().contains_key(name@),
            final(self).by_name() == old(self).by_name().remove(name@),
            final(self).last_updated_value() == old(self).last_updated_value(),
    {
        let ghost before = self.records();
        match self.position(name.as_str()) {
            Some(i) => {
                proof {
                    lemma_keyed_map_at(before, name_of(), i as int);
                    lemma_keyed_map_remove(before, name_of(), i as int);
                }
                let _ = self.watchers.remove(i);
                assert(self.records() =~= before.remove(i as int));
                true
            },
            None => {
                assert(self.by_name().remove(name@) =~= self.by_name());
                false
            },
        }
    }

    /// Takes every watcher out.
    pub fn remove_all_watchers(&mut self)
        ensures
            final(self).wf(),
            final(self).records() == Seq::<WatcherView>::empty(),
            final(self).by_name() == Map::<Seq<char>, WatcherView>::empty(),
            final(self).last_updated_value() == old(self).last_updated_value(),
    {
        self.watchers.clear();
        proof {
            assert(self.records() =~= Seq::<WatcherView>::empty());
            lemma_keyed_map_empty::<WatcherView, Seq<char>>(name_of());
        }
    }
}

} // verus!
