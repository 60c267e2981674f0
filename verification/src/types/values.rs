//! Value types of a project record.

use crate::external::{
    current_time, duration_from_secs, duration_of_secs, format_bytes, format_seconds,
    human_readable_bytes, humantime_formatted,
};
use crate::text::{decimal, decimal_string};
use vstd::prelude::*;
use vstd::string::StringExecFns;

verus! {

/// Identity of a project inside one registry.
#[derive(Debug, Clone, Copy, PartialEq, Eq, Structural, Hash)]
pub struct ProjectId(u32);

impl View for ProjectId {
    type V = u32;

    closed spec fn view(&self) -> u32 {
        self.0
    }
}

impl ProjectId {
    pub fn new(id: u32) -> (r: Self)
        ensures
            r@ == id,
    {
        Self(id)
    }

    pub fn get(self) -> (r: u32)
        ensures
            r == self@,
    {
        self.0
    }

    /// The identifier that follows this one.
    #[must_use]
    pub fn next(self) -> (r: Self)
        requires
            self@ < u32::MAX,
        ensures
            r@ == self@ + 1,
    {
        Self(self.0 + 1)
    }

    /// The identifier in decimal.
    pub fn to_string(&self) -> (s: String)
        ensures
            s@ == decimal(self@ as nat),
    {
        decimal_string(self.0 as u64)
    }
}

/// Display name of a project.
#[derive(Debug, PartialEq, Eq, Hash)]
pub struct ProjectName(String);

impl View for ProjectName {
    type V = Seq<char>;

    closed spec fn view(&self) -> Seq<char> {
        self.0@
    }
}

impl Clone for ProjectName {
    fn clone(&self) -> (r: Self)
        ensures
            r@ == self@,
    {
        Self(self.0.clone())
    }
}

impl ProjectName {
    pub fn new(name: String) -> (r: Self)
        ensures
            r@ == name@,
    {
        Self(name)
    }

    pub fn as_str(&self) -> (s: &str)
        ensures
            s@ == self@,
    {
        self.0.as_str()
    }

    pub fn to_string(&self) -> (s: String)
        ensures
            s@ == self@,
    {
        self.0.clone()
    }
}

/// Version of a project, as free text.
#[derive(Debug, PartialEq, Eq, Hash)]
pub struct ProjectVersion(String);

impl View for ProjectVersion {
    type V = Seq<char>;

    closed spec fn view(&self) -> Seq<char> {
        self.0@
    }
}

impl Clone for ProjectVersion {
    fn clone(&self) -> (r: Self)
        ensures
            r@ == self@,
    {
        Self(self.0.clone())
    }
}

impl ProjectVersion {
    pub fn new(version: String) -> (r: Self)
        ensures
            r@ == version@,
    {
        Self(version)
    }

    pub fn as_str(&self) -> (s: &str)
        ensures
            s@ == self@,
    {
        self.0.as_str()
    }
}

/// A size in bytes.
#[derive(Debug, Clone, Copy, PartialEq, Eq, Structural, PartialOrd, Ord)]
pub struct FileSize(u64);

impl View for FileSize {
    type V = u64;

    closed spec fn view(&self) -> u64 {
        self.0
    }
}

impl Default for FileSize {
    fn default() -> (r: Self)
        ensures
            r@ == 0,
    {
        Self(0)
    }
}

impl FileSize {
    pub fn new(bytes: u64) -> (r: Self)
        ensures
            r@ == bytes,
    {
        Self(bytes)
    }

    pub fn bytes(self) -> (r: u64)
        ensures
            r == self@,
    {
        self.0
    }

    /// The size with a unit, as `byte_unit` prints it.
    pub fn as_human_readable(self) -> (s: String)
        ensures
            s@ == human_readable_bytes(self@),
    {
        format_bytes(self.0)
    }

    /// How many bytes this size has more than `other`; 0 where it has fewer.
    pub fn saturating_sub(self, other: u64) -> (r: u64)
        ensures
            r == if self@ >= other {
                self@ - other
            } else {
                0
            },
    {
        if self.0 >= other {
            self.0 - other
        } else {
            0
        }
    }
}

/// A build time in whole seconds; 0 stands for "unknown".
#[derive(Debug, Clone, Copy, PartialEq, Eq, Structural, PartialOrd, Ord)]
pub struct TimingDuration(u32);

impl View for TimingDuration {
    type V = u32;

    closed spec fn view(&self) -> u32 {
        self.0
    }
}

impl Default for TimingDuration {
    fn default() -> (r: Self)
        ensures
            r@ == 0,
    {
        Self(0)
    }
}

impl TimingDuration {
    pub fn new(seconds: u32) -> (r: Self)
        ensures
            r@ == seconds,
    {
        Self(seconds)
    }

    pub fn seconds(self) -> (r: u32)
        ensures
            r == self@,
    {
        self.0
    }

    /// What `as_human_readable` returns for a build time of `seconds`.
    pub open spec fn human_readable(seconds: u32) -> Seq<char> {
        if seconds == 0 {
            "unknown"@
        } else {
            humantime_formatted(seconds as u64)
        }
    }

    /// `unknown` for 0, otherwise the duration as `humantime` prints it.
    pub fn as_human_readable(self) -> (s: String)
        ensures
            s@ == Self::human_readable(self@),
    {
        if self.0 == 0 {
            String::from_str("unknown")
        } else {
            format_seconds(self.0 as u64)
        }
    }

    /// The build time as a duration of that many whole seconds.
    pub fn as_duration(self) -> (d: std::time::Duration)
        ensures
            d == duration_of_secs(self@ as u64),
    {
        duration_from_secs(self.0 as u64)
    }
}

/// Number of direct dependencies of a package.
#[derive(Debug, Clone, Copy, PartialEq, Eq, Structural, PartialOrd, Ord)]
pub struct DependencyCount(usize);

impl View for DependencyCount {
    type V = usize;

    closed spec fn view(&self) -> usize {
        self.0
    }
}

impl DependencyCount {
    pub fn new(count: usize) -> (r: Self)
        ensures
            r@ == count,
    {
        Self(count)
    }

    pub fn get(self) -> (r: usize)
        ensures
            r == self@,
    {
        self.0
    }
}

/// Name under which a watched directory is registered.
#[derive(Debug, PartialEq, Eq, Hash)]
pub struct WatcherName(String);

impl View for WatcherName {
    type V = Seq<char>;

    closed spec fn view(&self) -> Seq<char> {
        self.0@
    }
}

impl Clone for WatcherName {
    fn clone(&self) -> (r: Self)
        ensures
            r@ == self@,
    {
        Self(self.0.clone())
    }
}

impl WatcherName {
    pub fn new(name: String) -> (r: Self)
        ensures
            r@ == name@,
    {
        Self(name)
    }

    pub fn as_str(&self) -> (s: &str)
        ensures
            s@ == self@,
    {
        self.0.as_str()
    }

    pub fn to_string(&self) -> (s: String)
        ensures
            s@ == self@,
    {
        self.0.clone()
    }
}

/// Structural kind of a project, decided from its manifest.
#[derive(Debug, Clone, Copy, PartialEq, Eq, Structural)]
pub enum ProjectType {
    /// A package without workspace members.
    Package,
    /// A workspace without a root package.
    PureWorkspace,
    /// A workspace whose root is a package too.
    WorkspaceWithPackage,
    /// A manifest that could not be resolved, or that declares neither.
    Malformed,
}

impl Default for ProjectType {
    fn default() -> (r: Self)
        ensures
            r == ProjectType::Package,
    {
        ProjectType::Package
    }
}

/// A point in time: seconds and nanoseconds since the Unix epoch, UTC.
#[derive(Debug, Clone, Copy, PartialEq, Eq, Structural)]
pub struct Timestamp {
    pub secs: i64,
    pub nanos: u32,
}

impl Timestamp {
    /// The current time of the system clock.
    pub fn now() -> Timestamp {
        current_time()
    }
}

} // verus!
