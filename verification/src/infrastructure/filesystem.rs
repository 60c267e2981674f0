//! A filesystem that lives in memory, for trying out code that reads files.

use crate::types::errors::ProjectsError;
use crate::types::keyed::{
    has_key, keyed_map, lemma_keyed_map_at, lemma_keyed_map_empty, lemma_keyed_map_push,
    lemma_keyed_map_update, unique_keys,
};
use crate::text::concat_str;
use crate::types::path::{path_text, ProjectPath};
use vstd::prelude::*;

verus! {

/// What is known of a file or directory.
#[derive(Debug, Clone, Copy, PartialEq, Eq, Structural)]
pub struct MockMetadata {
    pub len: u64,
    pub is_dir: bool,
    pub is_file: bool,
}

/// A file with its content.
#[derive(Debug)]
struct StoredFile {
    path: ProjectPath,
    content: String,
}

/// A path with what is known of it.
#[derive(Debug)]
struct StoredMetadata {
    path: ProjectPath,
    metadata: MockMetadata,
}

/// A file with its content, as mathematical values.
pub struct FileView {
    pub path: Seq<Seq<char>>,
    pub content: Seq<char>,
}

/// A path with what is known of it, as mathematical values.
pub struct MetadataView {
    pub path: Seq<Seq<char>>,
    pub metadata: MockMetadata,
}

/// The key of a file: its path.
pub open spec fn file_path() -> spec_fn(FileView) -> Seq<Seq<char>> {
    |f: FileView| f.path
}

/// The key of a metadata record: its path.
pub open spec fn metadata_path() -> spec_fn(MetadataView) -> Seq<Seq<char>> {
    |m: MetadataView| m.path
}

/// The length of a text in bytes.
pub open spec fn byte_len(content: Seq<char>) -> u64 {
    (vstd::utf8::encode_utf8(content).len() as usize) as u64
}

/// Files and directories in memory.
#[derive(Debug)]
pub struct MockFileSystem {
    files: Vec<StoredFile>,
    metadata_map: Vec<StoredMetadata>,
}

impl MockFileSystem {
    /// The files, in the order in which they are stored.
    pub closed spec fn file_records(&self) -> Seq<FileView> {
        Seq::new(
            self.files@.len(),
            |i: int| FileView { path: self.files@[i].path@, content: self.files@[i].content@ },
        )
    }

    /// The metadata records, in the order in which they are stored.
    pub closed spec fn metadata_records(&self) -> Seq<MetadataView> {
        Seq::new(
            self.metadata_map@.len(),
            |i: int|
                MetadataView {
                    path: self.metadata_map@[i].path@,
                    metadata: self.metadata_map@[i].metadata,
                },
        )
    }

    /// The content of each file, under the file's path.
    pub open spec fn files(&self) -> Map<Seq<Seq<char>>, Seq<char>> {
        keyed_map(self.file_records(), file_path()).map_values(|f: FileView| f.content)
    }

    /// What is known of each path.
    pub open spec fn metadata_map(&self) -> Map<Seq<Seq<char>>, MockMetadata> {
        keyed_map(self.metadata_records(), metadata_path()).map_values(
            |m: MetadataView| m.metadata,
        )
    }

    /// What holds of every such filesystem: no path occurs twice.
    pub open spec fn wf(&self) -> bool {
        &&& unique_keys(self.file_records(), file_path())
        &&& unique_keys(self.metadata_records(), metadata_path())
    }

    /// A filesystem without files.
    pub fn new() -> (r: Self)
        ensures
            r.wf(),
            r.files() == Map::<Seq<Seq<char>>, Seq<char>>::empty(),
            r.metadata_map() == Map::<Seq<Seq<char>>, MockMetadata>::empty(),
    {
        let r = MockFileSystem { files: Vec::new(), metadata_map: Vec::new() };
        proof {
            assert(r.file_records() =~= Seq::<FileView>::empty());
            assert(r.metadata_records() =~= Seq::<MetadataView>::empty());
            lemma_keyed_map_empty::<FileView, Seq<Seq<char>>>(file_path());
            lemma_keyed_map_empty::<MetadataView, Seq<Seq<char>>>(metadata_path());
            assert(r.files() =~= Map::<Seq<Seq<char>>, Seq<char>>::empty());
            assert(r.metadata_map() =~= Map::<Seq<Seq<char>>, MockMetadata>::empty());
        }
        r
    }

    /// Where the file at `path` is stored.
    fn file_position(&self, path: &ProjectPath) -> (r: Option<usize>)
        ensures
            match r {
                Some(i) => i < self.file_records().len() && self.file_records()[i as int].path
                    == path@,
                None => !has_key(self.file_records(), file_path(), path@),
            },
    {
        let mut i: usize = 0;
        while i < self.files.len()
            invariant
                i <= self.files.len(),
                forall|k: int| 0 <= k < i ==> self.file_records()[k].path != path@,
            decreases self.files.len() - i,
        {
            if self.files[i].path.same_as(path) {
                return Some(i);
            }
            i += 1;
        }
        assert forall|k: int| 0 <= k < self.file_records().len() implies #[trigger] file_path()(
            self.file_records()[k],
        ) != path@ by {}
        None
    }

    /// Where what is known of `path` is stored.
    fn metadata_position(&self, path: &ProjectPath) -> (r: Option<usize>)
        ensures
            match r {
                Some(i) => i < self.metadata_records().len()
                    && self.metadata_records()[i as int].path == path@,
                None => !has_key(self.metadata_records(), metadata_path(), path@),
            },
    {
        let mut i: usize = 0;
        while i < self.metadata_map.len()
            invariant
                i <= self.metadata_map.len(),
                forall|k: int| 0 <= k < i ==> self.metadata_records()[k].path != path@,
            decreases self.metadata_map.len() - i,
        {
            if self.metadata_map[i].path.same_as(path) {
                return Some(i);
            }
            i += 1;
        }
        assert forall|k: int|
            0 <= k < self.metadata_records().len() implies #[trigger] metadata_path()(
            self.metadata_records()[k],
        ) != path@ by {}
        None
    }

    /// Records what is known of `path`, in place of what was known.
    fn set_metadata(&mut self, path: ProjectPath, metadata: MockMetadata)
        requires
            old(self).wf(),
        ensures
            final(self).wf(),
            final(self).files() == old(self).files(),
            final(self).metadata_map() == old(self).metadata_map().insert(path@, metadata),
    {
        let ghost before = self.metadata_records();
        let ghost entry = MetadataView { path: path@, metadata };
        match self.metadata_position(&path) {
            Some(i) => {
                proof {
                    lemma_keyed_map_update(before, metadata_path(), i as int, entry);
                }
                self.metadata_map[i] = StoredMetadata { path, metadata };
                assert(self.metadata_records() =~= before.update(i as int, entry));
            },
            None => {
                proof {
                    lemma_keyed_map_push(before, metadata_path(), entry);
                }
                self.metadata_map.push(StoredMetadata { path, metadata });
                assert(self.metadata_records() =~= before.push(entry));
            },
        }
        assert(self.metadata_map() =~= old(self).metadata_map().insert(path@, metadata));
    }

    /// Puts a file with `content` at `path`, in place of what was there.
    pub fn add_file(&mut self, path: ProjectPath, content: String)
        requires
            old(self).wf(),
        ensures
            final(self).wf(),
            final(self).files() == old(self).files().insert(path@, content@),
            final(self).metadata_map() == old(self).metadata_map().insert(
                path@,
                MockMetadata { len: byte_len(content@), is_dir: false, is_file: true },
            ),
    {
        let ghost before = self.file_records();
        let ghost entry = FileView { path: path@, content: content@ };
        let len: u64 = content.as_str().len() as u64;
        let key = path.clone();
        match self.file_position(&path) {
            Some(i) => {
                proof {
                    lemma_keyed_map_update(before, file_path(), i as int, entry);
                }
                self.files[i] = StoredFile { path, content };
                assert(self.file_records() =~= before.update(i as int, entry));
            },
            None => {
                proof {
                    lemma_keyed_map_push(before, file_path(), entry);
                }
                self.files.push(StoredFile { path, content });
                assert(self.file_records() =~= before.push(entry));
            },
        }
        assert(self.files() =~= old(self).files().insert(entry.path, entry.content));
        self.set_metadata(key, MockMetadata { len, is_file: true, is_dir: false });
    }

    /// Puts a directory at `path`.
    pub fn add_directory(&mut self, path: ProjectPath)
        requires
            old(self).wf(),
        ensures
            final(self).wf(),
            final(self).files() == old(self).files(),
            final(self).metadata_map() == old(self).metadata_map().insert(
                path@,
                MockMetadata { len: 0, is_dir: true, is_file: false },
            ),
    {
        self.set_metadata(path, MockMetadata { len: 0, is_file: false, is_dir: true });
    }

    /// The content of the file at `path`; an I/O error where there is none.
    pub fn read_to_string(&self, path: &ProjectPath) -> (r: Result<String, ProjectsError>)
        requires
            self.wf(),
        ensures
            match r {
                Ok(content) => self.files().contains_key(path@) && content@ == self.files()[path@],
                Err(e) => {
                    &&& !self.files().contains_key(path@)
                    &&& e matches ProjectsError::Io { message }
                    &&& message@ == "File not found: "@ + path_text(path@)
                },
            },
    {
        match self.file_position(path) {
            Some(i) => {
                proof {
                    lemma_keyed_map_at(self.file_records(), file_path(), i as int);
                }
                Ok(self.files[i].content.clone())
            },
            None => Err(
                ProjectsError::Io {
                    message: concat_str("File not found: ", path.to_string().as_str()),
                },
            ),
        }
    }

    /// Whether a file is at `path`.
    pub fn contains_file(&self, path: &ProjectPath) -> (r: bool)
        requires
            self.wf(),
        ensures
            r == self.files().contains_key(path@),
    {
        match self.file_position(path) {
            Some(i) => {
                proof {
                    lemma_keyed_map_at(self.file_records(), file_path(), i as int);
                }
                true
            },
            None => false,
        }
    }

    /// What is known of `path`; an I/O error where nothing is.
    pub fn metadata(&self, path: &ProjectPath) -> (r: Result<MockMetadata, ProjectsError>)
        requires
            self.wf(),
        ensures
            match r {
                Ok(metadata) => self.metadata_map().contains_key(path@) && metadata
                    == self.metadata_map()[path@],
                Err(e) => {
                    &&& !self.metadata_map().contains_key(path@)
                    &&& e matches ProjectsError::Io { message }
                    &&& message@ == "Metadata not found for path: "@ + path_text(path@)
                },
            },
    {
        match self.metadata_position(path) {
            Some(i) => {
                proof {
                    lemma_keyed_map_at(self.metadata_records(), metadata_path(), i as int);
                }
                Ok(self.metadata_map[i].metadata)
            },
            None => Err(
                ProjectsError::Io {
                    message: concat_str("Metadata not found for path: ", path.to_string().as_str()),
                },
            ),
        }
    }
}

} // verus!
