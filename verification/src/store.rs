//! The store of resources.

use vstd::prelude::*;

verus! {

/// A resource with the number of tokens of its text.
pub struct Resource<R> {
    pub resource: R,
    pub count: usize,
}

impl<R> Resource<R> {
    /// The entry of a resource whose text has `word_count` tokens: at least
    /// one, since a text without tokens is not indexed.
    pub fn new(resource: R, word_count: usize) -> (r: Self)
        requires
            word_count >= 1,
        ensures
            r.resource == resource,
            r.count == word_count,
    {
        Resource { resource, count: word_count }
    }

    pub fn count(&self) -> (n: usize)
        ensures
            n == self.count,
    {
        self.count
    }

    pub fn resource(&self) -> (r: &R)
        ensures
            *r == self.resource,
    {
        &self.resource
    }
}

/// The resources in the order in which they were inserted. The position of
/// a resource is its document id. Its view is the sequence of the entries.
pub struct Store<R> {
    inner: Vec<Resource<R>>,
}

impl<R> View for Store<R> {
    type V = Seq<Resource<R>>;

    closed spec fn view(&self) -> Seq<Resource<R>> {
        self.inner@
    }
}

impl<R> Store<R> {
    pub fn with_capacity(capacity: usize) -> (r: Self)
        ensures
            r@.len() == 0,
    {
        let mut inner: Vec<Resource<R>> = Vec::new();
        let _ = inner.try_reserve(capacity);
        Store { inner }
    }

    pub fn len(&self) -> (n: usize)
        ensures
            n == self@.len(),
    {
        self.inner.len()
    }

    /// Appends `value` and gives its document id: the number of entries
    /// before. No entry is changed, and an entry equal to `value` may be
    /// there already.
    pub fn insert(&mut self, value: Resource<R>) -> (id: usize)
        ensures
            final(self)@ == old(self)@.push(value),
            id == old(self)@.len(),
    {
        self.inner.push(value);
        self.inner.len() - 1
    }

    pub fn get(&self, index: usize) -> (r: Option<&Resource<R>>)
        ensures
            index < self@.len() ==> r == Some(&self@[index as int]),
            index >= self@.len() ==> r is None,
    {
        if index < self.inner.len() {
            Some(&self.inner[index])
        } else {
            None
        }
    }
}

impl<R: Clone> Store<R> {
    /// A copy of the resource with document id `index`.
    pub fn get_path(&self, index: usize) -> (r: Option<R>)
        ensures
            index < self@.len() ==> r is Some && cloned(self@[index as int].resource, r->0),
            index >= self@.len() ==> r is None,
    {
        if index < self.inner.len() {
            Some(self.inner[index].resource.clone())
        } else {
            None
        }
    }
}

/// A file with the number of tokens of its text.
pub struct FileEntry {
    pub path: String,
    pub count: usize,
}

impl FileEntry {
    /// The entry of a file whose text has `word_count` tokens: at least one.
    pub fn new(path: String, word_count: usize) -> (r: Self)
        requires
            word_count >= 1,
        ensures
            r.path == path,
            r.count == word_count,
    {
        FileEntry { path, count: word_count }
    }

    pub fn count(&self) -> (n: usize)
        ensures
            n == self.count,
    {
        self.count
    }
}

/// The files in the order in which they were inserted.
pub struct FileIndex {
    inner: Vec<FileEntry>,
}

impl View for FileIndex {
    type V = Seq<FileEntry>;

    closed spec fn view(&self) -> Seq<FileEntry> {
        self.inner@
    }
}

impl FileIndex {
    pub fn new() -> (r: Self)
        ensures
            r@.len() == 0,
    {
        FileIndex::with_capacity(1_000)
    }

    pub fn with_capacity(capacity: usize) -> (r: Self)
        ensures
            r@.len() == 0,
    {
        let mut inner: Vec<FileEntry> = Vec::new();
        let _ = inner.try_reserve(capacity);
        FileIndex { inner }
    }

    pub fn len(&self) -> (n: usize)
        ensures
            n == self@.len(),
    {
        self.inner.len()
    }

    /// Appends `value` and gives its position.
    pub fn insert(&mut self, value: FileEntry) -> (id: usize)
        ensures
            final(self)@ == old(self)@.push(value),
            id == old(self)@.len(),
    {
        self.inner.push(value);
        self.inner.len() - 1
    }

    pub fn get(&self, index: usize) -> (r: Option<&FileEntry>)
        ensures
            index < self@.len() ==> r == Some(&self@[index as int]),
            index >= self@.len() ==> r is None,
    {
        if index < self.inner.len() {
            Some(&self.inner[index])
        } else {
            None
        }
    }
}

/// The last file that was appended to, with the number of its tokens.
#[derive(Debug)]
pub struct AppendCache {
    pub last_file_index: usize,
    pub file_token_count: usize,
}

impl AppendCache {
    pub fn new(last_file_index: usize, file_token_count: usize) -> (r: Self)
        ensures
            r.last_file_index == last_file_index,
            r.file_token_count == file_token_count,
    {
        AppendCache { last_file_index, file_token_count }
    }
}

} // verus!
