//! Session store: the virtual files of a revealed volume.
//!
//! A session maps slash-delimited paths to file records. The registry maps
//! session identifiers to sessions. Every operation is one call on a value
//! that the caller holds exclusively, so that no operation sees another one
//! half done.

use vstd::prelude::*;
use crate::error::VaultError;
use crate::error::VaultErrorView;
use crate::store::TextMap;
use crate::text::chars_of;
use crate::text::starts_with_chars;
use crate::text::string_of;

verus! {

/// One file or directory of a session.
#[derive(Clone, Debug, PartialEq, Eq)]
pub struct SessionFile {
    /// The last segment of the path.
    pub name: String,
    /// The path, which is also the key under which the session holds the
    /// record.
    pub path: String,
    pub is_directory: bool,
    /// The number of bytes of the content; 0 for a directory.
    pub size: u64,
    /// When the record was last written, in seconds since the epoch.
    pub modified_at: i64,
    /// The content; a directory has none.
    pub content: Option<Vec<u8>>,
}

/// The mathematical value of a `SessionFile`.
pub struct SessionFileView {
    pub name: Seq<char>,
    pub path: Seq<char>,
    pub is_directory: bool,
    pub size: u64,
    pub modified_at: i64,
    pub content: Option<Seq<u8>>,
}

impl View for SessionFile {
    type V = SessionFileView;

    open spec fn view(&self) -> SessionFileView {
        SessionFileView {
            name: self.name@,
            path: self.path@,
            is_directory: self.is_directory,
            size: self.size,
            modified_at: self.modified_at,
            content: match self.content {
                Some(c) => Some(c@),
                None => None,
            },
        }
    }
}

fn copy_bytes(v: &Vec<u8>) -> (out: Vec<u8>)
    ensures
        out@ == v@,
{
    let mut out: Vec<u8> = Vec::new();
    let mut i: usize = 0;
    while i < v.len()
        invariant
            i <= v.len(),
            out@ == v@.take(i as int),
        decreases v.len() - i,
    {
        out.push(v[i]);
        i += 1;
    }
    out
}

impl SessionFile {
    /// A copy of the record.
    pub fn duplicate(&self) -> (f: SessionFile)
        ensures
            f@ == self@,
    {
        SessionFile {
            name: self.name.clone(),
            path: self.path.clone(),
            is_directory: self.is_directory,
            size: self.size,
            modified_at: self.modified_at,
            content: match &self.content {
                Some(c) => Some(copy_bytes(c)),
                None => None,
            },
        }
    }
}

// ---------------------------------------------------------------------------
// Paths
// ---------------------------------------------------------------------------

/// What stands behind the last slash of `path`; all of `path` where it has
/// no slash.
pub open spec fn final_segment(path: Seq<char>) -> Seq<char>
    decreases path.len(),
{
    if path.len() == 0 || path.last() == '/' {
        Seq::empty()
    } else {
        final_segment(path.drop_last()).push(path.last())
    }
}

/// `path` up to and with its last slash; empty where it has no slash.
pub open spec fn parent_part(path: Seq<char>) -> Seq<char> {
    path.take(path.len() - final_segment(path).len())
}

/// `path` with a slash behind it: what the paths below `path` begin with.
pub open spec fn below(path: Seq<char>) -> Seq<char> {
    path.push('/')
}

/// `q` is shown when `parent` is listed: it is `parent` itself, or it
/// stands directly below it.
pub open spec fn is_listed(parent: Seq<char>, q: Seq<char>) -> bool {
    q == parent || (below(parent).is_prefix_of(q) && !q.skip(parent.len() as int + 1).contains('/'))
}

/// The last segment of a path is its end behind the last slash: it holds no
/// slash, it is all of the path exactly where the path holds none, and a
/// slash stands before it where the path holds one.
pub proof fn lemma_final_segment(path: Seq<char>)
    ensures
        final_segment(path).len() <= path.len(),
        !final_segment(path).contains('/'),
        final_segment(path) == path.skip(path.len() - final_segment(path).len()),
        path.contains('/') <==> final_segment(path) != path,
        path.contains('/') ==> path[path.len() - final_segment(path).len() - 1] == '/',
    decreases path.len(),
{
    if path.len() == 0 {
        assert(final_segment(path) =~= path);
    } else if path.last() == '/' {
        assert(path[path.len() - 1] == '/');
        assert(path.contains('/'));
        assert(path.skip(path.len() as int) =~= Seq::<char>::empty());
    } else {
        let init = path.drop_last();
        lemma_final_segment(init);
        let seg = final_segment(init);
        let k = init.len() - seg.len();
        assert(final_segment(path) == seg.push(path.last()));
        assert(final_segment(path) =~= path.skip(k));
        assert(forall|i: int| 0 <= i < init.len() ==> init[i] == path[i]);
        if init.contains('/') {
            let i = choose|i: int| 0 <= i < init.len() && init[i] == '/';
            assert(path[i] == '/');
        }
        if path.contains('/') {
            let i = choose|i: int| 0 <= i < path.len() && path[i] == '/';
            assert(init[i] == '/');
        }
        assert(path =~= init.push(path.last()));
        if final_segment(path) == path {
            assert(seg.len() == init.len());
            assert(seg =~= init);
        }
        if seg == init {
            assert(final_segment(path) =~= path);
        }
        assert forall|i: int| 0 <= i < final_segment(path).len() implies final_segment(path)[i]
            != '/' by {
            if i < seg.len() {
                assert(seg.contains(seg[i]));
            }
        }
    }
}

/// The last segment of `path`.
pub fn final_segment_of(path: &Vec<char>) -> (seg: Vec<char>)
    ensures
        seg@ == final_segment(path@),
{
    let mut seg: Vec<char> = Vec::new();
    let mut i: usize = 0;
    assert(path@.take(0) =~= Seq::<char>::empty());
    while i < path.len()
        invariant
            i <= path.len(),
            seg@ == final_segment(path@.take(i as int)),
        decreases path.len() - i,
    {
        let c = path[i];
        assert(path@.take(i + 1).drop_last() =~= path@.take(i as int));
        assert(path@.take(i + 1).last() == c);
        if c == '/' {
            seg = Vec::new();
        } else {
            seg.push(c);
        }
        i += 1;
    }
    assert(path@.take(path.len() as int) =~= path@);
    seg
}

fn holds_slash(v: &Vec<char>, from: usize) -> (r: bool)
    requires
        from <= v.len(),
    ensures
        r == v@.skip(from as int).contains('/'),
{
    let mut i: usize = from;
    while i < v.len()
        invariant
            from <= i <= v.len(),
            forall|j: int| from <= j < i ==> v@[j] != '/',
        decreases v.len() - i,
    {
        if v[i] == '/' {
            assert(v@.skip(from as int)[i - from] == '/');
            return true;
        }
        i += 1;
    }
    assert forall|j: int| 0 <= j < v@.skip(from as int).len() implies v@.skip(from as int)[j]
        != '/' by {
        assert(v@.skip(from as int)[j] == v@[from + j]);
    }
    false
}

fn is_listed_chars(parent: &Vec<char>, q: &Vec<char>) -> (r: bool)
    ensures
        r == is_listed(parent@, q@),
{
    if crate::text::same_chars(q, parent) {
        return true;
    }
    if parent.len() >= q.len() {
        return false;
    }
    let mut prefix = crate::text::slice_of(parent, 0, parent.len());
    assert(parent@.subrange(0, parent@.len() as int) =~= parent@);
    prefix.push('/');
    starts_with_chars(q, &prefix) && !holds_slash(q, parent.len() + 1)
}

// ---------------------------------------------------------------------------
// The records that the store writes
// ---------------------------------------------------------------------------

/// The record of a file at `path` with the content `content`, written at
/// the time `now`.
pub open spec fn file_entry(path: Seq<char>, content: Seq<u8>, now: i64) -> SessionFileView {
    SessionFileView {
        name: final_segment(path),
        path,
        is_directory: false,
        size: content.len() as u64,
        modified_at: now,
        content: Some(content),
    }
}

/// The record of a directory at `path`, made at the time `now`.
pub open spec fn directory_entry(path: Seq<char>, now: i64) -> SessionFileView {
    SessionFileView {
        name: final_segment(path),
        path,
        is_directory: true,
        size: 0,
        modified_at: now,
        content: None,
    }
}

/// A record as the store writes it under the key `key`: its path is the
/// key, its name the last segment of the path; a directory has no content
/// and the size 0, a file has a content and its length as the size.
pub open spec fn well_kept(key: Seq<char>, f: SessionFileView) -> bool {
    &&& f.path == key
    &&& f.name == final_segment(key)
    &&& f.is_directory ==> f.content is None && f.size == 0
    &&& !f.is_directory ==> f.content is Some && f.size == f.content->0.len()
}

/// Every record of `files` is as the store writes it.
pub open spec fn consistent(files: Map<Seq<char>, SessionFileView>) -> bool {
    forall|k: Seq<char>| #[trigger] files.dom().contains(k) ==> well_kept(k, files[k])
}

/// Whether deleting `path` takes the paths below it along: it does for a
/// directory, and for a path without a slash.
pub open spec fn delete_is_recursive(files: Map<Seq<char>, SessionFileView>, path: Seq<char>) -> bool {
    files[path].is_directory || !path.contains('/')
}

/// The files after `path`, which is among them, has been deleted.
pub open spec fn files_after_delete(files: Map<Seq<char>, SessionFileView>, path: Seq<char>) -> Map<
    Seq<char>,
    SessionFileView,
> {
    if delete_is_recursive(files, path) {
        files.remove(path).remove_keys(Set::new(|k: Seq<char>| below(path).is_prefix_of(k)))
    } else {
        files.remove(path)
    }
}

/// The views of a sequence of records.
pub open spec fn file_views(v: Seq<SessionFile>) -> Seq<SessionFileView> {
    Seq::new(v.len(), |i: int| v[i]@)
}

/// `listing` is what listing `parent` gives on `files`, in some order: the
/// records of the listed paths, each once.
pub open spec fn is_listing_of(
    listing: Seq<SessionFileView>,
    files: Map<Seq<char>, SessionFileView>,
    parent: Seq<char>,
) -> bool {
    &&& forall|i: int|
        0 <= i < listing.len() ==> files.dom().contains((#[trigger] listing[i]).path) && files[listing[i].path]
            == listing[i] && is_listed(parent, listing[i].path)
    &&& forall|i: int, j: int|
        0 <= i < j < listing.len() ==> (#[trigger] listing[i]).path != (#[trigger] listing[j]).path
    &&& forall|k: Seq<char>|
        files.dom().contains(k) && is_listed(parent, k) ==> exists|i: int|
            0 <= i < listing.len() && (#[trigger] listing[i]).path == k
}

// ---------------------------------------------------------------------------
// One session
// ---------------------------------------------------------------------------

/// The live handle to a revealed volume's files.
pub struct VolumeSession {
    session_id: String,
    disk_index: u32,
    partition_number: u32,
    files: TextMap<SessionFile>,
}

/// The mathematical value of a `VolumeSession`.
pub struct VolumeSessionView {
    pub session_id: Seq<char>,
    pub disk_index: u32,
    pub partition_number: u32,
    pub files: Map<Seq<char>, SessionFileView>,
}

impl View for VolumeSession {
    type V = VolumeSessionView;

    closed spec fn view(&self) -> VolumeSessionView {
        VolumeSessionView {
            session_id: self.session_id@,
            disk_index: self.disk_index,
            partition_number: self.partition_number,
            files: self.files@.map_values(|f: SessionFile| f@),
        }
    }
}

impl VolumeSession {
    #[verifier::type_invariant]
    spec fn kept(&self) -> bool {
        consistent(self.files@.map_values(|f: SessionFile| f@))
    }

    /// A session without files, for partition `partition_number` of disk
    /// `disk_index`.
    pub fn new(session_id: String, disk_index: u32, partition_number: u32) -> (s: Self)
        ensures
            s@.session_id == session_id@,
            s@.disk_index == disk_index,
            s@.partition_number == partition_number,
            s@.files == Map::<Seq<char>, SessionFileView>::empty(),
    {
        let s = VolumeSession { session_id, disk_index, partition_number, files: TextMap::new() };
        assert(s@.files =~= Map::<Seq<char>, SessionFileView>::empty());
        s
    }

    /// The session's identifier.
    pub fn session_id(&self) -> (id: &String)
        ensures
            id@ == self@.session_id,
    {
        &self.session_id
    }

    /// The number of the disk that the volume is on.
    pub fn disk_index(&self) -> (d: u32)
        ensures
            d == self@.disk_index,
    {
        self.disk_index
    }

    /// The number of the volume's partition.
    pub fn partition_number(&self) -> (p: u32)
        ensures
            p == self@.partition_number,
    {
        self.partition_number
    }

    /// The records of `parent_path` and of what stands directly below it.
    pub fn list(&self, parent_path: &str) -> (out: Vec<SessionFile>)
        ensures
            is_listing_of(file_views(out@), self@.files, parent_path@),
            consistent(self@.files),
    {
        proof {
            use_type_invariant(self);
        }
        let parent = chars_of(parent_path);
        let mut out: Vec<SessionFile> = Vec::new();
        let n = self.files.len();
        let ghost keys = self.files.keys();
        let ghost values = self.files.values();
        let ghost files = self@.files;
        let mut i: usize = 0;
        while i < n
            invariant
                i <= n,
                n == keys.len(),
                keys == self.files.keys(),
                values == self.files.values(),
                self.files.ordered(),
                files == self@.files,
                consistent(files),
                parent@ == parent_path@,
                forall|a: int|
                    0 <= a < out@.len() ==> files.dom().contains((#[trigger] file_views(out@)[a]).path)
                        && files[file_views(out@)[a].path] == file_views(out@)[a] && is_listed(
                        parent@,
                        file_views(out@)[a].path,
                    ),
                forall|a: int|
                    0 <= a < out@.len() ==> exists|j: int|
                        0 <= j < i && keys[j] == (#[trigger] file_views(out@)[a]).path,
                forall|a: int, b: int|
                    0 <= a < b < out@.len() ==> (#[trigger] file_views(out@)[a]).path != (
                    #[trigger] file_views(out@)[b]).path,
                forall|j: int|
                    0 <= j < i && is_listed(parent@, #[trigger] keys[j]) ==> exists|a: int|
                        0 <= a < out@.len() && (#[trigger] file_views(out@)[a]).path == keys[j],
            decreases n - i,
        {
            let key = chars_of(self.files.key_at(i).as_str());
            let value = self.files.value_at(i);
            proof {
                assert(self.files@.dom().contains(keys[i as int]));
                assert(files.dom().contains(keys[i as int]));
                assert(files[keys[i as int]] == value@);
                assert(well_kept(keys[i as int], value@));
            }
            if is_listed_chars(&parent, &key) {
                let ghost before = file_views(out@);
                out.push(value.duplicate());
                proof {
                    let after = file_views(out@);
                    let last = before.len() as int;
                    assert(forall|a: int| 0 <= a < last ==> after[a] == before[a]);
                    assert(after[last] == value@);
                    assert(after[last].path == keys[i as int]);
                    assert forall|a: int, b: int| 0 <= a < b < after.len() implies (
                    #[trigger] after[a]).path != (#[trigger] after[b]).path by {
                        if b == last {
                            let j = choose|j: int| 0 <= j < i && keys[j] == before[a].path;
                            assert(keys[j] != keys[i as int]);
                        } else {
                            assert(before[a].path != before[b].path);
                        }
                    }
                    assert forall|j: int|
                        0 <= j < i + 1 && is_listed(parent@, #[trigger] keys[j]) implies exists|
                        a: int,
                    |
                        0 <= a < after.len() && (#[trigger] after[a]).path == keys[j] by {
                        if j < i {
                            let a = choose|a: int|
                                0 <= a < before.len() && (#[trigger] before[a]).path == keys[j];
                            assert(after[a].path == keys[j]);
                        } else {
                            assert(after[last].path == keys[j]);
                        }
                    }
                    assert forall|a: int| 0 <= a < after.len() implies exists|j: int|
                        0 <= j < i + 1 && keys[j] == (#[trigger] after[a]).path by {
                        if a < last {
                            let j = choose|j: int| 0 <= j < i && keys[j] == before[a].path;
                            assert(keys[j] == after[a].path);
                        } else {
                            assert(keys[i as int] == after[a].path);
                        }
                    }
                }
            }
            i += 1;
        }
        proof {
            let listing = file_views(out@);
            assert forall|k: Seq<char>|
                files.dom().contains(k) && is_listed(parent_path@, k) implies exists|a: int|
                0 <= a < listing.len() && (#[trigger] listing[a]).path == k by {
                assert(self.files@.dom().contains(k));
                assert(keys.contains(k));
                let j = choose|j: int| 0 <= j < keys.len() && keys[j] == k;
                assert(is_listed(parent@, keys[j]));
            }
        }
        out
    }

    /// The content of the file at `path`. Fails with `FileNotFound` where
    /// the session has no record at `path`, and with `IsDirectory` where the
    /// record is a directory.
    pub fn read(&self, path: &str) -> (r: Result<Vec<u8>, VaultError>)
        ensures
            !self@.files.dom().contains(path@) ==> r is Err && r->Err_0@
                == VaultErrorView::FileNotFound,
            self@.files.dom().contains(path@) && self@.files[path@].is_directory ==> r is Err
                && r->Err_0@ == VaultErrorView::IsDirectory,
            self@.files.dom().contains(path@) && !self@.files[path@].is_directory ==> r is Ok
                && Some(r->Ok_0@) == self@.files[path@].content,
    {
        proof {
            use_type_invariant(self);
        }
        match self.files.get(path) {
            None => Err(VaultError::FileNotFound),
            Some(f) => {
                assert(self@.files.dom().contains(path@));
                assert(self@.files[path@] == f@);
                assert(well_kept(path@, f@));
                if f.is_directory {
                    Err(VaultError::IsDirectory)
                } else {
                    match &f.content {
                        Some(c) => Ok(copy_bytes(c)),
                        None => Ok(Vec::new()),
                    }
                }
            },
        }
    }

    fn put(&mut self, path: &str, file: SessionFile)
        requires
            well_kept(path@, file@),
        ensures
            final(self)@.files == old(self)@.files.insert(path@, file@),
            final(self)@.session_id == old(self)@.session_id,
            final(self)@.disk_index == old(self)@.disk_index,
            final(self)@.partition_number == old(self)@.partition_number,
    {
        proof {
            use_type_invariant(&*self);
        }
        let ghost before = self.files@;
        let mut files: TextMap<SessionFile> = TextMap::new();
        assert(files@.map_values(|f: SessionFile| f@) =~= Map::<
            Seq<char>,
            SessionFileView,
        >::empty());
        std::mem::swap(&mut self.files, &mut files);
        files.insert(path.to_owned(), file);
        assert(files@.map_values(|f: SessionFile| f@) =~= before.map_values(
            |f: SessionFile| f@,
        ).insert(path@, file@));
        self.files = files;
    }

    /// Writes the file at `path`: puts a file record with the content
    /// `content`, written at `now`, in place of whatever the session held
    /// at `path`.
    pub fn write(&mut self, path: &str, content: Vec<u8>, now: i64)
        ensures
            final(self)@.files == old(self)@.files.insert(
                path@,
                file_entry(path@, content@, now),
            ),
            final(self)@.session_id == old(self)@.session_id,
            final(self)@.disk_index == old(self)@.disk_index,
            final(self)@.partition_number == old(self)@.partition_number,
    {
        let name = string_of(&final_segment_of(&chars_of(path)));
        let file = SessionFile {
            name,
            path: path.to_owned(),
            is_directory: false,
            size: content.len() as u64,
            modified_at: now,
            content: Some(content),
        };
        self.put(path, file);
    }

    /// Makes the directory at `path`: puts a directory record, made at
    /// `now`, in place of whatever the session held at `path`.
    pub fn create_directory(&mut self, path: &str, now: i64)
        ensures
            final(self)@.files == old(self)@.files.insert(path@, directory_entry(path@, now)),
            final(self)@.session_id == old(self)@.session_id,
            final(self)@.disk_index == old(self)@.disk_index,
            final(self)@.partition_number == old(self)@.partition_number,
    {
        let name = string_of(&final_segment_of(&chars_of(path)));
        let file = SessionFile {
            name,
            path: path.to_owned(),
            is_directory: true,
            size: 0,
            modified_at: now,
            content: None,
        };
        self.put(path, file);
    }

    /// Deletes the record at `path`, and with a directory, or a path
    /// without a slash, every record below it. Fails with `FileNotFound`,
    /// and changes nothing, where the session has no record at `path`.
    pub fn delete(&mut self, path: &str) -> (r: Result<(), VaultError>)
        ensures
            final(self)@.session_id == old(self)@.session_id,
            final(self)@.disk_index == old(self)@.disk_index,
            final(self)@.partition_number == old(self)@.partition_number,
            old(self)@.files.dom().contains(path@) ==> r is Ok && final(self)@.files
                == files_after_delete(old(self)@.files, path@),
            !old(self)@.files.dom().contains(path@) ==> r is Err && r->Err_0@
                == VaultErrorView::FileNotFound && final(self)@.files == old(self)@.files,
    {
        proof {
            use_type_invariant(&*self);
        }
        let ghost before = self.files@;
        let ghost before_views = self@.files;
        let mut files: TextMap<SessionFile> = TextMap::new();
        assert(files@.map_values(|f: SessionFile| f@) =~= Map::<
            Seq<char>,
            SessionFileView,
        >::empty());
        std::mem::swap(&mut self.files, &mut files);
        let result = match files.remove(path) {
            None => {
                assert(files@ =~= before);
                Err(VaultError::FileNotFound)
            },
            Some(gone) => {
                assert(before_views[path@] == gone@);
                let chars = chars_of(path);
                assert(chars@.skip(0) =~= chars@);
                if gone.is_directory || !holds_slash(&chars, 0) {
                    let mut prefix = chars;
                    prefix.push('/');
                    let prefix_text = string_of(&prefix);
                    files.remove_prefixed(prefix_text.as_str());
                    assert(files@.map_values(|f: SessionFile| f@) =~= files_after_delete(
                        before_views,
                        path@,
                    ));
                } else {
                    assert(files@.map_values(|f: SessionFile| f@) =~= files_after_delete(
                        before_views,
                        path@,
                    ));
                }
                Ok(())
            },
        };
        self.files = files;
        result
    }
}

// ---------------------------------------------------------------------------
// The registry
// ---------------------------------------------------------------------------

/// `session` with the files `files`.
pub open spec fn with_files(
    session: VolumeSessionView,
    files: Map<Seq<char>, SessionFileView>,
) -> VolumeSessionView {
    VolumeSessionView { files, ..session }
}

/// A session without files.
pub open spec fn fresh_session(id: Seq<char>, disk_index: u32, partition_number: u32) -> VolumeSessionView {
    VolumeSessionView { session_id: id, disk_index, partition_number, files: Map::empty() }
}

/// The sessions that are open, by their identifiers.
pub struct SessionRegistry {
    sessions: TextMap<VolumeSession>,
}

impl View for SessionRegistry {
    type V = Map<Seq<char>, VolumeSessionView>;

    closed spec fn view(&self) -> Map<Seq<char>, VolumeSessionView> {
        self.sessions@.map_values(|s: VolumeSession| s@)
    }
}

impl SessionRegistry {
    #[verifier::type_invariant]
    spec fn keyed(&self) -> bool {
        forall|k: Seq<char>| #[trigger]
            self.sessions@.dom().contains(k) ==> self.sessions@[k]@.session_id == k
    }

    /// A registry without sessions.
    pub fn new() -> (r: Self)
        ensures
            r@ == Map::<Seq<char>, VolumeSessionView>::empty(),
    {
        let r = SessionRegistry { sessions: TextMap::new() };
        assert(r@ =~= Map::<Seq<char>, VolumeSessionView>::empty());
        r
    }

    fn take_sessions(&mut self) -> (sessions: TextMap<VolumeSession>)
        ensures
            sessions@.map_values(|s: VolumeSession| s@) == old(self)@,
            forall|k: Seq<char>| #[trigger]
                sessions@.dom().contains(k) ==> sessions@[k]@.session_id == k,
            final(self)@ == Map::<Seq<char>, VolumeSessionView>::empty(),
    {
        proof {
            use_type_invariant(&*self);
        }
        let mut sessions: TextMap<VolumeSession> = TextMap::new();
        std::mem::swap(&mut self.sessions, &mut sessions);
        assert(self@ =~= Map::<Seq<char>, VolumeSessionView>::empty());
        sessions
    }

    /// Whether a session has the identifier `session_id`.
    pub fn contains(&self, session_id: &str) -> (r: bool)
        ensures
            r == self@.dom().contains(session_id@),
    {
        self.sessions.contains_key(session_id)
    }

    /// Whether no session is open.
    pub fn is_empty(&self) -> (r: bool)
        ensures
            r == (self@ == Map::<Seq<char>, VolumeSessionView>::empty()),
    {
        let n = self.sessions.len();
        proof {
            if n == 0 {
                assert forall|k: Seq<char>| !self@.dom().contains(k) by {
                    if self.sessions@.dom().contains(k) {
                        assert(self.sessions.keys().contains(k));
                    }
                }
                assert(self@ =~= Map::<Seq<char>, VolumeSessionView>::empty());
            } else {
                assert(self.sessions@.dom().contains(self.sessions.keys()[0]));
                assert(self@.dom().contains(self.sessions.keys()[0]));
            }
        }
        n == 0
    }

    /// Opens a session without files under `session_id`, in place of a
    /// session that had the identifier before.
    pub fn open(&mut self, session_id: String, disk_index: u32, partition_number: u32)
        ensures
            final(self)@ == old(self)@.insert(
                session_id@,
                fresh_session(session_id@, disk_index, partition_number),
            ),
    {
        let mut sessions = self.take_sessions();
        let ghost before = sessions@;
        let session = VolumeSession::new(session_id.clone(), disk_index, partition_number);
        sessions.insert(session_id, session);
        assert(sessions@.map_values(|s: VolumeSession| s@) =~= before.map_values(
            |s: VolumeSession| s@,
        ).insert(session_id@, fresh_session(session_id@, disk_index, partition_number)));
        self.sessions = sessions;
    }

    /// Closes the session `session_id`: takes it and its files out of the
    /// registry. Says whether there was such a session.
    pub fn close(&mut self, session_id: &str) -> (was_open: bool)
        ensures
            final(self)@ == old(self)@.remove(session_id@),
            was_open == old(self)@.dom().contains(session_id@),
    {
        let mut sessions = self.take_sessions();
        let ghost before = sessions@;
        let gone = sessions.remove(session_id);
        assert(sessions@.map_values(|s: VolumeSession| s@) =~= before.map_values(
            |s: VolumeSession| s@,
        ).remove(session_id@));
        self.sessions = sessions;
        gone.is_some()
    }

    /// The records of `parent_path`, and of what stands directly below it,
    /// in the session `session_id`. Fails with `SessionNotFound` where
    /// there is no such session.
    pub fn list(&self, session_id: &str, parent_path: &str) -> (r: Result<
        Vec<SessionFile>,
        VaultError,
    >)
        ensures
            !self@.dom().contains(session_id@) ==> r is Err && r->Err_0@
                == VaultErrorView::SessionNotFound,
            self@.dom().contains(session_id@) ==> r is Ok && is_listing_of(
                file_views(r->Ok_0@),
                self@[session_id@].files,
                parent_path@,
            ),
    {
        match self.sessions.get(session_id) {
            None => Err(VaultError::SessionNotFound),
            Some(session) => Ok(session.list(parent_path)),
        }
    }

    /// The content of the file at `path` in the session `session_id`. Fails
    /// with `SessionNotFound` where there is no such session, with
    /// `FileNotFound` where the session has no record at `path`, and with
    /// `IsDirectory` where the record is a directory.
    pub fn read(&self, session_id: &str, path: &str) -> (r: Result<Vec<u8>, VaultError>)
        ensures
            match read_outcome(self@, session_id@, path@) {
                Ok(content) => r is Ok && r->Ok_0@ == content,
                Err(e) => r is Err && r->Err_0@ == e,
            },
    {
        match self.sessions.get(session_id) {
            None => Err(VaultError::SessionNotFound),
            Some(session) => session.read(path),
        }
    }

    /// Writes the file at `path` in the session `session_id`, as
    /// `VolumeSession::write` does. Fails with `SessionNotFound`, and
    /// changes nothing, where there is no such session.
    pub fn write(&mut self, session_id: &str, path: &str, content: Vec<u8>, now: i64) -> (r: Result<
        (),
        VaultError,
    >)
        ensures
            !old(self)@.dom().contains(session_id@) ==> r is Err && r->Err_0@
                == VaultErrorView::SessionNotFound && final(self)@ == old(self)@,
            old(self)@.dom().contains(session_id@) ==> r is Ok && final(self)@ == old(
                self,
            )@.insert(
                session_id@,
                with_files(
                    old(self)@[session_id@],
                    old(self)@[session_id@].files.insert(path@, file_entry(path@, content@, now)),
                ),
            ),
    {
        let mut sessions = self.take_sessions();
        let ghost before = sessions@;
        let result = match sessions.remove(session_id) {
            None => {
                assert(sessions@ =~= before);
                Err(VaultError::SessionNotFound)
            },
            Some(session) => {
                let mut session = session;
                let ghost was = session@;
                session.write(path, content, now);
                assert(session@ == with_files(
                    was,
                    was.files.insert(path@, file_entry(path@, content@, now)),
                ));
                sessions.insert(session_id.to_owned(), session);
                assert(sessions@.map_values(|s: VolumeSession| s@) =~= before.map_values(
                    |s: VolumeSession| s@,
                ).insert(session_id@, session@));
                Ok(())
            },
        };
        self.sessions = sessions;
        result
    }

    /// Makes the directory at `path` in the session `session_id`, as
    /// `VolumeSession::create_directory` does. Fails with
    /// `SessionNotFound`, and changes nothing, where there is no such
    /// session.
    pub fn create_directory(&mut self, session_id: &str, path: &str, now: i64) -> (r: Result<
        (),
        VaultError,
    >)
        ensures
            !old(self)@.dom().contains(session_id@) ==> r is Err && r->Err_0@
                == VaultErrorView::SessionNotFound && final(self)@ == old(self)@,
            old(self)@.dom().contains(session_id@) ==> r is Ok && final(self)@ == old(
                self,
            )@.insert(
                session_id@,
                with_files(
                    old(self)@[session_id@],
                    old(self)@[session_id@].files.insert(path@, directory_entry(path@, now)),
                ),
            ),
    {
        let mut sessions = self.take_sessions();
        let ghost before = sessions@;
        let result = match sessions.remove(session_id) {
            None => {
                assert(sessions@ =~= before);
                Err(VaultError::SessionNotFound)
            },
            Some(session) => {
                let mut session = session;
                let ghost was = session@;
                session.create_directory(path, now);
                assert(session@ == with_files(
                    was,
                    was.files.insert(path@, directory_entry(path@, now)),
                ));
                sessions.insert(session_id.to_owned(), session);
                assert(sessions@.map_values(|s: VolumeSession| s@) =~= before.map_values(
                    |s: VolumeSession| s@,
                ).insert(session_id@, session@));
                Ok(())
            },
        };
        self.sessions = sessions;
        result
    }

    /// Deletes the record at `path` in the session `session_id`, as
    /// `VolumeSession::delete` does. Fails with `SessionNotFound` where
    /// there is no such session and with `FileNotFound` where the session
    /// has no record at `path`, and then changes nothing.
    pub fn delete(&mut self, session_id: &str, path: &str) -> (r: Result<(), VaultError>)
        ensures
            !old(self)@.dom().contains(session_id@) ==> r is Err && r->Err_0@
                == VaultErrorView::SessionNotFound && final(self)@ == old(self)@,
            old(self)@.dom().contains(session_id@) && !old(self)@[session_id@].files.dom().contains(
                path@,
            ) ==> r is Err && r->Err_0@ == VaultErrorView::FileNotFound && final(self)@ == old(
                self,
            )@,
            old(self)@.dom().contains(session_id@) && old(self)@[session_id@].files.dom().contains(
                path@,
            ) ==> r is Ok && final(self)@ == old(self)@.insert(
                session_id@,
                with_files(
                    old(self)@[session_id@],
                    files_after_delete(old(self)@[session_id@].files, path@),
                ),
            ),
    {
        let mut sessions = self.take_sessions();
        let ghost before = sessions@;
        let result = match sessions.remove(session_id) {
            None => {
                assert(sessions@ =~= before);
                Err(VaultError::SessionNotFound)
            },
            Some(session) => {
                let mut session = session;
                let ghost was = session@;
                let outcome = session.delete(path);
                proof {
                    if was.files.dom().contains(path@) {
                        assert(session@ == with_files(was, files_after_delete(was.files, path@)));
                    } else {
                        assert(session@ == was);
                    }
                }
                sessions.insert(session_id.to_owned(), session);
                assert(sessions@.map_values(|s: VolumeSession| s@) =~= before.map_values(
                    |s: VolumeSession| s@,
                ).insert(session_id@, session@));
                proof {
                    if !was.files.dom().contains(path@) {
                        assert(before.map_values(|s: VolumeSession| s@).insert(session_id@, was)
                            =~= before.map_values(|s: VolumeSession| s@));
                    }
                }
                outcome
            },
        };
        self.sessions = sessions;
        result
    }
}

/// What reading `path` in the session `session_id` gives.
pub open spec fn read_outcome(
    sessions: Map<Seq<char>, VolumeSessionView>,
    session_id: Seq<char>,
    path: Seq<char>,
) -> Result<Seq<u8>, VaultErrorView> {
    if !sessions.dom().contains(session_id) {
        Err(VaultErrorView::SessionNotFound)
    } else if !sessions[session_id].files.dom().contains(path) {
        Err(VaultErrorView::FileNotFound)
    } else if sessions[session_id].files[path].is_directory {
        Err(VaultErrorView::IsDirectory)
    } else {
        Ok(sessions[session_id].files[path].content->0)
    }
}

// ---------------------------------------------------------------------------
// Consequences
// ---------------------------------------------------------------------------

/// Writing and deleting keep every record as the store writes it.
pub proof fn lemma_consistent_is_kept(
    files: Map<Seq<char>, SessionFileView>,
    path: Seq<char>,
    content: Seq<u8>,
    now: i64,
)
    requires
        consistent(files),
        content.len() <= u64::MAX,
    ensures
        consistent(files.insert(path, file_entry(path, content, now))),
        consistent(files.insert(path, directory_entry(path, now))),
        files.dom().contains(path) ==> consistent(files_after_delete(files, path)),
{
}

/// A file that is written and whose parent directory is then deleted is
/// gone: a directory takes everything below it along, so that after the
/// deletion the file is no longer among the session's files, and no listing
/// shows it.
pub proof fn lemma_delete_parent_removes_file(
    files: Map<Seq<char>, SessionFileView>,
    directory: Seq<char>,
    path: Seq<char>,
    content: Seq<u8>,
    now: i64,
    parent: Seq<char>,
    listing: Seq<SessionFileView>,
)
    requires
        below(directory).is_prefix_of(path),
        files.insert(path, file_entry(path, content, now)).dom().contains(directory),
        files.insert(path, file_entry(path, content, now))[directory].is_directory,
        is_listing_of(
            listing,
            files_after_delete(files.insert(path, file_entry(path, content, now)), directory),
            parent,
        ),
    ensures
        !files_after_delete(
            files.insert(path, file_entry(path, content, now)),
            directory,
        ).dom().contains(path),
        forall|i: int| 0 <= i < listing.len() ==> (#[trigger] listing[i]).path != path,
{
    let written = files.insert(path, file_entry(path, content, now));
    let after = files_after_delete(written, directory);
    assert(Set::new(|k: Seq<char>| below(directory).is_prefix_of(k)).contains(path));
    assert(!after.dom().contains(path));
    assert forall|i: int| 0 <= i < listing.len() implies (#[trigger] listing[i]).path != path by {
        assert(after.dom().contains(listing[i].path));
    }
}

/// Deleting a file that is no directory leaves its siblings alone: a record
/// with the same parent part stays, unchanged.
pub proof fn lemma_delete_file_keeps_siblings(
    files: Map<Seq<char>, SessionFileView>,
    path: Seq<char>,
    sibling: Seq<char>,
)
    requires
        files.dom().contains(path),
        !files[path].is_directory,
        files.dom().contains(sibling),
        sibling != path,
        parent_part(sibling) == parent_part(path),
    ensures
        files_after_delete(files, path).dom().contains(sibling),
        files_after_delete(files, path)[sibling] == files[sibling],
{
    if delete_is_recursive(files, path) {
        lemma_final_segment(path);
        lemma_final_segment(sibling);
        assert(!path.contains('/'));
        assert(final_segment(path) == path);
        assert(parent_part(path).len() == 0);
        assert(parent_part(sibling).len() == 0);
        assert(final_segment(sibling).len() == sibling.len());
        assert(sibling.skip(0) =~= sibling);
        assert(!sibling.contains('/'));
        if below(path).is_prefix_of(sibling) {
            assert(sibling[path.len() as int] == below(path)[path.len() as int]);
            assert(sibling.contains('/'));
        }
    }
}

/// Writing to the same path twice is as writing the second time alone: the
/// session holds one record at the path, with the later content, and a
/// listing that shows the path shows it once.
pub proof fn lemma_second_write_wins(
    files: Map<Seq<char>, SessionFileView>,
    path: Seq<char>,
    first: Seq<u8>,
    first_time: i64,
    second: Seq<u8>,
    second_time: i64,
    parent: Seq<char>,
    listing: Seq<SessionFileView>,
)
    requires
        is_listed(parent, path),
        is_listing_of(
            listing,
            files.insert(path, file_entry(path, first, first_time)).insert(
                path,
                file_entry(path, second, second_time),
            ),
            parent,
        ),
    ensures
        files.insert(path, file_entry(path, first, first_time)).insert(
            path,
            file_entry(path, second, second_time),
        ) == files.insert(path, file_entry(path, second, second_time)),
        exists|i: int|
            0 <= i < listing.len() && (#[trigger] listing[i]).path == path && listing[i].content
                == Some(second) && forall|j: int|
                0 <= j < listing.len() && j != i ==> (#[trigger] listing[j]).path != path,
{
    let twice = files.insert(path, file_entry(path, first, first_time)).insert(
        path,
        file_entry(path, second, second_time),
    );
    assert(twice =~= files.insert(path, file_entry(path, second, second_time)));
    assert(twice.dom().contains(path));
    let i = choose|i: int| 0 <= i < listing.len() && (#[trigger] listing[i]).path == path;
    assert(twice[listing[i].path] == listing[i]);
    assert forall|j: int| 0 <= j < listing.len() && j != i implies (#[trigger] listing[j]).path
        != path by {
        if j < i {
            assert(listing[j].path != listing[i].path);
        } else {
            assert(listing[i].path != listing[j].path);
        }
    }
}

/// On a session without files every listing is empty.
pub proof fn lemma_fresh_session_lists_nothing(parent: Seq<char>, listing: Seq<SessionFileView>)
    requires
        is_listing_of(listing, Map::<Seq<char>, SessionFileView>::empty(), parent),
    ensures
        listing.len() == 0,
{
    if listing.len() > 0 {
        assert(Map::<Seq<char>, SessionFileView>::empty().dom().contains(listing[0].path));
    }
}

} // verus!
