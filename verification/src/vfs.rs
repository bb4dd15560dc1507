//! The hybrid virtual-filesystem state: the decision core of a single-file
//! VFS for constrained hosts.
//!
//! Writes to the main database file — recognised by its `.sqlite` name — are
//! additionally handed on by the embedding host to a caller-supplied writer;
//! every other file (write-ahead log, shared memory) stays in memory only.
//! The registration with the embedding engine, the writer itself and the raw
//! callback plumbing are I/O and live with the host; what is verified here is
//! the state the callbacks consult: which names route to the main file, and
//! the byte-exact read/write/truncate behaviour of every held file.

use vstd::prelude::*;
use vstd::string::StrSliceExecFns;

verus! {

/// Whether a file name designates the main database file: it ends with
/// `.sqlite`.
pub open spec fn spec_is_main_sqlite_file(name: Seq<char>) -> bool {
    name.len() >= 7 && name.skip(name.len() - 7) == ".sqlite"@
}

/// Decides whether a file name designates the main database file.
pub fn is_main_sqlite_file(name: &str) -> (r: bool)
    ensures
        r == spec_is_main_sqlite_file(name@),
{
    let suffix = ".sqlite";
    proof {
        reveal_strlit(".sqlite");
    }
    let n = name.unicode_len();
    if n < 7 {
        return false;
    }
    let mut j: usize = 0;
    while j < 7
        invariant
            n == name@.len(),
            n >= 7,
            j <= 7,
            suffix@ == ".sqlite"@,
            suffix@.len() == 7,
            forall|k: int| 0 <= k < j ==> name@[n - 7 + k] == suffix@[k],
        decreases 7 - j,
    {
        if name.get_char(n - 7 + j) != suffix.get_char(j) {
            assert(name@[n - 7 + j as int] != ".sqlite"@[j as int]);
            assert(name@.skip(name@.len() - 7)[j as int] != ".sqlite"@[j as int]);
            return false;
        }
        j = j + 1;
    }
    proof {
        assert(name@.skip(name@.len() - 7) =~= ".sqlite"@);
    }
    true
}

/// Compares two strings for character-for-character equality.
fn str_eq(a: &str, b: &str) -> (r: bool)
    ensures
        r == (a@ == b@),
{
    let alen = a.unicode_len();
    let blen = b.unicode_len();
    if alen != blen {
        return false;
    }
    let mut i: usize = 0;
    while i < alen
        invariant
            alen == a@.len(),
            blen == b@.len(),
            alen == blen,
            i <= alen,
            forall|j: int| 0 <= j < i ==> a@[j] == b@[j],
        decreases alen - i,
    {
        if a.get_char(i) != b.get_char(i) {
            return false;
        }
        i = i + 1;
    }
    proof {
        assert(a@ =~= b@);
    }
    true
}

/// The bytes a file holds after writing `buf` at `offset`: the file grows as
/// needed, any gap between the old end and the write is zero-filled, and
/// bytes outside the written range keep their value.
pub open spec fn spec_file_write(data: Seq<u8>, buf: Seq<u8>, offset: int) -> Seq<u8> {
    Seq::new(
        if data.len() >= offset + buf.len() {
            data.len()
        } else {
            (offset + buf.len()) as nat
        },
        |k: int|
            if offset <= k < offset + buf.len() {
                buf[k - offset]
            } else if k < data.len() {
                data[k]
            } else {
                0u8
            },
    )
}

/// An in-memory file: a growable byte buffer.
#[derive(Debug)]
pub struct MemFile {
    data: Vec<u8>,
}

impl View for MemFile {
    type V = Seq<u8>;

    closed spec fn view(&self) -> Seq<u8> {
        self.data@
    }
}

impl Default for MemFile {
    /// Creates an empty file.
    fn default() -> (r: MemFile)
        ensures
            r@ == Seq::<u8>::empty(),
    {
        MemFile { data: Vec::new() }
    }
}

impl MemFile {
    /// Fills `buf` from the file starting at `offset`, padding with zeros
    /// past the end of the file. Returns whether the whole of `buf` came from
    /// file contents (reading at or past the end is never complete, even for
    /// an empty buffer).
    pub fn read(&self, buf: &mut Vec<u8>, offset: usize) -> (complete: bool)
        ensures
            final(buf)@.len() == old(buf)@.len(),
            forall|k: int|
                0 <= k < old(buf)@.len() ==> final(buf)@[k] == (if offset + k < self@.len() {
                    self@[offset + k]
                } else {
                    0u8
                }),
            complete == (offset < self@.len() && offset + old(buf)@.len() <= self@.len()),
    {
        let n = buf.len();
        let mut out: Vec<u8> = Vec::new();
        let mut k: usize = 0;
        while k < n
            invariant
                out@.len() == k,
            k <= n,
            forall|j: int|
                0 <= j < k ==> out@[j] == (if offset + j < self.data@.len() {
                    self.data@[offset + j]
                } else {
                    0u8
                }),
            decreases n - k,
        {
            let v: u8 = if offset < self.data.len() && k < self.data.len() - offset {
                self.data[offset + k]
            } else {
                0
            };
            out.push(v);
            k = k + 1;
        }
        let complete = offset < self.data.len() && n <= self.data.len() - offset;
        *buf = out;
        complete
    }

    /// Writes `buf` at `offset`, growing the file and zero-filling any gap.
    pub fn write(&mut self, buf: &Vec<u8>, offset: usize)
        requires
            offset + buf@.len() <= usize::MAX,
        ensures
            final(self)@ == spec_file_write(old(self)@, buf@, offset as int),
    {
        let end = offset + buf.len();
        let newlen = if self.data.len() >= end {
            self.data.len()
        } else {
            end
        };
        let mut out: Vec<u8> = Vec::new();
        let mut k: usize = 0;
        while k < newlen
            invariant
                out@.len() == k,
                k <= newlen,
                end == offset + buf@.len(),
                newlen == spec_file_write(self.data@, buf@, offset as int).len(),
                forall|j: int|
                    0 <= j < k ==> out@[j] == spec_file_write(self.data@, buf@, offset as int)[j],
            decreases newlen - k,
        {
            let v: u8 = if offset <= k && k < end {
                buf[k - offset]
            } else if k < self.data.len() {
                self.data[k]
            } else {
                0
            };
            out.push(v);
            k = k + 1;
        }
        self.data = out;
        proof {
            assert(self.data@ =~= spec_file_write(old(self)@, buf@, offset as int));
        }
    }

    /// Shortens the file to `size` bytes; a larger `size` leaves it unchanged.
    pub fn truncate(&mut self, size: usize)
        ensures
            final(self)@ == if size <= old(self)@.len() {
                old(self)@.take(size as int)
            } else {
                old(self)@
            },
    {
        self.data.truncate(size);
    }

    /// How many bytes the file holds.
    pub fn size(&self) -> (r: usize)
        ensures
            r == self@.len(),
    {
        self.data.len()
    }
}

/// A file held by the hybrid VFS: the main database file, whose writes the
/// host also forwards to its writer, or an in-memory-only file.
#[derive(Debug)]
pub enum HybridFile {
    Main(MemFile),
    Mem(MemFile),
}

impl View for HybridFile {
    type V = Seq<u8>;

    closed spec fn view(&self) -> Seq<u8> {
        match self {
            HybridFile::Main(f) => f@,
            HybridFile::Mem(f) => f@,
        }
    }
}

/// One file of the VFS state, as the contracts see it: whether the name
/// routed it to the main file, and its bytes.
pub struct FileModel {
    pub main: bool,
    pub data: Seq<u8>,
}

/// Builder for the hybrid virtual filesystem. In the embedding host the
/// builder also carries the writer that receives main-file bytes; the writer
/// is I/O and stays with the host, which forwards each buffer passed to
/// `write` on a main file.
#[derive(Debug)]
pub struct HybridVfsBuilder {
    _private: (),
}

/// A registered hybrid VFS: its name, and the files it holds, keyed by name.
#[derive(Debug)]
pub struct HybridVfsHandle {
    vfs_name: String,
    files: Vec<NamedFile>,
}

#[derive(Debug)]
struct NamedFile {
    name: String,
    file: HybridFile,
}

spec fn file_model(f: HybridFile) -> FileModel {
    FileModel { main: f is Main, data: f@ }
}

spec fn name_map(files: Seq<NamedFile>) -> Map<Seq<char>, FileModel>
    decreases files.len(),
{
    if files.len() == 0 {
        Map::empty()
    } else {
        name_map(files.drop_last()).insert(files.last().name@, file_model(files.last().file))
    }
}

spec fn unique_names(files: Seq<NamedFile>) -> bool {
    forall|i: int, j: int| 0 <= i < j < files.len() ==> files[i].name@ != files[j].name@
}

proof fn lemma_name_map_contains(files: Seq<NamedFile>, name: Seq<char>)
    ensures
        name_map(files).contains_key(name) <==> exists|k: int|
            0 <= k < files.len() && files[k].name@ == name,
    decreases files.len(),
{
    if files.len() == 0 {
    } else {
        lemma_name_map_contains(files.drop_last(), name);
        if files.last().name@ == name {
            assert(files[files.len() - 1].name@ == name);
        } else {
            if name_map(files).contains_key(name) {
                let k = choose|k: int|
                    0 <= k < files.drop_last().len() && files.drop_last()[k].name@ == name;
                assert(files[k].name@ == name);
            }
            if exists|k: int| 0 <= k < files.len() && files[k].name@ == name {
                let k = choose|k: int| 0 <= k < files.len() && files[k].name@ == name;
                assert(k < files.len() - 1);
                assert(files.drop_last()[k].name@ == name);
            }
        }
    }
}

proof fn lemma_name_map_remove_at(files: Seq<NamedFile>, k: int)
    requires
        unique_names(files),
        0 <= k < files.len(),
    ensures
        name_map(files.remove(k)) =~= name_map(files).remove(files[k].name@),
    decreases files.len(),
{
    files.remove_ensures(k);
    if k == files.len() - 1 {
        assert(files.remove(k) =~= files.drop_last());
        lemma_name_map_contains(files.drop_last(), files[k].name@);
        assert(!name_map(files.drop_last()).contains_key(files[k].name@));
        assert(name_map(files.drop_last()).insert(
            files.last().name@,
            file_model(files.last().file),
        ).remove(files[k].name@) =~= name_map(files.drop_last()));
    } else {
        let shorter = files.drop_last();
        assert(unique_names(shorter));
        lemma_name_map_remove_at(shorter, k);
        assert(files.remove(k).drop_last() =~= shorter.remove(k));
        assert(files.remove(k).last() == files.last());
        assert(files[k].name@ != files.last().name@);
        assert(name_map(files.remove(k)) == name_map(shorter.remove(k)).insert(
            files.last().name@,
            file_model(files.last().file),
        ));
        assert(name_map(shorter).remove(files[k].name@).insert(
            files.last().name@,
            file_model(files.last().file),
        ) =~= name_map(shorter).insert(
            files.last().name@,
            file_model(files.last().file),
        ).remove(files[k].name@));
    }
}

proof fn lemma_unique_names_remove(files: Seq<NamedFile>, k: int)
    requires
        unique_names(files),
        0 <= k < files.len(),
    ensures
        unique_names(files.remove(k)),
{
    files.remove_ensures(k);
    assert forall|i: int, j: int|
        0 <= i < j < files.remove(k).len() implies files.remove(k)[i].name@ != files.remove(
        k,
    )[j].name@ by {
        let oi = if i < k {
            i
        } else {
            i + 1
        };
        let oj = if j < k {
            j
        } else {
            j + 1
        };
        assert(files.remove(k)[i] == files[oi]);
        assert(files.remove(k)[j] == files[oj]);
    }
}

impl HybridVfsBuilder {
    /// Creates a hybrid VFS builder.
    pub fn new() -> HybridVfsBuilder {
        HybridVfsBuilder { _private: () }
    }

    /// Registers the VFS under a name and returns the handle holding its
    /// (initially empty) file state.
    pub fn register(self, vfs_name: &str) -> (r: HybridVfsHandle)
        ensures
            r.wf(),
            r@ == Map::<Seq<char>, FileModel>::empty(),
            r.name() == vfs_name@,
    {
        HybridVfsHandle { vfs_name: vfs_name.to_owned(), files: Vec::new() }
    }
}

impl View for HybridVfsHandle {
    type V = Map<Seq<char>, FileModel>;

    closed spec fn view(&self) -> Map<Seq<char>, FileModel> {
        name_map(self.files@)
    }
}

impl HybridVfsHandle {
    /// The handle holds at most one file per name.
    pub closed spec fn wf(&self) -> bool {
        unique_names(self.files@)
    }

    /// The name the VFS was registered under.
    pub closed spec fn name(&self) -> Seq<char> {
        self.vfs_name@
    }

    /// Returns the name the VFS was registered under.
    pub fn vfs_name(&self) -> (r: &str)
        ensures
            r@ == self.name(),
    {
        self.vfs_name.as_str()
    }

    fn find(&self, name: &str) -> (r: Option<usize>)
        requires
            self.wf(),
        ensures
            match r {
                Some(i) => i < self.files@.len() && self.files@[i as int].name@ == name@
                    && self@.contains_key(name@),
                None => !self@.contains_key(name@),
            },
    {
        let mut i: usize = 0;
        while i < self.files.len()
            invariant
                self.wf(),
                i <= self.files@.len(),
                forall|j: int| 0 <= j < i ==> self.files@[j].name@ != name@,
            decreases self.files@.len() - i,
        {
            if str_eq(self.files[i].name.as_str(), name) {
                proof {
                    lemma_name_map_contains(self.files@, name@);
                }
                return Some(i);
            }
            i = i + 1;
        }
        proof {
            lemma_name_map_contains(self.files@, name@);
        }
        None
    }

    /// Adds a fresh, empty file under a name, replacing any file already held
    /// under it. The name alone decides the routing: a `.sqlite` name becomes
    /// the main file, everything else stays in memory only.
    pub fn add_file(&mut self, name: &str)
        requires
            old(self).wf(),
        ensures
            final(self).wf(),
            final(self).name() == old(self).name(),
            final(self)@ == old(self)@.insert(
                name@,
                FileModel { main: spec_is_main_sqlite_file(name@), data: Seq::<u8>::empty() },
            ),
    {
        self.remove_file_entry(name);
        let file = if is_main_sqlite_file(name) {
            HybridFile::Main(MemFile::default())
        } else {
            HybridFile::Mem(MemFile::default())
        };
        let ghost pre = self.files@;
        proof {
            lemma_name_map_contains(pre, name@);
        }
        self.files.push(NamedFile { name: name.to_owned(), file });
        proof {
            assert(self.files@.drop_last() =~= pre);
            assert(forall|j: int| 0 <= j < pre.len() ==> pre[j].name@ != name@);
            assert(unique_names(self.files@));
            assert(old(self)@.remove(name@).insert(
                name@,
                FileModel { main: spec_is_main_sqlite_file(name@), data: Seq::<u8>::empty() },
            ) =~= old(self)@.insert(
                name@,
                FileModel { main: spec_is_main_sqlite_file(name@), data: Seq::<u8>::empty() },
            ));
        }
    }

    /// Whether a file is held under a name.
    pub fn contains_file(&self, name: &str) -> (r: bool)
        requires
            self.wf(),
        ensures
            r == self@.contains_key(name@),
    {
        match self.find(name) {
            Some(_) => true,
            None => false,
        }
    }

    /// Deletes the file held under a name, saying whether there was one.
    pub fn delete_file(&mut self, name: &str) -> (found: bool)
        requires
            old(self).wf(),
        ensures
            final(self).wf(),
            final(self).name() == old(self).name(),
            found == old(self)@.contains_key(name@),
            final(self)@ == old(self)@.remove(name@),
    {
        let found = self.contains_file(name);
        self.remove_file_entry(name);
        found
    }

    fn remove_file_entry(&mut self, name: &str)
        requires
            old(self).wf(),
        ensures
            final(self).wf(),
            final(self).name() == old(self).name(),
            final(self)@ == old(self)@.remove(name@),
    {
        match self.find(name) {
            Some(i) => {
                proof {
                    lemma_name_map_remove_at(self.files@, i as int);
                    lemma_unique_names_remove(self.files@, i as int);
                }
                self.files.remove(i);
            },
            None => {
                proof {
                    assert(self@.remove(name@) =~= self@);
                }
            },
        }
    }

    /// Fills `buf` from the named file at `offset`, zero-padded past its end;
    /// `None` when no file is held under the name.
    pub fn read(&self, name: &str, buf: &mut Vec<u8>, offset: usize) -> (r: Option<bool>)
        requires
            self.wf(),
        ensures
            match r {
                None => !self@.contains_key(name@) && *final(buf) == *old(buf),
                Some(complete) => {
                    let data = self@[name@].data;
                    &&& self@.contains_key(name@)
                    &&& final(buf)@.len() == old(buf)@.len()
                    &&& forall|k: int|
                        0 <= k < old(buf)@.len() ==> final(buf)@[k] == (if offset + k
                            < data.len() {
                            data[offset + k]
                        } else {
                            0u8
                        })
                    &&& complete == (offset < data.len() && offset + old(buf)@.len()
                        <= data.len())
                },
            },
    {
        match self.find(name) {
            Some(i) => {
                proof {
                    lemma_rows_in_name_map(self.files@, i as int);
                }
                let complete = match &self.files[i].file {
                    HybridFile::Main(f) => f.read(buf, offset),
                    HybridFile::Mem(f) => f.read(buf, offset),
                };
                Some(complete)
            },
            None => None,
        }
    }

    /// Writes `buf` into the named file at `offset`, growing it and
    /// zero-filling any gap; the routing of the name is unchanged. Returns
    /// whether a file was held under the name. On the main file the host also
    /// forwards `buf` to its writer after this call.
    pub fn write(&mut self, name: &str, buf: &Vec<u8>, offset: usize) -> (found: bool)
        requires
            old(self).wf(),
            offset + buf@.len() <= usize::MAX,
        ensures
            final(self).wf(),
            final(self).name() == old(self).name(),
            found == old(self)@.contains_key(name@),
            found ==> final(self)@ == old(self)@.insert(
                name@,
                FileModel {
                    main: old(self)@[name@].main,
                    data: spec_file_write(old(self)@[name@].data, buf@, offset as int),
                },
            ),
            !found ==> final(self)@ == old(self)@,
    {
        match self.find(name) {
            Some(i) => {
                proof {
                    lemma_rows_in_name_map(self.files@, i as int);
                    lemma_name_map_remove_at(self.files@, i as int);
                    lemma_unique_names_remove(self.files@, i as int);
                }
                let mut entry = self.files.remove(i);
                match &mut entry.file {
                    HybridFile::Main(f) => f.write(buf, offset),
                    HybridFile::Mem(f) => f.write(buf, offset),
                }
                let ghost pre = self.files@;
                proof {
                    lemma_name_map_contains(pre, name@);
                }
                self.files.push(entry);
                proof {
                    assert(self.files@.drop_last() =~= pre);
                    assert(unique_names(self.files@));
                    assert(final(self)@ =~= old(self)@.insert(
                        name@,
                        FileModel {
                            main: old(self)@[name@].main,
                            data: spec_file_write(old(self)@[name@].data, buf@, offset as int),
                        },
                    ));
                }
                true
            },
            None => false,
        }
    }

    /// Shortens the named file to `size` bytes; a larger `size` leaves it
    /// unchanged. Returns whether a file was held under the name.
    pub fn truncate(&mut self, name: &str, size: usize) -> (found: bool)
        requires
            old(self).wf(),
        ensures
            final(self).wf(),
            final(self).name() == old(self).name(),
            found == old(self)@.contains_key(name@),
            found ==> final(self)@ == old(self)@.insert(
                name@,
                FileModel {
                    main: old(self)@[name@].main,
                    data: if size <= old(self)@[name@].data.len() {
                        old(self)@[name@].data.take(size as int)
                    } else {
                        old(self)@[name@].data
                    },
                },
            ),
            !found ==> final(self)@ == old(self)@,
    {
        match self.find(name) {
            Some(i) => {
                proof {
                    lemma_rows_in_name_map(self.files@, i as int);
                    lemma_name_map_remove_at(self.files@, i as int);
                    lemma_unique_names_remove(self.files@, i as int);
                }
                let mut entry = self.files.remove(i);
                match &mut entry.file {
                    HybridFile::Main(f) => f.truncate(size),
                    HybridFile::Mem(f) => f.truncate(size),
                }
                let ghost pre = self.files@;
                proof {
                    lemma_name_map_contains(pre, name@);
                }
                self.files.push(entry);
                proof {
                    assert(self.files@.drop_last() =~= pre);
                    assert(unique_names(self.files@));
                    assert(final(self)@ =~= old(self)@.insert(
                        name@,
                        FileModel {
                            main: old(self)@[name@].main,
                            data: if size <= old(self)@[name@].data.len() {
                                old(self)@[name@].data.take(size as int)
                            } else {
                                old(self)@[name@].data
                            },
                        },
                    ));
                }
                true
            },
            None => false,
        }
    }

    /// The size in bytes of the named file, or `None` when no file is held
    /// under the name.
    pub fn size(&self, name: &str) -> (r: Option<usize>)
        requires
            self.wf(),
        ensures
            match r {
                Some(n) => self@.contains_key(name@) && n == self@[name@].data.len(),
                None => !self@.contains_key(name@),
            },
    {
        match self.find(name) {
            Some(i) => {
                proof {
                    lemma_rows_in_name_map(self.files@, i as int);
                }
                let n = match &self.files[i].file {
                    HybridFile::Main(f) => f.size(),
                    HybridFile::Mem(f) => f.size(),
                };
                Some(n)
            },
            None => None,
        }
    }
}

proof fn lemma_rows_in_name_map(files: Seq<NamedFile>, k: int)
    requires
        unique_names(files),
        0 <= k < files.len(),
    ensures
        name_map(files).contains_key(files[k].name@),
        name_map(files)[files[k].name@] == file_model(files[k].file),
    decreases files.len(),
{
    if k == files.len() - 1 {
    } else {
        let shorter = files.drop_last();
        assert(unique_names(shorter));
        assert(shorter[k] == files[k]);
        lemma_rows_in_name_map(shorter, k);
        assert(files[k].name@ != files.last().name@);
    }
}

} // verus!
