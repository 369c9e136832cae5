//! What the SFTP verbs compute: entries from the attributes a server
//! reports, and sorted directory listings.

use vstd::prelude::*;
use vstd::string::StringExecFns;
use vstd::seq_lib::to_multiset_insert;
use crate::order::{
    insertion_point, key_le, keys_sorted, lemma_insert_keeps_sorted, lex_le, lowercase, text_le,
    SortKey,
};
use crate::path::{
    get_parent_path, join_path, joined, last_segment, last_segment_of, parent_of,
};
use crate::permissions::{format_permissions, permission_text};
use crate::text::{chars_of, text_of};

verus! {

/// The type of a remote file, as the format bits of its mode tell it.
#[derive(Debug, Clone, Copy, PartialEq, Eq, Structural)]
pub enum FileKind {
    NamedPipe,
    CharDevice,
    BlockDevice,
    Directory,
    RegularFile,
    Symlink,
    Socket,
    Other,
}

/// The attributes a server reports for a file; it may leave any of them out.
#[derive(Debug, Clone, Copy, PartialEq, Eq)]
pub struct FileAttrs {
    pub size: Option<u64>,
    pub uid: Option<u32>,
    pub gid: Option<u32>,
    pub perm: Option<u32>,
    pub atime: Option<u64>,
    pub mtime: Option<u64>,
}

/// One line of a server's answer to a directory read: the path of the
/// entry and its attributes.
#[derive(Debug, Clone, PartialEq, Eq)]
pub struct RemoteEntry {
    pub path: String,
    pub attrs: FileAttrs,
}

/// A file or directory as shown to the user.
#[derive(Debug, Clone, PartialEq, Eq)]
pub struct FileEntry {
    pub name: String,
    pub path: String,
    pub is_dir: bool,
    pub is_symlink: bool,
    pub size: u64,
    pub permissions: String,
    pub modified: Option<i64>,
}

/// The contents of a directory, ready for display.
#[derive(Debug, Clone, PartialEq, Eq)]
pub struct ListDirResult {
    pub current_path: String,
    pub parent_path: Option<String>,
    pub entries: Vec<FileEntry>,
}

/// A `RemoteEntry` with its path as characters.
pub struct RemoteEntryView {
    pub path: Seq<char>,
    pub attrs: FileAttrs,
}

/// A `FileEntry` with its texts as characters.
pub struct FileEntryView {
    pub name: Seq<char>,
    pub path: Seq<char>,
    pub is_dir: bool,
    pub is_symlink: bool,
    pub size: u64,
    pub permissions: Seq<char>,
    pub modified: Option<i64>,
}

/// A `ListDirResult` with its texts as characters.
pub struct ListDirView {
    pub current_path: Seq<char>,
    pub parent_path: Option<Seq<char>>,
    pub entries: Seq<FileEntryView>,
}

impl View for RemoteEntry {
    type V = RemoteEntryView;

    open spec fn view(&self) -> RemoteEntryView {
        RemoteEntryView { path: self.path@, attrs: self.attrs }
    }
}

impl View for FileEntry {
    type V = FileEntryView;

    open spec fn view(&self) -> FileEntryView {
        FileEntryView {
            name: self.name@,
            path: self.path@,
            is_dir: self.is_dir,
            is_symlink: self.is_symlink,
            size: self.size,
            permissions: self.permissions@,
            modified: self.modified,
        }
    }
}

impl View for ListDirResult {
    type V = ListDirView;

    open spec fn view(&self) -> ListDirView {
        ListDirView {
            current_path: self.current_path@,
            parent_path: text_of(self.parent_path),
            entries: entry_views(self.entries@),
        }
    }
}

/// The views of a sequence of entries.
pub open spec fn entry_views(v: Seq<FileEntry>) -> Seq<FileEntryView> {
    Seq::new(v.len(), |i: int| v[i]@)
}

/// The views of a sequence of remote entries.
pub open spec fn remote_views(v: Seq<RemoteEntry>) -> Seq<RemoteEntryView> {
    Seq::new(v.len(), |i: int| v[i]@)
}

/// The format bits of a mode; a mode that was not reported counts as 0.
pub open spec fn format_bits(perm: Option<u32>) -> u32 {
    (match perm {
        Some(p) => p,
        None => 0u32,
    }) & 0o170000
}

/// The file type that the format bits of a mode stand for.
pub open spec fn kind_of(perm: Option<u32>) -> FileKind {
    let f = format_bits(perm);
    if f == 0o010000 {
        FileKind::NamedPipe
    } else if f == 0o020000 {
        FileKind::CharDevice
    } else if f == 0o040000 {
        FileKind::Directory
    } else if f == 0o060000 {
        FileKind::BlockDevice
    } else if f == 0o100000 {
        FileKind::RegularFile
    } else if f == 0o120000 {
        FileKind::Symlink
    } else if f == 0o140000 {
        FileKind::Socket
    } else {
        FileKind::Other
    }
}

/// A modification time as signed seconds: the same 64 bits read as a
/// two's-complement number.
pub open spec fn seconds_of(t: u64) -> i64 {
    if t <= 0x7fff_ffff_ffff_ffff {
        t as i64
    } else {
        (t - 0x1_0000_0000_0000_0000) as i64
    }
}

/// The text shown for permissions when the server reported no mode.
pub open spec fn no_permissions() -> Seq<char> {
    Seq::new(9, |i: int| '-')
}

/// The entry shown for a file called `name` at `path` with the attributes
/// `attrs`: size 0 when none was reported, nine dashes when no mode was.
pub open spec fn entry_of(name: Seq<char>, path: Seq<char>, attrs: FileAttrs) -> FileEntryView {
    FileEntryView {
        name,
        path,
        is_dir: kind_of(attrs.perm) == FileKind::Directory,
        is_symlink: kind_of(attrs.perm) == FileKind::Symlink,
        size: match attrs.size {
            Some(n) => n,
            None => 0,
        },
        permissions: match attrs.perm {
            Some(p) => permission_text(p),
            None => no_permissions(),
        },
        modified: match attrs.mtime {
            Some(t) => Some(seconds_of(t)),
            None => None,
        },
    }
}

/// The entry that a stat of `path` shows: named after the last segment of
/// `path`, or after `path` itself where it has none, with `path` unchanged.
pub open spec fn stat_entry_of(path: Seq<char>, attrs: FileAttrs) -> FileEntryView {
    entry_of(
        match last_segment_of(path) {
            Some(n) => n,
            None => path,
        },
        path,
        attrs,
    )
}

/// What decides the place of `e` in a listing.
pub open spec fn key_of(e: FileEntryView) -> SortKey {
    SortKey { is_dir: e.is_dir, folded: lowercase(e.name) }
}

/// The keys of a sequence of entries.
pub open spec fn keys_of(s: Seq<FileEntryView>) -> Seq<SortKey> {
    Seq::new(s.len(), |i: int| key_of(s[i]))
}

/// `sorted` with `e` put behind the last entry that may stand before it.
pub open spec fn placed(sorted: Seq<FileEntryView>, e: FileEntryView) -> Seq<FileEntryView> {
    sorted.insert(insertion_point(keys_of(sorted), key_of(e)), e)
}

/// The entries of `s` in listing order; entries with equal keys keep the
/// order they had in `s`.
pub open spec fn sort_entries(s: Seq<FileEntryView>) -> Seq<FileEntryView>
    decreases s.len(),
{
    if s.len() == 0 {
        Seq::empty()
    } else {
        placed(sort_entries(s.drop_last()), s.last())
    }
}

/// The entries of a directory at `canonical` in the order the server gave
/// them. An answer whose path has no last segment yields no entry.
pub open spec fn listed(canonical: Seq<char>, raw: Seq<RemoteEntryView>) -> Seq<FileEntryView>
    decreases raw.len(),
{
    if raw.len() == 0 {
        Seq::empty()
    } else {
        let rest = listed(canonical, raw.drop_last());
        match last_segment_of(raw.last().path) {
            Some(name) => rest.push(entry_of(name, joined(canonical, name), raw.last().attrs)),
            None => rest,
        }
    }
}

/// The listing of the directory at `canonical` from the server's answer
/// `raw`: its entries sorted, and its parent.
pub open spec fn listing_of(canonical: Seq<char>, raw: Seq<RemoteEntryView>) -> ListDirView {
    ListDirView {
        current_path: canonical,
        parent_path: parent_of(canonical),
        entries: sort_entries(listed(canonical, raw)),
    }
}

/// `a` may stand before `b`: if `b` is a directory so is `a`, and if both
/// or neither are, the name of `a` is at most that of `b` without regard to
/// case.
pub open spec fn may_precede(a: FileEntryView, b: FileEntryView) -> bool {
    &&& b.is_dir ==> a.is_dir
    &&& a.is_dir == b.is_dir ==> lex_le(lowercase(a.name), lowercase(b.name))
}

/// Directories stand before everything else, and within each of the two
/// groups the names ascend without regard to case.
pub open spec fn in_listing_order(s: Seq<FileEntryView>) -> bool {
    forall|i: int, j: int| 0 <= i < j < s.len() ==> may_precede(#[trigger] s[i], #[trigger] s[j])
}

/// Sorting keeps every entry, as often as it occurred, and yields a
/// sequence in listing order.
pub proof fn lemma_sort_entries(s: Seq<FileEntryView>)
    ensures
        sort_entries(s).len() == s.len(),
        sort_entries(s).to_multiset() == s.to_multiset(),
        in_listing_order(sort_entries(s)),
    decreases s.len(),
{
    if s.len() == 0 {
        assert(s =~= Seq::empty());
    } else {
        let rest = sort_entries(s.drop_last());
        let e = s.last();
        let p = insertion_point(keys_of(rest), key_of(e));
        lemma_sort_entries(s.drop_last());
        crate::order::lemma_insertion_point(keys_of(rest), key_of(e));
        to_multiset_insert(rest, p, e);
        assert(s =~= s.drop_last().push(e));
        vstd::seq_lib::to_multiset_build(s.drop_last(), e);
        assert(keys_sorted(keys_of(rest))) by {
            assert forall|i: int, j: int| 0 <= i < j < rest.len() implies key_le(
                keys_of(rest)[i],
                keys_of(rest)[j],
            ) by {
                assert(may_precede(rest[i], rest[j]));
            }
        }
        lemma_insert_keeps_sorted(keys_of(rest), key_of(e));
        let out = rest.insert(p, e);
        assert(keys_of(out) =~= keys_of(rest).insert(p, key_of(e)));
        assert forall|i: int, j: int| 0 <= i < j < out.len() implies may_precede(
            #[trigger] out[i],
            #[trigger] out[j],
        ) by {
            assert(key_le(keys_of(out)[i], keys_of(out)[j]));
        }
    }
}

/// The entries of every listing are in listing order, and they are the
/// entries that the server's answer yields, each as often as it yields it.
pub proof fn lemma_listing_sorted(canonical: Seq<char>, raw: Seq<RemoteEntryView>)
    ensures
        in_listing_order(listing_of(canonical, raw).entries),
        listing_of(canonical, raw).entries.to_multiset() == listed(canonical, raw).to_multiset(),
{
    lemma_sort_entries(listed(canonical, raw));
}

/// Whether `e` is an entry inside the directory at `canonical`: its name is
/// not empty and holds no slash, its path is the name joined to the
/// directory, and the name is the last segment of the path.
pub open spec fn is_entry_in(canonical: Seq<char>, e: FileEntryView) -> bool {
    &&& e.name.len() > 0
    &&& forall|j: int| 0 <= j < e.name.len() ==> e.name[j] != '/'
    &&& e.path == joined(canonical, e.name)
    &&& last_segment_of(e.path) == Some(e.name)
}

/// Every entry that a server's answer yields is an entry inside the
/// directory listed.
proof fn lemma_listed_entries(canonical: Seq<char>, raw: Seq<RemoteEntryView>)
    ensures
        forall|i: int|
            0 <= i < listed(canonical, raw).len() ==> is_entry_in(
                canonical,
                #[trigger] listed(canonical, raw)[i],
            ),
    decreases raw.len(),
{
    if raw.len() > 0 {
        let rest = listed(canonical, raw.drop_last());
        let all = listed(canonical, raw);
        lemma_listed_entries(canonical, raw.drop_last());
        match last_segment_of(raw.last().path) {
            Some(name) => {
                crate::path::lemma_last_segment_is_a_name(raw.last().path);
                crate::path::lemma_last_segment_of_joined(canonical, name);
                assert forall|i: int| 0 <= i < all.len() implies is_entry_in(
                    canonical,
                    #[trigger] all[i],
                ) by {
                    if i < rest.len() {
                        assert(all[i] == rest[i]);
                    }
                }
            },
            None => {},
        }
    }
}

/// Every entry of a listing is an entry inside the directory listed: its
/// path ends in its name.
pub proof fn lemma_listing_entries(canonical: Seq<char>, raw: Seq<RemoteEntryView>, i: int)
    requires
        0 <= i < listing_of(canonical, raw).entries.len(),
    ensures
        is_entry_in(canonical, listing_of(canonical, raw).entries[i]),
{
    let all = listed(canonical, raw);
    let sorted = sort_entries(all);
    lemma_sort_entries(all);
    lemma_listed_entries(canonical, raw);
    vstd::seq_lib::to_multiset_contains(sorted, sorted[i]);
    vstd::seq_lib::to_multiset_contains(all, sorted[i]);
    assert(sorted.contains(sorted[i]));
    let j = choose|j: int| 0 <= j < all.len() && all[j] == sorted[i];
    assert(is_entry_in(canonical, all[j]));
}

/// `ssh2::FileStat::is_dir` says whether the format bits of the mode are
/// those of a directory; a stat without a mode is none.
#[verifier::external_body]
fn stat_is_dir(attrs: &FileAttrs) -> (b: bool)
    ensures
        b == (kind_of(attrs.perm) == FileKind::Directory),
{
    let stat = ssh2::FileStat {
        size: attrs.size,
        uid: attrs.uid,
        gid: attrs.gid,
        perm: attrs.perm,
        atime: attrs.atime,
        mtime: attrs.mtime,
    };
    stat.is_dir()
}

/// `ssh2::FileStat::file_type` reads the file type off the format bits of
/// the mode; a stat without a mode has the type of mode 0.
#[verifier::external_body]
fn stat_kind(attrs: &FileAttrs) -> (k: FileKind)
    ensures
        k == kind_of(attrs.perm),
{
    let stat = ssh2::FileStat {
        size: attrs.size, uid: attrs.uid, gid: attrs.gid,
        perm: attrs.perm, atime: attrs.atime, mtime: attrs.mtime,
    };
    match stat.file_type() {
        ssh2::FileType::NamedPipe => FileKind::NamedPipe,
        ssh2::FileType::CharDevice => FileKind::CharDevice,
        ssh2::FileType::BlockDevice => FileKind::BlockDevice,
        ssh2::FileType::Directory => FileKind::Directory,
        ssh2::FileType::RegularFile => FileKind::RegularFile,
        ssh2::FileType::Symlink => FileKind::Symlink,
        ssh2::FileType::Socket => FileKind::Socket,
        ssh2::FileType::Other(_) => FileKind::Other,
    }
}

impl FileAttrs {
    /// The type of the file.
    pub fn kind(&self) -> (k: FileKind)
        ensures
            k == kind_of(self.perm),
    {
        stat_kind(self)
    }

    /// Whether the file is a directory.
    pub fn is_dir(&self) -> (b: bool)
        ensures
            b == (kind_of(self.perm) == FileKind::Directory),
    {
        stat_is_dir(self)
    }

    /// Whether the file is a symbolic link.
    pub fn is_symlink(&self) -> (b: bool)
        ensures
            b == (kind_of(self.perm) == FileKind::Symlink),
    {
        match stat_kind(self) {
            FileKind::Symlink => true,
            _ => false,
        }
    }
}

/// A modification time as signed seconds.
fn seconds(t: u64) -> (s: i64)
    ensures
        s == seconds_of(t),
{
    if t <= 0x7fff_ffff_ffff_ffff {
        t as i64
    } else {
        ((t - 0x8000_0000_0000_0000) as i64) + i64::MIN
    }
}

/// The entry shown for the file `name` at `path` with the attributes
/// `attrs`.
pub fn file_entry(name: String, path: String, attrs: &FileAttrs) -> (e: FileEntry)
    ensures
        e@ == entry_of(name@, path@, *attrs),
{
    let permissions = match attrs.perm {
        Some(p) => format_permissions(p),
        None => {
            proof {
                reveal_strlit("---------");
                assert("---------"@ =~= no_permissions());
            }
            String::from_str("---------")
        },
    };
    FileEntry {
        name,
        path,
        is_dir: attrs.is_dir(),
        is_symlink: attrs.is_symlink(),
        size: match attrs.size {
            Some(n) => n,
            None => 0,
        },
        permissions,
        modified: match attrs.mtime {
            Some(t) => Some(seconds(t)),
            None => None,
        },
    }
}

/// The entry that a stat of `path` shows for the attributes `attrs`.
pub fn stat_entry(path: &str, attrs: &FileAttrs) -> (e: FileEntry)
    ensures
        e@ == stat_entry_of(path@, *attrs),
{
    let name = match last_segment(path) {
        Some(n) => n,
        None => String::from_str(path),
    };
    file_entry(name, String::from_str(path), attrs)
}

/// Where an entry with the given key goes among `entries`, whose folded
/// names are held in `folded`.
fn insertion_index(
    entries: &Vec<FileEntry>,
    folded: &Vec<Vec<char>>,
    is_dir: bool,
    key: &Vec<char>,
) -> (p: usize)
    requires
        folded.len() == entries.len(),
        forall|i: int| 0 <= i < entries.len() ==> folded[i]@ == lowercase(entries[i].name@),
    ensures
        p <= entries.len(),
        p == insertion_point(
            keys_of(entry_views(entries@)),
            SortKey { is_dir, folded: key@ },
        ),
{
    let ghost keys = keys_of(entry_views(entries@));
    let ghost k = SortKey { is_dir, folded: key@ };
    let mut p: usize = entries.len();
    assert(keys.subrange(0, p as int) =~= keys);
    while p > 0
        invariant
            p <= entries.len(),
            folded.len() == entries.len(),
            forall|i: int| 0 <= i < entries.len() ==> folded[i]@ == lowercase(entries[i].name@),
            keys == keys_of(entry_views(entries@)),
            k == (SortKey { is_dir, folded: key@ }),
            insertion_point(keys, k) == insertion_point(keys.subrange(0, p as int), k),
        decreases p,
    {
        let prev_dir = entries[p - 1].is_dir;
        let before = if prev_dir != is_dir {
            prev_dir
        } else {
            text_le(&folded[p - 1], key)
        };
        assert(keys.subrange(0, p as int).last() == key_of(entries[p - 1]@));
        if before {
            return p;
        }
        assert(keys.subrange(0, p as int).drop_last() =~= keys.subrange(0, p - 1));
        p = p - 1;
    }
    0
}

/// The listing of the directory at `canonical` from the server's answer
/// `raw`.
pub fn build_listing(canonical: &str, raw: &Vec<RemoteEntry>) -> (r: ListDirResult)
    ensures
        r@ == listing_of(canonical@, remote_views(raw@)),
{
    let mut entries: Vec<FileEntry> = Vec::new();
    let mut folded: Vec<Vec<char>> = Vec::new();
    let ghost all = remote_views(raw@);
    let mut i: usize = 0;
    assert(all.subrange(0, 0) =~= Seq::<RemoteEntryView>::empty());
    assert(entry_views(entries@) =~= Seq::<FileEntryView>::empty());
    while i < raw.len()
        invariant
            i <= raw.len(),
            all == remote_views(raw@),
            folded.len() == entries.len(),
            forall|j: int| 0 <= j < entries.len() ==> folded[j]@ == lowercase(entries[j].name@),
            entry_views(entries@) == sort_entries(listed(canonical@, all.subrange(0, i as int))),
        decreases raw.len() - i,
    {
        let item = &raw[i];
        assert(all.subrange(0, i + 1).drop_last() =~= all.subrange(0, i as int));
        assert(all.subrange(0, i + 1).last() == item@);
        match last_segment(item.path.as_str()) {
            Some(name) => {
                let path = join_path(canonical, name.as_str());
                let key = chars_of(name.to_lowercase().as_str());
                let entry = file_entry(name, path, &item.attrs);
                let p = insertion_index(&entries, &folded, entry.is_dir, &key);
                let ghost before = entry_views(entries@);
                let ghost ev = entry@;
                let ghost rest = listed(canonical@, all.subrange(0, i as int));
                assert(key_of(ev) == (SortKey { is_dir: entry.is_dir, folded: key@ }));
                entries.insert(p, entry);
                folded.insert(p, key);
                assert(entry_views(entries@) =~= before.insert(p as int, ev));
                assert(listed(canonical@, all.subrange(0, i + 1)) == rest.push(ev));
                assert(rest.push(ev).drop_last() =~= rest);
            },
            None => {},
        }
        i = i + 1;
    }
    assert(all.subrange(0, i as int) =~= all);
    ListDirResult {
        current_path: String::from_str(canonical),
        parent_path: get_parent_path(canonical),
        entries,
    }
}

} // verus!
