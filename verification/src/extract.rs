use vstd::prelude::*;
use vstd::slice::slice_to_vec;
use vstd::string::StringExecFns;
use crate::errors::BinstallError;
use crate::format::PkgFmt;
use crate::codecs::{
    gunzip, gz_decode, io_error_text, tar_list, tar_members, tar_members_view, unxz, unzstd, xz_decode,
    zip_list, zip_members, zip_members_view, zstd_decode, TarMember, TarMemberView, ZipMember,
    ZipMemberView,
};
use crate::paths::{
    all_normal, is_normal, join, lemma_locate_join, lemma_located_is_contained,
    lemma_resolved_is_contained, locate, located, parts_view, resolve, resolve_name, Place,
    PlaceView, SEPARATOR,
};

verus! {

/// What an archive entry is, as far as extraction cares.
#[derive(Clone, Copy, Debug, PartialEq, Eq, Structural)]
pub enum EntryKind {
    /// Bytes to be written to a file.
    File,
    /// A directory to be created.
    Directory,
    /// A symbolic link: a name that stands for the text it holds.
    Symlink,
    /// A hard link: one more name for a file of the same archive.
    HardLink,
    /// Bookkeeping of the archive format that names no file.
    Extension,
}

/// One member of an archive, before its name has been looked at.
#[derive(Debug)]
pub struct ArchiveEntry {
    pub name: Vec<u8>,
    /// Whether the name is read leniently, as tar archives are, or strictly.
    pub lenient: bool,
    pub kind: EntryKind,
    /// The permission bits to give the file or directory, if any.
    pub mode: Option<u32>,
    /// The modification time to give it, in seconds, if any.
    pub mtime: Option<u64>,
    /// What a link links to.
    pub link: Option<Vec<u8>>,
    pub data: Vec<u8>,
}

pub struct ArchiveEntryView {
    pub name: Seq<u8>,
    pub lenient: bool,
    pub kind: EntryKind,
    pub mode: Option<u32>,
    pub mtime: Option<u64>,
    pub link: Option<Seq<u8>>,
    pub data: Seq<u8>,
}

impl View for ArchiveEntry {
    type V = ArchiveEntryView;

    open spec fn view(&self) -> ArchiveEntryView {
        ArchiveEntryView {
            name: self.name@,
            lenient: self.lenient,
            kind: self.kind,
            mode: self.mode,
            mtime: self.mtime,
            link: match self.link {
                Some(link) => Some(link@),
                None => None,
            },
            data: self.data@,
        }
    }
}

/// What an operation puts at its place.
#[derive(Debug, PartialEq, Eq)]
pub enum Content {
    /// A directory.
    Directory,
    /// A file with these bytes.
    File(Vec<u8>),
    /// A symbolic link that holds this text, taken as it is.
    Symlink(Vec<u8>),
    /// One more name for the file at this place below the destination.
    HardLink(Vec<Vec<u8>>),
}

pub enum ContentView {
    Directory,
    File(Seq<u8>),
    Symlink(Seq<u8>),
    HardLink(Seq<Seq<u8>>),
}

impl View for Content {
    type V = ContentView;

    open spec fn view(&self) -> ContentView {
        match self {
            Content::Directory => ContentView::Directory,
            Content::File(data) => ContentView::File(data@),
            Content::Symlink(text) => ContentView::Symlink(text@),
            Content::HardLink(target) => ContentView::HardLink(parts_view(target@)),
        }
    }
}

/// One thing to do below the destination: put `content` at `path`. An empty
/// `path` is the destination itself.
#[derive(Debug, PartialEq, Eq)]
pub struct FileOp {
    /// The components that lead from the destination to the place.
    pub path: Vec<Vec<u8>>,
    pub content: Content,
    /// The permission bits to set, if any.
    pub mode: Option<u32>,
    /// The modification time to set, in seconds, if any.
    pub mtime: Option<u64>,
}

pub struct FileOpView {
    pub path: Seq<Seq<u8>>,
    pub content: ContentView,
    pub mode: Option<u32>,
    pub mtime: Option<u64>,
}

impl View for FileOp {
    type V = FileOpView;

    open spec fn view(&self) -> FileOpView {
        FileOpView {
            path: parts_view(self.path@),
            content: self.content@,
            mode: self.mode,
            mtime: self.mtime,
        }
    }
}

pub open spec fn entries_view(entries: Seq<ArchiveEntry>) -> Seq<ArchiveEntryView> {
    entries.map_values(|e: ArchiveEntry| e@)
}

pub open spec fn ops_view(ops: Seq<FileOp>) -> Seq<FileOpView> {
    ops.map_values(|op: FileOp| op@)
}

/// What extraction does with one entry.
pub enum Placement {
    /// Nothing: the entry names no file, or names the destination itself.
    Skip,
    /// This operation.
    Op(FileOpView),
    /// It refuses the whole archive.
    Reject,
}

/// Whether the way along `path` leads to or through the place `link`.
pub open spec fn through(path: Seq<Seq<u8>>, link: Seq<Seq<u8>>) -> bool {
    link.len() <= path.len() && forall|k: int| 0 <= k < link.len() ==> path[k] == link[k]
}

/// Whether `op` puts a symbolic link on the way along `path`.
pub open spec fn blocks(op: FileOpView, path: Seq<Seq<u8>>) -> bool {
    op.content is Symlink && through(path, op.path)
}

/// Whether the way along `path` leads to or through a symbolic link that
/// one of the operations `made` creates.
pub open spec fn crosses(path: Seq<Seq<u8>>, made: Seq<FileOpView>) -> bool {
    exists|i: int| 0 <= i < made.len() && blocks(#[trigger] made[i], path)
}

/// What an entry puts at its place, after the operations `made`, or `None`
/// where it is refused. A file whose name ends in a separator is a
/// directory. A symbolic link needs a text. A hard link needs a target that
/// resolves to a place below the destination and that no symbolic link made
/// so far stands on the way to.
pub open spec fn content_of(entry: ArchiveEntryView, made: Seq<FileOpView>) -> Option<
    ContentView,
> {
    match entry.kind {
        EntryKind::Directory => Some(ContentView::Directory),
        EntryKind::File => if entry.name.len() > 0 && entry.name.last() == SEPARATOR {
            Some(ContentView::Directory)
        } else {
            Some(ContentView::File(entry.data))
        },
        EntryKind::Symlink => match entry.link {
            Some(text) => if text.len() > 0 {
                Some(ContentView::Symlink(text))
            } else {
                None
            },
            None => None,
        },
        EntryKind::HardLink => match entry.link {
            Some(name) => match resolve(name) {
                Some(target) => if target.len() > 0 && !crosses(target, made) {
                    Some(ContentView::HardLink(target))
                } else {
                    None
                },
                None => None,
            },
            None => None,
        },
        EntryKind::Extension => None,
    }
}

/// The rule for one entry, after the operations `made`. An extension record
/// is skipped. Every other entry is placed where its name is located, in
/// its reading: one that is passed over is skipped, one that is refused
/// refuses the archive, and so does one whose way leads to or through a
/// symbolic link made so far; a name for the destination itself is skipped.
/// A directory gets no modification time.
pub open spec fn place(entry: ArchiveEntryView, made: Seq<FileOpView>) -> Placement {
    if entry.kind == EntryKind::Extension {
        Placement::Skip
    } else {
        match located(entry.name, entry.lenient) {
            PlaceView::Refused => Placement::Reject,
            PlaceView::Nowhere => Placement::Skip,
            PlaceView::At(path) => if path.len() == 0 {
                Placement::Skip
            } else if crosses(path, made) {
                Placement::Reject
            } else {
                match content_of(entry, made) {
                    None => Placement::Reject,
                    Some(content) => Placement::Op(
                        FileOpView {
                            path,
                            content,
                            mode: entry.mode,
                            mtime: if content is Directory {
                                None
                            } else {
                                entry.mtime
                            },
                        },
                    ),
                }
            },
        }
    }
}

/// The operations that extract `entries`, in the order of the entries, or
/// `None` where one of them is refused.
pub open spec fn plan(entries: Seq<ArchiveEntryView>) -> Option<Seq<FileOpView>>
    decreases entries.len(),
{
    if entries.len() == 0 {
        Some(Seq::empty())
    } else {
        match plan(entries.drop_last()) {
            None => None,
            Some(ops) => match place(entries.last(), ops) {
                Placement::Skip => Some(ops),
                Placement::Op(op) => Some(ops.push(op)),
                Placement::Reject => None,
            },
        }
    }
}

fn same_bytes(a: &Vec<u8>, b: &Vec<u8>) -> (same: bool)
    ensures
        same == (a@ == b@),
{
    if a.len() != b.len() {
        return false;
    }
    let mut i: usize = 0;
    while i < a.len()
        invariant
            i <= a.len(),
            a.len() == b.len(),
            forall|k: int| 0 <= k < i ==> a@[k] == b@[k],
        decreases a.len() - i,
    {
        if a[i] != b[i] {
            return false;
        }
        i += 1;
    }
    assert(a@ =~= b@);
    true
}

fn leads_through(path: &Vec<Vec<u8>>, link: &Vec<Vec<u8>>) -> (yes: bool)
    ensures
        yes == through(parts_view(path@), parts_view(link@)),
{
    if link.len() > path.len() {
        return false;
    }
    let mut k: usize = 0;
    while k < link.len()
        invariant
            k <= link.len() <= path.len(),
            forall|j: int| 0 <= j < k ==> parts_view(path@)[j] == parts_view(link@)[j],
        decreases link.len() - k,
    {
        if !same_bytes(&path[k], &link[k]) {
            assert(parts_view(path@)[k as int] != parts_view(link@)[k as int]);
            return false;
        }
        k += 1;
    }
    true
}

fn crosses_link(path: &Vec<Vec<u8>>, made: &Vec<FileOp>) -> (yes: bool)
    ensures
        yes == crosses(parts_view(path@), ops_view(made@)),
{
    let mut i: usize = 0;
    while i < made.len()
        invariant
            i <= made.len(),
            forall|j: int| 0 <= j < i ==> !blocks(#[trigger] ops_view(made@)[j], parts_view(path@)),
        decreases made.len() - i,
    {
        let on_the_way = match &made[i].content {
            Content::Symlink(_) => leads_through(path, &made[i].path),
            _ => false,
        };
        if on_the_way {
            assert(blocks(ops_view(made@)[i as int], parts_view(path@)));
            return true;
        }
        i += 1;
    }
    false
}

fn refused(reason: &str) -> (error: BinstallError)
    ensures
        error matches BinstallError::Decode(_),
{
    BinstallError::Decode(String::from_str(reason))
}

/// Applies the rule for one entry after the operations `made`: `Ok(None)`
/// to skip it, `Ok(Some(..))` with its operation, `Err(..)` to refuse the
/// archive.
pub fn place_entry(entry: ArchiveEntry, made: &Vec<FileOp>) -> (placed: Result<
    Option<FileOp>,
    BinstallError,
>)
    ensures
        match place(entry@, ops_view(made@)) {
            Placement::Skip => placed == Ok::<Option<FileOp>, BinstallError>(None),
            Placement::Op(op) => placed matches Ok(Some(put)) && put@ == op,
            Placement::Reject => placed matches Err(BinstallError::Decode(_)),
        },
{
    if entry.kind == EntryKind::Extension {
        return Ok(None);
    }
    let named_directory = entry.name.len() > 0 && entry.name[entry.name.len() - 1] == SEPARATOR;
    let path = match locate(entry.name.as_slice(), entry.lenient) {
        Place::At(path) => path,
        Place::Nowhere => {
            return Ok(None);
        },
        Place::Refused => {
            return Err(refused("archive entry leaves the destination"));
        },
    };
    if path.len() == 0 {
        return Ok(None);
    }
    if crosses_link(&path, made) {
        return Err(refused("archive entry passes through a link"));
    }
    let content = match entry.kind {
        EntryKind::Directory => Content::Directory,
        EntryKind::File => if named_directory {
            Content::Directory
        } else {
            Content::File(entry.data)
        },
        EntryKind::Symlink => match entry.link {
            Some(text) => if text.len() > 0 {
                Content::Symlink(text)
            } else {
                return Err(refused("symbolic link without a target"));
            },
            None => {
                return Err(refused("symbolic link without a target"));
            },
        },
        EntryKind::HardLink => match entry.link {
            Some(name) => match resolve_name(name.as_slice()) {
                Some(target) => if target.len() > 0 && !crosses_link(&target, made) {
                    Content::HardLink(target)
                } else {
                    return Err(refused("hard link to a place that is not a file of the archive"));
                },
                None => {
                    return Err(refused("hard link that leaves the destination"));
                },
            },
            None => {
                return Err(refused("hard link without a target"));
            },
        },
        EntryKind::Extension => {
            return Ok(None);
        },
    };
    let mtime = match &content {
        Content::Directory => None,
        _ => entry.mtime,
    };
    Ok(Some(FileOp { path, content, mode: entry.mode, mtime }))
}

/// Plans the extraction of `entries`: every operation in entry order, or a
/// decode error as soon as one entry is refused.
pub fn plan_entries(entries: Vec<ArchiveEntry>) -> (planned: Result<Vec<FileOp>, BinstallError>)
    ensures
        match plan(entries_view(entries@)) {
            Some(ops) => planned matches Ok(made) && ops_view(made@) == ops,
            None => planned matches Err(BinstallError::Decode(_)),
        },
{
    let ghost all = entries_view(entries@);
    let mut ops: Vec<FileOp> = Vec::new();
    proof {
        assert(all.take(0) =~= Seq::<ArchiveEntryView>::empty());
        assert(ops_view(ops@) =~= Seq::<FileOpView>::empty());
    }
    for entry in it: entries
        invariant
            all == entries_view(it.seq()),
            plan(all.take(it.index() as int)) == Some(ops_view(ops@)),
    {
        proof {
            let k = it.index() as int;
            assert(all.take(k + 1).drop_last() =~= all.take(k));
            assert(all.take(k + 1).last() == entry@);
        }
        let ghost before = ops@;
        match place_entry(entry, &ops) {
            Ok(None) => {},
            Ok(Some(op)) => {
                ops.push(op);
                proof {
                    assert(ops_view(ops@) =~= ops_view(before).push(op@));
                }
            },
            Err(error) => {
                proof {
                    lemma_plan_stays_refused(all, it.index() as int + 1);
                }
                return Err(error);
            },
        }
    }
    proof {
        assert(all.take(all.len() as int) =~= all);
    }
    Ok(ops)
}

/// Once a front part of the entries is refused, the whole is.
pub proof fn lemma_plan_stays_refused(entries: Seq<ArchiveEntryView>, k: int)
    requires
        0 <= k <= entries.len(),
        plan(entries.take(k)).is_none(),
    ensures
        plan(entries).is_none(),
    decreases entries.len() - k,
{
    if k == entries.len() {
        assert(entries.take(k) =~= entries);
    } else {
        assert(entries.take(k + 1).drop_last() =~= entries.take(k));
        lemma_plan_stays_refused(entries, k + 1);
    }
}

/// Whether `a` comes before `b` in the order of byte strings: byte by byte,
/// a string before every string it begins.
pub open spec fn precedes(a: Seq<u8>, b: Seq<u8>) -> bool
    decreases a.len(),
{
    if b.len() == 0 {
        false
    } else if a.len() == 0 {
        true
    } else if a[0] != b[0] {
        a[0] < b[0]
    } else {
        precedes(a.drop_first(), b.drop_first())
    }
}

/// `sorted` with `entry` put in behind every entry whose name does not come
/// before its own.
pub open spec fn slotted(sorted: Seq<ArchiveEntryView>, entry: ArchiveEntryView) -> Seq<
    ArchiveEntryView,
>
    decreases sorted.len(),
{
    if sorted.len() > 0 && precedes(sorted.last().name, entry.name) {
        slotted(sorted.drop_last(), entry).push(sorted.last())
    } else {
        sorted.push(entry)
    }
}

/// The directories among `entries`, by name from last to first; directories
/// of one name stay in their order.
pub open spec fn deferred(entries: Seq<ArchiveEntryView>) -> Seq<ArchiveEntryView>
    decreases entries.len(),
{
    if entries.len() == 0 {
        Seq::empty()
    } else if entries.last().kind == EntryKind::Directory {
        slotted(deferred(entries.drop_last()), entries.last())
    } else {
        deferred(entries.drop_last())
    }
}

/// The entries that are no directories, in their order.
pub open spec fn direct(entries: Seq<ArchiveEntryView>) -> Seq<ArchiveEntryView>
    decreases entries.len(),
{
    if entries.len() == 0 {
        Seq::empty()
    } else if entries.last().kind == EntryKind::Directory {
        direct(entries.drop_last())
    } else {
        direct(entries.drop_last()).push(entries.last())
    }
}

/// The order in which a tar archive is unpacked: first everything that is
/// no directory, as it comes; then the directories, by name from last to
/// first, so that a directory gets its permissions only after everything
/// below it is in place.
pub open spec fn tar_order(entries: Seq<ArchiveEntryView>) -> Seq<ArchiveEntryView> {
    direct(entries) + deferred(entries)
}

fn comes_before(a: &Vec<u8>, b: &Vec<u8>) -> (before: bool)
    ensures
        before == precedes(a@, b@),
{
    let mut i: usize = 0;
    proof {
        assert(a@.skip(0) =~= a@);
        assert(b@.skip(0) =~= b@);
    }
    while i < a.len() && i < b.len()
        invariant
            i <= a.len(),
            i <= b.len(),
            precedes(a@, b@) == precedes(a@.skip(i as int), b@.skip(i as int)),
        decreases a.len() - i,
    {
        proof {
            assert(a@.skip(i as int)[0] == a@[i as int]);
            assert(b@.skip(i as int)[0] == b@[i as int]);
            assert(a@.skip(i as int).drop_first() =~= a@.skip(i as int + 1));
            assert(b@.skip(i as int).drop_first() =~= b@.skip(i as int + 1));
        }
        if a[i] != b[i] {
            return a[i] < b[i];
        }
        i += 1;
    }
    i < b.len()
}

/// Where `entry` goes in `sorted`: behind the entries from `at` on, whose
/// names all come before its own, and no further.
proof fn lemma_slot(sorted: Seq<ArchiveEntryView>, entry: ArchiveEntryView, at: int)
    requires
        0 <= at <= sorted.len(),
        forall|j: int| at <= j < sorted.len() ==> precedes(#[trigger] sorted[j].name, entry.name),
        at > 0 ==> !precedes(sorted[at - 1].name, entry.name),
    ensures
        slotted(sorted, entry) == sorted.insert(at, entry),
    decreases sorted.len() - at,
{
    if at == sorted.len() {
        assert(sorted.push(entry) =~= sorted.insert(at, entry));
    } else {
        let shorter = sorted.drop_last();
        assert(precedes(sorted[sorted.len() - 1].name, entry.name));
        assert forall|j: int| at <= j < shorter.len() implies precedes(
            #[trigger] shorter[j].name,
            entry.name,
        ) by {
            assert(shorter[j] == sorted[j]);
        }
        lemma_slot(shorter, entry, at);
        assert(shorter.insert(at, entry).push(sorted.last()) =~= sorted.insert(at, entry));
    }
}

/// Puts a directory into the directories put off so far.
fn defer(dirs: &mut Vec<ArchiveEntry>, entry: ArchiveEntry)
    ensures
        entries_view(final(dirs)@) == slotted(entries_view(old(dirs)@), entry@),
{
    let mut at: usize = dirs.len();
    while at > 0 && comes_before(&dirs[at - 1].name, &entry.name)
        invariant
            at <= dirs.len(),
            dirs@ == old(dirs)@,
            forall|j: int|
                at <= j < dirs.len() ==> precedes(
                    #[trigger] entries_view(dirs@)[j].name,
                    entry@.name,
                ),
        decreases at,
    {
        at -= 1;
    }
    proof {
        lemma_slot(entries_view(dirs@), entry@, at as int);
    }
    dirs.insert(at, entry);
    assert(entries_view(dirs@) =~= entries_view(old(dirs)@).insert(at as int, entry@));
}

/// Brings the entries of a tar archive into the order of unpacking.
pub fn order_tar_entries(entries: Vec<ArchiveEntry>) -> (ordered: Vec<ArchiveEntry>)
    ensures
        entries_view(ordered@) == tar_order(entries_view(entries@)),
{
    let ghost all = entries_view(entries@);
    let mut first: Vec<ArchiveEntry> = Vec::new();
    let mut dirs: Vec<ArchiveEntry> = Vec::new();
    proof {
        assert(all.take(0) =~= Seq::<ArchiveEntryView>::empty());
        assert(entries_view(first@) =~= direct(all.take(0)));
        assert(entries_view(dirs@) =~= deferred(all.take(0)));
    }
    for entry in it: entries
        invariant
            all == entries_view(it.seq()),
            entries_view(first@) == direct(all.take(it.index() as int)),
            entries_view(dirs@) == deferred(all.take(it.index() as int)),
    {
        proof {
            let k = it.index() as int;
            assert(all.take(k + 1).drop_last() =~= all.take(k));
            assert(all.take(k + 1).last() == entry@);
        }
        let ghost before = first@;
        if entry.kind == EntryKind::Directory {
            defer(&mut dirs, entry);
        } else {
            first.push(entry);
            assert(entries_view(first@) =~= entries_view(before).push(entry@));
        }
    }
    proof {
        assert(all.take(all.len() as int) =~= all);
    }
    let ghost front = first@;
    let ghost back = dirs@;
    first.append(&mut dirs);
    assert(entries_view(first@) =~= entries_view(front) + entries_view(back));
    first
}

/// What the type byte of a tar header makes of its member: `5` a directory,
/// `1` a hard link, `2` a symbolic link, `x`, `g`, `L` and `K` extension
/// records, and every other byte a file, sparse and special files included.
pub open spec fn tar_kind(typeflag: u8) -> EntryKind {
    if typeflag == 0x35 {
        EntryKind::Directory
    } else if typeflag == 0x31 {
        EntryKind::HardLink
    } else if typeflag == 0x32 {
        EntryKind::Symlink
    } else if typeflag == 0x78 || typeflag == 0x67 || typeflag == 0x4c || typeflag == 0x4b {
        EntryKind::Extension
    } else {
        EntryKind::File
    }
}

/// What a zip member is: a symbolic link where it is marked as one, else a
/// directory where it is marked as one, else a file.
pub open spec fn zip_kind(directory: bool, link: bool) -> EntryKind {
    if link {
        EntryKind::Symlink
    } else if directory {
        EntryKind::Directory
    } else {
        EntryKind::File
    }
}

/// The permission bits that unpacking a tar member sets: the nine bits for
/// owner, group and others of the mode it records.
pub open spec fn permission_bits(mode: Option<u32>) -> Option<u32> {
    match mode {
        Some(bits) => Some(bits & 0o777),
        None => None,
    }
}

/// The modification time that unpacking a tar member sets: the time it
/// records, with one second in place of none at all.
pub open spec fn time_stamp(mtime: Option<u64>) -> Option<u64> {
    match mtime {
        Some(seconds) => Some(
            if seconds == 0 {
                1
            } else {
                seconds
            },
        ),
        None => None,
    }
}

/// A tar member as an entry. Its name is read leniently. Files and
/// directories get their permission bits, files and symbolic links their
/// modification time.
pub open spec fn tar_entry(member: TarMemberView) -> ArchiveEntryView {
    let kind = tar_kind(member.typeflag);
    ArchiveEntryView {
        name: member.name,
        lenient: true,
        kind,
        mode: if kind == EntryKind::File || kind == EntryKind::Directory {
            permission_bits(member.mode)
        } else {
            None
        },
        mtime: if kind == EntryKind::File || kind == EntryKind::Symlink {
            time_stamp(member.mtime)
        } else {
            None
        },
        link: member.link,
        data: member.data,
    }
}

/// A zip member as an entry. Its name is read strictly. A file gets the
/// mode that the archive records, as it is; the text of a symbolic link is
/// the member's content.
pub open spec fn zip_entry(member: ZipMemberView) -> ArchiveEntryView {
    let kind = zip_kind(member.directory, member.link);
    ArchiveEntryView {
        name: member.name,
        lenient: false,
        kind,
        mode: if kind == EntryKind::File {
            member.mode
        } else {
            None
        },
        mtime: None,
        link: if kind == EntryKind::Symlink {
            Some(member.data)
        } else {
            None
        },
        data: if kind == EntryKind::Symlink {
            Seq::empty()
        } else {
            member.data
        },
    }
}

/// The operations that extract the members of a tar archive, directories
/// last.
pub open spec fn plan_tar(members: Seq<TarMemberView>) -> Option<Seq<FileOpView>> {
    plan(tar_order(members.map_values(|m: TarMemberView| tar_entry(m))))
}

/// The operations that extract the members of a zip archive.
pub open spec fn plan_zip(members: Seq<ZipMemberView>) -> Option<Seq<FileOpView>> {
    plan(members.map_values(|m: ZipMemberView| zip_entry(m)))
}

/// The operations that unpack a tar archive held in `archive`, where there
/// is one.
pub open spec fn untar(archive: Option<Seq<u8>>) -> Option<Seq<FileOpView>> {
    match archive {
        None => None,
        Some(bytes) => match tar_members(bytes) {
            None => None,
            Some(members) => plan_tar(members),
        },
    }
}

/// The single operation that copies `source` to the destination itself.
pub open spec fn copy_op(source: Seq<u8>) -> FileOpView {
    FileOpView {
        path: Seq::empty(),
        content: ContentView::File(source),
        mode: None,
        mtime: None,
    }
}

/// What extracting `source` as a package of format `fmt` does below the
/// destination, or `None` where the content does not decode as that format
/// or holds an entry that is refused.
pub open spec fn extraction(source: Seq<u8>, fmt: PkgFmt) -> Option<Seq<FileOpView>> {
    match fmt {
        PkgFmt::Tar => untar(Some(source)),
        PkgFmt::Tgz => untar(gunzip(source)),
        PkgFmt::Txz => untar(unxz(source)),
        PkgFmt::Tzstd => untar(unzstd(source)),
        PkgFmt::Zip => match zip_members(source) {
            None => None,
            Some(members) => plan_zip(members),
        },
        PkgFmt::Bin => Some(seq![copy_op(source)]),
    }
}

/// Reads a tar member as an entry.
pub fn read_tar_member(member: TarMember) -> (entry: ArchiveEntry)
    ensures
        entry@ == tar_entry(member@),
{
    let typeflag = member.typeflag;
    let kind = if typeflag == 0x35 {
        EntryKind::Directory
    } else if typeflag == 0x31 {
        EntryKind::HardLink
    } else if typeflag == 0x32 {
        EntryKind::Symlink
    } else if typeflag == 0x78 || typeflag == 0x67 || typeflag == 0x4c || typeflag == 0x4b {
        EntryKind::Extension
    } else {
        EntryKind::File
    };
    let mode = match member.mode {
        Some(bits) => if kind == EntryKind::File || kind == EntryKind::Directory {
            Some(bits & 0o777)
        } else {
            None
        },
        None => None,
    };
    let mtime = match member.mtime {
        Some(seconds) => if kind == EntryKind::File || kind == EntryKind::Symlink {
            if seconds == 0 {
                Some(1)
            } else {
                Some(seconds)
            }
        } else {
            None
        },
        None => None,
    };
    ArchiveEntry {
        name: member.name,
        lenient: true,
        kind,
        mode,
        mtime,
        link: member.link,
        data: member.data,
    }
}

/// Reads a zip member as an entry.
pub fn read_zip_member(member: ZipMember) -> (entry: ArchiveEntry)
    ensures
        entry@ == zip_entry(member@),
{
    if member.link {
        ArchiveEntry {
            name: member.name,
            lenient: false,
            kind: EntryKind::Symlink,
            mode: None,
            mtime: None,
            link: Some(member.data),
            data: Vec::new(),
        }
    } else if member.directory {
        ArchiveEntry {
            name: member.name,
            lenient: false,
            kind: EntryKind::Directory,
            mode: None,
            mtime: None,
            link: None,
            data: member.data,
        }
    } else {
        ArchiveEntry {
            name: member.name,
            lenient: false,
            kind: EntryKind::File,
            mode: member.mode,
            mtime: None,
            link: None,
            data: member.data,
        }
    }
}

/// Plans the extraction of the members of a tar archive.
pub fn plan_tar_members(members: Vec<TarMember>) -> (planned: Result<Vec<FileOp>, BinstallError>)
    ensures
        match plan_tar(tar_members_view(members@)) {
            Some(ops) => planned matches Ok(made) && ops_view(made@) == ops,
            None => planned matches Err(BinstallError::Decode(_)),
        },
{
    let ghost all = tar_members_view(members@);
    let mut entries: Vec<ArchiveEntry> = Vec::new();
    for member in it: members
        invariant
            all == tar_members_view(it.seq()),
            entries_view(entries@) == all.take(it.index() as int).map_values(
                |m: TarMemberView| tar_entry(m),
            ),
    {
        let ghost before = entries@;
        let entry = read_tar_member(member);
        entries.push(entry);
        proof {
            let k = it.index() as int;
            assert(entries_view(entries@) =~= entries_view(before).push(entry@));
            assert(all.take(k + 1).map_values(|m: TarMemberView| tar_entry(m)) =~= all.take(
                k,
            ).map_values(|m: TarMemberView| tar_entry(m)).push(tar_entry(member@)));
        }
    }
    proof {
        assert(all.take(all.len() as int) =~= all);
    }
    plan_entries(order_tar_entries(entries))
}

/// Plans the extraction of the members of a zip archive.
pub fn plan_zip_members(members: Vec<ZipMember>) -> (planned: Result<Vec<FileOp>, BinstallError>)
    ensures
        match plan_zip(zip_members_view(members@)) {
            Some(ops) => planned matches Ok(made) && ops_view(made@) == ops,
            None => planned matches Err(BinstallError::Decode(_)),
        },
{
    let ghost all = zip_members_view(members@);
    let mut entries: Vec<ArchiveEntry> = Vec::new();
    for member in it: members
        invariant
            all == zip_members_view(it.seq()),
            entries_view(entries@) == all.take(it.index() as int).map_values(
                |m: ZipMemberView| zip_entry(m),
            ),
    {
        let ghost before = entries@;
        let entry = read_zip_member(member);
        entries.push(entry);
        proof {
            let k = it.index() as int;
            assert(entries_view(entries@) =~= entries_view(before).push(entry@));
            assert(all.take(k + 1).map_values(|m: ZipMemberView| zip_entry(m)) =~= all.take(
                k,
            ).map_values(|m: ZipMemberView| zip_entry(m)).push(zip_entry(member@)));
        }
    }
    proof {
        assert(all.take(all.len() as int) =~= all);
    }
    plan_entries(entries)
}

/// Unpacks the tar archive `archive`.
fn unpack_tar(archive: &[u8]) -> (planned: Result<Vec<FileOp>, BinstallError>)
    ensures
        match untar(Some(archive@)) {
            Some(ops) => planned matches Ok(made) && ops_view(made@) == ops,
            None => planned matches Err(BinstallError::Decode(_)),
        },
{
    match tar_list(archive) {
        Ok(members) => plan_tar_members(members),
        Err(error) => Err(BinstallError::Decode(io_error_text(&error))),
    }
}

/// Carries a decoder's outcome on to the tar unpacker.
fn unpack_decoded(decoded: Result<Vec<u8>, String>) -> (planned: Result<Vec<FileOp>, BinstallError>)
    ensures
        match untar(
            match decoded {
                Ok(bytes) => Some(bytes@),
                Err(_) => None,
            },
        ) {
            Some(ops) => planned matches Ok(made) && ops_view(made@) == ops,
            None => planned matches Err(BinstallError::Decode(_)),
        },
{
    match decoded {
        Ok(bytes) => unpack_tar(bytes.as_slice()),
        Err(message) => Err(BinstallError::Decode(message)),
    }
}

/// Extracts the package `source`, whose format the caller declares as `fmt`,
/// into the operations to perform below the destination, in order. The
/// format is never guessed from the content: content that does not decode as
/// `fmt`, and an archive with an entry that is refused, give a decode error
/// and no operation at all.
pub fn extract(source: &[u8], fmt: PkgFmt) -> (planned: Result<Vec<FileOp>, BinstallError>)
    ensures
        match extraction(source@, fmt) {
            Some(ops) => planned matches Ok(made) && ops_view(made@) == ops,
            None => planned matches Err(BinstallError::Decode(_)),
        },
{
    match fmt {
        PkgFmt::Tar => unpack_tar(source),
        PkgFmt::Tgz => unpack_decoded(gz_decode(source)),
        PkgFmt::Txz => unpack_decoded(xz_decode(source)),
        PkgFmt::Tzstd => unpack_decoded(zstd_decode(source)),
        PkgFmt::Zip => match zip_list(source) {
            Ok(members) => plan_zip_members(members),
            Err(message) => Err(BinstallError::Decode(message)),
        },
        PkgFmt::Bin => {
            let mut ops: Vec<FileOp> = Vec::new();
            let op = FileOp {
                path: Vec::new(),
                content: Content::File(slice_to_vec(source)),
                mode: None,
                mtime: None,
            };
            ops.push(op);
            proof {
                assert(parts_view(op.path@) =~= Seq::<Seq<u8>>::empty());
                assert(ops_view(ops@) =~= seq![copy_op(source@)]);
            }
            Ok(ops)
        },
    }
}

/// What containment asks of the operation at `i`: its place is strictly
/// below the destination and reached by normal components alone, no
/// symbolic link that an earlier operation made stands on the way to it, and
/// the same holds of the target of a hard link.
pub open spec fn is_contained(ops: Seq<FileOpView>, i: int) -> bool {
    &&& ops[i].path.len() > 0
    &&& all_normal(ops[i].path)
    &&& !crosses(ops[i].path, ops.take(i))
    &&& ops[i].content matches ContentView::HardLink(target) ==> target.len() > 0 && all_normal(
        target,
    ) && !crosses(target, ops.take(i))
}

/// Containment: every operation of a plan is contained. No entry, whatever
/// its name and whatever links the archive holds, makes a plan write to a
/// place outside the destination or by way of a link of its own making.
pub proof fn lemma_plan_is_contained(entries: Seq<ArchiveEntryView>)
    ensures
        plan(entries) matches Some(ops) ==> forall|i: int|
            0 <= i < ops.len() ==> #[trigger] is_contained(ops, i),
    decreases entries.len(),
{
    if entries.len() > 0 {
        lemma_plan_is_contained(entries.drop_last());
        let last = entries.last();
        lemma_located_is_contained(last.name, last.lenient);
        if last.link is Some {
            lemma_resolved_is_contained(last.link->0);
        }
        match (plan(entries.drop_last()), plan(entries)) {
            (Some(before), Some(ops)) => {
                assert forall|i: int| 0 <= i < ops.len() implies #[trigger] is_contained(
                    ops,
                    i,
                ) by {
                    if i < before.len() {
                        assert(is_contained(before, i));
                        assert(ops[i] == before[i]);
                        assert(ops.take(i) =~= before.take(i));
                    } else {
                        assert(ops.take(i) =~= before);
                    }
                }
            },
            _ => {},
        }
    }
}

/// A file as packing a directory tree writes it: its name leads along the
/// normal components `path`.
pub open spec fn is_file_at(entry: ArchiveEntryView, path: Seq<Seq<u8>>) -> bool {
    entry.kind == EntryKind::File && path.len() > 0 && all_normal(path) && entry.name == join(
        path,
    )
}

/// Names and contents: a plan for files that are named by their paths holds
/// one operation for each, in their order, that writes the file's content,
/// with the file's mode and time, to the file's path.
pub proof fn lemma_plan_reproduces_files(entries: Seq<ArchiveEntryView>, paths: Seq<Seq<Seq<u8>>>)
    requires
        paths.len() == entries.len(),
        forall|i: int| 0 <= i < entries.len() ==> is_file_at(#[trigger] entries[i], paths[i]),
    ensures
        plan(entries) matches Some(ops) && ops.len() == entries.len() && forall|i: int|
            0 <= i < ops.len() ==> #[trigger] ops[i] == (FileOpView {
                path: paths[i],
                content: ContentView::File(entries[i].data),
                mode: entries[i].mode,
                mtime: entries[i].mtime,
            }),
    decreases entries.len(),
{
    if entries.len() > 0 {
        let n = entries.len() - 1;
        assert(is_file_at(entries[n], paths[n]));
        assert forall|i: int| 0 <= i < entries.drop_last().len() implies is_file_at(
            #[trigger] entries.drop_last()[i],
            paths.drop_last()[i],
        ) by {
            assert(is_file_at(entries[i], paths[i]));
        }
        lemma_plan_reproduces_files(entries.drop_last(), paths.drop_last());
        lemma_locate_join(paths[n], entries[n].lenient);
        lemma_last_of_join(paths[n]);
        let before = plan(entries.drop_last())->0;
        assert(!crosses(paths[n], before)) by {
            assert forall|i: int| 0 <= i < before.len() implies !blocks(
                #[trigger] before[i],
                paths[n],
            ) by {
                assert(before[i].content is File);
            }
        }
    }
}

/// A name that leads along normal components does not end in a separator.
proof fn lemma_last_of_join(path: Seq<Seq<u8>>)
    requires
        path.len() > 0,
        all_normal(path),
    ensures
        join(path).len() > 0,
        join(path).last() != SEPARATOR,
{
    let last = path[path.len() - 1];
    assert(is_normal(last));
    assert(last[last.len() - 1] != SEPARATOR) by {
        if last[last.len() - 1] == SEPARATOR {
            assert(last.contains(SEPARATOR));
        }
    }
    if path.len() == 1 {
    } else {
        assert(join(path).last() == last.last());
    }
}

} // verus!
