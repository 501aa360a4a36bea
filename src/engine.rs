use crate::comparison::{names_view, Comparison, ComparisonView, Diff, DiffView};
use crate::config::{contains_name, without_ignored, Config, ConfigView};
use crate::content::{bytes_eq, budget_of, chunk_diff, chunk_outcome, ContentPlan};
use crate::inodes::{InodeMaps, InodeMapsView, Registration, RegistrationView};
use crate::path::{dot, EntryInfo, Stat};
use vstd::prelude::*;

verus! {

/// The bits of a mode that give the file type.
pub const S_IFMT: u32 = 0o170000;

/// File type bits of a directory.
pub const S_IFDIR: u32 = 0o040000;

/// File type bits of a regular file.
pub const S_IFREG: u32 = 0o100000;

/// File type bits of a symbolic link.
pub const S_IFLNK: u32 = 0o120000;

/// File type bits of a block device.
pub const S_IFBLK: u32 = 0o060000;

/// File type bits of a character device.
pub const S_IFCHR: u32 = 0o020000;

/// File type bits of a FIFO.
pub const S_IFIFO: u32 = 0o010000;

/// File type bits of a socket.
pub const S_IFSOCK: u32 = 0o140000;

/// The kinds of filesystem object that can be compared.
#[derive(Clone, Copy, Debug, PartialEq, Eq, Structural)]
pub enum FileKind {
    Directory,
    Regular,
    Symlink,
    BlockDevice,
    CharDevice,
    Fifo,
    Socket,
}

/// The kind of object whose mode is `mode`, if it is one of the known kinds.
pub open spec fn kind_of(mode: u32) -> Option<FileKind> {
    let t = mode & S_IFMT;
    if t == S_IFDIR {
        Some(FileKind::Directory)
    } else if t == S_IFREG {
        Some(FileKind::Regular)
    } else if t == S_IFLNK {
        Some(FileKind::Symlink)
    } else if t == S_IFBLK {
        Some(FileKind::BlockDevice)
    } else if t == S_IFCHR {
        Some(FileKind::CharDevice)
    } else if t == S_IFIFO {
        Some(FileKind::Fifo)
    } else if t == S_IFSOCK {
        Some(FileKind::Socket)
    } else {
        None
    }
}

/// The kind of object whose mode is `mode`.
pub fn file_kind(mode: u32) -> (r: Option<FileKind>)
    ensures
        r == kind_of(mode),
{
    let t = mode & S_IFMT;
    if t == S_IFDIR {
        Some(FileKind::Directory)
    } else if t == S_IFREG {
        Some(FileKind::Regular)
    } else if t == S_IFLNK {
        Some(FileKind::Symlink)
    } else if t == S_IFBLK {
        Some(FileKind::BlockDevice)
    } else if t == S_IFCHR {
        Some(FileKind::CharDevice)
    } else if t == S_IFIFO {
        Some(FileKind::Fifo)
    } else if t == S_IFSOCK {
        Some(FileKind::Socket)
    } else {
        None
    }
}

/// The first metadata field, in a fixed order, in which two entries differ:
/// mode, link count, owner, group. The roots of the two trees may differ in
/// mode, owner and group.
pub open spec fn metadata_outcome(a: Stat, b: Stat, is_root: bool) -> Option<DiffView> {
    if !is_root && a.mode != b.mode {
        Some(DiffView::Modes(a.mode, b.mode))
    } else if a.nlink != b.nlink {
        Some(DiffView::Nlinks(a.nlink, b.nlink))
    } else if !is_root && a.uid != b.uid {
        Some(DiffView::Uids(a.uid, b.uid))
    } else if !is_root && a.gid != b.gid {
        Some(DiffView::Gids(a.gid, b.gid))
    } else {
        None
    }
}

/// The first metadata field in which two entries differ.
pub fn metadata_diff(a: &Stat, b: &Stat, is_root: bool) -> (r: Option<Diff>)
    ensures
        r is None <==> metadata_outcome(*a, *b, is_root) is None,
        r matches Some(d) ==> metadata_outcome(*a, *b, is_root) == Some(d@),
{
    if !is_root && a.mode != b.mode {
        Some(Diff::Modes(a.mode, b.mode))
    } else if a.nlink != b.nlink {
        Some(Diff::Nlinks(a.nlink, b.nlink))
    } else if !is_root && a.uid != b.uid {
        Some(Diff::Uids(a.uid, b.uid))
    } else if !is_root && a.gid != b.gid {
        Some(Diff::Gids(a.gid, b.gid))
    } else {
        None
    }
}

/// What the engine does next for a pair of entries.
#[derive(Debug)]
pub enum Step {
    /// The pair is settled.
    Done(Comparison),
    /// List both directories and compare the listings (`FSCmp::dir_eq`).
    Directories,
    /// Read the chunks of the plan from both files and compare them
    /// (`FSCmp::chunk_eq`).
    Contents(ContentPlan),
    /// Read both link targets and compare them (`FSCmp::symlink_eq`).
    LinkTargets,
    /// The object is of no known kind; these are its file type bits.
    UnknownType(u32),
}

/// A `Step` as a value: a content plan by the size and the bytes to read.
pub enum StepView {
    Done(ComparisonView),
    Directories,
    Contents(u64, u64),
    LinkTargets,
    UnknownType(u32),
}

impl View for Step {
    type V = StepView;

    open spec fn view(&self) -> StepView {
        match self {
            Step::Done(c) => StepView::Done(c@),
            Step::Directories => StepView::Directories,
            Step::Contents(p) => StepView::Contents(p.size, p.limit),
            Step::LinkTargets => StepView::LinkTargets,
            Step::UnknownType(t) => StepView::UnknownType(*t),
        }
    }
}

/// What the engine does after comparing two directory listings.
#[derive(Debug)]
pub enum DirStep {
    /// The listings differ.
    Done(Comparison),
    /// The listings hold the same names: compare the entries of these names.
    Descend(Vec<Vec<u8>>),
}

/// Whether a step reports a difference.
pub open spec fn reports_difference(s: StepView) -> bool {
    s matches StepView::Done(ComparisonView::Unequal { .. })
}

/// Two listings, each without the ignored names, differ when they are of
/// different lengths or the first holds a name that the second does not.
pub open spec fn listings_differ(a: Seq<Seq<u8>>, b: Seq<Seq<u8>>) -> bool {
    a.len() != b.len() || exists|i: int| 0 <= i < a.len() && !b.contains(a[i])
}

/// What comparing two symbolic link targets reports.
pub open spec fn link_outcome(a: Seq<u8>, b: Seq<u8>) -> Option<DiffView> {
    if a == b {
        None
    } else {
        Some(DiffView::LinkTarget(a, b))
    }
}

/// The comparison engine for one run: its configuration, and the decisions
/// taken on each pair of entries.
#[derive(Debug)]
pub struct FSCmp {
    config: Config,
}

impl View for FSCmp {
    type V = ConfigView;

    closed spec fn view(&self) -> ConfigView {
        self.config@
    }
}

/// A difference between two entries as reported for the run `cfg`: with both
/// roots, and the entries' path relative to the roots when both sides reached
/// it by the same path.
pub open spec fn unequal_view(cfg: ConfigView, d: DiffView, first: EntryInfo, second: EntryInfo) -> ComparisonView {
    ComparisonView::Unequal {
        diff: d,
        first: cfg.first,
        second: cfg.second,
        path: if first.path@ == second.path@ {
            Some(first.logical_path())
        } else {
            None
        },
    }
}

/// What comparing `size` bytes of content starts with.
pub open spec fn contents_outcome(cfg: ConfigView, size: u64) -> StepView {
    if size == 0 {
        StepView::Done(ComparisonView::Equal)
    } else {
        StepView::Contents(size, budget_of(size, cfg.full_compare_limit))
    }
}

/// What comparing a settled pair reports.
pub open spec fn settled(cfg: ConfigView, d: Option<DiffView>, first: EntryInfo, second: EntryInfo) -> StepView {
    match d {
        Some(d) => StepView::Done(unequal_view(cfg, d, first, second)),
        None => StepView::Done(ComparisonView::Equal),
    }
}

/// What the engine does with the pair `first`, `second` when the maps of
/// objects seen so far are `maps`.
pub open spec fn entry_outcome(cfg: ConfigView, maps: InodeMapsView, first: EntryInfo, second: EntryInfo) -> StepView {
    match maps.registration(first.stat.ino, second.stat.ino) {
        RegistrationView::Mismatch(a, b) => StepView::Done(
            unequal_view(cfg, DiffView::Inodes(a, b), first, second),
        ),
        RegistrationView::Seen => StepView::Done(ComparisonView::Equal),
        RegistrationView::New => match metadata_outcome(first.stat, second.stat, first.path@ == dot()) {
            Some(d) => StepView::Done(unequal_view(cfg, d, first, second)),
            None => match kind_of(first.stat.mode) {
                Some(FileKind::Directory) => StepView::Directories,
                Some(FileKind::Regular) => if first.stat.size != second.stat.size {
                    StepView::Done(
                        unequal_view(
                            cfg,
                            DiffView::Sizes(first.stat.size, second.stat.size),
                            first,
                            second,
                        ),
                    )
                } else {
                    contents_outcome(cfg, first.stat.size)
                },
                Some(FileKind::Symlink) => StepView::LinkTargets,
                Some(FileKind::BlockDevice) | Some(FileKind::CharDevice) => if first.stat.rdev
                    != second.stat.rdev {
                    StepView::Done(
                        unequal_view(
                            cfg,
                            DiffView::DeviceTypes(first.stat.rdev, second.stat.rdev),
                            first,
                            second,
                        ),
                    )
                } else {
                    StepView::Done(ComparisonView::Equal)
                },
                Some(FileKind::Fifo) | Some(FileKind::Socket) => StepView::Done(
                    ComparisonView::Equal,
                ),
                None => StepView::UnknownType(first.stat.mode & S_IFMT),
            },
        },
    }
}

impl FSCmp {
    /// An engine for comparing `first` with `second`.
    pub fn new(
        first: Vec<u8>,
        second: Vec<u8>,
        full_compare_limit: Option<u64>,
        ignored_dirs: Vec<Vec<u8>>,
    ) -> (r: FSCmp)
        ensures
            r@.first == first@,
            r@.second == second@,
            r@.full_compare_limit == full_compare_limit,
            r@.ignored_dirs == names_view(ignored_dirs@),
    {
        FSCmp { config: Config::new(first, second, full_compare_limit, ignored_dirs) }
    }

    /// The parameters of the run.
    pub fn config(&self) -> (r: &Config)
        ensures
            r@ == self@,
    {
        &self.config
    }

    /// Reports `diff` between `first` and `second`.
    pub fn unequal(&self, diff: Diff, first: &EntryInfo, second: &EntryInfo) -> (r: Comparison)
        requires
            first.bounded(),
        ensures
            r@ == unequal_view(self@, diff@, *first, *second),
    {
        let path = if bytes_eq(first.path.as_slice(), second.path.as_slice()) {
            Some(first.display_path())
        } else {
            None
        };
        Comparison::Unequal {
            diff,
            first: vstd::slice::slice_to_vec(self.config.first().as_slice()),
            second: vstd::slice::slice_to_vec(self.config.second().as_slice()),
            path,
        }
    }

    /// Registers the pair with the maps of objects seen so far, compares
    /// their metadata, and says what to do next by the kind of the first.
    pub fn entry_eq(&self, inodes: &mut InodeMaps, first: &EntryInfo, second: &EntryInfo) -> (r: Step)
        requires
            first.bounded(),
            second.bounded(),
        ensures
            r@ == entry_outcome(self@, old(inodes)@, *first, *second),
            r matches Step::Contents(p) ==> p.wf(),
            final(inodes)@ == old(inodes)@.registered(
                first.stat.ino,
                first.logical_path(),
                second.stat.ino,
                second.logical_path(),
            ),
    {
        let first_path = first.display_path();
        let second_path = second.display_path();
        match inodes.register(first.stat.ino, first_path.as_slice(), second.stat.ino, second_path.as_slice()) {
            Registration::Mismatch(a, b) => {
                return Step::Done(self.unequal(Diff::Inodes(a, b), first, second));
            },
            Registration::Seen => {
                return Step::Done(Comparison::Equal);
            },
            Registration::New => {},
        }
        if let Some(diff) = metadata_diff(&first.stat, &second.stat, first.is_root()) {
            return Step::Done(self.unequal(diff, first, second));
        }
        match file_kind(first.stat.mode) {
            Some(FileKind::Directory) => Step::Directories,
            Some(FileKind::Regular) => self.file_eq(first, second),
            Some(FileKind::Symlink) => Step::LinkTargets,
            Some(FileKind::BlockDevice) => Step::Done(self.block_device_eq(first, second)),
            Some(FileKind::CharDevice) => Step::Done(self.char_device_eq(first, second)),
            Some(FileKind::Fifo) => Step::Done(self.fifo_eq(first, second)),
            Some(FileKind::Socket) => Step::Done(self.socket_eq(first, second)),
            None => Step::UnknownType(first.stat.mode & S_IFMT),
        }
    }

    /// Two regular files: their sizes, then their contents.
    fn file_eq(&self, first: &EntryInfo, second: &EntryInfo) -> (r: Step)
        requires
            first.bounded(),
        ensures
            r@ == (if first.stat.size != second.stat.size {
                StepView::Done(
                    unequal_view(self@, DiffView::Sizes(first.stat.size, second.stat.size), *first, *second),
                )
            } else {
                contents_outcome(self@, first.stat.size)
            }),
            r matches Step::Contents(p) ==> p.wf(),
    {
        if first.stat.size != second.stat.size {
            return Step::Done(self.unequal(Diff::Sizes(first.stat.size, second.stat.size), first, second));
        }
        self.contents_eq(first.stat.size)
    }

    /// What comparing `size` bytes of content starts with: nothing to read
    /// when `size` is zero, else a plan of the chunks to read.
    pub fn contents_eq(&self, size: u64) -> (r: Step)
        ensures
            r@ == contents_outcome(self@, size),
            r matches Step::Contents(p) ==> p.wf(),
    {
        if size == 0 {
            return Step::Done(Comparison::Equal);
        }
        Step::Contents(ContentPlan::new(size, self.config.full_compare_limit()))
    }

    /// Two block devices: their device numbers.
    fn block_device_eq(&self, first: &EntryInfo, second: &EntryInfo) -> (r: Comparison)
        requires
            first.bounded(),
        ensures
            StepView::Done(r@) == settled(
                self@,
                if first.stat.rdev != second.stat.rdev {
                    Some(DiffView::DeviceTypes(first.stat.rdev, second.stat.rdev))
                } else {
                    None
                },
                *first,
                *second,
            ),
    {
        self.char_device_eq(first, second)
    }

    /// Two character devices: their device numbers.
    fn char_device_eq(&self, first: &EntryInfo, second: &EntryInfo) -> (r: Comparison)
        requires
            first.bounded(),
        ensures
            StepView::Done(r@) == settled(
                self@,
                if first.stat.rdev != second.stat.rdev {
                    Some(DiffView::DeviceTypes(first.stat.rdev, second.stat.rdev))
                } else {
                    None
                },
                *first,
                *second,
            ),
    {
        if first.stat.rdev != second.stat.rdev {
            return self.unequal(Diff::DeviceTypes(first.stat.rdev, second.stat.rdev), first, second);
        }
        Comparison::Equal
    }

    /// Two FIFOs have nothing more to compare.
    fn fifo_eq(&self, _first: &EntryInfo, _second: &EntryInfo) -> (r: Comparison)
        ensures
            r@ == ComparisonView::Equal,
    {
        Comparison::Equal
    }

    /// Two sockets have nothing more to compare.
    fn socket_eq(&self, _first: &EntryInfo, _second: &EntryInfo) -> (r: Comparison)
        ensures
            r@ == ComparisonView::Equal,
    {
        Comparison::Equal
    }

    /// Two directories whose listings are `first_names` and `second_names`:
    /// without the ignored names, the listings must hold the same names, and
    /// then the entries of those names are compared.
    pub fn dir_eq(
        &self,
        first: &EntryInfo,
        second: &EntryInfo,
        first_names: &[Vec<u8>],
        second_names: &[Vec<u8>],
    ) -> (r: DirStep)
        requires
            first.bounded(),
        ensures
            ({
                let a = without_ignored(names_view(first_names@), self@.ignored_dirs);
                let b = without_ignored(names_view(second_names@), self@.ignored_dirs);
                &&& listings_differ(a, b) ==> (r matches DirStep::Done(c) && c@ == unequal_view(
                    self@,
                    DiffView::DirContents(a, b),
                    *first,
                    *second,
                ))
                &&& !listings_differ(a, b) ==> (r matches DirStep::Descend(names) && names_view(
                    names@,
                ) == a)
            }),
    {
        let first_contents = self.config.filter_names(first_names);
        let second_contents = self.config.filter_names(second_names);
        let ghost a = names_view(first_contents@);
        let ghost b = names_view(second_contents@);
        if first_contents.len() != second_contents.len() {
            return DirStep::Done(
                self.unequal(Diff::DirContents(first_contents, second_contents), first, second),
            );
        }
        let mut i: usize = 0;
        while i < first_contents.len()
            invariant
                i <= first_contents@.len(),
                first.bounded(),
                first_contents@.len() == second_contents@.len(),
                a == names_view(first_contents@),
                b == names_view(second_contents@),
                a == without_ignored(names_view(first_names@), self@.ignored_dirs),
                b == without_ignored(names_view(second_names@), self@.ignored_dirs),
                forall|j: int| 0 <= j < i ==> b.contains(a[j]),
            decreases first_contents@.len() - i,
        {
            if !contains_name(second_contents.as_slice(), first_contents[i].as_slice()) {
                assert(!b.contains(a[i as int]));

                return DirStep::Done(
                    self.unequal(Diff::DirContents(first_contents, second_contents), first, second),
                );
            }
            i += 1;
        }
        DirStep::Descend(first_contents)
    }

    /// Two symbolic links whose targets are `first_target` and
    /// `second_target`.
    pub fn symlink_eq(
        &self,
        first: &EntryInfo,
        second: &EntryInfo,
        first_target: Vec<u8>,
        second_target: Vec<u8>,
    ) -> (r: Comparison)
        requires
            first.bounded(),
        ensures
            StepView::Done(r@) == settled(self@, link_outcome(first_target@, second_target@), *first, *second),
    {
        if !bytes_eq(first_target.as_slice(), second_target.as_slice()) {
            return self.unequal(Diff::LinkTarget(first_target, second_target), first, second);
        }
        Comparison::Equal
    }

    /// One chunk of content at offset `start`, read from both files.
    pub fn chunk_eq(&self, first: &EntryInfo, second: &EntryInfo, start: u64, first_data: &[u8], second_data: &[u8]) -> (r:
        Comparison)
        requires
            first.bounded(),
            first_data@.len() == second_data@.len(),
            start + first_data@.len() <= u64::MAX,
        ensures
            StepView::Done(r@) == settled(self@, chunk_outcome(start, first_data@, second_data@), *first, *second),
    {
        match chunk_diff(start, first_data, second_data) {
            Some(diff) => self.unequal(diff, first, second),
            None => Comparison::Equal,
        }
    }
}

} // verus!
