use vstd::prelude::*;

verus! {

/// What differed between two entries. Paths and names are raw bytes.
#[derive(Debug, PartialEq, Eq)]
pub enum Diff {
    /// Permission and type bits.
    Modes(u32, u32),
    /// Hard-link counts.
    Nlinks(u64, u64),
    /// Owners.
    Uids(u32, u32),
    /// Groups.
    Gids(u32, u32),
    /// The paths at which each side's object was first seen, if it was.
    Inodes(Option<Vec<u8>>, Option<Vec<u8>>),
    /// File sizes.
    Sizes(u64, u64),
    /// The number of the first differing block, and that block from each side.
    Contents(u64, Vec<u8>, Vec<u8>),
    /// Device numbers.
    DeviceTypes(u64, u64),
    /// Symbolic link targets.
    LinkTarget(Vec<u8>, Vec<u8>),
    /// The names listed in each directory.
    DirContents(Vec<Vec<u8>>, Vec<Vec<u8>>),
}

/// The outcome of a comparison.
#[derive(Debug, PartialEq, Eq)]
pub enum Comparison {
    Equal,
    Unequal {
        diff: Diff,
        /// The first root.
        first: Vec<u8>,
        /// The second root.
        second: Vec<u8>,
        /// Where the difference is, relative to the roots; `None` when the
        /// two sides reached it by different paths.
        path: Option<Vec<u8>>,
    },
}

/// A `Diff` with its byte vectors seen as sequences.
pub enum DiffView {
    Modes(u32, u32),
    Nlinks(u64, u64),
    Uids(u32, u32),
    Gids(u32, u32),
    Inodes(Option<Seq<u8>>, Option<Seq<u8>>),
    Sizes(u64, u64),
    Contents(u64, Seq<u8>, Seq<u8>),
    DeviceTypes(u64, u64),
    LinkTarget(Seq<u8>, Seq<u8>),
    DirContents(Seq<Seq<u8>>, Seq<Seq<u8>>),
}

/// A byte vector that may be absent, seen as a sequence.
pub open spec fn opt_bytes(o: Option<Vec<u8>>) -> Option<Seq<u8>> {
    match o {
        Some(v) => Some(v@),
        None => None,
    }
}

/// A list of names, each seen as a sequence.
pub open spec fn names_view(names: Seq<Vec<u8>>) -> Seq<Seq<u8>> {
    names.map_values(|n: Vec<u8>| n@)
}

impl View for Diff {
    type V = DiffView;

    open spec fn view(&self) -> DiffView {
        match self {
            Diff::Modes(a, b) => DiffView::Modes(*a, *b),
            Diff::Nlinks(a, b) => DiffView::Nlinks(*a, *b),
            Diff::Uids(a, b) => DiffView::Uids(*a, *b),
            Diff::Gids(a, b) => DiffView::Gids(*a, *b),
            Diff::Inodes(a, b) => DiffView::Inodes(opt_bytes(*a), opt_bytes(*b)),
            Diff::Sizes(a, b) => DiffView::Sizes(*a, *b),
            Diff::Contents(lba, a, b) => DiffView::Contents(*lba, a@, b@),
            Diff::DeviceTypes(a, b) => DiffView::DeviceTypes(*a, *b),
            Diff::LinkTarget(a, b) => DiffView::LinkTarget(a@, b@),
            Diff::DirContents(a, b) => DiffView::DirContents(names_view(a@), names_view(b@)),
        }
    }
}

/// A `Comparison` with its byte vectors seen as sequences.
pub enum ComparisonView {
    Equal,
    Unequal { diff: DiffView, first: Seq<u8>, second: Seq<u8>, path: Option<Seq<u8>> },
}

impl View for Comparison {
    type V = ComparisonView;

    open spec fn view(&self) -> ComparisonView {
        match self {
            Comparison::Equal => ComparisonView::Equal,
            Comparison::Unequal { diff, first, second, path } => ComparisonView::Unequal {
                diff: diff@,
                first: first@,
                second: second@,
                path: opt_bytes(*path),
            },
        }
    }
}

} // verus!
