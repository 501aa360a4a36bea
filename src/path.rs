use vstd::prelude::*;

verus! {

/// The separator between path components.
pub const SEPARATOR: u8 = 47;

/// The name under which a directory refers to itself.
pub const DOT: u8 = 46;

/// The path `.`.
pub open spec fn dot() -> Seq<u8> {
    seq![DOT]
}

/// `a` followed by the relative path `b`: `b` alone when `a` is empty.
pub open spec fn join_path(a: Seq<u8>, b: Seq<u8>) -> Seq<u8> {
    if a.len() == 0 {
        b
    } else {
        a + seq![SEPARATOR] + b
    }
}

/// The path of the entry `name` in the directory at `p`, where `.` stands for
/// the directory where the walk started.
pub open spec fn child_path(p: Seq<u8>, name: Seq<u8>) -> Seq<u8> {
    if p == dot() {
        name
    } else {
        join_path(p, name)
    }
}

/// A name that a directory can list: one component, neither empty nor `.`.
pub open spec fn is_entry_name(name: Seq<u8>) -> bool {
    &&& name.len() > 0
    &&& name != dot()
    &&& !name.contains(SEPARATOR)
}

/// A path that the system accepts: no longer than `path_max`, unless it is a
/// single component.
pub open spec fn fits(p: Seq<u8>, path_max: int) -> bool {
    p.len() <= path_max || !p.contains(SEPARATOR)
}

/// `a` and `b` joined by a separator, or `b` alone when `a` is empty.
pub fn join_bytes(a: &[u8], b: &[u8]) -> (r: Vec<u8>)
    requires
        a@.len() + 1 + b@.len() <= usize::MAX,
    ensures
        r@ == join_path(a@, b@),
{
    let mut r: Vec<u8> = Vec::new();
    let mut i: usize = 0;
    while i < a.len()
        invariant
            i <= a@.len(),
            r@ == a@.subrange(0, i as int),
        decreases a@.len() - i,
    {
        r.push(a[i]);
        i += 1;
    }
    if a.len() > 0 {
        r.push(SEPARATOR);
    }
    let ghost prefix = r@;
    let mut j: usize = 0;
    while j < b.len()
        invariant
            j <= b@.len(),
            r@ == prefix + b@.subrange(0, j as int),
        decreases b@.len() - j,
    {
        r.push(b[j]);
        j += 1;
    }
    assert(a@.subrange(0, a@.len() as int) =~= a@);
    assert(b@.subrange(0, b@.len() as int) =~= b@);
    assert(r@ =~= join_path(a@, b@));
    r
}

/// Whether `p` is the path `.`.
pub fn is_dot(p: &[u8]) -> (r: bool)
    ensures
        r == (p@ == dot()),
{
    let d = p.len() == 1 && p[0] == DOT;
    proof {
        if d {
            assert(p@ =~= dot());
        }
    }
    d
}

/// Relies on libc::PATH_MAX: the longest path, in bytes, that the system
/// accepts in one call.
#[verifier::external_body]
fn path_max() -> (r: usize) {
    libc::PATH_MAX as usize
}

/// The metadata of one entry, as `lstat` reports it.
#[derive(Clone, Copy, Debug, PartialEq, Eq)]
pub struct Stat {
    pub ino: u64,
    pub mode: u32,
    pub nlink: u64,
    pub uid: u32,
    pub gid: u32,
    pub size: u64,
    pub rdev: u64,
}

/// One entry of a walk: the logical path of the directory handle it is
/// resolved through, its path relative to that handle, and its metadata.
#[derive(Debug)]
pub struct EntryInfo {
    pub parent_path: Vec<u8>,
    pub path: Vec<u8>,
    pub stat: Stat,
}

/// Where a directory's entry is resolved.
#[derive(Debug)]
pub enum ChildLocation {
    /// Through the parent's own directory handle, at `path`.
    Shared { parent_path: Vec<u8>, path: Vec<u8> },
    /// Through a new handle opened at `sub_dir`, relative to the parent's
    /// handle, whose logical path is `parent_path`; the entry is `path`
    /// under it.
    Reopened { sub_dir: Vec<u8>, parent_path: Vec<u8>, path: Vec<u8> },
}

impl ChildLocation {
    /// The entry at this location, with metadata `stat`.
    pub open spec fn entry_spec(self, stat: Stat) -> EntryInfo {
        match self {
            ChildLocation::Shared { parent_path, path } => EntryInfo { parent_path, path, stat },
            ChildLocation::Reopened { parent_path, path, .. } => EntryInfo { parent_path, path, stat },
        }
    }

    /// The entry at this location, with metadata `stat`.
    pub fn into_entry(self, stat: Stat) -> (r: EntryInfo)
        ensures
            r == self.entry_spec(stat),
    {
        match self {
            ChildLocation::Shared { parent_path, path } => EntryInfo { parent_path, path, stat },
            ChildLocation::Reopened { parent_path, path, .. } => EntryInfo { parent_path, path, stat },
        }
    }
}

impl EntryInfo {
    pub open spec fn wf(&self) -> bool {
        &&& self.path@.len() > 0
        &&& self.path@ == dot() ==> self.parent_path@.len() == 0
    }

    /// Its paths are short enough to be joined in memory.
    pub open spec fn bounded(&self) -> bool {
        self.parent_path@.len() + 1 + self.path@.len() <= usize::MAX
    }

    /// The path of the entry relative to the root of its tree.
    pub open spec fn logical_path(&self) -> Seq<u8> {
        join_path(self.parent_path@, self.path@)
    }

    /// The root of a directory tree, resolved through a handle on the
    /// directory itself.
    pub fn root_dir(stat: Stat) -> (r: EntryInfo)
        ensures
            r.wf(),
            r.parent_path@.len() == 0,
            r.path@ == dot(),
            r.stat == stat,
    {
        let mut path: Vec<u8> = Vec::new();
        path.push(DOT);
        assert(path@ =~= dot());
        EntryInfo { parent_path: Vec::new(), path, stat }
    }

    /// A file given by its own name, resolved through a handle on the
    /// directory that holds it.
    pub fn root_file(name: Vec<u8>, stat: Stat) -> (r: EntryInfo)
        requires
            is_entry_name(name@),
        ensures
            r.wf(),
            r.parent_path@.len() == 0,
            r.path@ == name@,
            r.stat == stat,
    {
        EntryInfo { parent_path: Vec::new(), path: name, stat }
    }

    /// Whether this is the root of a directory tree.
    pub fn is_root(&self) -> (r: bool)
        ensures
            r == (self.path@ == dot()),
    {
        is_dot(self.path.as_slice())
    }

    /// The path of the entry relative to the root of its tree.
    pub fn display_path(&self) -> (r: Vec<u8>)
        requires
            self.bounded(),
        ensures
            r@ == self.logical_path(),
    {
        join_bytes(self.parent_path.as_slice(), self.path.as_slice())
    }

    /// The location of the child `name` is decided with `path_max` as the
    /// longest path that the system accepts: when the child's path under
    /// the parent's handle would be longer, the child is resolved through a
    /// new handle on the parent directory itself.
    pub open spec fn located(&self, name: Seq<u8>, path_max: int, loc: ChildLocation) -> bool {
        let joined = child_path(self.path@, name);
        if self.path@ != dot() && joined.len() > path_max {
            loc matches ChildLocation::Reopened { sub_dir, parent_path, path } && sub_dir@
                == self.path@ && parent_path@ == join_path(self.parent_path@, self.path@) && path@
                == name
        } else {
            loc matches ChildLocation::Shared { parent_path, path } && parent_path@
                == self.parent_path@ && path@ == joined
        }
    }

    /// Where the child `name` is resolved, given the longest path that the
    /// system accepts.
    pub fn child_location_within(&self, name: &[u8], path_max: usize) -> (r: ChildLocation)
        requires
            self.parent_path@.len() + self.path@.len() + name@.len() + 2 <= usize::MAX,
        ensures
            self.located(name@, path_max as int, r),
    {
        let root = self.is_root();
        let joined = if root {
            vstd::slice::slice_to_vec(name)
        } else {
            join_bytes(self.path.as_slice(), name)
        };
        if !root && joined.len() > path_max {
            let sub_dir = vstd::slice::slice_to_vec(self.path.as_slice());
            let parent_path = join_bytes(self.parent_path.as_slice(), self.path.as_slice());
            let path = vstd::slice::slice_to_vec(name);
            ChildLocation::Reopened { sub_dir, parent_path, path }
        } else {
            let parent_path = vstd::slice::slice_to_vec(self.parent_path.as_slice());
            ChildLocation::Shared { parent_path, path: joined }
        }
    }

    /// Where the child `name` is resolved on this system.
    pub fn child_location(&self, name: &[u8]) -> (r: ChildLocation)
        requires
            self.parent_path@.len() + self.path@.len() + name@.len() + 2 <= usize::MAX,
        ensures
            exists|path_max: int| self.located(name@, path_max, r),
    {
        let path_max = path_max();
        self.child_location_within(name, path_max)
    }
}

/// However the child of a well-formed entry is located, its path relative to
/// the root is its parent's joined with its name, it is well formed in turn,
/// and the paths handed to the system stay within `path_max` or are single
/// components.
pub proof fn lemma_child_location(e: EntryInfo, name: Seq<u8>, path_max: int, loc: ChildLocation, stat: Stat)
    requires
        e.wf(),
        is_entry_name(name),
        fits(e.path@, path_max),
        e.located(name, path_max, loc),
    ensures
        loc.entry_spec(stat).logical_path() == child_path(e.logical_path(), name),
        loc.entry_spec(stat).wf(),
        fits(loc.entry_spec(stat).path@, path_max),
        loc matches ChildLocation::Reopened { sub_dir, .. } ==> fits(sub_dir@, path_max),
{
    let c = loc.entry_spec(stat);
    let pp = e.parent_path@;
    let p = e.path@;
    let sep = seq![SEPARATOR];
    if p == dot() {
        assert(e.logical_path() == dot());
        assert(c.path@ == name);
        assert(c.parent_path@.len() == 0);
        assert(!name.contains(SEPARATOR));
    } else {
        if pp.len() > 0 {
            assert(join_path(pp, p).len() > 1);
        }
        assert(join_path(pp, p) != dot()) by {
            if pp.len() > 0 {
                assert(join_path(pp, p).len() >= 3);
            }
        }
        let joined = child_path(p, name);
        if joined.len() > path_max {
            assert(c.logical_path() =~= join_path(pp, p) + sep + name);
        } else {
            assert(joined == p + sep + name);
            assert(c.logical_path() =~= join_path(pp, p) + sep + name);
            assert(c.path@ == joined);
            if c.path@ == dot() {
                assert(c.path@.len() >= 3);
            }
        }
    }
}

} // verus!
