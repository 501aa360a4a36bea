use fscmp::{
    file_kind, metadata_diff, ChildLocation, Comparison, Diff, DirStep, EntryInfo, FSCmp,
    FileKind, InodeMaps, Registration, Stat, Step,
};

fn stat(ino: u64, mode: u32) -> Stat {
    Stat { ino, mode, nlink: 1, uid: 1000, gid: 1000, size: 0, rdev: 0 }
}

fn root(stat: Stat) -> EntryInfo {
    EntryInfo::root_dir(stat)
}

fn entry(path: &str, stat: Stat) -> EntryInfo {
    EntryInfo { parent_path: Vec::new(), path: path.as_bytes().to_vec(), stat }
}

fn engine() -> FSCmp {
    FSCmp::new(b"/one".to_vec(), b"/two".to_vec(), None, Vec::new())
}

fn names(list: &[&str]) -> Vec<Vec<u8>> {
    list.iter().map(|n| n.as_bytes().to_vec()).collect()
}

fn diff_of(step: Step) -> Diff {
    match step {
        Step::Done(Comparison::Unequal { diff, .. }) => diff,
        other => panic!("no difference: {:?}", other),
    }
}

const DIR: u32 = 0o040755;
const FILE: u32 = 0o100644;

#[test]
fn new_directories_are_listed() {
    let cmp = engine();
    let mut inodes = InodeMaps::new();
    let step = cmp.entry_eq(&mut inodes, &root(stat(2, DIR)), &root(stat(2, DIR)));
    assert!(matches!(step, Step::Directories));
}

#[test]
fn an_entry_seen_before_is_equal() {
    let cmp = engine();
    let mut inodes = InodeMaps::new();
    let a = entry("x", stat(5, FILE));
    let b = entry("x", stat(6, FILE));
    assert!(matches!(cmp.entry_eq(&mut inodes, &a, &b), Step::Done(Comparison::Equal)));
    let a2 = entry("y", stat(5, FILE));
    let b2 = entry("y", stat(6, FILE));
    assert!(matches!(cmp.entry_eq(&mut inodes, &a2, &b2), Step::Done(Comparison::Equal)));
}

#[test]
fn hard_link_missing_on_one_side_is_reported() {
    let cmp = engine();
    let mut inodes = InodeMaps::new();
    let a = entry("a", stat(10, FILE));
    let b = entry("a", stat(20, FILE));
    assert!(matches!(cmp.entry_eq(&mut inodes, &a, &b), Step::Done(Comparison::Equal)));
    let link = entry("b", stat(10, FILE));
    let other = entry("b", stat(30, FILE));
    match cmp.entry_eq(&mut inodes, &link, &other) {
        Step::Done(Comparison::Unequal { diff, first, second, path }) => {
            assert_eq!(diff, Diff::Inodes(Some(b"a".to_vec()), None));
            assert_eq!(first, b"/one".to_vec());
            assert_eq!(second, b"/two".to_vec());
            assert_eq!(path, Some(b"b".to_vec()));
        }
        other => panic!("unexpected {:?}", other),
    }
}

#[test]
fn register_reports_each_outcome() {
    let mut inodes = InodeMaps::new();
    assert!(matches!(inodes.register(1, b"p", 2, b"p"), Registration::New));
    assert!(matches!(inodes.register(1, b"q", 2, b"q"), Registration::Seen));
    match inodes.register(3, b"r", 2, b"r") {
        Registration::Mismatch(a, b) => {
            assert_eq!(a, None);
            assert_eq!(b, Some(b"p".to_vec()));
        }
        other => panic!("unexpected {:?}", other),
    }
}

#[test]
fn test_root_mode_exempt() {
    let cmp = engine();
    let mut inodes = InodeMaps::new();
    let mut other = stat(3, 0o040777);
    other.uid = 0;
    other.gid = 0;
    let step = cmp.entry_eq(&mut inodes, &root(stat(2, DIR)), &root(other));
    assert!(matches!(step, Step::Directories));
}

#[test]
fn root_link_count_is_still_compared() {
    let cmp = engine();
    let mut inodes = InodeMaps::new();
    let mut other = stat(3, DIR);
    other.nlink = 4;
    let step = cmp.entry_eq(&mut inodes, &root(stat(2, DIR)), &root(other));
    assert_eq!(diff_of(step), Diff::Nlinks(1, 4));
}

#[test]
fn test_permissions_reported_below_root() {
    let cmp = engine();
    let mut inodes = InodeMaps::new();
    let a = entry("directory", stat(4, DIR));
    let b = entry("directory", stat(5, 0o040555));
    match cmp.entry_eq(&mut inodes, &a, &b) {
        Step::Done(Comparison::Unequal { diff, path, .. }) => {
            assert_eq!(diff, Diff::Modes(DIR, 0o040555));
            assert_eq!(path, Some(b"directory".to_vec()));
        }
        other => panic!("unexpected {:?}", other),
    }
}

#[test]
fn metadata_fields_in_order() {
    let a = stat(1, FILE);
    let mut b = stat(1, 0o100600);
    b.nlink = 2;
    b.uid = 7;
    assert_eq!(metadata_diff(&a, &b, false), Some(Diff::Modes(FILE, 0o100600)));
    b.mode = FILE;
    assert_eq!(metadata_diff(&a, &b, false), Some(Diff::Nlinks(1, 2)));
    b.nlink = 1;
    assert_eq!(metadata_diff(&a, &b, false), Some(Diff::Uids(1000, 7)));
    assert_eq!(metadata_diff(&a, &b, true), None);
    b.uid = 1000;
    b.gid = 9;
    assert_eq!(metadata_diff(&a, &b, false), Some(Diff::Gids(1000, 9)));
    b.gid = 1000;
    assert_eq!(metadata_diff(&a, &b, false), None);
}

#[test]
fn test_simple_new_file_detected() {
    let cmp = engine();
    let a = root(stat(2, DIR));
    let b = root(stat(3, DIR));
    let first = names(&["directory", "regular_file", "symlink"]);
    let second = names(&["directory", "regular_file", "symlink", "new_regular_file"]);
    match cmp.dir_eq(&a, &b, &first, &second) {
        DirStep::Done(Comparison::Unequal { diff, path, .. }) => {
            assert_eq!(diff, Diff::DirContents(first.clone(), second.clone()));
            assert_eq!(path, Some(b".".to_vec()));
        }
        other => panic!("unexpected {:?}", other),
    }
}

#[test]
fn renamed_entry_detected() {
    let cmp = engine();
    let a = root(stat(2, DIR));
    let first = names(&["a", "b"]);
    let second = names(&["a", "c"]);
    assert!(matches!(
        cmp.dir_eq(&a, &a, &first, &second),
        DirStep::Done(Comparison::Unequal { diff: Diff::DirContents(..), .. })
    ));
}

#[test]
fn same_listing_in_another_order_descends() {
    let cmp = engine();
    let a = root(stat(2, DIR));
    match cmp.dir_eq(&a, &a, &names(&["x", "y", "z"]), &names(&["z", "x", "y"])) {
        DirStep::Descend(list) => assert_eq!(list, names(&["x", "y", "z"])),
        other => panic!("unexpected {:?}", other),
    }
}

#[test]
fn ignored_names_are_left_out() {
    let cmp = FSCmp::new(b"/one".to_vec(), b"/two".to_vec(), None, names(&[".git"]));
    let a = root(stat(2, DIR));
    match cmp.dir_eq(&a, &a, &names(&["src", ".git"]), &names(&["src"])) {
        DirStep::Descend(list) => assert_eq!(list, names(&["src"])),
        other => panic!("unexpected {:?}", other),
    }
    assert!(cmp.config().is_ignored(b".git"));
    assert!(!cmp.config().is_ignored(b"src"));
}

#[test]
fn file_sizes_then_contents() {
    let cmp = FSCmp::new(b"/one".to_vec(), b"/two".to_vec(), Some(4096), Vec::new());
    let mut inodes = InodeMaps::new();
    let mut sa = stat(4, FILE);
    sa.size = 100;
    let mut sb = stat(5, FILE);
    sb.size = 200;
    let step = cmp.entry_eq(&mut inodes, &entry("f", sa), &entry("f", sb));
    assert_eq!(diff_of(step), Diff::Sizes(100, 200));

    let mut sc = stat(6, FILE);
    sc.size = 10_000;
    let mut sd = stat(7, FILE);
    sd.size = 10_000;
    match cmp.entry_eq(&mut inodes, &entry("g", sc), &entry("g", sd)) {
        Step::Contents(plan) => {
            assert_eq!(plan.size, 10_000);
            assert_eq!(plan.limit, 4096);
            assert_eq!(plan.leap, 4096);
            assert_eq!(plan.count, 1);
        }
        other => panic!("unexpected {:?}", other),
    }
}

#[test]
fn empty_files_are_equal() {
    let cmp = engine();
    let mut inodes = InodeMaps::new();
    let step = cmp.entry_eq(&mut inodes, &entry("e", stat(4, FILE)), &entry("e", stat(5, FILE)));
    assert!(matches!(step, Step::Done(Comparison::Equal)));
    assert!(matches!(cmp.contents_eq(0), Step::Done(Comparison::Equal)));
}

#[test]
fn chunk_eq_reports_contents() {
    let cmp = engine();
    let a = entry("f", stat(4, FILE));
    let b = entry("f", stat(5, FILE));
    assert_eq!(cmp.chunk_eq(&a, &b, 0, &[1, 2, 3], &[1, 2, 3]), Comparison::Equal);
    match cmp.chunk_eq(&a, &b, 512, &[1, 2, 3], &[1, 9, 3]) {
        Comparison::Unequal { diff, .. } => assert_eq!(diff, Diff::Contents(1, vec![1, 2, 3], vec![1, 9, 3])),
        other => panic!("unexpected {:?}", other),
    }
}

#[test]
fn symlinks_and_devices() {
    let cmp = engine();
    let mut inodes = InodeMaps::new();
    let la = entry("l", stat(4, 0o120777));
    let lb = entry("l", stat(5, 0o120777));
    assert!(matches!(cmp.entry_eq(&mut inodes, &la, &lb), Step::LinkTargets));
    assert_eq!(cmp.symlink_eq(&la, &lb, b"t".to_vec(), b"t".to_vec()), Comparison::Equal);
    match cmp.symlink_eq(&la, &lb, b"t".to_vec(), b"u".to_vec()) {
        Comparison::Unequal { diff, .. } => assert_eq!(diff, Diff::LinkTarget(b"t".to_vec(), b"u".to_vec())),
        other => panic!("unexpected {:?}", other),
    }

    let mut ca = stat(6, 0o020644);
    ca.rdev = 0x0103;
    let mut cb = stat(7, 0o020644);
    cb.rdev = 0x0105;
    let step = cmp.entry_eq(&mut inodes, &entry("c", ca), &entry("c", cb));
    assert_eq!(diff_of(step), Diff::DeviceTypes(0x0103, 0x0105));

    let step = cmp.entry_eq(&mut inodes, &entry("b", stat(8, 0o060644)), &entry("b", stat(9, 0o060644)));
    assert!(matches!(step, Step::Done(Comparison::Equal)));
    let step = cmp.entry_eq(&mut inodes, &entry("p", stat(10, 0o010644)), &entry("p", stat(11, 0o010644)));
    assert!(matches!(step, Step::Done(Comparison::Equal)));
    let step = cmp.entry_eq(&mut inodes, &entry("s", stat(12, 0o140644)), &entry("s", stat(13, 0o140644)));
    assert!(matches!(step, Step::Done(Comparison::Equal)));
}

#[test]
fn unknown_type_is_handed_back() {
    let cmp = engine();
    let mut inodes = InodeMaps::new();
    let step = cmp.entry_eq(&mut inodes, &entry("w", stat(4, 0o160644)), &entry("w", stat(5, 0o160644)));
    assert!(matches!(step, Step::UnknownType(0o160000)));
}

#[test]
fn file_kinds() {
    assert_eq!(file_kind(0o040755), Some(FileKind::Directory));
    assert_eq!(file_kind(0o100644), Some(FileKind::Regular));
    assert_eq!(file_kind(0o120777), Some(FileKind::Symlink));
    assert_eq!(file_kind(0o060660), Some(FileKind::BlockDevice));
    assert_eq!(file_kind(0o020666), Some(FileKind::CharDevice));
    assert_eq!(file_kind(0o010644), Some(FileKind::Fifo));
    assert_eq!(file_kind(0o140755), Some(FileKind::Socket));
    assert_eq!(file_kind(0o000644), None);
}

#[test]
fn children_of_the_root_are_named_alone() {
    let r = root(stat(2, DIR));
    match r.child_location_within(b"directory", 4096) {
        ChildLocation::Shared { parent_path, path } => {
            assert!(parent_path.is_empty());
            assert_eq!(path, b"directory".to_vec());
        }
        other => panic!("unexpected {:?}", other),
    }
    let e = r.child_location(b"directory").into_entry(stat(3, DIR));
    assert_eq!(e.display_path(), b"directory".to_vec());
    assert!(!e.is_root());
    assert!(r.is_root());
}

#[test]
fn test_path_max_reopens_handle() {
    let name = "a".repeat(255);
    let mut path = name.clone();
    while path.len() + 256 <= 4096 {
        path.push('/');
        path.push_str(&name);
    }
    let deep = EntryInfo { parent_path: Vec::new(), path: path.as_bytes().to_vec(), stat: stat(3, DIR) };
    match deep.child_location_within(name.as_bytes(), 4096) {
        ChildLocation::Reopened { sub_dir, parent_path, path: child } => {
            assert_eq!(sub_dir, path.as_bytes().to_vec());
            assert_eq!(parent_path, path.as_bytes().to_vec());
            assert_eq!(child, name.as_bytes().to_vec());
            let e = ChildLocation::Reopened { sub_dir, parent_path, path: child }.into_entry(stat(4, DIR));
            assert_eq!(e.display_path(), format!("{}/{}", path, name).into_bytes());
            match e.child_location_within(b"b", 4096) {
                ChildLocation::Shared { parent_path, path: p } => {
                    assert_eq!(parent_path, path.as_bytes().to_vec());
                    assert_eq!(p, format!("{}/b", name).into_bytes());
                }
                other => panic!("unexpected {:?}", other),
            }
        }
        other => panic!("unexpected {:?}", other),
    }
}

#[test]
fn path_is_unknown_when_sides_disagree() {
    let cmp = engine();
    let c = cmp.unequal(Diff::Sizes(1, 2), &entry("a", stat(4, FILE)), &entry("b", stat(5, FILE)));
    assert_eq!(
        c,
        Comparison::Unequal { diff: Diff::Sizes(1, 2), first: b"/one".to_vec(), second: b"/two".to_vec(), path: None }
    );
}

#[test]
fn comparing_an_entry_with_itself_is_equal_or_descends() {
    let cmp = engine();
    let mut inodes = InodeMaps::new();
    let mut s = stat(4, FILE);
    s.size = 3;
    let e = entry("f", s);
    assert!(matches!(cmp.entry_eq(&mut inodes, &e, &e), Step::Contents(_)));
    assert!(matches!(cmp.entry_eq(&mut inodes, &e, &e), Step::Done(Comparison::Equal)));
}

#[test]
fn swapping_sides_still_detects() {
    let cmp = engine();
    let a = root(stat(2, DIR));
    let one = names(&["x"]);
    let two = names(&["x", "y"]);
    assert!(matches!(cmp.dir_eq(&a, &a, &one, &two), DirStep::Done(Comparison::Unequal { .. })));
    assert!(matches!(cmp.dir_eq(&a, &a, &two, &one), DirStep::Done(Comparison::Unequal { .. })));
}
