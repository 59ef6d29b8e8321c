use cargo_count::fsutil::{Probe, Walker};
use cargo_count::worker::{Options, ReadPlan, Work, Worker, WorkerBuilder};

fn strs(v: &[&str]) -> Vec<String> {
    v.iter().map(|s| s.to_string()).collect()
}

fn probe(path: &str) -> Probe {
    match path {
        "/r" => Probe::Dir(strs(&["/r/a.rs", "/r/.git", "/r/sub", "/r/link", "/r/z.c"])),
        "/r/sub" => Probe::Dir(strs(&["/r/sub/b.rs", "/r/sub/skip.rs", "/r/sub/locked"])),
        "/r/sub/locked" => Probe::Unreadable,
        "/r/link" => Probe::Other,
        "/r/sub/b.rs" | "/r/a.rs" | "/r/z.c" | "/g/x.rs" | "/g/y.rs" => Probe::File,
        "/r/sub/skip.rs" => Probe::Ignored,
        "/g/*.rs" => Probe::Missing(strs(&["/g/x.rs", "/g/y.rs"])),
        _ => Probe::Missing(vec![]),
    }
}

fn walk(roots: &[&str], exclude: &[&str]) -> (Vec<String>, Vec<String>) {
    let mut w = Walker::new(strs(roots), strs(exclude), false);
    let mut asked = vec![];
    while let Some(req) = w.next() {
        assert!(!req.follow_links);
        assert!(w.is_waiting());
        asked.push(req.path.clone());
        w.feed(probe(&req.path));
        assert!(!w.is_waiting());
    }
    (asked, w.into_found())
}

#[test]
fn walk_is_depth_first_in_the_order_read() {
    let (asked, found) = walk(&["/r", "/g/*.rs", "/nothing"], &["/r/.git"]);
    assert_eq!(
        asked,
        strs(&[
            "/r", "/r/a.rs", "/r/sub", "/r/sub/b.rs", "/r/sub/skip.rs", "/r/sub/locked",
            "/r/link", "/r/z.c", "/g/*.rs", "/g/x.rs", "/g/y.rs", "/nothing",
        ])
    );
    assert_eq!(found, strs(&["/r/a.rs", "/r/sub/b.rs", "/r/z.c", "/g/x.rs", "/g/y.rs"]));
}

#[test]
fn excluded_paths_are_never_handed_out() {
    let (asked, found) = walk(&["/r", "/g/*.rs"], &["/r/sub", "/r/z.c", "/g/x.rs", "/r/.git"]);
    assert_eq!(asked, strs(&["/r", "/r/a.rs", "/r/link", "/g/*.rs", "/g/y.rs"]));
    assert_eq!(found, strs(&["/r/a.rs", "/g/y.rs"]));
}

#[test]
fn excluded_root_is_not_walked() {
    let (asked, found) = walk(&["/r"], &["/r"]);
    assert!(asked.is_empty());
    assert!(found.is_empty());
}

#[test]
fn walking_twice_finds_the_same_files() {
    assert_eq!(walk(&["/r", "/g/*.rs"], &["/r/.git"]), walk(&["/r", "/g/*.rs"], &["/r/.git"]));
}

#[test]
fn feeding_without_a_request_changes_nothing() {
    let mut w = Walker::new(strs(&["/r/a.rs"]), vec![], true);
    w.feed(Probe::File);
    assert!(w.found().is_empty());
    assert!(w.is_excluded("/x") == false);
    let req = w.next().unwrap();
    assert!(req.follow_links);
    assert_eq!(req.path, "/r/a.rs");
    w.feed(Probe::File);
    w.feed(Probe::File);
    assert_eq!(w.found(), &strs(&["/r/a.rs"]));
    assert!(w.next().is_none());
}

#[test]
fn worker_builder_sets_options() {
    assert_eq!(Options::default(), Options { mmap: false, eol: b'\n' });
    let w = WorkerBuilder::new().build();
    assert_eq!(w.eol(), b'\n');
    assert_eq!(w.plan(10), ReadPlan::Stream);
    let w = WorkerBuilder::new().mmap(true).build();
    assert_eq!(w.plan(10), ReadPlan::Mmap);
    assert_eq!(w.plan(0), ReadPlan::Stream);
    let w = WorkerBuilder::new().mmap(true).mmap(false).build();
    assert_eq!(w.plan(10), ReadPlan::Stream);
}

#[test]
fn worker_reports_paths_without_dot_slash() {
    let w = WorkerBuilder::new().build();
    assert_eq!(w.path_of(&Work::DirEntry("./src/a.rs".to_string())), "src/a.rs");
    assert_eq!(w.path_of(&Work::DirEntry("src/a.rs".to_string())), "src/a.rs");
    assert_eq!(w.path_of(&Work::DirEntry("./".to_string())), "");
    assert_eq!(w.path_of(&Work::DirEntry(".".to_string())), ".");
    assert_eq!(w.path_of(&Work::DirEntry("../a".to_string())), "../a");
}

#[test]
fn byte_order_marks() {
    assert!(Worker::has_bom(&[0xEF, 0xBB, 0xBF, b'a']));
    assert!(Worker::has_bom(&[0xFE, 0xFF]));
    assert!(Worker::has_bom(&[0xFF, 0xFE, 0]));
    assert!(!Worker::has_bom(&[0xEF, 0xBB]));
    assert!(!Worker::has_bom(b"abc"));
    assert!(!Worker::has_bom(&[]));
}
