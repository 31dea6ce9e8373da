use fuzzy::directory_scanner::{
    scan_tree, Descent, DirEntry, DirectoryScanner, EntryKind, Node, ThreadBudget,
    CONCURRENCY_LIMIT,
};

fn entry(path: &str, kind: EntryKind) -> DirEntry {
    DirEntry { path: path.to_string(), kind }
}

fn file(path: &str) -> Node {
    Node { entry: entry(path, EntryKind::File), children: Vec::new() }
}

fn directory(path: &str, children: Vec<Node>) -> Node {
    Node { entry: entry(path, EntryKind::Directory), children }
}

fn symlink(path: &str, children: Vec<Node>) -> Node {
    Node { entry: entry(path, EntryKind::Symlink), children }
}

fn strings(paths: &[&str]) -> Vec<String> {
    paths.iter().map(|path| path.to_string()).collect()
}

fn sorted(mut paths: Vec<String>) -> Vec<String> {
    paths.sort();
    paths
}

fn project() -> Node {
    directory(
        "/p",
        vec![
            file("/p/Cargo.toml"),
            directory(
                "/p/src",
                vec![
                    file("/p/src/lib.rs"),
                    directory("/p/src/bin", vec![file("/p/src/bin/main.rs")]),
                    directory("/p/src/empty", vec![]),
                ],
            ),
            symlink("/p/link", vec![file("/p/link/secret.txt")]),
            Node { entry: entry("/p/socket", EntryKind::Other), children: Vec::new() },
            file("/p/README.md"),
        ],
    )
}

#[test]
fn a_new_budget_has_no_active_worker() {
    let budget = ThreadBudget::new(9);
    assert_eq!(budget.active(), 0);
    assert_eq!(budget.limit(), 9);
}

#[test]
fn the_budget_counts_up_to_its_limit_and_no_further() {
    let mut budget = ThreadBudget::new(3);
    assert!(budget.try_acquire());
    assert!(budget.try_acquire());
    assert!(budget.try_acquire());
    assert_eq!(budget.active(), 3);
    assert!(!budget.try_acquire());
    assert!(!budget.try_acquire());
    assert_eq!(budget.active(), 3);
    assert_eq!(budget.limit(), 3);
}

#[test]
fn a_budget_of_none_never_counts_a_worker() {
    let mut budget = ThreadBudget::new(0);
    assert!(!budget.try_acquire());
    assert_eq!(budget.active(), 0);
}

#[test]
fn release_counts_down_and_stops_at_none() {
    let mut budget = ThreadBudget::new(2);
    budget.try_acquire();
    budget.try_acquire();
    budget.release();
    assert_eq!(budget.active(), 1);
    assert!(budget.try_acquire());
    budget.release();
    budget.release();
    assert_eq!(budget.active(), 0);
    budget.release();
    assert_eq!(budget.active(), 0);
    assert_eq!(budget.limit(), 2);
}

#[test]
fn the_active_count_stays_within_the_limit_whatever_is_asked() {
    let mut budget = ThreadBudget::new(CONCURRENCY_LIMIT);
    for step in 0..1000 {
        if step % 3 == 2 {
            budget.release();
        } else {
            budget.try_acquire();
        }
        assert!(budget.active() <= budget.limit());
    }
}

#[test]
fn a_new_scanner_has_found_nothing() {
    let scanner = DirectoryScanner::new("/p".to_string());
    assert_eq!(scanner.root_dir(), "/p");
    assert_eq!(scanner.finish(), Vec::<String>::new());
}

#[test]
fn a_file_is_noted() {
    let mut scanner = DirectoryScanner::new("/p".to_string());
    let mut budget = ThreadBudget::new(9);
    let descent = scanner.scan(entry("/p/a.txt", EntryKind::File), &mut budget);
    assert!(matches!(descent, Descent::Stay));
    let descent = scanner.scan(entry("/p/b.txt", EntryKind::File), &mut budget);
    assert!(matches!(descent, Descent::Stay));
    assert_eq!(budget.active(), 0);
    assert_eq!(scanner.finish(), strings(&["/p/a.txt", "/p/b.txt"]));
}

#[test]
fn a_directory_goes_to_a_new_worker_while_the_budget_has_room() {
    let mut scanner = DirectoryScanner::new("/p".to_string());
    let mut budget = ThreadBudget::new(1);
    match scanner.scan(entry("/p/src", EntryKind::Directory), &mut budget) {
        Descent::Spawn(below) => {
            assert_eq!(below.root_dir(), "/p/src");
            assert_eq!(below.finish(), Vec::<String>::new());
        }
        _ => panic!("the directory should go to a new worker"),
    }
    assert_eq!(budget.active(), 1);
    assert_eq!(scanner.finish(), Vec::<String>::new());
}

#[test]
fn a_directory_is_scanned_in_place_when_the_budget_is_used_up() {
    let mut scanner = DirectoryScanner::new("/p".to_string());
    let mut budget = ThreadBudget::new(1);
    budget.try_acquire();
    assert!(scanner.concurrency_limit_reached(&budget));
    match scanner.scan(entry("/p/src", EntryKind::Directory), &mut budget) {
        Descent::Inline(below) => assert_eq!(below.root_dir(), "/p/src"),
        _ => panic!("the directory should be scanned in place"),
    }
    assert_eq!(budget.active(), 1);
}

#[test]
fn the_limit_is_reached_with_as_many_workers_as_may_be() {
    let scanner = DirectoryScanner::new("/p".to_string());
    let mut budget = ThreadBudget::new(2);
    assert!(!scanner.concurrency_limit_reached(&budget));
    budget.try_acquire();
    assert!(!scanner.concurrency_limit_reached(&budget));
    budget.try_acquire();
    assert!(scanner.concurrency_limit_reached(&budget));
    assert!(scanner.concurrency_limit_reached(&ThreadBudget::new(0)));
}

#[test]
fn a_symbolic_link_is_passed_over() {
    let mut scanner = DirectoryScanner::new("/p".to_string());
    let mut budget = ThreadBudget::new(9);
    let descent = scanner.scan(entry("/p/link", EntryKind::Symlink), &mut budget);
    assert!(matches!(descent, Descent::Stay));
    assert_eq!(budget.active(), 0);
    assert_eq!(scanner.finish(), Vec::<String>::new());
}

#[test]
fn anything_else_is_passed_over() {
    let mut scanner = DirectoryScanner::new("/p".to_string());
    let mut budget = ThreadBudget::new(9);
    let descent = scanner.scan(entry("/p/socket", EntryKind::Other), &mut budget);
    assert!(matches!(descent, Descent::Stay));
    assert_eq!(budget.active(), 0);
    assert_eq!(scanner.finish(), Vec::<String>::new());
}

#[test]
fn a_scan_finds_every_regular_file() {
    let mut budget = ThreadBudget::new(CONCURRENCY_LIMIT);
    let mut found = Vec::new();
    scan_tree(&project(), &mut budget, &mut found);
    assert_eq!(
        sorted(found),
        strings(&[
            "/p/Cargo.toml",
            "/p/README.md",
            "/p/src/bin/main.rs",
            "/p/src/lib.rs",
        ])
    );
    assert_eq!(budget.active(), 0);
}

#[test]
fn a_scan_finds_the_same_files_under_any_limit() {
    let mut expected = Vec::new();
    scan_tree(&project(), &mut ThreadBudget::new(CONCURRENCY_LIMIT), &mut expected);
    let expected = sorted(expected);
    for limit in 0..5 {
        let mut budget = ThreadBudget::new(limit);
        let mut found = Vec::new();
        scan_tree(&project(), &mut budget, &mut found);
        assert_eq!(sorted(found), expected);
        assert_eq!(budget.active(), 0);
    }
}

#[test]
fn a_scan_finds_the_same_files_with_workers_already_active() {
    let mut budget = ThreadBudget::new(2);
    budget.try_acquire();
    let mut found = Vec::new();
    scan_tree(&project(), &mut budget, &mut found);
    assert_eq!(found.len(), 4);
    assert_eq!(budget.active(), 1);
}

#[test]
fn a_scan_does_not_go_through_a_symbolic_link() {
    let tree = directory(
        "/t",
        vec![
            symlink("/t/loop", vec![file("/t/loop/inside.txt"), directory("/t/loop/d", vec![])]),
            file("/t/outside.txt"),
        ],
    );
    let mut found = Vec::new();
    scan_tree(&tree, &mut ThreadBudget::new(CONCURRENCY_LIMIT), &mut found);
    assert_eq!(found, strings(&["/t/outside.txt"]));
}

#[test]
fn a_scan_of_an_empty_directory_finds_nothing() {
    let mut found = strings(&["/before"]);
    scan_tree(&directory("/e", vec![]), &mut ThreadBudget::new(9), &mut found);
    assert_eq!(found, strings(&["/before"]));
}

#[test]
fn the_batch_of_a_directory_comes_when_the_directory_is_done() {
    let tree = directory(
        "/t",
        vec![file("/t/a"), directory("/t/d", vec![file("/t/d/b")]), file("/t/c")],
    );
    let mut found = Vec::new();
    scan_tree(&tree, &mut ThreadBudget::new(9), &mut found);
    assert_eq!(found, strings(&["/t/d/b", "/t/a", "/t/c"]));
}
