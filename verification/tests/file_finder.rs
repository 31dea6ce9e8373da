use fuzzy::directory_scanner::{
    scan_tree, DirEntry, EntryKind, Node, ThreadBudget, CONCURRENCY_LIMIT,
};
use fuzzy::event_service::EventService;
use fuzzy::file_finder::{FileFinder, Filtering, DISPLAY_LIMIT};
use fuzzy::search_phrase::SearchPhrase;

fn phrase(text: &str) -> SearchPhrase {
    SearchPhrase::from_string(text.to_string())
}

fn strings(paths: &[&str]) -> Vec<String> {
    paths.iter().map(|path| path.to_string()).collect()
}

fn fruit() -> FileFinder {
    let mut file_finder = FileFinder::new();
    file_finder.start("/r".to_string());
    file_finder.listen_for_scanner_updates(strings(&["/r/apple.txt", "/r/banana.txt", "/r/app.rs"]));
    file_finder
}

#[test]
fn a_new_file_finder_shows_nothing() {
    let file_finder = FileFinder::new();
    assert_eq!(file_finder.update_subscribers(), Vec::<String>::new());
}

#[test]
fn start_hands_out_the_scan_of_the_root() {
    let mut file_finder = FileFinder::new();
    let (scanner, budget) = file_finder.start("/home/u".to_string());
    assert_eq!(scanner.root_dir(), "/home/u");
    assert_eq!(scanner.finish(), Vec::<String>::new());
    assert_eq!(budget.active(), 0);
    assert_eq!(budget.limit(), 9);
    assert_eq!(CONCURRENCY_LIMIT, 9);
}

#[test]
fn a_batch_is_taken_in_relative_to_the_root() {
    let mut file_finder = FileFinder::new();
    file_finder.start("/home/u".to_string());
    let view = file_finder.listen_for_scanner_updates(strings(&["/home/u/a", "/home/u/d/b"]));
    assert_eq!(view, Some(strings(&["a", "d/b"])));
    let view = file_finder.listen_for_scanner_updates(strings(&["/home/u/c"]));
    assert_eq!(view, Some(strings(&["a", "d/b", "c"])));
    assert_eq!(file_finder.update_subscribers(), strings(&["a", "d/b", "c"]));
}

#[test]
fn batches_may_come_in_any_order() {
    let mut one = FileFinder::new();
    one.start("/r".to_string());
    one.listen_for_scanner_updates(strings(&["/r/a", "/r/b"]));
    one.listen_for_scanner_updates(strings(&["/r/c"]));
    let mut other = FileFinder::new();
    other.start("/r".to_string());
    other.listen_for_scanner_updates(strings(&["/r/c"]));
    other.listen_for_scanner_updates(strings(&["/r/a", "/r/b"]));
    let mut left = one.update_subscribers();
    let mut right = other.update_subscribers();
    left.sort();
    right.sort();
    assert_eq!(left, right);
    assert_eq!(left, strings(&["a", "b", "c"]));
}

#[test]
fn no_view_goes_out_once_the_display_limit_is_reached() {
    assert_eq!(DISPLAY_LIMIT, 100);
    let mut file_finder = FileFinder::new();
    file_finder.start("/r".to_string());
    let batch: Vec<String> = (0..99).map(|number| format!("/r/{}", number)).collect();
    let view = file_finder.listen_for_scanner_updates(batch);
    assert_eq!(view.map(|paths| paths.len()), Some(99));
    let view = file_finder.listen_for_scanner_updates(strings(&["/r/99"]));
    assert_eq!(view, None);
    let view = file_finder.listen_for_scanner_updates(strings(&["/r/100"]));
    assert_eq!(view, None);
    assert_eq!(file_finder.update_subscribers().len(), 101);
}

#[test]
fn the_newest_of_the_waiting_phrases_is_the_one_applied() {
    let mut file_finder = fruit();
    let mut event_service = EventService::new();
    event_service.trigger_search_phrase_changed(phrase("a"));
    event_service.trigger_search_phrase_changed(phrase("ap"));
    event_service.trigger_search_phrase_changed(phrase("app"));
    assert_eq!(
        file_finder.listen_for_filters(&mut event_service, false),
        Filtering::Publish(strings(&["apple.txt", "app.rs"]))
    );
    assert_eq!(file_finder.update_subscribers(), strings(&["apple.txt", "app.rs"]));
    assert_eq!(file_finder.listen_for_filters(&mut event_service, false), Filtering::Idle);
    assert!(event_service.fetch_last_search_phrase().is_none());
}

#[test]
fn a_superseded_phrase_is_never_applied() {
    let mut file_finder = fruit();
    let mut event_service = EventService::new();
    event_service.trigger_search_phrase_changed(phrase("ban"));
    event_service.trigger_search_phrase_changed(phrase("app"));
    assert_eq!(
        file_finder.listen_for_filters(&mut event_service, false),
        Filtering::Publish(strings(&["apple.txt", "app.rs"]))
    );
}

#[test]
fn each_wake_applies_what_was_typed_since_the_last() {
    let mut file_finder = fruit();
    let mut event_service = EventService::new();
    event_service.trigger_search_phrase_changed(phrase("ap"));
    assert_eq!(
        file_finder.listen_for_filters(&mut event_service, false),
        Filtering::Publish(strings(&["apple.txt", "app.rs"]))
    );
    event_service.trigger_search_phrase_changed(phrase("appl"));
    assert_eq!(
        file_finder.listen_for_filters(&mut event_service, false),
        Filtering::Publish(strings(&["apple.txt"]))
    );
    event_service.trigger_search_phrase_changed(phrase(""));
    assert_eq!(
        file_finder.listen_for_filters(&mut event_service, false),
        Filtering::Publish(strings(&["apple.txt", "banana.txt", "app.rs"]))
    );
}

#[test]
fn a_wake_with_no_phrase_changes_nothing() {
    let mut file_finder = fruit();
    let mut event_service = EventService::new();
    assert_eq!(file_finder.listen_for_filters(&mut event_service, false), Filtering::Idle);
    assert_eq!(
        file_finder.update_subscribers(),
        strings(&["apple.txt", "banana.txt", "app.rs"])
    );
}

#[test]
fn the_filter_loop_stops_when_the_session_is_over() {
    let mut file_finder = fruit();
    let mut event_service = EventService::new();
    assert_eq!(file_finder.listen_for_filters(&mut event_service, true), Filtering::Stop);
    event_service.trigger_search_phrase_changed(phrase("ap"));
    assert_eq!(file_finder.listen_for_filters(&mut event_service, true), Filtering::Stop);
    assert_eq!(
        file_finder.update_subscribers(),
        strings(&["apple.txt", "banana.txt", "app.rs"])
    );
    let last = event_service.fetch_last_search_phrase();
    assert_eq!(last.map(|phrase| phrase.content), Some("ap".to_string()));
}

#[test]
fn the_filter_loop_leaves_the_result_lists_alone() {
    let mut file_finder = fruit();
    let mut event_service = EventService::new();
    event_service.trigger_file_finder_event(strings(&["x"]));
    event_service.trigger_search_phrase_changed(phrase("ap"));
    file_finder.listen_for_filters(&mut event_service, false);
    assert_eq!(event_service.fetch_last_file_finder_event(), Some(strings(&["x"])));
}

#[test]
fn a_batch_that_comes_after_a_phrase_is_filtered_by_it() {
    let mut file_finder = fruit();
    let mut event_service = EventService::new();
    event_service.trigger_search_phrase_changed(phrase("ap"));
    file_finder.listen_for_filters(&mut event_service, false);
    let view = file_finder.listen_for_scanner_updates(strings(&["/r/grape", "/r/kiwi"]));
    assert_eq!(view, Some(strings(&["apple.txt", "app.rs", "grape"])));
}

fn node(path: &str, kind: EntryKind, children: Vec<Node>) -> Node {
    Node { entry: DirEntry { path: path.to_string(), kind }, children }
}

fn tree() -> Node {
    node(
        "/r",
        EntryKind::Directory,
        vec![
            node("/r/a.txt", EntryKind::File, vec![]),
            node(
                "/r/src",
                EntryKind::Directory,
                vec![
                    node("/r/src/lib.rs", EntryKind::File, vec![]),
                    node("/r/src/main.rs", EntryKind::File, vec![]),
                ],
            ),
            node(
                "/r/link",
                EntryKind::Symlink,
                vec![node("/r/link/hidden", EntryKind::File, vec![])],
            ),
            node("/r/b.txt", EntryKind::File, vec![]),
        ],
    )
}

#[test]
fn a_whole_scan_is_taken_in_however_it_is_cut_into_batches() {
    let mut found = Vec::new();
    scan_tree(&tree(), &mut ThreadBudget::new(CONCURRENCY_LIMIT), &mut found);
    for size in 1..6 {
        let mut file_finder = FileFinder::new();
        file_finder.start("/r".to_string());
        for batch in found.chunks(size) {
            file_finder.listen_for_scanner_updates(batch.to_vec());
        }
        let mut view = file_finder.update_subscribers();
        assert_eq!(view.len(), 4);
        view.sort();
        assert_eq!(view, strings(&["a.txt", "b.txt", "src/lib.rs", "src/main.rs"]));
    }
}

#[test]
fn an_empty_batch_changes_nothing() {
    let mut file_finder = fruit();
    let view = file_finder.listen_for_scanner_updates(Vec::new());
    assert_eq!(view, Some(strings(&["apple.txt", "banana.txt", "app.rs"])));
}
