//! The file finder: it takes in what the scanner finds, applies the newest
//! search phrase, and says which view the subscribers are to get.

use crate::directory_scanner::{
    files_below, fresh_scanner, DirectoryScanner, Node, ThreadBudget, CONCURRENCY_LIMIT,
};
use crate::event_service::EventService;
use crate::pattern::Pattern;
use crate::result_set::{filter_paths, relative_paths, ResultSet, ResultSetView};
use vstd::prelude::*;

verus! {

/// With this many paths or more, a batch from the scanner is taken in without
/// a view going out: the list would be drawn again for nothing.
pub const DISPLAY_LIMIT: usize = 100;

/// What a file finder stands for: its result set, and the directory from
/// which the paths are read.
pub struct FileFinderState {
    pub result_set: ResultSetView,
    pub root_dir: Seq<char>,
}

impl FileFinderState {
    /// The file finder after it took in `batch` from the scanner.
    pub open spec fn after_batch(self, batch: Seq<Seq<char>>) -> FileFinderState {
        FileFinderState {
            result_set: self.result_set.with_paths(relative_paths(batch, self.root_dir)),
            root_dir: self.root_dir,
        }
    }

    /// The file finder after it took in each of `batches` in turn.
    pub open spec fn after_batches(self, batches: Seq<Seq<Seq<char>>>) -> FileFinderState
        decreases batches.len(),
    {
        if batches.len() == 0 {
            self
        } else {
            self.after_batches(batches.drop_last()).after_batch(batches.last())
        }
    }
}

/// However many batches the scanner sends, and however it cuts what it finds
/// into them, every path of every batch is held afterwards, read from the
/// root, behind the paths held before and in the order in which they came.
/// The root and the active pattern stay.
pub proof fn every_batch_is_taken_in(file_finder: FileFinderState, batches: Seq<Seq<Seq<char>>>)
    ensures
        file_finder.after_batches(batches).root_dir == file_finder.root_dir,
        file_finder.after_batches(batches).result_set.active_pattern
            == file_finder.result_set.active_pattern,
        file_finder.after_batches(batches).result_set.raw == file_finder.result_set.raw
            + relative_paths(batches.flatten(), file_finder.root_dir),
        file_finder.after_batches(batches).result_set.raw.len() == file_finder.result_set.raw.len()
            + batches.flatten().len(),
    decreases batches.len(),
{
    let root_dir = file_finder.root_dir;
    let held = file_finder.result_set.raw;
    if batches.len() == 0 {
        assert(held + relative_paths(batches.flatten(), root_dir) =~= held);
    } else {
        let earlier = batches.drop_last();
        let last = batches.last();
        every_batch_is_taken_in(file_finder, earlier);
        assert(batches =~= earlier.push(last));
        earlier.lemma_flatten_push(last);
        assert(relative_paths(earlier.flatten() + last, root_dir) =~= relative_paths(
            earlier.flatten(),
            root_dir,
        ) + relative_paths(last, root_dir));
        assert(held + relative_paths(earlier.flatten(), root_dir) + relative_paths(last, root_dir)
            =~= held + (relative_paths(earlier.flatten(), root_dir) + relative_paths(
            last,
            root_dir,
        )));
    }
}

/// A scan that sends every regular file below `nodes` once, in whatever
/// batches and in whatever order, leaves the file finder with one path more
/// for each of those files: the file's path read from the root. With no
/// pattern applied, these paths are on show behind what was held before.
pub proof fn a_whole_scan_is_taken_in(
    file_finder: FileFinderState,
    batches: Seq<Seq<Seq<char>>>,
    nodes: Seq<Node>,
)
    requires
        batches.flatten().to_multiset() == files_below(nodes),
    ensures
        file_finder.after_batches(batches).result_set.raw == file_finder.result_set.raw
            + relative_paths(batches.flatten(), file_finder.root_dir),
        file_finder.after_batches(batches).result_set.raw.len() == file_finder.result_set.raw.len()
            + files_below(nodes).len(),
        file_finder.result_set.active_pattern.is_none() ==> file_finder.after_batches(
            batches,
        ).result_set.visible() == file_finder.result_set.raw + relative_paths(
            batches.flatten(),
            file_finder.root_dir,
        ),
{
    every_batch_is_taken_in(file_finder, batches);
    vstd::seq_lib::to_multiset_len(batches.flatten());
}

/// The owner of the result set.
pub struct FileFinder {
    result_set: ResultSet,
    root_dir: String,
}

impl View for FileFinder {
    type V = FileFinderState;

    closed spec fn view(&self) -> FileFinderState {
        FileFinderState { result_set: self.result_set@, root_dir: self.root_dir@ }
    }
}

/// What the loop that applies the search phrases does next.
#[derive(Debug, PartialEq, Eq)]
pub enum Filtering {
    /// Send this view to every subscriber, then wait on.
    Publish(Vec<String>),
    /// No phrase waits: wait on.
    Idle,
    /// The session is over: leave the loop.
    Stop,
}

impl FileFinder {
    /// A file finder with no paths, no pattern and no root.
    pub fn new() -> (file_finder: FileFinder)
        ensures
            file_finder@.result_set.raw == Seq::<Seq<char>>::empty(),
            file_finder@.result_set.active_pattern.is_none(),
            file_finder@.root_dir == Seq::<char>::empty(),
    {
        FileFinder { result_set: ResultSet::new(), root_dir: String::new() }
    }

    /// Begins a search below `root_dir`: hands out the scan of that directory
    /// and the budget for its workers, none of them active yet.
    pub fn start(&mut self, root_dir: String) -> (scan: (DirectoryScanner, ThreadBudget))
        ensures
            final(self)@.root_dir == root_dir@,
            final(self)@.result_set == old(self)@.result_set,
            scan.0@ == fresh_scanner(root_dir@),
            scan.1@.active == 0,
            scan.1@.limit == CONCURRENCY_LIMIT,
    {
        self.root_dir = root_dir.clone();
        (DirectoryScanner::new(root_dir), ThreadBudget::new(CONCURRENCY_LIMIT))
    }

    /// Takes in one batch from the scanner: its paths, read from the root,
    /// go behind the paths held. While fewer than `DISPLAY_LIMIT` paths are
    /// held, the view that results goes out to the subscribers.
    pub fn listen_for_scanner_updates(&mut self, results: Vec<String>) -> (view: Option<Vec<String>>)
        ensures
            final(self)@ == old(self)@.after_batch(results.deep_view()),
            view.is_some() == (final(self)@.result_set.raw.len() < DISPLAY_LIMIT),
            view matches Some(paths) ==> paths.deep_view() == final(self)@.result_set.visible(),
    {
        self.result_set.add_many(results, self.root_dir.as_str());
        if self.result_set.number_of_results() < DISPLAY_LIMIT {
            Some(self.result_set.to_vec())
        } else {
            None
        }
    }

    /// The view that goes out to the subscribers when the scan has ended.
    pub fn update_subscribers(&self) -> (view: Vec<String>)
        ensures
            view.deep_view() == self@.result_set.visible(),
    {
        self.result_set.to_vec()
    }

    /// One turn of the loop that applies the search phrases, taken when the
    /// loop wakes. Once the session is over the loop stops, whatever waits.
    /// Else every phrase that waits leaves the queue, the newest of them
    /// becomes the active pattern, and its view goes out; the phrases before
    /// it are never applied. Where none waits, the loop waits on.
    pub fn listen_for_filters(&mut self, event_service: &mut EventService, finished: bool) -> (next:
        Filtering)
        ensures
            final(self)@.root_dir == old(self)@.root_dir,
            final(self)@.result_set.raw == old(self)@.result_set.raw,
            final(event_service)@.file_finder_events == old(event_service)@.file_finder_events,
            finished ==> {
                &&& next is Stop
                &&& final(self)@ == old(self)@
                &&& final(event_service)@ == old(event_service)@
            },
            !finished && old(event_service)@.search_phrases.len() == 0 ==> {
                &&& next is Idle
                &&& final(self)@ == old(self)@
                &&& final(event_service)@ == old(event_service)@
            },
            !finished && old(event_service)@.search_phrases.len() > 0 ==> {
                &&& next matches Filtering::Publish(paths)
                &&& paths.deep_view() == filter_paths(
                    old(self)@.result_set.raw,
                    old(event_service)@.search_phrases.last(),
                )
                &&& final(self)@.result_set.active_pattern == Some(
                    old(event_service)@.search_phrases.last(),
                )
                &&& final(event_service)@.search_phrases == Seq::<Seq<char>>::empty()
            },
    {
        if finished {
            return Filtering::Stop;
        }
        match event_service.fetch_last_search_phrase() {
            Some(last_event) => {
                let pattern: Pattern = last_event.to_pattern();
                Filtering::Publish(self.result_set.apply_filter(pattern))
            },
            None => {
                proof {
                    assert(event_service@.search_phrases =~= old(event_service)@.search_phrases);
                }
                Filtering::Idle
            },
        }
    }
}

} // verus!
