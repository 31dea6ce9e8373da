//! The directory scanner: what a worker does with each entry of the
//! directory that it reads, and the budget that bounds how many workers run
//! at a time.

use vstd::multiset::Multiset;
use vstd::prelude::*;

verus! {

/// How many workers may scan at the same time.
pub const CONCURRENCY_LIMIT: usize = 9;

/// What a thread budget stands for: how many workers are active, and how many
/// may be.
pub struct ThreadBudgetState {
    pub active: nat,
    pub limit: nat,
}

/// The count of active scan workers, shared by all of them. One lock guards
/// it, so each operation on it is one step.
pub struct ThreadBudget {
    active: usize,
    limit: usize,
}

impl View for ThreadBudget {
    type V = ThreadBudgetState;

    closed spec fn view(&self) -> ThreadBudgetState {
        ThreadBudgetState { active: self.active as nat, limit: self.limit as nat }
    }
}

impl ThreadBudget {
    /// No more workers are active than may be.
    #[verifier::type_invariant]
    spec fn within_limit(&self) -> bool {
        self.active <= self.limit
    }

    /// A budget for `limit` workers, none of them active.
    pub fn new(limit: usize) -> (budget: ThreadBudget)
        ensures
            budget@.active == 0,
            budget@.limit == limit,
    {
        ThreadBudget { active: 0, limit }
    }

    /// How many workers are active: never more than the limit.
    pub fn active(&self) -> (active: usize)
        ensures
            active == self@.active,
            0 <= active <= self@.limit,
    {
        proof {
            use_type_invariant(self);
        }
        self.active
    }

    /// How many workers may be active.
    pub fn limit(&self) -> (limit: usize)
        ensures
            limit == self@.limit,
    {
        self.limit
    }

    /// Counts one worker more where the limit allows it, and says whether it
    /// did.
    pub fn try_acquire(&mut self) -> (acquired: bool)
        ensures
            acquired == (old(self)@.active < old(self)@.limit),
            final(self)@.limit == old(self)@.limit,
            final(self)@.active == if acquired {
                old(self)@.active + 1
            } else {
                old(self)@.active
            },
            final(self)@.active <= final(self)@.limit,
    {
        if self.active < self.limit {
            self.active = self.active + 1;
            true
        } else {
            proof {
                use_type_invariant(&*self);
            }
            false
        }
    }

    /// Counts one worker less; with no worker active, nothing changes.
    pub fn release(&mut self)
        ensures
            final(self)@.limit == old(self)@.limit,
            final(self)@.active == if old(self)@.active > 0 {
                (old(self)@.active - 1) as nat
            } else {
                0
            },
            final(self)@.active <= final(self)@.limit,
    {
        proof {
            use_type_invariant(&*self);
        }
        if self.active > 0 {
            self.active = self.active - 1;
        }
    }
}

/// What kind of thing a directory entry is, the entry itself looked at and
/// not what a link leads to.
#[derive(Clone, Copy, PartialEq, Eq, Structural, Debug)]
pub enum EntryKind {
    /// A regular file.
    File,
    /// A directory.
    Directory,
    /// A symbolic link, to whatever.
    Symlink,
    /// Anything else, and an entry whose kind could not be read.
    Other,
}

/// One entry of a directory: its path and its kind.
pub struct DirEntry {
    pub path: String,
    pub kind: EntryKind,
}

/// What a directory scanner stands for: the directory that it scans, and the
/// paths of the files that it has found there so far.
pub struct DirectoryScannerState {
    pub root_dir: Seq<char>,
    pub filepaths: Seq<Seq<char>>,
}

/// The scan of one directory.
pub struct DirectoryScanner {
    root_dir: String,
    filepaths: Vec<String>,
}

impl View for DirectoryScanner {
    type V = DirectoryScannerState;

    closed spec fn view(&self) -> DirectoryScannerState {
        DirectoryScannerState {
            root_dir: self.root_dir@,
            filepaths: self.filepaths.deep_view(),
        }
    }
}

/// Where the scan goes after an entry.
pub enum Descent {
    /// Nowhere: the entry was a file and is noted, or it is passed over.
    Stay,
    /// Into a directory, on the worker that found it.
    Inline(DirectoryScanner),
    /// Into a directory, on a new worker, which the budget has counted.
    Spawn(DirectoryScanner),
}

/// The scanner that starts on `root_dir`, with no file found.
pub open spec fn fresh_scanner(root_dir: Seq<char>) -> DirectoryScannerState {
    DirectoryScannerState { root_dir, filepaths: Seq::<Seq<char>>::empty() }
}

impl DirectoryScanner {
    /// The scan of `root_dir`, before its first entry.
    pub fn new(root_dir: String) -> (scanner: DirectoryScanner)
        ensures
            scanner@ == fresh_scanner(root_dir@),
    {
        let scanner = DirectoryScanner { root_dir, filepaths: Vec::new() };
        proof {
            assert(scanner@.filepaths =~= Seq::<Seq<char>>::empty());
        }
        scanner
    }

    /// The directory that is scanned.
    pub fn root_dir(&self) -> (root_dir: &String)
        ensures
            root_dir@ == self@.root_dir,
    {
        &self.root_dir
    }

    /// Takes in one entry of the directory. A file's path is noted. A
    /// directory is scanned in turn: on a new worker while the budget has
    /// room, which then counts one worker more, else on this worker. A
    /// symbolic link is passed over, whatever it leads to, and so is anything
    /// else.
    pub fn scan(&mut self, entry: DirEntry, current_threads: &mut ThreadBudget) -> (descent:
        Descent)
        ensures
            final(self)@.root_dir == old(self)@.root_dir,
            final(current_threads)@.limit == old(current_threads)@.limit,
            final(current_threads)@.active <= final(current_threads)@.limit,
            entry.kind == EntryKind::File ==> {
                &&& descent is Stay
                &&& final(self)@.filepaths == old(self)@.filepaths.push(entry.path@)
                &&& final(current_threads)@ == old(current_threads)@
            },
            entry.kind == EntryKind::Directory ==> {
                &&& final(self)@.filepaths == old(self)@.filepaths
                &&& if old(current_threads)@.active < old(current_threads)@.limit {
                    &&& descent matches Descent::Spawn(scanner)
                    &&& scanner@ == fresh_scanner(entry.path@)
                    &&& final(current_threads)@.active == old(current_threads)@.active + 1
                } else {
                    &&& descent matches Descent::Inline(scanner)
                    &&& scanner@ == fresh_scanner(entry.path@)
                    &&& final(current_threads)@ == old(current_threads)@
                }
            },
            entry.kind == EntryKind::Symlink || entry.kind == EntryKind::Other ==> {
                &&& descent is Stay
                &&& final(self)@ == old(self)@
                &&& final(current_threads)@ == old(current_threads)@
            },
    {
        proof {
            use_type_invariant(&*current_threads);
        }
        match entry.kind {
            EntryKind::File => {
                self.filepaths.push(entry.path);
                proof {
                    assert(self@.filepaths =~= old(self)@.filepaths.push(entry.path@));
                }
                Descent::Stay
            },
            EntryKind::Directory => {
                if self.concurrency_limit_reached(current_threads) {
                    Descent::Inline(self.scan_directory(entry.path))
                } else {
                    Descent::Spawn(self.scan_directory_within_thread(entry.path, current_threads))
                }
            },
            EntryKind::Symlink => Descent::Stay,
            EntryKind::Other => Descent::Stay,
        }
    }

    /// Ends the scan of this directory and hands out the files found in it,
    /// in the order of their entries: the batch that goes to the subscriber.
    pub fn finish(self) -> (filepaths: Vec<String>)
        ensures
            filepaths.deep_view() == self@.filepaths,
    {
        self.filepaths
    }

    /// Whether as many workers are active as may be.
    pub fn concurrency_limit_reached(&self, current_threads: &ThreadBudget) -> (reached: bool)
        ensures
            reached == (current_threads@.active >= current_threads@.limit),
    {
        current_threads.active() >= current_threads.limit()
    }

    /// The scan of the directory `path`, to run on this worker.
    fn scan_directory(&self, path: String) -> (scanner: DirectoryScanner)
        ensures
            scanner@ == fresh_scanner(path@),
    {
        DirectoryScanner::new(path)
    }

    /// The scan of the directory `path`, to run on a new worker, which the
    /// budget counts from now on.
    fn scan_directory_within_thread(&self, path: String, thread_count: &mut ThreadBudget) -> (scanner:
        DirectoryScanner)
        requires
            old(thread_count)@.active < old(thread_count)@.limit,
        ensures
            scanner@ == fresh_scanner(path@),
            final(thread_count)@.limit == old(thread_count)@.limit,
            final(thread_count)@.active == old(thread_count)@.active + 1,
    {
        let _ = thread_count.try_acquire();
        DirectoryScanner::new(path)
    }
}

/// A directory tree held in memory: an entry and, under it, the entries of
/// the directory that it is or, for a symbolic link, leads to.
pub struct Node {
    pub entry: DirEntry,
    pub children: Vec<Node>,
}

/// The regular files among `nodes` and below them, links not followed.
pub open spec fn files_below(nodes: Seq<Node>) -> Multiset<Seq<char>>
    decreases nodes,
{
    if nodes.len() == 0 {
        Multiset::empty()
    } else {
        files_below(nodes.drop_last()).add(files_at(nodes.last()))
    }
}

/// The regular files at `node` and below it, links not followed.
pub open spec fn files_at(node: Node) -> Multiset<Seq<char>>
    decreases node,
{
    match node.entry.kind {
        EntryKind::File => Multiset::singleton(node.entry.path@),
        EntryKind::Directory => files_below(node.children@),
        EntryKind::Symlink => Multiset::empty(),
        EntryKind::Other => Multiset::empty(),
    }
}

/// Two sums that are equal stay equal when the same is added on both sides,
/// to whichever part of each.
proof fn lemma_add_on_both_sides(
    found: Multiset<Seq<char>>,
    noted: Multiset<Seq<char>>,
    start: Multiset<Seq<char>>,
    below: Multiset<Seq<char>>,
    more: Multiset<Seq<char>>,
)
    requires
        found.add(noted) == start.add(below),
    ensures
        found.add(noted.add(more)) == start.add(below.add(more)),
        found.add(more).add(noted) == start.add(below.add(more)),
{
    broadcast use vstd::multiset::group_multiset_axioms;

    assert forall|path: Seq<char>|
        found.add(noted.add(more)).count(path) == start.add(below.add(more)).count(path) by {
        assert(found.add(noted).count(path) == start.add(below).count(path));
        assert(found.add(noted).count(path) == found.count(path) + noted.count(path));
        assert(start.add(below).count(path) == start.count(path) + below.count(path));
        assert(noted.add(more).count(path) == noted.count(path) + more.count(path));
        assert(below.add(more).count(path) == below.count(path) + more.count(path));
    }
    assert(found.add(noted.add(more)) =~= start.add(below.add(more)));
    assert(found.add(more).add(noted) =~= found.add(noted.add(more)));
}

/// Scans the tree below `root` as the workers would: each entry goes through
/// the scanner of its directory, each directory is scanned to its end where
/// it is met, and a worker that the budget counted is taken off the count
/// when its directory is done. The batch of each directory goes behind
/// `found` when that directory is done.
///
/// Whatever the budget holds, what is found is every regular file of the
/// tree, each once, and nothing that lies behind a symbolic link; and the
/// budget ends as it began.
pub fn scan_tree(root: &Node, current_threads: &mut ThreadBudget, found: &mut Vec<String>)
    ensures
        final(found).deep_view().to_multiset() == old(found).deep_view().to_multiset().add(
            files_below(root.children@),
        ),
        final(current_threads)@ == old(current_threads)@,
{
    let scanner = DirectoryScanner::new(root.entry.path.clone());
    scan_entries(scanner, &root.children, current_threads, found);
}

/// Scans the directory of `scanner`, whose entries are `entries`, and every
/// directory below it.
fn scan_entries(
    scanner: DirectoryScanner,
    entries: &Vec<Node>,
    current_threads: &mut ThreadBudget,
    found: &mut Vec<String>,
)
    requires
        scanner@.filepaths.len() == 0,
    ensures
        final(found).deep_view().to_multiset() == old(found).deep_view().to_multiset().add(
            files_below(entries@),
        ),
        final(current_threads)@ == old(current_threads)@,
    decreases entries,
{
    broadcast use vstd::multiset::group_multiset_axioms;

    let mut scanner = scanner;
    let count: usize = entries.len();
    let mut i: usize = 0;
    proof {
        assert(entries@.take(0) =~= Seq::<Node>::empty());
        assert(scanner@.filepaths =~= Seq::<Seq<char>>::empty());
        vstd::seq_lib::to_multiset_len(scanner@.filepaths);
        assert(scanner@.filepaths.to_multiset() =~= Multiset::empty());
        assert(found.deep_view().to_multiset().add(Multiset::empty())
            =~= found.deep_view().to_multiset());
    }
    while i < count
        invariant
            i <= count == entries@.len(),
            current_threads@ == old(current_threads)@,
            found.deep_view().to_multiset().add(scanner@.filepaths.to_multiset()) == old(
                found,
            ).deep_view().to_multiset().add(files_below(entries@.take(i as int))),
        decreases count - i,
    {
        let node = &entries[i];
        let ghost seen = entries@.take(i as int);
        let ghost found_before = found.deep_view().to_multiset();
        let ghost noted_before = scanner@.filepaths;
        let ghost start = old(found).deep_view().to_multiset();
        proof {
            assert(entries@.take(i + 1).drop_last() =~= seen);
            assert(entries@.take(i + 1).last() == *node);
            assert(files_below(entries@.take(i + 1)) == files_below(seen).add(files_at(*node)));
        }
        let entry = DirEntry { path: node.entry.path.clone(), kind: node.entry.kind };
        match scanner.scan(entry, current_threads) {
            Descent::Stay => {},
            Descent::Inline(below) => {
                scan_entries(below, &node.children, current_threads, found);
            },
            Descent::Spawn(below) => {
                scan_entries(below, &node.children, current_threads, found);
                current_threads.release();
            },
        }
        proof {
            if node.entry.kind == EntryKind::File {
                vstd::seq_lib::to_multiset_build(noted_before, node.entry.path@);
                assert(scanner@.filepaths.to_multiset() =~= noted_before.to_multiset().add(
                    files_at(*node),
                ));
            } else if node.entry.kind != EntryKind::Directory {
                assert(noted_before.to_multiset().add(files_at(*node))
                    =~= noted_before.to_multiset());
            }
            lemma_add_on_both_sides(
                found_before,
                noted_before.to_multiset(),
                start,
                files_below(seen),
                files_at(*node),
            );
        }
        i = i + 1;
    }
    proof {
        assert(entries@.take(count as int) =~= entries@);
    }
    let ghost before = found.deep_view();
    let mut batch = scanner.finish();
    let ghost added = batch.deep_view();
    found.append(&mut batch);
    proof {
        assert(found.deep_view() =~= before + added);
        vstd::seq_lib::lemma_multiset_commutative(before, added);
    }
}

} // verus!
