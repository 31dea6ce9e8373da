//! The result set: every path found so far, and the view that the active
//! pattern leaves of them.

use crate::pattern::{
    characters, empty_query_matches_every_path, match_of_query_is_match_of_prefix,
    subsequence_match, Pattern,
};
use vstd::prelude::*;
use vstd::string::*;

verus! {

/// The character that separates the parts of a path.
pub const SEPARATOR: char = '/';

/// Into how many chunks a collection is cut when it is filtered.
pub const FILTER_CONCURRENCY_LIMIT: usize = 8;

/// The test that `pattern` puts to a path.
pub open spec fn matcher(pattern: Seq<char>) -> spec_fn(Seq<char>) -> bool {
    |path: Seq<char>| subsequence_match(pattern, path)
}

/// The paths of `paths` that match `pattern`, in their order.
pub open spec fn filter_paths(paths: Seq<Seq<char>>, pattern: Seq<char>) -> Seq<Seq<char>> {
    paths.filter(matcher(pattern))
}

/// `path` as it reads from `root_dir`: without the root in front of it, and
/// without one separator in front of what is left.
pub open spec fn relative_to(path: Seq<char>, root_dir: Seq<char>) -> Seq<char> {
    let below = if root_dir.is_prefix_of(path) {
        path.skip(root_dir.len() as int)
    } else {
        path
    };
    if below.len() > 0 && below[0] == SEPARATOR {
        below.skip(1)
    } else {
        below
    }
}

/// Each path of `paths` as it reads from `root_dir`.
pub open spec fn relative_paths(paths: Seq<Seq<char>>, root_dir: Seq<char>) -> Seq<Seq<char>> {
    paths.map_values(|path: Seq<char>| relative_to(path, root_dir))
}

/// Filtering one path more keeps it exactly when it matches.
pub proof fn lemma_filter_push(paths: Seq<Seq<char>>, path: Seq<char>, pattern: Seq<char>)
    ensures
        filter_paths(paths.push(path), pattern) == if subsequence_match(pattern, path) {
            filter_paths(paths, pattern).push(path)
        } else {
            filter_paths(paths, pattern)
        },
{
    reveal(Seq::filter);
    assert(paths.push(path).drop_last() =~= paths);
}

/// Filtering keeps nothing of no paths.
pub proof fn lemma_filter_empty(pattern: Seq<char>)
    ensures
        filter_paths(Seq::<Seq<char>>::empty(), pattern) == Seq::<Seq<char>>::empty(),
{
    reveal(Seq::filter);
}

/// Filtering two runs of paths one after the other is filtering them joined.
pub proof fn lemma_filter_concat(
    first: Seq<Seq<char>>,
    second: Seq<Seq<char>>,
    pattern: Seq<char>,
)
    ensures
        filter_paths(first + second, pattern) == filter_paths(first, pattern) + filter_paths(
            second,
            pattern,
        ),
{
    Seq::filter_distributes_over_add(first, second, matcher(pattern));
}

/// A query that extends another finds, among what the other found, all that
/// it finds among all the paths.
pub proof fn refinement_equivalence(
    raw: Seq<Seq<char>>,
    previous: Seq<char>,
    pattern: Seq<char>,
)
    requires
        previous.is_prefix_of(pattern),
    ensures
        filter_paths(filter_paths(raw, previous), pattern) == filter_paths(raw, pattern),
    decreases raw.len(),
{
    if raw.len() == 0 {
        lemma_filter_empty(previous);
        lemma_filter_empty(pattern);
    } else {
        let front = raw.drop_last();
        let path = raw.last();
        assert(raw =~= front.push(path));
        refinement_equivalence(front, previous, pattern);
        lemma_filter_push(front, path, previous);
        lemma_filter_push(front, path, pattern);
        if subsequence_match(pattern, path) {
            match_of_query_is_match_of_prefix(previous, pattern, path);
        }
        if subsequence_match(previous, path) {
            lemma_filter_push(filter_paths(front, previous), path, pattern);
        }
    }
}

/// The empty query keeps every path.
pub proof fn empty_query_keeps_every_path(raw: Seq<Seq<char>>)
    ensures
        filter_paths(raw, Seq::<char>::empty()) == raw,
    decreases raw.len(),
{
    if raw.len() == 0 {
        lemma_filter_empty(Seq::<char>::empty());
    } else {
        let front = raw.drop_last();
        let path = raw.last();
        assert(raw =~= front.push(path));
        empty_query_keeps_every_path(front);
        lemma_filter_push(front, path, Seq::<char>::empty());
        empty_query_matches_every_path(path);
    }
}

/// Filtering keeps exactly the paths that match: a path that matches is in
/// the result as often as it was among the paths, and one that does not match
/// is not in it.
pub proof fn filter_keeps_exactly_the_matches(raw: Seq<Seq<char>>, pattern: Seq<char>, path: Seq<char>)
    ensures
        filter_paths(raw, pattern).to_multiset().count(path) == if subsequence_match(
            pattern,
            path,
        ) {
            raw.to_multiset().count(path)
        } else {
            0
        },
    decreases raw.len(),
{
    broadcast use vstd::seq_lib::group_to_multiset_ensures;

    if raw.len() == 0 {
        lemma_filter_empty(pattern);
    } else {
        let front = raw.drop_last();
        let last = raw.last();
        assert(raw =~= front.push(last));
        filter_keeps_exactly_the_matches(front, pattern, path);
        lemma_filter_push(front, last, pattern);
    }
}

/// `bounds` cuts the first `len` places into consecutive, non-empty ranges.
pub open spec fn is_partition(bounds: Seq<(usize, usize)>, len: int) -> bool {
    &&& forall|k: int| 0 <= k < bounds.len() ==> (#[trigger] bounds[k]).0 < bounds[k].1 <= len
    &&& bounds.len() > 0 ==> bounds[0].0 == 0
    &&& forall|k: int, next: int|
        0 <= k && next == k + 1 && next < bounds.len() ==> (#[trigger] bounds[k]).1 == (
        #[trigger] bounds[next]).0
    &&& len == if bounds.len() == 0 {
        0
    } else {
        bounds[bounds.len() - 1].1 as int
    }
}

/// The length of the chunks into which `len` paths are cut: the least that
/// lets `FILTER_CONCURRENCY_LIMIT` chunks hold them all.
pub open spec fn chunk_length(len: int) -> int {
    (len + FILTER_CONCURRENCY_LIMIT - 1) / (FILTER_CONCURRENCY_LIMIT as int)
}

/// The chunks into which a collection of `len` paths is cut for filtering:
/// ranges of `chunk_length(len)` places one after the other, the last one
/// shorter where the paths run out; so never more than
/// `FILTER_CONCURRENCY_LIMIT` of them.
pub fn chunk_bounds(len: usize) -> (bounds: Vec<(usize, usize)>)
    ensures
        is_partition(bounds@, len as int),
        bounds@.len() <= FILTER_CONCURRENCY_LIMIT,
        forall|k: int|
            0 <= k < bounds@.len() ==> (#[trigger] bounds@[k]).0 == k * chunk_length(len as int),
        forall|k: int|
            0 <= k < bounds@.len() ==> (#[trigger] bounds@[k]).1 == if (k + 1) * chunk_length(
                len as int,
            ) < len {
                (k + 1) * chunk_length(len as int)
            } else {
                len as int
            },
{
    let mut length: usize = len / FILTER_CONCURRENCY_LIMIT;
    if len % FILTER_CONCURRENCY_LIMIT != 0 {
        length = length + 1;
    }
    let mut bounds: Vec<(usize, usize)> = Vec::new();
    let mut from: usize = 0;
    while from < len
        invariant
            from <= len,
            length == chunk_length(len as int),
            len <= FILTER_CONCURRENCY_LIMIT * length,
            len > 0 ==> length > 0,
            is_partition(bounds@, from as int),
            from == len || from == bounds@.len() * length,
            bounds@.len() <= FILTER_CONCURRENCY_LIMIT,
            forall|k: int| 0 <= k < bounds@.len() ==> (#[trigger] bounds@[k]).0 == k * length,
            forall|k: int|
                0 <= k < bounds@.len() ==> (#[trigger] bounds@[k]).1 == if (k + 1) * length < len {
                    (k + 1) * length
                } else {
                    len as int
                },
        decreases len - from,
    {
        let to: usize = if len - from <= length {
            len
        } else {
            from + length
        };
        proof {
            let cut: int = bounds@.len() as int;
            assert(cut < FILTER_CONCURRENCY_LIMIT) by (nonlinear_arith)
                requires
                    from == cut * length,
                    from < len,
                    len <= FILTER_CONCURRENCY_LIMIT * length,
                    0 <= cut,
            ;
            assert((cut + 1) * length == cut * length + length) by (nonlinear_arith);
        }
        bounds.push((from, to));
        from = to;
    }
    bounds
}

/// The paths of `collection` from place `from` up to place `to` that match
/// `pattern`, in their order.
fn filter_range(collection: &Vec<String>, pattern: &Pattern, from: usize, to: usize) -> (matched:
    Vec<String>)
    requires
        from <= to <= collection@.len(),
    ensures
        matched.deep_view() == filter_paths(
            collection.deep_view().subrange(from as int, to as int),
            pattern@,
        ),
{
    let mut matched: Vec<String> = Vec::new();
    let mut i: usize = from;
    proof {
        assert(collection.deep_view().subrange(from as int, from as int) =~= Seq::<
            Seq<char>,
        >::empty());
        lemma_filter_empty(pattern@);
        assert(matched.deep_view() =~= Seq::<Seq<char>>::empty());
    }
    while i < to
        invariant
            from <= i <= to <= collection@.len(),
            matched.deep_view() == filter_paths(
                collection.deep_view().subrange(from as int, i as int),
                pattern@,
            ),
        decreases to - i,
    {
        let ghost seen = collection.deep_view().subrange(from as int, i as int);
        let ghost kept = matched.deep_view();
        proof {
            assert(collection.deep_view().subrange(from as int, i + 1) =~= seen.push(
                collection@[i as int]@,
            ));
            lemma_filter_push(seen, collection@[i as int]@, pattern@);
        }
        if pattern.matches(collection[i].as_str()) {
            matched.push(collection[i].clone());
            proof {
                assert(matched.deep_view() =~= kept.push(collection@[i as int]@));
            }
        }
        i = i + 1;
    }
    matched
}

/// `parts` holds, range by range of `bounds`, the paths of `collection` in
/// that range that match `pattern`.
pub open spec fn are_filtered_chunks(
    parts: Seq<Vec<String>>,
    collection: Seq<Seq<char>>,
    pattern: Seq<char>,
    bounds: Seq<(usize, usize)>,
) -> bool {
    &&& parts.len() == bounds.len()
    &&& forall|k: int|
        0 <= k < parts.len() ==> (#[trigger] parts[k]).deep_view() == filter_paths(
            collection.subrange(bounds[k].0 as int, bounds[k].1 as int),
            pattern,
        )
}

/// Filters the ranges of `bounds` at the same time, each on a thread of its
/// own, by `crossbeam::scope`, `ScopedThreadBuilder::spawn` and
/// `ScopedJoinHandle::join`. Every thread runs `filter_range` on one range;
/// what the threads return comes back in the order of `bounds`. `None` where a
/// thread could not be started or did not return.
#[verifier::external_body]
fn filter_chunks(collection: &Vec<String>, pattern: &Pattern, bounds: &Vec<(usize, usize)>) -> (parts:
    Option<Vec<Vec<String>>>)
    requires
        forall|k: int|
            0 <= k < bounds@.len() ==> (#[trigger] bounds@[k]).0 <= bounds@[k].1
                <= collection@.len(),
    ensures
        parts matches Some(parts) ==> are_filtered_chunks(
            parts@,
            collection.deep_view(),
            pattern@,
            bounds@,
        ),
{
    crossbeam::scope(
        |scope|
            {
                let handles: Vec<_> = bounds.iter().map(
                    |range|
                        scope.builder().spawn(
                            move |_| filter_range(collection, pattern, range.0, range.1),
                        ),
                ).collect();
                handles.into_iter().map(|handle| handle.ok()?.join().ok()).collect()
            },
    ).ok().flatten()
}

/// The paths of `collection` that match `pattern`, in their order. The
/// collection is cut into chunks that are filtered at the same time; where
/// that cannot be had, it is filtered in one run.
pub fn filter_collection(collection: &Vec<String>, pattern: &Pattern) -> (matched: Vec<String>)
    ensures
        matched.deep_view() == filter_paths(collection.deep_view(), pattern@),
{
    let len: usize = collection.len();
    let bounds = chunk_bounds(len);
    let ghost all = collection.deep_view();
    proof {
        assert(all.subrange(0, len as int) =~= all);
    }
    match filter_chunks(collection, pattern, &bounds) {
        Some(parts) => {
            let mut matched: Vec<String> = Vec::new();
            let ghost chunks = parts@;
            proof {
                assert(all.subrange(0, 0) =~= Seq::<Seq<char>>::empty());
                lemma_filter_empty(pattern@);
                assert(matched.deep_view() =~= Seq::<Seq<char>>::empty());
            }
            let ghost mut upto: int = 0;
            for part in it: parts
                invariant
                    it.seq() == chunks,
                    are_filtered_chunks(chunks, all, pattern@, bounds@),
                    is_partition(bounds@, len as int),
                    len == all.len(),
                    0 <= upto <= len,
                    it.index() == 0 ==> upto == 0,
                    it.index() > 0 ==> upto == bounds@[it.index() - 1].1,
                    matched.deep_view() == filter_paths(all.subrange(0, upto), pattern@),
            {
                let ghost k = it.index() as int;
                let ghost before = matched.deep_view();
                let ghost from = bounds@[k].0 as int;
                let ghost to = bounds@[k].1 as int;
                let mut part = part;
                proof {
                    assert(part == chunks[k]);
                    if k > 0 {
                        assert(bounds@[k - 1].1 == bounds@[k].0);
                    }
                    assert(from == upto);
                    assert(all.subrange(0, to) =~= all.subrange(0, from) + all.subrange(from, to));
                    lemma_filter_concat(all.subrange(0, from), all.subrange(from, to), pattern@);
                    upto = to;
                }
                matched.append(&mut part);
                proof {
                    assert(matched.deep_view() =~= before + chunks[k].deep_view());
                }
            }
            proof {
                assert(upto == len);
            }
            matched
        },
        None => filter_range(collection, pattern, 0, len),
    }
}

/// `path` as it reads from `root_dir`: the root is taken from its front where
/// it stands there, then one separator where one stands in front of the rest.
pub fn relative_path(path: &str, root_dir: &str) -> (relative: String)
    ensures
        relative@ == relative_to(path@, root_dir@),
{
    let root = characters(root_dir);
    path_below(path, &root)
}

/// `path` as it reads from the directory whose name has the characters
/// `root`.
fn path_below(path: &str, root: &Vec<char>) -> (relative: String)
    ensures
        relative@ == relative_to(path@, root@),
{
    let letters = characters(path);
    let len: usize = letters.len();
    let mut under_root: bool = root.len() <= len;
    let mut i: usize = 0;
    while under_root && i < root.len()
        invariant
            i <= root@.len(),
            under_root ==> root@.len() <= letters@.len(),
            under_root ==> forall|k: int| 0 <= k < i ==> root@[k] == letters@[k],
            !under_root ==> !root@.is_prefix_of(letters@),
        decreases root@.len() - i + if under_root { 1int } else { 0int },
    {
        if root[i] != letters[i] {
            under_root = false;
            proof {
                assert(letters@.subrange(0, root@.len() as int)[i as int] == letters@[i as int]);
            }
        } else {
            i = i + 1;
        }
    }
    proof {
        if under_root {
            assert(root@ =~= letters@.subrange(0, root@.len() as int));
        }
    }
    let mut start: usize = if under_root {
        root.len()
    } else {
        0
    };
    if start < len && letters[start] == SEPARATOR {
        start = start + 1;
    }
    let relative = path.substring_char(start, len).to_owned();
    proof {
        assert(relative@ =~= relative_to(path@, root@));
    }
    relative
}

/// What a result set stands for: the paths found, in the order in which they
/// came, and the pattern that filters them, if one was applied.
pub struct ResultSetView {
    pub raw: Seq<Seq<char>>,
    pub active_pattern: Option<Seq<char>>,
}

impl ResultSetView {
    /// The paths on show: those that match the active pattern, or all of them
    /// where no pattern was applied.
    pub open spec fn visible(self) -> Seq<Seq<char>> {
        match self.active_pattern {
            Some(pattern) => filter_paths(self.raw, pattern),
            None => self.raw,
        }
    }

    /// The result set after `pattern` was applied.
    pub open spec fn with_filter(self, pattern: Seq<char>) -> ResultSetView {
        ResultSetView { raw: self.raw, active_pattern: Some(pattern) }
    }

    /// The result set after `paths` were added.
    pub open spec fn with_paths(self, paths: Seq<Seq<char>>) -> ResultSetView {
        ResultSetView { raw: self.raw + paths, active_pattern: self.active_pattern }
    }

    /// The result set after each of `patterns` was applied in turn.
    pub open spec fn with_filters(self, patterns: Seq<Seq<char>>) -> ResultSetView
        decreases patterns.len(),
    {
        if patterns.len() == 0 {
            self
        } else {
            self.with_filters(patterns.drop_last()).with_filter(patterns.last())
        }
    }
}

/// Applying a query and then one that extends it shows what applying the
/// second alone shows; and that is what the second finds among what the first
/// showed.
pub proof fn extending_a_query_shows_the_same(
    result_set: ResultSetView,
    previous: Seq<char>,
    pattern: Seq<char>,
)
    requires
        previous.is_prefix_of(pattern),
    ensures
        result_set.with_filter(previous).with_filter(pattern).visible() == result_set.with_filter(
            pattern,
        ).visible(),
        filter_paths(result_set.with_filter(previous).visible(), pattern) == result_set.with_filter(
            pattern,
        ).visible(),
{
    refinement_equivalence(result_set.raw, previous, pattern);
}

/// Whatever patterns were applied before, the empty query brings every path
/// held back on show.
pub proof fn empty_query_restores_every_path(result_set: ResultSetView, patterns: Seq<Seq<char>>)
    ensures
        result_set.with_filters(patterns).raw == result_set.raw,
        result_set.with_filters(patterns).with_filter(Seq::<char>::empty()).visible()
            == result_set.raw,
    decreases patterns.len(),
{
    if patterns.len() > 0 {
        empty_query_restores_every_path(result_set, patterns.drop_last());
    }
    empty_query_keeps_every_path(result_set.raw);
}

/// The paths found so far, with the last view that a pattern left of them.
pub struct ResultSet {
    results: Vec<String>,
    filtered_results: Vec<String>,
    filter: Pattern,
    filter_applied: bool,
}

impl View for ResultSet {
    type V = ResultSetView;

    closed spec fn view(&self) -> ResultSetView {
        ResultSetView {
            raw: self.results.deep_view(),
            active_pattern: if self.filter_applied {
                Some(self.filter@)
            } else {
                None
            },
        }
    }
}

impl ResultSet {
    /// While a pattern is applied, the kept view is that pattern's view of all
    /// the paths.
    #[verifier::type_invariant]
    spec fn view_is_current(&self) -> bool {
        self.filter_applied ==> self.filtered_results.deep_view() == filter_paths(
            self.results.deep_view(),
            self.filter@,
        )
    }

    /// A result set with no paths and no pattern.
    pub fn new() -> (result_set: ResultSet)
        ensures
            result_set@.raw == Seq::<Seq<char>>::empty(),
            result_set@.active_pattern.is_none(),
    {
        let result_set = ResultSet {
            results: Vec::new(),
            filtered_results: Vec::new(),
            filter: Pattern::new(""),
            filter_applied: false,
        };
        proof {
            assert(result_set.results.deep_view() =~= Seq::<Seq<char>>::empty());
        }
        result_set
    }

    /// Takes in `results`, each as it reads from `root_dir`, behind the paths
    /// already held. The active pattern stays, and its view takes in those of
    /// the new paths that match.
    pub fn add_many(&mut self, results: Vec<String>, root_dir: &str)
        ensures
            final(self)@ == old(self)@.with_paths(relative_paths(results.deep_view(), root_dir@)),
    {
        let applied: bool = self.filter_applied;
        self.filter_applied = false;
        let mut held: Vec<String> = Vec::new();
        core::mem::swap(&mut held, &mut self.results);
        let ghost before = held.deep_view();
        let ghost added = relative_paths(results.deep_view(), root_dir@);
        let root = characters(root_dir);
        let count: usize = results.len();
        let mut i: usize = 0;
        proof {
            assert(before + added.take(0) =~= before);
        }
        while i < count
            invariant
                i <= count == results@.len(),
                root@ == root_dir@,
                added == relative_paths(results.deep_view(), root_dir@),
                held.deep_view() == before + added.take(i as int),
            decreases count - i,
        {
            let ghost so_far = held.deep_view();
            let sanitized = path_below(results[i].as_str(), &root);
            held.push(sanitized);
            proof {
                assert(added[i as int] == relative_to(results@[i as int]@, root_dir@));
                assert(added.take(i + 1) =~= added.take(i as int).push(added[i as int]));
                assert(held.deep_view() =~= so_far.push(sanitized@));
            }
            i = i + 1;
        }
        proof {
            assert(added.take(count as int) =~= added);
        }
        self.results = held;
        if applied {
            self.re_run_filter();
        }
    }

    /// The paths on show.
    pub fn to_vec(&self) -> (paths: Vec<String>)
        ensures
            paths.deep_view() == self@.visible(),
    {
        proof {
            use_type_invariant(self);
        }
        if self.filter_applied {
            copy_paths(&self.filtered_results)
        } else {
            copy_paths(&self.results)
        }
    }

    /// Makes `pattern` the active pattern and returns the paths that it
    /// leaves on show: those of all the paths held that match it. Where
    /// `pattern` extends the pattern that was active, only the paths that
    /// were on show are tested again, which gives the same.
    pub fn apply_filter(&mut self, pattern: Pattern) -> (paths: Vec<String>)
        ensures
            final(self)@ == old(self)@.with_filter(pattern@),
            paths.deep_view() == filter_paths(old(self)@.raw, pattern@),
    {
        if self.additive_filter(&pattern) {
            self.apply_to_filtered(pattern)
        } else {
            self.apply_to_all(pattern)
        }
    }

    /// How many paths are held, on show or not.
    pub fn number_of_results(&self) -> (count: usize)
        ensures
            count == self@.raw.len(),
    {
        self.results.len()
    }

    /// Applies the pattern last applied to all the paths held, which may be
    /// more than it has seen.
    fn re_run_filter(&mut self)
        ensures
            final(self)@.raw == old(self).results.deep_view(),
            final(self)@.active_pattern == Some(old(self).filter@),
    {
        let pattern = self.filter.clone();
        let _ = self.apply_to_all(pattern);
    }

    /// Whether `pattern` only narrows the view on show: a pattern is active,
    /// and `pattern` extends it.
    fn additive_filter(&self, pattern: &Pattern) -> (additive: bool)
        ensures
            additive == (self@.active_pattern matches Some(active) && active.is_prefix_of(
                pattern@,
            )),
    {
        self.filter_applied && pattern.extends(&self.filter)
    }

    /// Applies `pattern` to the paths on show.
    fn apply_to_filtered(&mut self, pattern: Pattern) -> (paths: Vec<String>)
        requires
            old(self)@.active_pattern matches Some(active) && active.is_prefix_of(pattern@),
        ensures
            final(self)@.raw == old(self)@.raw,
            final(self)@.active_pattern == Some(pattern@),
            paths.deep_view() == filter_paths(old(self)@.raw, pattern@),
            paths.deep_view() == final(self)@.visible(),
    {
        proof {
            use_type_invariant(&*self);
            refinement_equivalence(self.results.deep_view(), self.filter@, pattern@);
        }
        let matched = filter_collection(&self.filtered_results, &pattern);
        let paths = copy_paths(&matched);
        self.filter_applied = false;
        self.filtered_results = matched;
        self.filter = pattern;
        self.filter_applied = true;
        paths
    }

    /// Applies `pattern` to all the paths held.
    fn apply_to_all(&mut self, pattern: Pattern) -> (paths: Vec<String>)
        ensures
            final(self)@.raw == old(self).results.deep_view(),
            final(self)@.active_pattern == Some(pattern@),
            paths.deep_view() == filter_paths(old(self).results.deep_view(), pattern@),
            paths.deep_view() == final(self)@.visible(),
    {
        let matched = filter_collection(&self.results, &pattern);
        let paths = copy_paths(&matched);
        self.filter_applied = false;
        self.filtered_results = matched;
        self.filter = pattern;
        self.filter_applied = true;
        paths
    }
}

/// A copy of `paths`.
fn copy_paths(paths: &Vec<String>) -> (copy: Vec<String>)
    ensures
        copy.deep_view() == paths.deep_view(),
{
    let copy = paths.clone();
    proof {
        assert forall|i: int| 0 <= i < paths@.len() implies copy@[i]@ == paths@[i]@ by {
            assert(cloned::<String>(paths@[i], copy@[i]));
        }
        assert(copy.deep_view() =~= paths.deep_view());
    }
    copy
}

} // verus!
