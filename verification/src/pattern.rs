//! Match patterns: a query's characters, tested against a path as a
//! case-insensitive subsequence.

use vstd::prelude::*;

verus! {

/// The last ASCII character.
pub const ASCII_END: char = '\x7f';

/// The lower-case form of `c` as `char::to_lowercase` gives it: the first
/// character of the mapping, which for nearly all characters is the only one.
pub uninterp spec fn lowercase_of(c: char) -> char;

/// The form of `c` by which letters are compared, so that upper and lower
/// case are one. An ASCII capital has its small letter, any other ASCII
/// character is itself, and a character beyond ASCII has its lower-case form.
pub open spec fn fold(c: char) -> char {
    if 'A' <= c && c <= 'Z' {
        ((c as u8) + 32) as char
    } else if c <= ASCII_END {
        c
    } else {
        lowercase_of(c)
    }
}

/// `positions` aligns every character of `query`, in order, to an occurrence
/// of the same letter in `path`.
pub open spec fn is_alignment(query: Seq<char>, path: Seq<char>, positions: Seq<int>) -> bool {
    &&& positions.len() == query.len()
    &&& forall|i: int| 0 <= i < positions.len() ==> 0 <= #[trigger] positions[i] < path.len()
    &&& forall|i: int, j: int|
        0 <= i < j < positions.len() ==> #[trigger] positions[i] < #[trigger] positions[j]
    &&& forall|i: int|
        0 <= i < positions.len() ==> fold(query[i]) == fold(path[#[trigger] positions[i]])
}

/// The characters of `query` occur in `path` in order, not necessarily next
/// to each other, upper and lower case taken as equal.
pub open spec fn subsequence_match(query: Seq<char>, path: Seq<char>) -> bool {
    exists|positions: Seq<int>| is_alignment(query, path, positions)
}

/// How many leading characters of `query` a left-to-right scan of `path`
/// consumes when it takes each query character at its first chance.
pub open spec fn scan_progress(query: Seq<char>, path: Seq<char>) -> nat
    decreases path.len(),
{
    if path.len() == 0 {
        0
    } else {
        let before = scan_progress(query, path.drop_last());
        if before < query.len() && fold(query[before as int]) == fold(path.last()) {
            before + 1
        } else {
            before
        }
    }
}

/// The scan never consumes more than the query holds.
pub proof fn lemma_scan_progress_bounded(query: Seq<char>, path: Seq<char>)
    ensures
        scan_progress(query, path) <= query.len(),
        scan_progress(query, path) <= path.len(),
    decreases path.len(),
{
    if path.len() > 0 {
        lemma_scan_progress_bounded(query, path.drop_last());
    }
}

/// What the scan consumed has an alignment in `path`.
pub proof fn lemma_scan_progress_aligned(query: Seq<char>, path: Seq<char>)
    ensures
        subsequence_match(query.take(scan_progress(query, path) as int), path),
    decreases path.len(),
{
    lemma_scan_progress_bounded(query, path);
    if path.len() == 0 {
        assert(is_alignment(query.take(0), path, Seq::<int>::empty()));
    } else {
        let shorter = path.drop_last();
        let before = scan_progress(query, shorter);
        lemma_scan_progress_aligned(query, shorter);
        lemma_scan_progress_bounded(query, shorter);
        let positions = choose|positions: Seq<int>|
            is_alignment(query.take(before as int), shorter, positions);
        if before < query.len() && fold(query[before as int]) == fold(path.last()) {
            let extended = positions.push(path.len() - 1);
            assert(is_alignment(query.take(before as int + 1), path, extended));
        } else {
            assert(is_alignment(query.take(before as int), path, positions));
        }
    }
}

/// No alignment reaches further into the query than the scan does.
pub proof fn lemma_scan_progress_dominates(
    query: Seq<char>,
    path: Seq<char>,
    count: int,
    positions: Seq<int>,
)
    requires
        0 <= count <= query.len(),
        is_alignment(query.take(count), path, positions),
    ensures
        count <= scan_progress(query, path),
    decreases path.len(),
{
    if count > 0 {
        let last = positions[count - 1];
        assert(0 <= last < path.len());
        let shorter = path.drop_last();
        let before = scan_progress(query, shorter);
        if last == path.len() - 1 {
            let earlier = positions.drop_last();
            assert(is_alignment(query.take(count - 1), shorter, earlier)) by {
                assert forall|i: int| 0 <= i < earlier.len() implies 0 <= #[trigger] earlier[i]
                    < shorter.len() by {
                    assert(positions[i] < positions[count - 1]);
                }
                assert(query.take(count - 1) =~= query.take(count).drop_last());
            }
            lemma_scan_progress_dominates(query, shorter, count - 1, earlier);
            if before == count - 1 {
                assert(query.take(count)[count - 1] == query[count - 1]);
                assert(fold(query[before as int]) == fold(path.last()));
            }
        } else {
            assert(is_alignment(query.take(count), shorter, positions)) by {
                assert forall|i: int| 0 <= i < positions.len() implies 0 <= #[trigger] positions[i]
                    < shorter.len() by {
                    if i < count - 1 {
                        assert(positions[i] < positions[count - 1]);
                    }
                }
            }
            lemma_scan_progress_dominates(query, shorter, count, positions);
        }
    }
}

/// A path matches exactly when the scan consumes the whole query.
pub proof fn lemma_match_is_full_scan(query: Seq<char>, path: Seq<char>)
    ensures
        subsequence_match(query, path) <==> scan_progress(query, path) == query.len(),
{
    lemma_scan_progress_bounded(query, path);
    assert(query.take(query.len() as int) =~= query);
    if subsequence_match(query, path) {
        let positions = choose|positions: Seq<int>| is_alignment(query, path, positions);
        lemma_scan_progress_dominates(query, path, query.len() as int, positions);
    }
    if scan_progress(query, path) == query.len() {
        lemma_scan_progress_aligned(query, path);
    }
}

/// The empty query matches every path.
pub proof fn empty_query_matches_every_path(path: Seq<char>)
    ensures
        subsequence_match(Seq::<char>::empty(), path),
{
    assert(is_alignment(Seq::<char>::empty(), path, Seq::<int>::empty()));
}

/// A path that matches a query matches each of the query's prefixes.
pub proof fn match_of_query_is_match_of_prefix(shorter: Seq<char>, longer: Seq<char>, path: Seq<char>)
    requires
        shorter.is_prefix_of(longer),
        subsequence_match(longer, path),
    ensures
        subsequence_match(shorter, path),
{
    let positions = choose|positions: Seq<int>| is_alignment(longer, path, positions);
    let kept = positions.take(shorter.len() as int);
    assert(is_alignment(shorter, path, kept));
}

/// `char::to_lowercase` maps a character to its lower-case form, one
/// character or more, as the Unicode tables of the standard library have it;
/// the first of them is returned, or `c` itself should there be none. The
/// same character always has the same form.
#[verifier::external_body]
fn lowercase(c: char) -> (lower: char)
    ensures
        lower == lowercase_of(c),
{
    c.to_lowercase().next().unwrap_or(c)
}

/// The form of `c` by which letters are compared.
pub fn fold_char(c: char) -> (folded: char)
    ensures
        folded == fold(c),
{
    if 'A' <= c && c <= 'Z' {
        ((c as u8) + 32u8) as char
    } else if c <= ASCII_END {
        c
    } else {
        lowercase(c)
    }
}

/// The characters of `text`, in order.
pub fn characters(text: &str) -> (letters: Vec<char>)
    ensures
        letters@ == text@,
{
    let mut letters: Vec<char> = Vec::new();
    for c in it: text.chars()
        invariant
            letters@ == it.seq().take(it.index() as int),
    {
        letters.push(c);
    }
    letters
}

/// A query made ready for matching. Its view is the query's characters.
pub struct Pattern {
    letters: Vec<char>,
}

impl View for Pattern {
    type V = Seq<char>;

    closed spec fn view(&self) -> Seq<char> {
        self.letters@
    }
}

impl Clone for Pattern {
    fn clone(&self) -> (copy: Self)
        ensures
            copy@ == self@,
    {
        Pattern { letters: self.letters.clone() }
    }
}

impl Pattern {
    /// The pattern of `query`: its characters, in order.
    pub fn new(query: &str) -> (pattern: Pattern)
        ensures
            pattern@ == query@,
    {
        let letters = characters(query);
        Pattern { letters }
    }

    /// The number of characters in the pattern.
    pub fn len(&self) -> (n: usize)
        ensures
            n == self@.len(),
    {
        self.letters.len()
    }

    /// Whether `path` matches: the pattern's characters occur in it in order,
    /// upper and lower case taken as equal.
    pub fn matches(&self, path: &str) -> (matched: bool)
        ensures
            matched == subsequence_match(self@, path@),
    {
        let wanted: usize = self.letters.len();
        let mut consumed: usize = 0;
        for c in it: path.chars()
            invariant
                wanted == self.letters@.len(),
                consumed == scan_progress(self@, it.seq().take(it.index() as int)),
                consumed <= wanted,
                it.seq() == path@,
        {
            proof {
                let seen = it.seq().take(it.index() as int);
                let next = it.seq().take(it.index() + 1);
                assert(next.drop_last() =~= seen);
                assert(next.last() == c);
            }
            if consumed < wanted && fold_char(self.letters[consumed]) == fold_char(c) {
                consumed = consumed + 1;
            }
        }
        proof {
            assert(path@.take(path@.len() as int) =~= path@);
            lemma_match_is_full_scan(self@, path@);
        }
        consumed == wanted
    }

    /// Whether this pattern extends `previous`: the characters of `previous`
    /// are the first characters of this one.
    pub fn extends(&self, previous: &Pattern) -> (extending: bool)
        ensures
            extending == previous@.is_prefix_of(self@),
    {
        if previous.letters.len() > self.letters.len() {
            return false;
        }
        let shared: usize = previous.letters.len();
        let mut i: usize = 0;
        while i < shared
            invariant
                shared == previous.letters@.len(),
                shared <= self.letters@.len(),
                i <= shared,
                forall|k: int| 0 <= k < i ==> previous.letters@[k] == self.letters@[k],
            decreases shared - i,
        {
            if previous.letters[i] != self.letters[i] {
                return false;
            }
            i = i + 1;
        }
        true
    }
}

} // verus!
