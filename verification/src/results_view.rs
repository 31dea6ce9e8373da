//! The results on screen: which paths are listed, which of them is
//! highlighted, and where a change has to be drawn.

use vstd::prelude::*;

verus! {

/// How many decimal digits `number` is written with.
pub open spec fn decimal_digits(number: nat) -> nat
    decreases number,
{
    if number < 10 {
        1
    } else {
        1 + decimal_digits(number / 10)
    }
}

/// How many decimal digits `number` is written with.
pub fn decimal_width(number: usize) -> (width: usize)
    ensures
        width == decimal_digits(number as nat),
{
    let mut width: usize = 1;
    let mut rest: usize = number;
    while rest >= 10
        invariant
            1 <= width,
            width + rest <= number + 1,
            decimal_digits(number as nat) == (width - 1) + decimal_digits(rest as nat),
        decreases rest,
    {
        rest = rest / 10;
        width = width + 1;
    }
    width
}

/// What has to be drawn when a new list of results comes on screen. Rows and
/// columns count from 0; row 0 is the line of the query and of the count.
#[derive(Clone, Copy, Debug, PartialEq, Eq)]
pub struct Frame {
    /// The rows from 1 up to this one, not included, are blanked over the
    /// whole width.
    pub blank_rows_end: usize,
    /// Where the count that was on screen began, and how many columns of it
    /// are blanked.
    pub old_count_column: usize,
    pub old_count_blanks: usize,
    /// The new count, and the column where it begins.
    pub count: usize,
    pub count_column: usize,
    /// How many results are listed, one a row, from row 1 down.
    pub rows_listed: usize,
}

/// The column at which a count begins that ends at the right edge of a
/// screen `width` columns wide; column 0 where it does not fit.
pub open spec fn count_column(width: nat, count: nat) -> nat {
    if width >= decimal_digits(count) {
        (width - decimal_digits(count)) as nat
    } else {
        0
    }
}

/// What a new list of `count` results draws on a screen of `width` by
/// `height`, where `old_count` results were listed before.
pub open spec fn frame_of(old_count: nat, count: nat, width: nat, height: nat) -> Frame {
    Frame {
        blank_rows_end: height as usize,
        old_count_column: count_column(width, old_count) as usize,
        old_count_blanks: (decimal_digits(old_count) - 1) as usize,
        count: count as usize,
        count_column: count_column(width, count) as usize,
        rows_listed: if count > height {
            height as usize
        } else {
            count as usize
        },
    }
}

/// The rows that a move of the highlight draws again: the row that loses the
/// highlight, and the row that gets it. Row `r` shows result `r - 1`.
#[derive(Clone, Copy, Debug, PartialEq, Eq)]
pub struct Repaint {
    pub plain_row: Option<usize>,
    pub highlighted_row: Option<usize>,
}

/// What a results view stands for: the results listed, and the row that is
/// highlighted, 0 where none is.
pub struct ResultsViewState {
    pub results: Seq<Seq<char>>,
    pub highlighted_result_row: nat,
}

impl ResultsViewState {
    /// The result under the highlight.
    pub open spec fn highlighted(self) -> Seq<char> {
        self.results[self.highlighted_result_row - 1]
    }
}

/// The row of the highlight after a move down.
pub open spec fn row_below(view: ResultsViewState) -> nat {
    if view.highlighted_result_row < view.results.len() {
        view.highlighted_result_row + 1
    } else {
        view.highlighted_result_row
    }
}

/// The row of the highlight after a move up.
pub open spec fn row_above(view: ResultsViewState) -> nat {
    if view.highlighted_result_row > 0 {
        (view.highlighted_result_row - 1) as nat
    } else {
        0
    }
}

/// The rows to draw again after a move down: none where the highlight stays.
pub open spec fn repaint_down(view: ResultsViewState) -> Repaint {
    Repaint {
        plain_row: if 0 < view.highlighted_result_row < view.results.len() {
            Some(view.highlighted_result_row as usize)
        } else {
            None
        },
        highlighted_row: if view.highlighted_result_row < view.results.len() {
            Some((view.highlighted_result_row + 1) as usize)
        } else {
            None
        },
    }
}

/// The rows to draw again after a move up: none where the highlight stays.
pub open spec fn repaint_up(view: ResultsViewState) -> Repaint {
    Repaint {
        plain_row: if view.highlighted_result_row > 0 {
            Some(view.highlighted_result_row as usize)
        } else {
            None
        },
        highlighted_row: if view.highlighted_result_row > 1 {
            Some((view.highlighted_result_row - 1) as usize)
        } else {
            None
        },
    }
}

/// The list of results on screen, and the highlight on it.
pub struct ResultsView {
    results: Vec<String>,
    highlighted_result_row: usize,
}

impl View for ResultsView {
    type V = ResultsViewState;

    closed spec fn view(&self) -> ResultsViewState {
        ResultsViewState {
            results: self.results.deep_view(),
            highlighted_result_row: self.highlighted_result_row as nat,
        }
    }
}

impl ResultsView {
    /// The highlight stands on no row or on the row of a result.
    #[verifier::type_invariant]
    spec fn highlight_is_listed(&self) -> bool {
        self.highlighted_result_row <= self.results@.len()
    }

    /// A view with no results and no highlight.
    pub fn new() -> (view: ResultsView)
        ensures
            view@.results == Seq::<Seq<char>>::empty(),
            view@.highlighted_result_row == 0,
    {
        let view = ResultsView { results: Vec::new(), highlighted_result_row: 0 };
        proof {
            assert(view.results.deep_view() =~= Seq::<Seq<char>>::empty());
        }
        view
    }

    /// Puts `results` in place of the results listed, takes the highlight
    /// away, and says what a screen of `width` by `height` has to draw.
    pub fn update(&mut self, results: Vec<String>, width: usize, height: usize) -> (frame: Frame)
        ensures
            final(self)@.results == results.deep_view(),
            final(self)@.highlighted_result_row == 0,
            frame == frame_of(
                old(self)@.results.len(),
                results@.len() as nat,
                width as nat,
                height as nat,
            ),
    {
        let old_count: usize = self.results.len();
        let count: usize = results.len();
        let old_digits: usize = decimal_width(old_count);
        let digits: usize = decimal_width(count);
        let frame = Frame {
            blank_rows_end: height,
            old_count_column: if width >= old_digits {
                width - old_digits
            } else {
                0
            },
            old_count_blanks: old_digits - 1,
            count,
            count_column: if width >= digits {
                width - digits
            } else {
                0
            },
            rows_listed: if count > height {
                height
            } else {
                count
            },
        };
        self.highlighted_result_row = 0;
        self.results = results;
        frame
    }

    /// Moves the highlight one row down: from no row to the first, from the
    /// last row nowhere.
    pub fn highlight_next(&mut self) -> (repaint: Repaint)
        ensures
            final(self)@.results == old(self)@.results,
            final(self)@.highlighted_result_row == row_below(old(self)@),
            repaint == repaint_down(old(self)@),
    {
        proof {
            use_type_invariant(&*self);
        }
        let row: usize = self.highlighted_result_row;
        if row < self.results.len() {
            self.highlighted_result_row = row + 1;
            Repaint {
                plain_row: if row > 0 {
                    Some(row)
                } else {
                    None
                },
                highlighted_row: Some(row + 1),
            }
        } else {
            Repaint { plain_row: None, highlighted_row: None }
        }
    }

    /// Moves the highlight one row up: from the first row to no row, from no
    /// row nowhere.
    pub fn highlight_previous(&mut self) -> (repaint: Repaint)
        ensures
            final(self)@.results == old(self)@.results,
            final(self)@.highlighted_result_row == row_above(old(self)@),
            repaint == repaint_up(old(self)@),
    {
        proof {
            use_type_invariant(&*self);
        }
        let row: usize = self.highlighted_result_row;
        if row > 0 {
            self.highlighted_result_row = row - 1;
            Repaint {
                plain_row: Some(row),
                highlighted_row: if row > 1 {
                    Some(row - 1)
                } else {
                    None
                },
            }
        } else {
            Repaint { plain_row: None, highlighted_row: None }
        }
    }

    /// Whether a result is highlighted.
    pub fn has_highlighted_result(&self) -> (highlighted: bool)
        ensures
            highlighted == (self@.highlighted_result_row > 0),
            self@.highlighted_result_row <= self@.results.len(),
    {
        proof {
            use_type_invariant(self);
        }
        self.highlighted_result_row > 0
    }

    /// The highlighted result.
    pub fn get_highlighted(&self) -> (result: String)
        requires
            self@.highlighted_result_row > 0,
        ensures
            self@.highlighted_result_row <= self@.results.len(),
            result@ == self@.highlighted(),
    {
        proof {
            use_type_invariant(self);
        }
        self.results[self.highlighted_result_row - 1].clone()
    }

    /// How many results are listed.
    pub fn len(&self) -> (count: usize)
        ensures
            count == self@.results.len(),
    {
        self.results.len()
    }

    /// The result that row `row` shows.
    pub fn row(&self, row: usize) -> (result: Option<String>)
        ensures
            result.is_some() == (0 < row <= self@.results.len()),
            result matches Some(text) ==> text@ == self@.results[row - 1],
    {
        if 0 < row && row <= self.results.len() {
            Some(self.results[row - 1].clone())
        } else {
            None
        }
    }
}

} // verus!
