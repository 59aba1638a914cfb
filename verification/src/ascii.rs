//! Terminal preview rendering: a character grid sized to the terminal, text
//! and box overlays, the progress bar, and the final join into one string.
//!
//! Sampling camera pixels into the grid needs the image itself and stays
//! with the caller; everything that works on the grid is here.

use vstd::prelude::*;
use crate::text::push_char;

verus! {

/// Width the renderer never exceeds when sizing itself from the terminal.
pub const DEFAULT_WIDTH: usize = 80;

/// Height the renderer never exceeds when sizing itself from the terminal.
pub const DEFAULT_HEIGHT: usize = 30;

/// Renders camera frames as character grids of a fixed size.
pub struct AsciiRenderer {
    pub width: usize,
    pub height: usize,
}

/// `c` repeated `n` times.
pub open spec fn char_repeat(c: char, n: nat) -> Seq<char>
    decreases n,
{
    if n == 0 {
        Seq::empty()
    } else {
        char_repeat(c, (n - 1) as nat).push(c)
    }
}

/// A row with `text` laid over it starting at `start`; writes past the row's
/// end fall off.
pub open spec fn overlay_row(row: Seq<char>, text: Seq<char>, start: int) -> Seq<char> {
    Seq::new(
        row.len(),
        |x: int|
            if start <= x < start + text.len() {
                text[x - start]
            } else {
                row[x]
            },
    )
}

/// The rows of a grid joined with a carriage return and newline.
pub open spec fn rows_join(rows: Seq<Seq<char>>) -> Seq<char>
    decreases rows.len(),
{
    if rows.len() == 0 {
        Seq::empty()
    } else if rows.len() == 1 {
        rows[0]
    } else {
        rows_join(rows.drop_last()) + seq!['\r', '\n'] + rows.last()
    }
}

/// Every row of the grid has the given width.
pub open spec fn grid_wf(g: Seq<Seq<char>>, width: nat, height: nat) -> bool {
    g.len() == height && forall|i: int| 0 <= i < g.len() ==> #[trigger] g[i].len() == width
}

/// A line cut or padded with blanks to exactly `width` characters.
pub open spec fn fitted_line(line: Seq<char>, width: nat) -> Seq<char> {
    if line.len() >= width {
        line.take(width as int)
    } else {
        line + char_repeat(' ', (width - line.len()) as nat)
    }
}

/// The rows of a report joined with a newline.
pub open spec fn lines_join(rows: Seq<Seq<char>>) -> Seq<char>
    decreases rows.len(),
{
    if rows.len() == 0 {
        Seq::empty()
    } else if rows.len() == 1 {
        rows[0]
    } else {
        lines_join(rows.drop_last()) + seq!['\n'] + rows.last()
    }
}

proof fn lemma_char_repeat_len(c: char, n: nat)
    ensures
        char_repeat(c, n).len() == n,
        forall|i: int| 0 <= i < n ==> char_repeat(c, n)[i] == c,
    decreases n,
{
    if n > 0 {
        lemma_char_repeat_len(c, (n - 1) as nat);
    }
}

/// Fits one line to `width` characters: overlong lines are cut, short ones
/// padded with blanks.
fn fit_line(line: &String, width: usize) -> (r: String)
    ensures
        r@ == fitted_line(line@, width as nat),
        r@.len() == width,
{
    proof {
        lemma_char_repeat_len(' ', (width - line@.len()) as nat);
    }
    let n = line.as_str().unicode_len();
    if n >= width {
        let r = line.as_str().substring_char(0, width).to_owned();
        proof {
            assert(r@ =~= fitted_line(line@, width as nat));
        }
        r
    } else {
        let mut r = line.clone();
        let mut i: usize = n;
        while i < width
            invariant
                line@.len() <= i <= width,
                r@ == line@ + char_repeat(' ', (i - line@.len()) as nat),
            decreases width - i,
        {
            push_char(&mut r, ' ');
            i = i + 1;
            proof {
                lemma_char_repeat_len(' ', (i - line@.len()) as nat);
                assert(r@ =~= line@ + char_repeat(' ', (i - line@.len()) as nat));
            }
        }
        proof {
            lemma_char_repeat_len(' ', (width - line@.len()) as nat);
            assert(r@ =~= fitted_line(line@, width as nat));
        }
        r
    }
}

/// Pads a report to exactly `height` lines of exactly `width` characters
/// and joins them with newlines: what a terminal repaint needs to cover
/// the previous frame completely.
pub fn pad_report_lines(lines: &Vec<String>, width: usize, height: usize) -> (r: String)
    ensures
        r@ == lines_join(
            Seq::new(
                height as nat,
                |i: int|
                    fitted_line(
                        if i < lines@.len() {
                            lines@[i]@
                        } else {
                            Seq::empty()
                        },
                        width as nat,
                    ),
            ),
        ),
{
    let ghost rows = Seq::new(
        height as nat,
        |i: int|
            fitted_line(
                if i < lines@.len() {
                    lines@[i]@
                } else {
                    Seq::empty()
                },
                width as nat,
            ),
    );
    let empty_line = String::new();
    let mut r = String::new();
    let mut y: usize = 0;
    proof {
        assert(rows.take(0) =~= Seq::<Seq<char>>::empty());
    }
    while y < height
        invariant
            y <= height,
            empty_line@ == Seq::<char>::empty(),
            rows == Seq::new(
                height as nat,
                |i: int|
                    fitted_line(
                        if i < lines@.len() {
                            lines@[i]@
                        } else {
                            Seq::empty()
                        },
                        width as nat,
                    ),
            ),
            r@ == lines_join(rows.take(y as int)),
        decreases height - y,
    {
        if y > 0 {
            push_char(&mut r, '\n');
        }
        let fitted = if y < lines.len() {
            fit_line(&lines[y], width)
        } else {
            fit_line(&empty_line, width)
        };
        r.append(fitted.as_str());
        y = y + 1;
        proof {
            assert(rows.take(y as int).drop_last() =~= rows.take(y - 1));
            assert(rows.take(y as int).last() == rows[y - 1]);
            assert(r@ =~= lines_join(rows.take(y as int)));
        }
    }
    proof {
        assert(rows.take(rows.len() as int) =~= rows);
    }
    r
}

impl AsciiRenderer {
    /// Sizes the renderer: explicit dimensions win; otherwise half the
    /// terminal, capped at half the default size, with five terminal rows
    /// kept free below the preview.
    pub fn from_terminal_size(
        width: Option<usize>,
        height: Option<usize>,
        term_width: usize,
        term_height: usize,
    ) -> (r: AsciiRenderer)
        ensures
            r.width == match width {
                Some(w) => w as int,
                None => if term_width / 2 < DEFAULT_WIDTH / 2 {
                    (term_width / 2) as int
                } else {
                    (DEFAULT_WIDTH / 2) as int
                },
            },
            r.height == match height {
                Some(h) => h as int,
                None => {
                    let avail = if term_height >= 5 {
                        ((term_height - 5) / 2) as int
                    } else {
                        0int
                    };
                    if avail < DEFAULT_HEIGHT / 2 {
                        avail
                    } else {
                        (DEFAULT_HEIGHT / 2) as int
                    }
                },
            },
    {
        let w = match width {
            Some(w) => w,
            None => {
                let half = term_width / 2;
                if half < DEFAULT_WIDTH / 2 {
                    half
                } else {
                    DEFAULT_WIDTH / 2
                }
            },
        };
        let h = match height {
            Some(h) => h,
            None => {
                let avail = if term_height >= 5 {
                    (term_height - 5) / 2
                } else {
                    0
                };
                if avail < DEFAULT_HEIGHT / 2 {
                    avail
                } else {
                    DEFAULT_HEIGHT / 2
                }
            },
        };
        AsciiRenderer { width: w, height: h }
    }

    pub fn height(&self) -> (r: usize)
        ensures
            r == self.height,
    {
        self.height
    }

    /// An empty grid of the renderer's dimensions, filled with blanks.
    pub fn new_grid(&self) -> (g: Vec<Vec<char>>)
        ensures
            grid_wf(g.deep_view(), self.width as nat, self.height as nat),
            forall|y: int, x: int|
                0 <= y < self.height && 0 <= x < self.width ==> g.deep_view()[y][x] == ' ',
    {
        let mut g: Vec<Vec<char>> = Vec::new();
        let mut y: usize = 0;
        while y < self.height
            invariant
                y <= self.height,
                g.deep_view().len() == y,
                forall|i: int| 0 <= i < y ==> #[trigger] g.deep_view()[i].len() == self.width,
                forall|i: int, x: int|
                    0 <= i < y && 0 <= x < self.width ==> g.deep_view()[i][x] == ' ',
            decreases self.height - y,
        {
            let mut row: Vec<char> = Vec::new();
            let mut x: usize = 0;
            while x < self.width
                invariant
                    x <= self.width,
                    row@.len() == x,
                    forall|j: int| 0 <= j < x ==> row@[j] == ' ',
                decreases self.width - x,
            {
                row.push(' ');
                x = x + 1;
            }
            let ghost prev = g.deep_view();
            let ghost rv = row@;
            g.push(row);
            y = y + 1;
            proof {
                assert(g.deep_view() =~~= prev.push(rv));
            }
        }
        g
    }

    /// The five-slot progress bar: one filled box per capture.
    pub fn create_progress_bar(&self, captured: usize) -> (r: String)
        ensures
            ({
                let filled = if captured < 5 {
                    captured as nat
                } else {
                    5nat
                };
                r@ == seq!['['] + char_repeat('\u{25a0}', filled) + char_repeat(
                    '\u{25a1}',
                    (5 - filled) as nat,
                ) + seq![']']
            }),
    {
        let filled: usize = if captured < 5 {
            captured
        } else {
            5
        };
        let mut r = String::new();
        push_char(&mut r, '[');
        let mut i: usize = 0;
        while i < filled
            invariant
                i <= filled,
                r@ == seq!['['] + char_repeat('\u{25a0}', i as nat),
            decreases filled - i,
        {
            push_char(&mut r, '\u{25a0}');
            i = i + 1;
            proof {
                assert(r@ =~= seq!['['] + char_repeat('\u{25a0}', i as nat));
            }
        }
        let mut j: usize = 0;
        while j < 5 - filled
            invariant
                j <= 5 - filled,
                r@ == seq!['['] + char_repeat('\u{25a0}', filled as nat) + char_repeat(
                    '\u{25a1}',
                    j as nat,
                ),
            decreases 5 - filled - j,
        {
            push_char(&mut r, '\u{25a1}');
            j = j + 1;
            proof {
                assert(r@ =~= seq!['['] + char_repeat('\u{25a0}', filled as nat) + char_repeat(
                    '\u{25a1}',
                    j as nat,
                ));
            }
        }
        push_char(&mut r, ']');
        proof {
            assert(seq!['['] + char_repeat('\u{25a0}', filled as nat) =~= seq!['[']
                + char_repeat('\u{25a0}', filled as nat) + char_repeat('\u{25a1}', 0));
            assert(r@ =~= seq!['['] + char_repeat('\u{25a0}', filled as nat) + char_repeat(
                '\u{25a1}',
                (5 - filled) as nat,
            ) + seq![']']);
        }
        r
    }

    /// Writes `text` over row `y`, centered at `center_x`; what falls past
    /// the edges is dropped. Rows other than `y` are untouched.
    pub fn overlay_text(&self, grid: &mut Vec<Vec<char>>, text: &Vec<char>, center_x: usize, y: usize)
        requires
            grid_wf(old(grid).deep_view(), self.width as nat, self.height as nat),
        ensures
            grid_wf(final(grid).deep_view(), self.width as nat, self.height as nat),
            y >= self.height ==> final(grid).deep_view() == old(grid).deep_view(),
            y < self.height ==> final(grid).deep_view() == old(grid).deep_view().update(
                y as int,
                overlay_row(
                    old(grid).deep_view()[y as int],
                    text@,
                    ({
                        let half = text@.len() as int / 2;
                        if center_x >= half {
                            center_x - half
                        } else {
                            0int
                        }
                    }),
                ),
            ),
    {
        if y >= self.height {
            proof {
                assert(final(grid).deep_view() =~~= old(grid).deep_view());
            }
            return ;
        }
        let half = text.len() / 2;
        let start: usize = if center_x >= half {
            center_x - half
        } else {
            0
        };
        let ghost orig = grid.deep_view();
        let ghost target_row = overlay_row(orig[y as int], text@, start as int);
        let mut row = grid.remove(y);
        let ghost removed = grid.deep_view();
        let mut i: usize = 0;
        while i < text.len()
            invariant
                i <= text@.len(),
                row@.len() == orig[y as int].len(),
                orig[y as int].len() == self.width,
                target_row == overlay_row(orig[y as int], text@, start as int),
                target_row.len() == self.width,
                forall|x: int|
                    0 <= x < self.width ==> #[trigger] row@[x] == (if start <= x < start + i {
                        target_row[x]
                    } else {
                        orig[y as int][x]
                    }),
            decreases text@.len() - i,
        {
            if start < self.width && i < self.width - start {
                let x = start + i;
                row.set(x, text[i]);
                proof {
                    assert(target_row[x as int] == text@[i as int]);
                }
            }
            i = i + 1;
        }
        proof {
            assert forall|x: int| 0 <= x < self.width implies #[trigger] row@[x] == target_row[x]
            by {
                if start <= x < start + text@.len() {
                } else {
                }
            }
            assert(row@ =~= target_row);
        }
        grid.insert(y, row);
        proof {
            assert(grid.deep_view() =~~= orig.update(y as int, target_row));
        }
    }

    /// Centers `text` in the middle of the grid.
    pub fn overlay_center_text(&self, grid: &mut Vec<Vec<char>>, text: &Vec<char>)
        requires
            grid_wf(old(grid).deep_view(), self.width as nat, self.height as nat),
        ensures
            grid_wf(final(grid).deep_view(), self.width as nat, self.height as nat),
    {
        let center_y = self.height / 2;
        let center_x = self.width / 2;
        self.overlay_text(grid, text, center_x, center_y);
    }

    /// Joins the grid's rows with carriage return and newline.
    pub fn grid_to_string(&self, grid: &Vec<Vec<char>>) -> (r: String)
        requires
            grid_wf(grid.deep_view(), self.width as nat, self.height as nat),
        ensures
            r@ == rows_join(grid.deep_view()),
    {
        let ghost rows = grid.deep_view();
        let mut r = String::new();
        let mut y: usize = 0;
        proof {
            assert(rows.take(0) =~= Seq::<Seq<char>>::empty());
        }
        while y < grid.len()
            invariant
                y <= grid@.len(),
                rows == grid.deep_view(),
                rows.len() == grid@.len(),
                forall|i: int| 0 <= i < rows.len() ==> #[trigger] rows[i].len() == self.width,
                r@ == rows_join(rows.take(y as int)),
            decreases grid@.len() - y,
        {
            if y > 0 {
                push_char(&mut r, '\r');
                push_char(&mut r, '\n');
            }
            let ghost before_row = r@;
            let row = &grid[y];
            let mut x: usize = 0;
            proof {
                assert(row@ =~= rows[y as int]);
            }
            while x < row.len()
                invariant
                    x <= row@.len(),
                    row@ == rows[y as int],
                    0 <= y < rows.len(),
                    r@ == before_row + rows[y as int].take(x as int),
                decreases row@.len() - x,
            {
                push_char(&mut r, row[x]);
                x = x + 1;
                proof {
                    assert(r@ =~= before_row + rows[y as int].take(x as int));
                }
            }
            proof {
                assert(rows[y as int].take(rows[y as int].len() as int) =~= rows[y as int]);
            }
            y = y + 1;
            proof {
                assert(rows.take(y as int).drop_last() =~= rows.take(y - 1));
                assert(rows.take(y as int).last() == rows[y - 1]);
                if y == 1 {
                    assert(r@ =~= rows_join(rows.take(y as int)));
                } else {
                    assert(r@ =~= rows_join(rows.take(y as int)));
                }
            }
        }
        proof {
            assert(rows.take(rows.len() as int) =~= rows);
        }
        r
    }
}

} // verus!
