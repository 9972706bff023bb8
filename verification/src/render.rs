//! The display scaler and the bar renderer: from magnitudes to bar heights
//! that fit the viewport, and from bar heights to a frame of text.

use vstd::prelude::*;
use vstd::string::*;

verus! {

/// The glyph of a filled cell.
pub const BLOCK: char = '\u{25A0}';

/// How many bars a magnitude series of `len` entries gives: the last bin is
/// not drawn.
pub open spec fn num_bars(len: nat) -> nat {
    if len == 0 {
        0
    } else {
        (len - 1) as nat
    }
}

/// The largest entry of `s`, and 0 where none is positive.
pub open spec fn max_magnitude(s: Seq<i16>) -> int
    decreases s.len(),
{
    if s.len() == 0 {
        0
    } else if s.last() > max_magnitude(s.drop_last()) {
        s.last() as int
    } else {
        max_magnitude(s.drop_last())
    }
}

/// The number by which a frame's magnitudes are divided: one more than the
/// largest drawn magnitude divided by the viewport's height.
pub open spec fn divisor(magnitudes: Seq<i16>, h: nat) -> int
    recommends
        h > 0,
{
    max_magnitude(magnitudes.take(num_bars(magnitudes.len()) as int)) / (h as int) + 1
}

/// Division that rounds towards zero.
pub open spec fn quotient(x: int, d: int) -> int
    recommends
        d > 0,
{
    if x >= 0 {
        x / d
    } else {
        -((-x) / d)
    }
}

/// The bar heights of a magnitude series in a viewport of `h` rows.
pub open spec fn scaled(magnitudes: Seq<i16>, h: nat) -> Seq<i16>
    recommends
        h > 0,
{
    Seq::new(
        num_bars(magnitudes.len()),
        |k: int| quotient(magnitudes[k] as int, divisor(magnitudes, h)) as i16,
    )
}

/// Every entry of `s` is at most `max_magnitude(s)`, which is not negative.
pub proof fn lemma_max_magnitude(s: Seq<i16>)
    ensures
        0 <= max_magnitude(s) <= i16::MAX,
        forall|k: int| 0 <= k < s.len() ==> s[k] <= max_magnitude(s),
    decreases s.len(),
{
    if s.len() > 0 {
        lemma_max_magnitude(s.drop_last());
        assert forall|k: int| 0 <= k < s.len() implies s[k] <= max_magnitude(s) by {
            if k < s.len() - 1 {
                assert(s.drop_last()[k] == s[k]);
            }
        }
    }
}

/// The scale bound: in a viewport of `h > 0` rows every bar height that comes
/// from a magnitude that is not negative lies between 0 and `h`. The divisor
/// is at least 1 and every quotient fits the sample type.
pub proof fn lemma_scale_bound(magnitudes: Seq<i16>, h: nat)
    requires
        h > 0,
    ensures
        1 <= divisor(magnitudes, h) <= i16::MAX + 1,
        scaled(magnitudes, h).len() == num_bars(magnitudes.len()),
        forall|k: int|
            0 <= k < num_bars(magnitudes.len()) ==> i16::MIN <= #[trigger] quotient(
                magnitudes[k] as int,
                divisor(magnitudes, h),
            ) <= i16::MAX,
        forall|k: int|
            0 <= k < num_bars(magnitudes.len()) && magnitudes[k] >= 0 ==> 0 <= #[trigger] scaled(
                magnitudes,
                h,
            )[k] <= h,
{
    let n = num_bars(magnitudes.len()) as int;
    let drawn = magnitudes.take(n);
    let m = max_magnitude(drawn);
    let d = divisor(magnitudes, h);
    let hh = h as int;
    lemma_max_magnitude(drawn);
    assert(0 <= m / hh <= m && m < (m / hh + 1) * hh) by (nonlinear_arith)
        requires
            0 <= m,
            hh > 0,
    ;
    assert forall|k: int| 0 <= k < n implies i16::MIN <= #[trigger] quotient(
        magnitudes[k] as int,
        d,
    ) <= i16::MAX by {
        let x = magnitudes[k] as int;
        if x >= 0 {
            assert(0 <= x / d <= x) by (nonlinear_arith)
                requires
                    0 <= x,
                    d >= 1,
            ;
        } else {
            assert(0 <= (-x) / d <= -x) by (nonlinear_arith)
                requires
                    0 <= -x,
                    d >= 1,
            ;
        }
    }
    assert forall|k: int| 0 <= k < n && magnitudes[k] >= 0 implies 0 <= #[trigger] scaled(
        magnitudes,
        h,
    )[k] <= h by {
        let x = magnitudes[k] as int;
        assert(drawn[k] == magnitudes[k]);
        assert(0 <= x / d <= hh) by (nonlinear_arith)
            requires
                0 <= x <= m,
                m < d * hh,
                d >= 1,
                hh > 0,
        ;
    }
}

/// The largest of the first `n` entries, and 0 where none is positive.
fn max_of_first(magnitudes: &[i16], n: usize) -> (r: i16)
    requires
        n <= magnitudes@.len(),
    ensures
        r == max_magnitude(magnitudes@.take(n as int)),
{
    let mut best: i16 = 0;
    let mut j: usize = 0;
    while j < n
        invariant
            j <= n <= magnitudes@.len(),
            best == max_magnitude(magnitudes@.take(j as int)),
        decreases n - j,
    {
        proof {
            let next = magnitudes@.take(j + 1);
            assert(next.drop_last() =~= magnitudes@.take(j as int));
            assert(next.last() == magnitudes@[j as int]);
        }
        if magnitudes[j] > best {
            best = magnitudes[j];
        }
        j += 1;
    }
    best
}

/// Maps magnitudes to bar heights for a viewport of `h` rows. All but the last
/// magnitude are divided by one common divisor, which grows with the loudest
/// of them, so that no bar is taller than the viewport.
pub fn scale(magnitudes: &[i16], h: usize) -> (r: Vec<i16>)
    requires
        h > 0,
    ensures
        r@ == scaled(magnitudes@, h as nat),
        r@.len() == num_bars(magnitudes@.len()),
        forall|k: int| 0 <= k < r@.len() && magnitudes@[k] >= 0 ==> 0 <= #[trigger] r@[k] <= h,
{
    let len = magnitudes.len();
    let n: usize = if len == 0 {
        0
    } else {
        len - 1
    };
    let top: i16 = max_of_first(magnitudes, n);
    proof {
        lemma_max_magnitude(magnitudes@.take(n as int));
        lemma_scale_bound(magnitudes@, h as nat);
    }
    let d: i32 = (top as usize / h) as i32 + 1;
    let mut out: Vec<i16> = Vec::new();
    let mut k: usize = 0;
    while k < n
        invariant
            k <= n,
            h > 0,
            n == num_bars(magnitudes@.len()),
            n <= magnitudes@.len(),
            1 <= d <= i16::MAX + 1,
            d == divisor(magnitudes@, h as nat),
            out@.len() == k,
            forall|i: int| 0 <= i < k ==> out@[i] == scaled(magnitudes@, h as nat)[i],
            forall|i: int|
                0 <= i < n ==> i16::MIN <= #[trigger] quotient(magnitudes@[i] as int, d as int)
                    <= i16::MAX,
        decreases n - k,
    {
        let x: i32 = magnitudes[k] as i32;
        assert(i16::MIN <= quotient(magnitudes@[k as int] as int, d as int) <= i16::MAX);
        let q: i32 = if x >= 0 {
            x / d
        } else {
            -((-x) / d)
        };
        out.push(q as i16);
        k += 1;
    }
    assert(out@ =~= scaled(magnitudes@, h as nat));
    out
}

/// The width of one stripe, bar or gap, for `bars` bars in `w` columns; 0
/// where there is no bar or the viewport is too narrow for them.
pub open spec fn bar_width(bars: nat, w: nat) -> nat {
    if bars == 0 {
        0
    } else {
        w / (2 * bars)
    }
}

/// The number of cells that a row holds before its line break: the
/// viewport's width less one stripe.
pub open spec fn row_width(bars: nat, w: nat) -> nat {
    if bar_width(bars, w) == 0 {
        0
    } else {
        (w - bar_width(bars, w)) as nat
    }
}

/// Whether the cell in row `i` and column `j` is part of a bar. The stripes
/// alternate, gap first; the bar in stripe `2b + 1` shows `heights[b]`,
/// measured from the bottom row. A stripe beyond the last bar stays blank.
pub open spec fn filled(heights: Seq<i16>, w: nat, h: nat, i: int, j: int) -> bool {
    let stripe = j / (bar_width(heights.len(), w) as int);
    &&& bar_width(heights.len(), w) > 0
    &&& stripe % 2 == 1
    &&& stripe / 2 < heights.len()
    &&& h - heights[stripe / 2] <= i
}

/// The glyph of the cell in row `i` and column `j`.
pub open spec fn cell(heights: Seq<i16>, w: nat, h: nat, i: int, j: int) -> char {
    if filled(heights, w, h, i, j) {
        BLOCK
    } else {
        ' '
    }
}

/// The first `j` cells of row `i`.
pub open spec fn cells(heights: Seq<i16>, w: nat, h: nat, i: int, j: nat) -> Seq<char> {
    Seq::new(j, |c: int| cell(heights, w, h, i, c))
}

/// Row `i` with its line break.
pub open spec fn row(heights: Seq<i16>, w: nat, h: nat, i: int) -> Seq<char> {
    cells(heights, w, h, i, row_width(heights.len(), w)).push('\n')
}

/// The first `n` rows, one after the other.
pub open spec fn rows(heights: Seq<i16>, w: nat, h: nat, n: nat) -> Seq<char>
    decreases n,
{
    if n == 0 {
        Seq::empty()
    } else {
        rows(heights, w, h, (n - 1) as nat) + row(heights, w, h, n - 1)
    }
}

/// The frame for `heights` in a viewport of `w` columns and `h` rows: `h`
/// rows, or nothing at all where no bar can be drawn.
pub open spec fn frame(heights: Seq<i16>, w: nat, h: nat) -> Seq<char> {
    if bar_width(heights.len(), w) == 0 {
        Seq::empty()
    } else {
        rows(heights, w, h, h)
    }
}

/// Where column `j` of row `i` stands among rows of `rw` cells and a line
/// break: before row `m` for an earlier row, and `j` into row `m` for `m`.
proof fn lemma_cell_offset(i: int, j: int, rw: int, m: int)
    requires
        0 <= i <= m,
        0 <= j <= rw,
    ensures
        0 <= i * (rw + 1) + j,
        i < m ==> i * (rw + 1) + j < m * (rw + 1),
        i == m ==> i * (rw + 1) + j == m * (rw + 1) + j,
{
    assert(0 <= i * (rw + 1) && (i < m ==> (i + 1) * (rw + 1) <= m * (rw + 1)) && (i + 1) * (rw
        + 1) == i * (rw + 1) + rw + 1) by (nonlinear_arith)
        requires
            0 <= i <= m,
            0 <= rw,
    ;
}

/// The first `n` rows take `n` times a row's cells and line break, and each
/// cell and line break stands at the place that its row and column give.
pub proof fn lemma_rows(heights: Seq<i16>, w: nat, h: nat, n: nat)
    ensures
        rows(heights, w, h, n).len() == n * (row_width(heights.len(), w) + 1),
        forall|i: int, j: int|
            0 <= i < n && 0 <= j < row_width(heights.len(), w) ==> rows(heights, w, h, n)[i * (
            row_width(heights.len(), w) + 1) + j] == #[trigger] cell(heights, w, h, i, j),
        forall|i: int|
            0 <= i < n ==> #[trigger] rows(heights, w, h, n)[i * (row_width(heights.len(), w) + 1)
                + row_width(heights.len(), w)] == '\n',
    decreases n,
{
    let rw = row_width(heights.len(), w) as int;
    if n > 0 {
        let m = (n - 1) as nat;
        lemma_rows(heights, w, h, m);
        let before = rows(heights, w, h, m);
        let last = row(heights, w, h, n - 1);
        assert(n * (rw + 1) == m * (rw + 1) + (rw + 1)) by (nonlinear_arith)
            requires
                n == m + 1,
        ;
        assert forall|i: int, j: int| 0 <= i < n && 0 <= j < rw implies rows(heights, w, h, n)[i
            * (rw + 1) + j] == #[trigger] cell(heights, w, h, i, j) by {
            lemma_cell_offset(i, j, rw, m as int);
            if i == m {
                assert(last[j] == cell(heights, w, h, i, j));
            }
        }
        assert forall|i: int| 0 <= i < n implies #[trigger] rows(heights, w, h, n)[i * (rw + 1)
            + rw] == '\n' by {
            lemma_cell_offset(i, rw, rw, m as int);
            if i == m {
                assert(last[rw] == '\n');
            }
        }
    }
}

/// A frame that is not empty has `h` rows of equal length, each closed by a
/// line break, and shows in row `i`, column `j` the glyph `cell` gives.
pub proof fn lemma_frame_layout(heights: Seq<i16>, w: nat, h: nat)
    requires
        bar_width(heights.len(), w) > 0,
    ensures
        frame(heights, w, h).len() == h * (w - bar_width(heights.len(), w) + 1),
        forall|i: int, j: int|
            0 <= i < h && 0 <= j < w - bar_width(heights.len(), w) ==> frame(heights, w, h)[i * (w
                - bar_width(heights.len(), w) + 1) + j] == #[trigger] cell(heights, w, h, i, j),
        forall|i: int|
            0 <= i < h ==> #[trigger] frame(heights, w, h)[i * (w - bar_width(heights.len(), w)
                + 1) + (w - bar_width(heights.len(), w))] == '\n',
{
    let n = heights.len();
    assert(w / (2 * n) <= w) by (nonlinear_arith)
        requires
            n > 0,
    ;
    lemma_rows(heights, w, h, h);
}

/// Paints the bars into a frame of text: `h` rows, each of the viewport's
/// width less one stripe and closed by a line break. Where there is no bar,
/// or the viewport is too narrow to give a stripe one column, the frame is
/// empty.
pub fn render(heights: &[i16], w: usize, h: usize) -> (r: String)
    ensures
        r@ == frame(heights@, w as nat, h as nat),
{
    let n = heights.len();
    let mut out = String::new();
    if n == 0 || n > w / 2 {
        assert(bar_width(n as nat, w as nat) == 0) by (nonlinear_arith)
            requires
                n == 0 || n > w / 2,
                bar_width(n as nat, w as nat) == if n == 0 {
                    0
                } else {
                    (w as nat) / (2 * (n as nat))
                },
        ;
        return out;
    }
    let bw: usize = w / (2 * n);
    assert(1 <= bw <= w) by (nonlinear_arith)
        requires
            bw as int == (w as int) / (2 * (n as int)),
            0 < (n as int) <= (w as int) / 2,
    ;
    let rw: usize = w - bw;
    proof {
        reveal_strlit("\u{25A0}");
        reveal_strlit(" ");
        reveal_strlit("\n");
    }
    let mut i: usize = 0;
    while i < h
        invariant
            i <= h,
            n == heights@.len(),
            bw == bar_width(n as nat, w as nat),
            bw >= 1,
            rw == row_width(n as nat, w as nat),
            "\u{25A0}"@ == seq![BLOCK],
            " "@ == seq![' '],
            "\n"@ == seq!['\n'],
            out@ == rows(heights@, w as nat, h as nat, i as nat),
        decreases h - i,
    {
        let ghost done = out@;
        let mut j: usize = 0;
        while j < rw
            invariant
                j <= rw,
                i < h,
                n == heights@.len(),
                bw == bar_width(n as nat, w as nat),
                bw >= 1,
                "\u{25A0}"@ == seq![BLOCK],
                " "@ == seq![' '],
                out@ == done + cells(heights@, w as nat, h as nat, i as int, j as nat),
            decreases rw - j,
        {
            let stripe = j / bw;
            let bar = stripe / 2;
            let on = stripe % 2 == 1 && bar < n && heights[bar] > 0 && h - i
                <= heights[bar] as usize;
            assert(on == filled(heights@, w as nat, h as nat, i as int, j as int));
            if on {
                out.append("\u{25A0}");
            } else {
                out.append(" ");
            }
            assert(out@ =~= done + cells(heights@, w as nat, h as nat, i as int, (j + 1) as nat));
            j += 1;
        }
        out.append("\n");
        assert(out@ =~= rows(heights@, w as nat, h as nat, (i + 1) as nat));
        i += 1;
    }
    out
}

/// The frame for one magnitude series: the magnitudes scaled to the
/// viewport's height, then painted.
pub fn bars_frame(magnitudes: &[i16], h: usize, w: usize) -> (r: String)
    requires
        h > 0,
    ensures
        r@ == frame(scaled(magnitudes@, h as nat), w as nat, h as nat),
{
    let heights = scale(magnitudes, h);
    render(heights.as_slice(), w, h)
}

/// What one cycle shows.
#[derive(Debug)]
pub enum Shown {
    /// The frame to write out.
    Frame(String),
    /// No viewport could be had: nothing is drawn in this cycle.
    NoViewport,
}

/// The end of a cycle: with a viewport of `(w, h)` the frame of the
/// magnitudes in it, without one nothing.
pub fn present(magnitudes: &[i16], viewport: Option<(usize, usize)>) -> (r: Shown)
    requires
        viewport matches Some(size) ==> size.1 > 0,
    ensures
        match viewport {
            Some(size) => r matches Shown::Frame(text) && text@ == frame(
                scaled(magnitudes@, size.1 as nat),
                size.0 as nat,
                size.1 as nat,
            ),
            None => r is NoViewport,
        },
{
    match viewport {
        Some((w, h)) => Shown::Frame(bars_frame(magnitudes, h, w)),
        None => Shown::NoViewport,
    }
}

} // verus!
