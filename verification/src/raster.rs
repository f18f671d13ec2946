//! Line drawing into a frame.
//!
//! A segment is stepped along the axis on which it is longer. For every whole
//! coordinate on that axis between the rounded-up ends of the segment, the
//! coordinate on the other axis is interpolated exactly and rounded down, and
//! the cell so found is marked. Cells that fall outside the grid are left out.
use crate::fixed::ceil;
use crate::fixed::ceil_cell;
use crate::fixed::floor_cell;
use crate::fixed::floor_div;
use crate::fixed::floor_ratio;
use crate::fixed::lemma_floor_ratio_between;
use crate::fixed::lemma_floor_ratio_cancel;
use crate::fixed::magnitude;
use crate::fixed::ONE;
use crate::frame::in_grid;
use crate::frame::Frame;
use crate::frame::Grid;
use crate::frame::BAR;
use crate::frame::DASH;
use crate::frame::SCREEN_HEIGHT;
use crate::frame::SCREEN_WIDTH;
use vstd::prelude::*;

verus! {

/// A position on the screen in fixed-point cell units: `x` grows to the
/// right, `y` grows downwards.
#[derive(Clone, Copy, Debug, PartialEq, Eq, Structural)]
pub struct Point {
    pub x: i32,
    pub y: i32,
}

/// The smaller of two integers.
pub open spec fn lesser(a: int, b: int) -> int {
    if a <= b {
        a
    } else {
        b
    }
}

/// The larger of two integers.
pub open spec fn greater(a: int, b: int) -> int {
    if a <= b {
        b
    } else {
        a
    }
}

/// The segment from `a` to `b` is taller than it is wide.
pub open spec fn is_steep(a: Point, b: Point) -> bool {
    magnitude(b.y - a.y) > magnitude(b.x - a.x)
}

/// The character that the segment from `a` to `b` is drawn with.
pub open spec fn line_mark(a: Point, b: Point) -> u8 {
    if is_steep(a, b) {
        BAR
    } else {
        DASH
    }
}

/// The cell index on the minor axis where the segment from
/// `(major0, minor0)` to `(major1, minor1)` crosses the whole coordinate
/// `step` of the major axis: the floor of
/// `minor0 + (step - major0) * (minor1 - minor0) / (major1 - major0)`.
pub open spec fn minor_at(major0: int, minor0: int, major1: int, minor1: int, step: int) -> int {
    floor_ratio(
        minor0 * (major1 - major0) + (step * ONE - major0) * (minor1 - minor0),
        (major1 - major0) * ONE,
    )
}

/// `step` lies between the rounded-up ends of the span from `end0` to `end1`.
pub open spec fn in_span(end0: int, end1: int, step: int) -> bool {
    ceil_cell(lesser(end0, end1)) <= step < ceil_cell(greater(end0, end1))
}

/// The segment from `a` to `b` marks the cell at `(row, col)`.
pub open spec fn on_line(a: Point, b: Point, row: int, col: int) -> bool {
    if is_steep(a, b) {
        in_span(a.y as int, b.y as int, row) && col == minor_at(
            a.y as int,
            a.x as int,
            b.y as int,
            b.x as int,
            row,
        )
    } else {
        in_span(a.x as int, b.x as int, col) && row == minor_at(
            a.x as int,
            a.y as int,
            b.x as int,
            b.y as int,
            col,
        )
    }
}

/// The grid `g` with the segment from `a` to `b` drawn over it.
pub open spec fn line_grid(g: Grid, a: Point, b: Point) -> Grid {
    Seq::new(
        SCREEN_HEIGHT as nat,
        |row: int|
            Seq::new(
                SCREEN_WIDTH as nat,
                |col: int|
                    if on_line(a, b, row, col) {
                        line_mark(a, b)
                    } else {
                        g[row][col]
                    },
            ),
    )
}

/// The part of the segment that has been drawn once every step below `upto`
/// on the major axis is done.
pub open spec fn on_line_before(a: Point, b: Point, upto: int, row: int, col: int) -> bool {
    on_line(a, b, row, col) && if is_steep(a, b) {
        row < upto
    } else {
        col < upto
    }
}

/// The grid `g` with the segment drawn up to, and not including, step `upto`.
pub open spec fn partial_line_grid(g: Grid, a: Point, b: Point, upto: int) -> Grid {
    Seq::new(
        SCREEN_HEIGHT as nat,
        |row: int|
            Seq::new(
                SCREEN_WIDTH as nat,
                |col: int|
                    if on_line_before(a, b, upto, row, col) {
                        line_mark(a, b)
                    } else {
                        g[row][col]
                    },
            ),
    )
}

/// Draws the segment from `start` to `end` into `frame`.
///
/// A segment that is taller than wide is drawn with bars, one per row; any
/// other with dashes, one per column. A segment whose ends round up to the
/// same coordinate on its major axis draws nothing. Cells outside the grid
/// are dropped silently.
pub fn draw_line(frame: &mut Frame, start: Point, end: Point)
    requires
        old(frame).wf(),
    ensures
        final(frame).wf(),
        final(frame)@ == line_grid(old(frame)@, start, end),
{
    let dx: i64 = end.x as i64 - start.x as i64;
    let dy: i64 = end.y as i64 - start.y as i64;
    let tall: i64 = if dy < 0 {
        -dy
    } else {
        dy
    };
    let wide: i64 = if dx < 0 {
        -dx
    } else {
        dx
    };
    let steep: bool = tall > wide;
    let (major0, minor0, major1, minor1, limit): (i32, i32, i32, i32, i32) = if steep {
        (start.y, start.x, end.y, end.x, 40)
    } else {
        (start.x, start.y, end.x, end.y, 80)
    };
    let across: i32 = if steep {
        80
    } else {
        40
    };
    let mark: u8 = if steep {
        BAR
    } else {
        DASH
    };
    let low: i32 = ceil(if major0 <= major1 {
        major0
    } else {
        major1
    });
    let high: i32 = ceil(if major0 <= major1 {
        major1
    } else {
        major0
    });
    let first: i32 = if low < 0 {
        0
    } else {
        low
    };
    let last: i32 = if high > limit {
        limit
    } else {
        high
    };
    let run: i128 = major1 as i128 - major0 as i128;
    let rise: i128 = minor1 as i128 - minor0 as i128;
    let mut step: i32 = first;
    assert(frame@ =~~= partial_line_grid(old(frame)@, start, end, step as int));
    while step < last
        invariant
            frame.wf(),
            old(frame).wf(),
            0 <= first <= step,
            last <= limit,
            step <= last || first >= last,
            steep == is_steep(start, end),
            mark == line_mark(start, end),
            limit == if steep { 40i32 } else { 80i32 },
            across == if steep { 80i32 } else { 40i32 },
            major0 == if steep { start.y } else { start.x },
            minor0 == if steep { start.x } else { start.y },
            major1 == if steep { end.y } else { end.x },
            minor1 == if steep { end.x } else { end.y },
            run == major1 - major0,
            rise == minor1 - minor0,
            run != 0 || first >= last,
            low == ceil_cell(lesser(major0 as int, major1 as int)),
            high == ceil_cell(greater(major0 as int, major1 as int)),
            first == greater(low as int, 0),
            last == lesser(high as int, limit as int),
            frame@ == partial_line_grid(old(frame)@, start, end, step as int),
        decreases last - step,
    {
        let offset: i128 = step as i128 * 65536 - major0 as i128;
        assert(-0x1_0000_0000 * 0x1_0000_0000 <= minor0 * run <= 0x1_0000_0000 * 0x1_0000_0000)
            by (nonlinear_arith)
            requires
                -0x1_0000_0000 <= minor0 <= 0x1_0000_0000,
                -0x1_0000_0000 <= run <= 0x1_0000_0000,
        ;
        assert(-0x1_0000_0000 * 0x1_0000_0000 <= offset * rise <= 0x1_0000_0000 * 0x1_0000_0000)
            by (nonlinear_arith)
            requires
                -0x1_0000_0000 <= offset <= 0x1_0000_0000,
                -0x1_0000_0000 <= rise <= 0x1_0000_0000,
        ;
        let numerator: i128 = minor0 as i128 * run + offset * rise;
        let denominator: i128 = run * 65536;
        let minor: i128 = floor_div(numerator, denominator);
        assert(minor == minor_at(
            major0 as int,
            minor0 as int,
            major1 as int,
            minor1 as int,
            step as int,
        ));
        if 0 <= minor && minor < across as i128 {
            if steep {
                frame.put(step as usize, minor as usize, mark);
            } else {
                frame.put(minor as usize, step as usize, mark);
            }
        }
        step = step + 1;
        assert(frame@ =~~= partial_line_grid(old(frame)@, start, end, step as int));
    }
    assert(frame@ =~~= line_grid(old(frame)@, start, end));
}

/// Interpolating from either end of a segment finds the same cell.
pub proof fn lemma_minor_at_symmetric(
    major0: int,
    minor0: int,
    major1: int,
    minor1: int,
    step: int,
)
    requires
        major0 != major1,
    ensures
        minor_at(major1, minor1, major0, minor0, step) == minor_at(
            major0,
            minor0,
            major1,
            minor1,
            step,
        ),
{
    let forward = minor0 * (major1 - major0) + (step * ONE - major0) * (minor1 - minor0);
    let backward = minor1 * (major0 - major1) + (step * ONE - major1) * (minor0 - minor1);
    assert(backward == -forward) by (nonlinear_arith)
        requires
            forward == minor0 * (major1 - major0) + (step * ONE - major0) * (minor1 - minor0),
            backward == minor1 * (major0 - major1) + (step * ONE - major1) * (minor0 - minor1),
    ;
    assert((major0 - major1) * ONE == -((major1 - major0) * ONE));
}

/// A segment marks the same cells whichever end it is drawn from.
pub proof fn lemma_on_line_symmetric(a: Point, b: Point, row: int, col: int)
    ensures
        on_line(b, a, row, col) == on_line(a, b, row, col),
        line_mark(b, a) == line_mark(a, b),
{
    if is_steep(a, b) {
        lemma_minor_at_symmetric(a.y as int, a.x as int, b.y as int, b.x as int, row);
    } else if a.x != b.x {
        lemma_minor_at_symmetric(a.x as int, a.y as int, b.x as int, b.y as int, col);
    }
}

/// Drawing a segment from its end to its start gives the same grid as
/// drawing it from its start to its end.
pub proof fn lemma_draw_line_symmetric(g: Grid, a: Point, b: Point)
    ensures
        line_grid(g, b, a) == line_grid(g, a, b),
{
    assert forall|row: int| 0 <= row < SCREEN_HEIGHT implies #[trigger] line_grid(g, b, a)[row]
        == line_grid(g, a, b)[row] by {
        assert forall|col: int| 0 <= col < SCREEN_WIDTH implies #[trigger] line_grid(
            g,
            b,
            a,
        )[row][col] == line_grid(g, a, b)[row][col] by {
            lemma_on_line_symmetric(a, b, row, col);
        }
        assert(line_grid(g, b, a)[row] =~= line_grid(g, a, b)[row]);
    }
    assert(line_grid(g, b, a) =~= line_grid(g, a, b));
}

/// A segment between two points of equal height changes nothing but the
/// cells of the row that holds that height, from the rounded-up smaller to
/// the rounded-up larger horizontal coordinate, and fills those with dashes.
pub proof fn lemma_horizontal_line(g: Grid, a: Point, b: Point)
    requires
        a.y == b.y,
    ensures
        forall|row: int, col: int|
            in_grid(row, col) ==> #[trigger] line_grid(g, a, b)[row][col] == if row == floor_cell(
                a.y as int,
            ) && in_span(a.x as int, b.x as int, col) {
                DASH
            } else {
                g[row][col]
            },
{
    assert forall|row: int, col: int| in_grid(row, col) implies #[trigger] line_grid(
        g,
        a,
        b,
    )[row][col] == if row == floor_cell(a.y as int) && in_span(a.x as int, b.x as int, col) {
        DASH
    } else {
        g[row][col]
    } by {
        if a.x != b.x {
            lemma_floor_ratio_cancel(a.y as int, ONE as int, b.x - a.x);
        }
    }
}

/// A segment between two points of equal horizontal coordinate changes
/// nothing but the cells of the column that holds that coordinate, from the
/// rounded-up smaller to the rounded-up larger height, and fills those with
/// bars.
pub proof fn lemma_vertical_line(g: Grid, a: Point, b: Point)
    requires
        a.x == b.x,
    ensures
        forall|row: int, col: int|
            in_grid(row, col) ==> #[trigger] line_grid(g, a, b)[row][col] == if col == floor_cell(
                a.x as int,
            ) && in_span(a.y as int, b.y as int, row) {
                BAR
            } else {
                g[row][col]
            },
{
    assert forall|row: int, col: int| in_grid(row, col) implies #[trigger] line_grid(
        g,
        a,
        b,
    )[row][col] == if col == floor_cell(a.x as int) && in_span(a.y as int, b.y as int, row) {
        BAR
    } else {
        g[row][col]
    } by {
        if a.y != b.y {
            lemma_floor_ratio_cancel(a.x as int, ONE as int, b.y - a.y);
        }
    }
}

/// `p` lies on the screen: inside the rectangle that the grid covers.
pub open spec fn on_screen(p: Point) -> bool {
    0 <= p.x < SCREEN_WIDTH * ONE && 0 <= p.y < SCREEN_HEIGHT * ONE
}

/// Between the ends of a segment the interpolated coordinate stays between
/// the coordinates of the ends: if both ends lie in the first `limit` cells
/// of the minor axis, so does every cell that the segment marks.
pub proof fn lemma_minor_at_between(
    major0: int,
    minor0: int,
    major1: int,
    minor1: int,
    step: int,
    limit: int,
)
    requires
        in_span(major0, major1, step),
        0 <= minor0 < limit * ONE,
        0 <= minor1 < limit * ONE,
    ensures
        0 <= minor_at(major0, minor0, major1, minor1, step) < limit,
{
    let low = lesser(major0, major1);
    let high = greater(major0, major1);
    // a whole step between the rounded-up ends lies between the ends
    assert(low <= step * ONE < high);
    let run = major1 - major0;
    let offset = step * ONE - major0;
    let rest = major1 - step * ONE;
    let numerator = minor0 * run + offset * (minor1 - minor0);
    assert(numerator == minor0 * rest + minor1 * offset) by (nonlinear_arith)
        requires
            numerator == minor0 * run + offset * (minor1 - minor0),
            run == offset + rest,
    ;
    let span = limit * ONE;
    if run > 0 {
        assert(0 <= minor0 * rest + minor1 * offset < span * run) by (nonlinear_arith)
            requires
                0 <= minor0 < span,
                0 <= minor1 < span,
                0 <= offset,
                0 < rest,
                run == offset + rest,
        ;
        assert(span * run == limit * (run * ONE)) by (nonlinear_arith)
            requires
                span == limit * ONE,
        ;
        lemma_floor_ratio_between(numerator, run * ONE, limit);
    } else {
        assert(0 <= -(minor0 * rest + minor1 * offset) < span * (-run)) by (nonlinear_arith)
            requires
                0 <= minor0 < span,
                0 <= minor1 < span,
                offset < 0,
                rest <= 0,
                run == offset + rest,
        ;
        assert(span * (-run) == limit * (-(run * ONE))) by (nonlinear_arith)
            requires
                span == limit * ONE,
        ;
        lemma_floor_ratio_between(numerator, run * ONE, limit);
    }
}

/// A segment between two points on the screen marks cells of the grid only:
/// nothing of it is dropped.
pub proof fn lemma_line_on_screen_stays_in_grid(a: Point, b: Point, row: int, col: int)
    requires
        on_screen(a),
        on_screen(b),
        on_line(a, b, row, col),
    ensures
        in_grid(row, col),
{
    if is_steep(a, b) {
        lemma_minor_at_between(
            a.y as int,
            a.x as int,
            b.y as int,
            b.x as int,
            row,
            SCREEN_WIDTH as int,
        );
    } else {
        lemma_minor_at_between(
            a.x as int,
            a.y as int,
            b.x as int,
            b.y as int,
            col,
            SCREEN_HEIGHT as int,
        );
    }
}

} // verus!
