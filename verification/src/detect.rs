//! Rail detector: scans two horizontal lines of a decoded frame, computes
//! an approximate luminance per column, adaptively keeps the brightest
//! band, and reports the centre of the leftmost bright run whose partner
//! run lies at the fixed rail-pair separation.
//!
//! The whole scan is a function of the row's pixels alone, so for a given
//! row the detector is deterministic: the executable scan is tied exactly
//! to the spec-level scan of the same row.

use vstd::prelude::*;

use crate::decode::DecodedFrame;
use crate::decode::frame_px;
use crate::decode::read_px;

verus! {

/// Scan row of the rail attached to the movable table.
pub const TABLE_RAIL_Y: usize = 346;

/// Scan row of the rail attached to the stationary layout.
pub const LAYOUT_RAIL_Y: usize = 368;

/// Centre-to-centre separation of a rail pair, in pixels.
pub const RAIL_PAIR_WIDTH: usize = 106;

/// Columns ignored at each side of the scan window.
pub const EDGE_SKIP: usize = 80;

/// What one frame's scan yields: the optional x-centre of the table rail
/// and of the layout rail.
#[derive(Clone, Copy, Debug, PartialEq, Eq, Structural)]
pub struct RailObservation {
    pub table_x: Option<u32>,
    pub layout_x: Option<u32>,
}

/// Approximate luminance (3R + 4G + B) / 6, clamped to 255.
pub open spec fn brightness_spec(r: u8, g: u8, b: u8) -> u8 {
    if (3 * (r as int) + 4 * (g as int) + (b as int)) / 6 > 255 {
        255u8
    } else {
        ((3 * (r as int) + 4 * (g as int) + (b as int)) / 6) as u8
    }
}

/// Fast approximate luminance of one pixel.
pub fn brightness_from_px(r: u8, g: u8, b: u8) -> (v: u8)
    ensures
        v == brightness_spec(r, g, b),
{
    let s: u32 = (3 * (r as u32) + 4 * (g as u32) + (b as u32)) / 6;
    if s > 255 {
        255
    } else {
        s as u8
    }
}

/// The luminance of frame pixel (x, y).
pub open spec fn px_brightness(f: DecodedFrame, x: int, y: int) -> u8 {
    brightness_spec(frame_px(f, x, y).0, frame_px(f, x, y).1, frame_px(f, x, y).2)
}

/// The luminances of one whole frame row.
pub open spec fn row_brightness_spec(f: DecodedFrame, y: int) -> Seq<u8> {
    Seq::new(f.width as nat, |x: int| px_brightness(f, x, y))
}

/// The largest value in a byte sequence (0 for an empty one).
pub open spec fn seq_max(s: Seq<u8>) -> u8
    decreases s.len(),
{
    if s.len() == 0 {
        0u8
    } else if s.last() > seq_max(s.drop_last()) {
        s.last()
    } else {
        seq_max(s.drop_last())
    }
}

/// The adaptive brightness cut: the row maximum less 14 percent of it, so
/// the candidate band keeps roughly the brightest 14 percent.
pub open spec fn threshold_spec(m: u8) -> u8 {
    ((m as int) - (m as int) * 14 / 100) as u8
}

/// The adaptive brightness cut for a row maximum.
pub fn threshold_of(m: u8) -> (t: u8)
    ensures
        t == threshold_spec(m),
{
    proof {
        assert((m as int) * 14 / 100 <= m as int && (m as int) * 14 / 100 >= 0)
            by (nonlinear_arith);
    }
    m - ((m as u32 * 14) / 100) as u8
}

/// Which columns of row y are candidate rail pixels: those at least as
/// bright as the adaptive cut below the row maximum.
pub open spec fn candidates_spec(f: DecodedFrame, y: int) -> Seq<bool> {
    let bs = row_brightness_spec(f, y);
    Seq::new(bs.len(), |x: int| bs[x] >= threshold_spec(seq_max(bs)))
}

/// Computes the candidate mask of row y.
pub fn row_candidates(frame: &DecodedFrame, y: usize) -> (cand: Vec<bool>)
    requires
        frame.wf(),
        y < frame.height,
    ensures
        cand@ == candidates_spec(*frame, y as int),
{
    let w: usize = frame.width;
    let ghost bs = row_brightness_spec(*frame, y as int);
    let mut bright: Vec<u8> = Vec::new();
    let mut m: u8 = 0;
    let mut x: usize = 0;
    while x < w
        invariant
            frame.wf(),
            y < frame.height,
            w == frame.width,
            x <= w,
            bright@.len() == x,
            bs == row_brightness_spec(*frame, y as int),
            forall|j: int| 0 <= j < x ==> bright@[j] == bs[j],
            m == seq_max(bright@),
        decreases w - x,
    {
        let p = read_px(frame, x, y);
        let b = brightness_from_px(p.0, p.1, p.2);
        let ghost pre = bright@;
        bright.push(b);
        if b > m {
            m = b;
        }
        proof {
            assert(bright@.drop_last() =~= pre);
            assert(bright@.last() == b);
        }
        x = x + 1;
    }
    proof {
        assert(bright@ =~= bs);
    }
    let t = threshold_of(m);
    let mut cand: Vec<bool> = Vec::new();
    let mut k: usize = 0;
    while k < w
        invariant
            k <= w,
            w == frame.width,
            cand@.len() == k,
            bright@.len() == w,
            bright@ == bs,
            bs == row_brightness_spec(*frame, y as int),
            t == threshold_spec(seq_max(bs)),
            forall|j: int| 0 <= j < k ==> cand@[j] == (bs[j] >= threshold_spec(seq_max(bs))),
        decreases w - k,
    {
        cand.push(bright[k] >= t);
        k = k + 1;
    }
    proof {
        assert(cand@ =~= candidates_spec(*frame, y as int));
    }
    cand
}

/// Columns x and x + pair are both candidates.
pub open spec fn pair_at(cand: Seq<bool>, pair: int, x: int) -> bool {
    cand[x] && cand[x + pair]
}

/// The first column in [lo, hi) where a candidate pair starts.
pub open spec fn first_pair(cand: Seq<bool>, pair: int, lo: int, hi: int) -> Option<int>
    decreases hi - lo,
{
    if lo >= hi {
        None
    } else if pair_at(cand, pair, lo) {
        Some(lo)
    } else {
        first_pair(cand, pair, lo + 1, hi)
    }
}

/// The first non-candidate column at or after `from`.
pub open spec fn first_gap(cand: Seq<bool>, from: int) -> Option<int>
    decreases cand.len() - from,
{
    if from >= cand.len() {
        None
    } else if !cand[from] {
        Some(from)
    } else {
        first_gap(cand, from + 1)
    }
}

/// The rail centre a candidate mask yields: the first pair start x inside
/// the edge-skipped window, averaged with the end of its bright run (x
/// itself when the run reaches the row's right edge).
pub open spec fn rail_center_spec(cand: Seq<bool>, edge: int, pair: int) -> Option<int> {
    if cand.len() < pair + 2 * edge {
        None
    } else {
        match first_pair(cand, pair, edge, cand.len() - pair - edge) {
            None => None,
            Some(x) => match first_gap(cand, x) {
                None => Some(x),
                Some(n) => Some((x + n) / 2),
            },
        }
    }
}

proof fn lemma_first_pair_found(cand: Seq<bool>, pair: int, lo: int, hi: int, x: int)
    requires
        lo <= x < hi,
        pair_at(cand, pair, x),
        forall|j: int| lo <= j < x ==> !pair_at(cand, pair, j),
    ensures
        first_pair(cand, pair, lo, hi) == Some(x),
    decreases x - lo,
{
    if lo < x {
        lemma_first_pair_found(cand, pair, lo + 1, hi, x);
    }
}

proof fn lemma_first_pair_none(cand: Seq<bool>, pair: int, lo: int, hi: int)
    requires
        forall|j: int| lo <= j < hi ==> !pair_at(cand, pair, j),
    ensures
        first_pair(cand, pair, lo, hi) is None,
    decreases hi - lo,
{
    if lo < hi {
        lemma_first_pair_none(cand, pair, lo + 1, hi);
    }
}

proof fn lemma_first_pair_props(cand: Seq<bool>, pair: int, lo: int, hi: int)
    ensures
        first_pair(cand, pair, lo, hi) matches Some(x) ==> lo <= x < hi && pair_at(cand, pair, x),
    decreases hi - lo,
{
    if lo < hi && !pair_at(cand, pair, lo) {
        lemma_first_pair_props(cand, pair, lo + 1, hi);
    }
}

proof fn lemma_first_gap_found(cand: Seq<bool>, from: int, n: int)
    requires
        0 <= from <= n < cand.len(),
        !cand[n],
        forall|j: int| from <= j < n ==> cand[j],
    ensures
        first_gap(cand, from) == Some(n),
    decreases n - from,
{
    if from < n {
        lemma_first_gap_found(cand, from + 1, n);
    }
}

proof fn lemma_first_gap_none(cand: Seq<bool>, from: int)
    requires
        0 <= from,
        forall|j: int| from <= j < cand.len() ==> cand[j],
    ensures
        first_gap(cand, from) is None,
    decreases cand.len() - from,
{
    if from < cand.len() {
        lemma_first_gap_none(cand, from + 1);
    }
}

proof fn lemma_first_gap_props(cand: Seq<bool>, from: int)
    requires
        0 <= from,
    ensures
        first_gap(cand, from) matches Some(n) ==> from <= n < cand.len() && !cand[n],
    decreases cand.len() - from,
{
    if from < cand.len() && cand[from] {
        lemma_first_gap_props(cand, from + 1);
    }
}

/// The first gap is no later than any known dark column.
proof fn lemma_first_gap_le(cand: Seq<bool>, from: int, j: int)
    requires
        0 <= from <= j < cand.len(),
        !cand[j],
    ensures
        first_gap(cand, from) matches Some(n) && n <= j,
    decreases j - from,
{
    if cand[from] {
        lemma_first_gap_le(cand, from + 1, j);
    }
}

/// Finds the rail centre in a candidate mask, exactly as the spec-level
/// scan describes it.
pub fn find_rail(cand: &Vec<bool>, edge_skip: usize, pair_width: usize) -> (out: Option<usize>)
    requires
        pair_width + 2 * edge_skip <= usize::MAX,
    ensures
        out is None <==> rail_center_spec(cand@, edge_skip as int, pair_width as int) is None,
        out matches Some(c) ==> rail_center_spec(cand@, edge_skip as int, pair_width as int)
            == Some(c as int),
{
    let len: usize = cand.len();
    if len < pair_width + 2 * edge_skip {
        return None;
    }
    let hi: usize = len - pair_width - edge_skip;
    let mut x: usize = edge_skip;
    while x < hi
        invariant
            len == cand@.len(),
            pair_width + 2 * edge_skip <= len,
            hi == len - pair_width - edge_skip,
            edge_skip <= x <= hi,
            forall|j: int| edge_skip <= j < x ==> !pair_at(cand@, pair_width as int, j),
        decreases hi - x,
    {
        if cand[x] && cand[x + pair_width] {
            proof {
                lemma_first_pair_found(
                    cand@,
                    pair_width as int,
                    edge_skip as int,
                    hi as int,
                    x as int,
                );
            }
            let mut n: usize = x;
            while n < len
                invariant
                    len == cand@.len(),
                    pair_width + 2 * edge_skip <= len,
                    first_pair(
                        cand@,
                        pair_width as int,
                        edge_skip as int,
                        cand@.len() - pair_width - edge_skip,
                    ) == Some(x as int),
                    x <= n <= len,
                    forall|j: int| x <= j < n ==> cand@[j],
                decreases len - n,
            {
                if !cand[n] {
                    let c: usize = x + (n - x) / 2;
                    proof {
                        lemma_first_gap_found(cand@, x as int, n as int);
                        assert(c as int == (x as int + n as int) / 2) by (nonlinear_arith)
                            requires
                                x <= n,
                                c == x + (n - x) / 2,
                        ;
                    }
                    return Some(c);
                }
                n = n + 1;
            }
            proof {
                lemma_first_gap_none(cand@, x as int);
            }
            return Some(x);
        }
        x = x + 1;
    }
    proof {
        lemma_first_pair_none(cand@, pair_width as int, edge_skip as int, hi as int);
    }
    None
}

/// Any centre the scan reports lies at or right of the edge margin and
/// strictly inside the row.
pub proof fn lemma_rail_center_bounds(cand: Seq<bool>, edge: int, pair: int)
    requires
        edge >= 0,
        pair >= 0,
    ensures
        rail_center_spec(cand, edge, pair) matches Some(c) ==> edge <= c < cand.len(),
{
    if cand.len() >= pair + 2 * edge {
        let hi = cand.len() - pair - edge;
        lemma_first_pair_props(cand, pair, edge, hi);
        if let Some(x) = first_pair(cand, pair, edge, hi) {
            lemma_first_gap_props(cand, x);
            if let Some(n) = first_gap(cand, x) {
                assert(x <= (x + n) / 2 < cand.len());
            }
        }
    }
}

/// As long as the column that closes the search window is dark, the scan
/// never reports a centre right of width - edge_skip - pair_width.  A row
/// whose bright band runs unbroken from inside the window to the right
/// edge of the frame has no such dark column, and the reported centre of
/// that run can then lie beyond the window.
pub proof fn lemma_rail_center_upper(cand: Seq<bool>, edge: int, pair: int)
    requires
        edge >= 0,
        pair >= 0,
        cand.len() > pair + edge,
        !cand[cand.len() - pair - edge - 1],
    ensures
        rail_center_spec(cand, edge, pair) matches Some(c) ==> c <= cand.len() - edge - pair - 1,
{
    if cand.len() >= pair + 2 * edge {
        let hi = cand.len() - pair - edge;
        lemma_first_pair_props(cand, pair, edge, hi);
        if let Some(x) = first_pair(cand, pair, edge, hi) {
            lemma_first_gap_le(cand, x, hi - 1);
            lemma_first_gap_props(cand, x);
            if let Some(n) = first_gap(cand, x) {
                assert((x + n) / 2 <= n);
            }
        }
    }
}

/// What scanning row y of a frame yields.
pub open spec fn detect_row_spec(f: DecodedFrame, y: int, edge: int, pair: int) -> Option<int> {
    rail_center_spec(candidates_spec(f, y), edge, pair)
}

/// Scans one row for a rail centre.  For a given row the result is a pure
/// function of the row's pixels.
pub fn detect_row(frame: &DecodedFrame, y: usize, edge_skip: usize, pair_width: usize) -> (out:
    Option<u32>)
    requires
        frame.wf(),
        y < frame.height,
        frame.width <= u32::MAX,
        pair_width + 2 * edge_skip <= usize::MAX,
    ensures
        out is None <==> detect_row_spec(*frame, y as int, edge_skip as int, pair_width as int)
            is None,
        out matches Some(c) ==> detect_row_spec(*frame, y as int, edge_skip as int,
            pair_width as int) == Some(c as int),
{
    let cand = row_candidates(frame, y);
    match find_rail(&cand, edge_skip, pair_width) {
        Some(c) => {
            proof {
                lemma_rail_center_bounds(cand@, edge_skip as int, pair_width as int);
            }
            Some(c as u32)
        },
        None => None,
    }
}

/// What detecting on a whole frame yields: each scan row's centre, or
/// nothing for a row that lies outside the frame.
pub open spec fn detect_spec(f: DecodedFrame) -> (Option<int>, Option<int>) {
    (
        if (TABLE_RAIL_Y as int) < f.height {
            detect_row_spec(f, TABLE_RAIL_Y as int, EDGE_SKIP as int, RAIL_PAIR_WIDTH as int)
        } else {
            None
        },
        if (LAYOUT_RAIL_Y as int) < f.height {
            detect_row_spec(f, LAYOUT_RAIL_Y as int, EDGE_SKIP as int, RAIL_PAIR_WIDTH as int)
        } else {
            None
        },
    )
}

/// A centre reported for any frame row lies at or right of the edge
/// margin and strictly inside the row.
pub proof fn lemma_detect_row_in_row(f: DecodedFrame, y: int, edge: int, pair: int)
    requires
        edge >= 0,
        pair >= 0,
    ensures
        detect_row_spec(f, y, edge, pair) matches Some(c) ==> edge <= c < f.width,
{
    lemma_rail_center_bounds(candidates_spec(f, y), edge, pair);
}

/// The table-rail centre of a frame, as the scan reports it.
pub open spec fn obs_table(f: DecodedFrame) -> Option<u32> {
    match detect_spec(f).0 {
        Some(c) => Some(c as u32),
        None => None,
    }
}

/// The layout-rail centre of a frame, as the scan reports it.
pub open spec fn obs_layout(f: DecodedFrame) -> Option<u32> {
    match detect_spec(f).1 {
        Some(c) => Some(c as u32),
        None => None,
    }
}

/// Scans the two fixed rows of a frame.  The detector never fails: a rail
/// that is not found is reported as absent.
pub fn detect(frame: &DecodedFrame) -> (obs: RailObservation)
    requires
        frame.wf(),
        frame.width <= u32::MAX,
    ensures
        obs.table_x == obs_table(*frame),
        obs.layout_x == obs_layout(*frame),
{
    let table_x = if TABLE_RAIL_Y < frame.height {
        detect_row(frame, TABLE_RAIL_Y, EDGE_SKIP, RAIL_PAIR_WIDTH)
    } else {
        None
    };
    let layout_x = if LAYOUT_RAIL_Y < frame.height {
        detect_row(frame, LAYOUT_RAIL_Y, EDGE_SKIP, RAIL_PAIR_WIDTH)
    } else {
        None
    };
    RailObservation { table_x, layout_x }
}

} // verus!
