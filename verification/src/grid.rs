//! The guitar-grid layout for grid controllers.
//!
//! The grid has 8 strings (rows) of 9 frets (columns); the key of row `r`
//! and column `c` is MIDI note `16 r + c`. Each string has an open pitch and
//! each fret moves the pitch by a horizontal step; the steps repeat
//! cyclically along the string. In EDO mode all of these are whole steps of
//! an equal division of the octave.
use vstd::prelude::*;
use crate::text::{float_literal, is_float_literal, parse_i32, parse_i32_spec};

verus! {

pub const GRID_ROWS: usize = 8;

pub const GRID_COLS: usize = 9;

/// The MIDI note of the grid key at `row`, `col`.
pub open spec fn grid_key(row: int, col: int) -> int {
    row * 16 + col
}

/// Sum of the first `r` steps.
pub open spec fn prefix_sum(h: Seq<i32>, r: int) -> int
    decreases r,
{
    if r <= 0 {
        0
    } else {
        prefix_sum(h, r - 1) + h[r - 1]
    }
}

/// The offset of fret `f` from the open string: the sum of the steps of the
/// frets passed, taken cyclically from `h`; negative frets count back.
pub open spec fn horiz_offset(h: Seq<i32>, f: int) -> int
    decreases (if f >= 0 {
        f
    } else {
        -f
    }),
{
    if f == 0 {
        0
    } else if f > 0 {
        horiz_offset(h, f - 1) + h[(f - 1) % (h.len() as int)]
    } else {
        horiz_offset(h, f + 1) - h[f % (h.len() as int)]
    }
}

/// Euclidean division by a positive divisor.
proof fn lemma_div_mod_pos(x: int, d: int, q: int, r: int)
    requires
        d > 0,
        0 <= r < d,
        x == q * d + r,
    ensures
        q == x / d,
        r == x % d,
{
    vstd::arithmetic::div_mod::lemma_fundamental_div_mod_converse(x, d, q, r);
}

proof fn lemma_div_mod_facts(x: int, d: int)
    requires
        d > 0,
    ensures
        x == (x / d) * d + x % d,
        0 <= x % d < d,
{
    vstd::arithmetic::div_mod::lemma_fundamental_div_mod(x, d);
    vstd::arithmetic::div_mod::lemma_mod_bound(x, d);
    assert(d * (x / d) == (x / d) * d) by (nonlinear_arith);
}

/// A fret's offset is whole cycles of steps plus a partial cycle: with
/// `f = q n + r` (`0 <= r < n`, `n` steps summing to `s`), the offset is
/// `q s + (sum of the first r steps)`, for frets on either side of the nut.
pub proof fn law_offset_by_cycles(h: Seq<i32>, f: int)
    requires
        h.len() > 0,
    ensures
        horiz_offset(h, f) == (f / (h.len() as int)) * prefix_sum(h, h.len() as int) + prefix_sum(
            h,
            f % (h.len() as int),
        ),
    decreases (if f >= 0 {
        f
    } else {
        -f
    }),
{
    let n = h.len() as int;
    let s = prefix_sum(h, n);
    if f == 0 {
        lemma_div_mod_pos(0, n, 0, 0);
        assert(0 * s == 0);
        assert(horiz_offset(h, f) == (f / n) * s + prefix_sum(h, f % n));
    } else if f > 0 {
        law_offset_by_cycles(h, f - 1);
        lemma_div_mod_facts(f - 1, n);
        let q = (f - 1) / n;
        let r = (f - 1) % n;
        assert(horiz_offset(h, f) == horiz_offset(h, f - 1) + h[r]);
        assert(prefix_sum(h, r + 1) == prefix_sum(h, r) + h[r]);
        if r + 1 < n {
            lemma_div_mod_pos(f, n, q, r + 1);
        } else {
            assert(f == (q + 1) * n + 0) by (nonlinear_arith)
                requires
                    f - 1 == q * n + r,
                    r + 1 == n,
            ;
            lemma_div_mod_pos(f, n, q + 1, 0);
            assert((q + 1) * s == q * s + s) by (nonlinear_arith);
            assert(horiz_offset(h, f) == (f / n) * s + prefix_sum(h, f % n));
        }
        assert(horiz_offset(h, f) == (f / n) * s + prefix_sum(h, f % n));
    } else {
        law_offset_by_cycles(h, f + 1);
        lemma_div_mod_facts(f, n);
        let q = f / n;
        let r = f % n;
        assert(horiz_offset(h, f) == horiz_offset(h, f + 1) - h[r]);
        assert(prefix_sum(h, r + 1) == prefix_sum(h, r) + h[r]);
        if r + 1 < n {
            lemma_div_mod_pos(f + 1, n, q, r + 1);
        } else {
            assert(f + 1 == (q + 1) * n + 0) by (nonlinear_arith)
                requires
                    f == q * n + r,
                    r + 1 == n,
            ;
            lemma_div_mod_pos(f + 1, n, q + 1, 0);
            assert((q + 1) * s == q * s + s) by (nonlinear_arith);
            assert(horiz_offset(h, f) == (f / n) * s + prefix_sum(h, f % n));
        }
        assert(horiz_offset(h, f) == (f / n) * s + prefix_sum(h, f % n));
    }
}

proof fn lemma_prefix_sum_bound(h: Seq<i32>, r: int)
    requires
        0 <= r <= h.len(),
    ensures
        -0x8000_0000 * r <= prefix_sum(h, r) <= 0x7fff_ffff * r,
    decreases r,
{
    if r > 0 {
        lemma_prefix_sum_bound(h, r - 1);
    }
}

/// Sum of the first `r` steps.
fn prefix_sum_of(h: &[i32], r: usize) -> (s: i128)
    requires
        r <= h@.len(),
    ensures
        s == prefix_sum(h@, r as int),
{
    let mut s: i128 = 0;
    let mut i: usize = 0;
    while i < r
        invariant
            i <= r <= h@.len(),
            s == prefix_sum(h@, i as int),
            -0x8000_0000 * i <= s <= 0x7fff_ffff * i,
        decreases r - i,
    {
        s = s + h[i] as i128;
        i = i + 1;
    }
    s
}

/// The offset of fret `fret` from the open string (see `horiz_offset`).
pub fn horiz_offset_of(h: &[i32], fret: i64) -> (off: i128)
    requires
        h@.len() > 0,
        -0x1_0000_0000 <= fret <= 0x1_0000_0000,
    ensures
        off == horiz_offset(h@, fret as int),
        -0x1_0000_0000_0000_0000_0000_0000_0000 <= off <= 0x1_0000_0000_0000_0000_0000_0000_0000,
{
    let n = h.len();
    proof {
        law_offset_by_cycles(h@, fret as int);
        lemma_div_mod_facts(fret as int, n as int);
        lemma_prefix_sum_bound(h@, n as int);
    }
    let total = prefix_sum_of(h, n);
    // Euclidean division of the fret by the cycle length
    let (q, r): (i128, usize) = if fret >= 0 {
        ((fret as u64 / n as u64) as i128, (fret as u64 % n as u64) as usize)
    } else {
        let m = (-fret) as u64;
        let qq = m / n as u64;
        let rr = m % n as u64;
        if rr == 0 {
            (-(qq as i128), 0)
        } else {
            (-(qq as i128) - 1, (n as u64 - rr) as usize)
        }
    };
    proof {
        if fret >= 0 {
            assert(q == fret as int / n as int);
            assert(r == fret as int % n as int);
        } else {
            let m = -fret;
            lemma_div_mod_facts(m as int, n as int);
            let qq = m / (n as int);
            let rr = m % (n as int);
            if rr == 0 {
                assert(fret == (-qq) * n + 0) by (nonlinear_arith)
                    requires
                        m == qq * n + rr,
                        rr == 0,
                        fret == -m,
                ;
                lemma_div_mod_pos(fret as int, n as int, -qq, 0);
            } else {
                assert(fret == (-qq - 1) * n + (n - rr)) by (nonlinear_arith)
                    requires
                        m == qq * n + rr,
                        fret == -m,
                ;
                lemma_div_mod_pos(fret as int, n as int, -qq - 1, n - rr);
            }
        }
        assert(-0x1_0000_0001 <= q <= 0x1_0000_0000) by (nonlinear_arith)
            requires
                fret == q * n + r,
                0 <= r < n,
                n >= 1,
                -0x1_0000_0000 <= fret <= 0x1_0000_0000,
        ;
        assert(-0x8000_0000 * (n as int) <= total <= 0x7fff_ffff * (n as int));
        let a = q * (n as int);
        assert(fret - n <= a <= fret) by (nonlinear_arith)
            requires
                fret == q * n + r,
                0 <= r < n,
                a == q * n,
        ;
        let c = 0x8000_0000int;
        assert(-c * (n as int) <= total <= c * (n as int));
        if q >= 0 {
            assert(q * total <= q * (c * n)) by (nonlinear_arith)
                requires
                    q >= 0,
                    total <= c * n,
            ;
            assert(q * total >= q * (-c * n)) by (nonlinear_arith)
                requires
                    q >= 0,
                    total >= -c * n,
            ;
        } else {
            assert(q * total >= q * (c * n)) by (nonlinear_arith)
                requires
                    q < 0,
                    total <= c * n,
            ;
            assert(q * total <= q * (-c * n)) by (nonlinear_arith)
                requires
                    q < 0,
                    total >= -c * n,
            ;
        }
        assert(q * (c * n) == c * a && q * (-c * n) == -c * a) by (nonlinear_arith)
            requires
                a == q * n,
        ;
        assert(-0x2_0000_0000_0000_0000 * c <= c * a <= 0x2_0000_0000_0000_0000 * c) by (nonlinear_arith)
            requires
                fret - n <= a <= fret,
                -0x1_0000_0000 <= fret <= 0x1_0000_0000,
                1 <= n <= 0xffff_ffff_ffff_ffff,
                c == 0x8000_0000,
        ;
        lemma_prefix_sum_bound(h@, r as int);
        assert(-0x8000_0000 * (r as int) <= prefix_sum(h@, r as int));
    }
    let part = prefix_sum_of(h, r);
    q * total + part
}

/// The number of whole EDO steps of grid key (`row`, `col`) above the
/// reference pitch: the row's open string, the fret offset (fret
/// `col + capo`), and `octave` octaves of `edo` steps. The open strings are
/// listed from the bottom row of the controller up: the first one tunes the
/// highest row of notes (112 to 120), the last one the lowest.
pub open spec fn edo_steps(open: Seq<i32>, h: Seq<i32>, capo: i32, octave: i32, edo: i32, row: int, col: int) -> int {
    open[7 - row] + horiz_offset(h, col + capo) + octave * edo
}

/// One key of the grid and its pitch in EDO steps.
#[derive(Clone, Copy, Debug, PartialEq, Eq)]
pub struct GridStep {
    pub key: u8,
    pub steps: i128,
}

/// The keys of the grid, row by row, each with its EDO steps above the
/// reference pitch.
pub fn edo_grid_steps(open: &[i32], h: &[i32], capo: i32, octave: i32, edo: i32) -> (out: Vec<GridStep>)
    requires
        open@.len() == 8,
        h@.len() > 0,
    ensures
        out@.len() == 72,
        forall|row: int, col: int|
            0 <= row < 8 && 0 <= col < 9 ==> {
                let g = #[trigger] out@[row * 9 + col];
                &&& g.key == grid_key(row, col)
                &&& g.steps == edo_steps(open@, h@, capo, octave, edo, row, col)
            },
{
    let mut out: Vec<GridStep> = Vec::new();
    let mut row: usize = 0;
    while row < GRID_ROWS
        invariant
            open@.len() == 8,
            h@.len() > 0,
            row <= 8,
            out@.len() == row * 9,
            forall|r: int, c: int|
                0 <= r < row && 0 <= c < 9 ==> {
                    let g = #[trigger] out@[r * 9 + c];
                    &&& g.key == grid_key(r, c)
                    &&& g.steps == edo_steps(open@, h@, capo, octave, edo, r, c)
                },
        decreases 8 - row,
    {
        let mut col: usize = 0;
        while col < GRID_COLS
            invariant
                open@.len() == 8,
                h@.len() > 0,
                row < 8,
                col <= 9,
                out@.len() == row * 9 + col,
                forall|r: int, c: int|
                    0 <= r < 8 && 0 <= c < 9 && r * 9 + c < row * 9 + col ==> {
                        let g = #[trigger] out@[r * 9 + c];
                        &&& g.key == grid_key(r, c)
                        &&& g.steps == edo_steps(open@, h@, capo, octave, edo, r, c)
                    },
            decreases 9 - col,
        {
            let fret: i64 = col as i64 + capo as i64;
            let off = horiz_offset_of(h, fret);
            let oct = octave as i128;
            let div = edo as i128;
            assert(-0x4000_0000_0000_0000 <= oct * div <= 0x4000_0000_0000_0000) by (nonlinear_arith)
                requires
                    -0x8000_0000 <= oct <= 0x7fff_ffff,
                    -0x8000_0000 <= div <= 0x7fff_ffff,
            ;
            let steps: i128 = open[7 - row] as i128 + off + oct * div;
            let key: u8 = (row * 16 + col) as u8;
            let ghost before = out@;
            out.push(GridStep { key, steps });
            proof {
                assert forall|r: int, c: int|
                    0 <= r < 8 && 0 <= c < 9 && r * 9 + c < row * 9 + col + 1 implies {
                        let g = #[trigger] out@[r * 9 + c];
                        &&& g.key == grid_key(r, c)
                        &&& g.steps == edo_steps(open@, h@, capo, octave, edo, r, c)
                    } by {
                    if r * 9 + c == row * 9 + col {
                        assert(r == row && c == col) by (nonlinear_arith)
                            requires
                                r * 9 + c == row * 9 + col,
                                0 <= c < 9,
                                0 <= col < 9,
                        ;
                    } else {
                        assert(out@[r * 9 + c] == before[r * 9 + c]);
                    }
                }
            }
            col = col + 1;
        }
        row = row + 1;
    }
    out
}


/// The reference pitch (a floating-point literal), capo and octave of a
/// grid.
#[derive(Debug)]
pub struct GridHeader {
    pub ref_pitch: String,
    pub capo: i32,
    pub octave: i32,
}

/// Reads the reference pitch, capo and octave fields, in that order.
pub fn grid_header(ref_pitch: &str, capo: &str, octave: &str) -> (r: Result<GridHeader, String>)
    ensures
        match r {
            Ok(g) => {
                &&& float_literal(ref_pitch@)
                &&& g.ref_pitch@ == ref_pitch@
                &&& parse_i32_spec(capo@) == Some(g.capo)
                &&& parse_i32_spec(octave@) == Some(g.octave)
            },
            Err(e) => if !float_literal(ref_pitch@) {
                e@ == "Invalid Ref Pitch"@
            } else if parse_i32_spec(capo@) is None {
                e@ == "Invalid Capo"@
            } else {
                parse_i32_spec(octave@) is None && e@ == "Invalid Octave"@
            },
        },
{
    if !is_float_literal(ref_pitch) {
        return Err("Invalid Ref Pitch".to_string());
    }
    let capo = match parse_i32(capo) {
        Some(c) => c,
        None => {
            return Err("Invalid Capo".to_string());
        },
    };
    let octave = match parse_i32(octave) {
        Some(o) => o,
        None => {
            return Err("Invalid Octave".to_string());
        },
    };
    Ok(GridHeader { ref_pitch: ref_pitch.to_string(), capo, octave })
}

/// Index of the first text that is not an `i32`, or the number of texts.
pub open spec fn first_invalid(ss: Seq<Seq<char>>) -> int
    decreases ss.len(),
{
    if ss.len() == 0 {
        0
    } else if parse_i32_spec(ss[0]) is None {
        0
    } else {
        1 + first_invalid(ss.drop_first())
    }
}

/// The error for open string `i` (0-based) of an EDO grid.
pub open spec fn open_string_error(i: int) -> Seq<char> {
    if i == 0 {
        "Invalid Open String 1"@
    } else if i == 1 {
        "Invalid Open String 2"@
    } else if i == 2 {
        "Invalid Open String 3"@
    } else if i == 3 {
        "Invalid Open String 4"@
    } else if i == 4 {
        "Invalid Open String 5"@
    } else if i == 5 {
        "Invalid Open String 6"@
    } else if i == 6 {
        "Invalid Open String 7"@
    } else {
        "Invalid Open String 8"@
    }
}

fn open_string_error_text(i: usize) -> (e: String)
    requires
        i < 8,
    ensures
        e@ == open_string_error(i as int),
{
    if i == 0 {
        "Invalid Open String 1".to_string()
    } else if i == 1 {
        "Invalid Open String 2".to_string()
    } else if i == 2 {
        "Invalid Open String 3".to_string()
    } else if i == 3 {
        "Invalid Open String 4".to_string()
    } else if i == 4 {
        "Invalid Open String 5".to_string()
    } else if i == 5 {
        "Invalid Open String 6".to_string()
    } else if i == 6 {
        "Invalid Open String 7".to_string()
    } else {
        "Invalid Open String 8".to_string()
    }
}

proof fn lemma_first_invalid(ss: Seq<Seq<char>>, k: int)
    requires
        0 <= k <= ss.len(),
        forall|i: int| 0 <= i < k ==> parse_i32_spec(#[trigger] ss[i]) is Some,
        k < ss.len() ==> parse_i32_spec(ss[k]) is None,
    ensures
        first_invalid(ss) == k,
    decreases ss.len(),
{
    if k > 0 {
        let t = ss.drop_first();
        assert(parse_i32_spec(ss[0]) is Some);
        assert forall|i: int| 0 <= i < k - 1 implies parse_i32_spec(#[trigger] t[i]) is Some by {
            assert(t[i] == ss[i + 1]);
        }
        if k - 1 < t.len() {
            assert(t[k - 1] == ss[k]);
        }
        lemma_first_invalid(t, k - 1);
    }
}

/// The `i32` values of all texts, or the index of the first that is not one.
fn parse_all(ss: &[String]) -> (r: Result<Vec<i32>, usize>)
    ensures
        match r {
            Ok(v) => {
                &&& first_invalid(ss@.map_values(|s: String| s@)) == ss@.len()
                &&& v@.len() == ss@.len()
                &&& forall|i: int| 0 <= i < ss@.len() ==> parse_i32_spec(#[trigger] ss@[i]@) == Some(v@[i])
            },
            Err(k) => first_invalid(ss@.map_values(|s: String| s@)) == k && k < ss@.len(),
        },
{
    let ghost sv = ss@.map_values(|s: String| s@);
    let mut v: Vec<i32> = Vec::new();
    let mut i: usize = 0;
    while i < ss.len()
        invariant
            sv == ss@.map_values(|s: String| s@),
            i <= ss@.len(),
            v@.len() == i,
            forall|j: int| 0 <= j < i ==> parse_i32_spec(#[trigger] ss@[j]@) == Some(v@[j]),
        decreases ss@.len() - i,
    {
        match parse_i32(ss[i].as_str()) {
            Some(x) => {
                v.push(x);
            },
            None => {
                proof {
                    assert forall|j: int| 0 <= j < i implies parse_i32_spec(#[trigger] sv[j]) is Some by {
                        assert(sv[j] == ss@[j]@);
                    }
                    lemma_first_invalid(sv, i as int);
                }
                return Err(i);
            },
        }
        i = i + 1;
    }
    proof {
        assert forall|j: int| 0 <= j < ss@.len() implies parse_i32_spec(#[trigger] sv[j]) is Some by {
            assert(sv[j] == ss@[j]@);
        }
        lemma_first_invalid(sv, ss@.len() as int);
    }
    Ok(v)
}

/// The fields of an EDO grid: the division (a floating-point literal) and
/// the open-string and horizontal steps as integers.
#[derive(Debug)]
pub struct EdoGridInput {
    pub edo: String,
    pub open: Vec<i32>,
    pub horiz: Vec<i32>,
}

/// Reads the fields of an EDO grid in order: the division, the eight open
/// strings, then the horizontal steps, of which there must be at least one.
pub fn edo_grid_input(edo: &str, open: &[String], horiz: &[String]) -> (r: Result<EdoGridInput, String>)
    requires
        open@.len() == 8,
    ensures
        ({
            let ov = open@.map_values(|s: String| s@);
            let hv = horiz@.map_values(|s: String| s@);
            match r {
                Ok(g) => {
                    &&& float_literal(edo@)
                    &&& g.edo@ == edo@
                    &&& first_invalid(ov) == 8
                    &&& first_invalid(hv) == hv.len()
                    &&& hv.len() > 0
                    &&& g.open@.len() == 8
                    &&& g.horiz@.len() == hv.len()
                    &&& forall|i: int| 0 <= i < 8 ==> parse_i32_spec(#[trigger] ov[i]) == Some(g.open@[i])
                    &&& forall|i: int| 0 <= i < hv.len() ==> parse_i32_spec(#[trigger] hv[i]) == Some(g.horiz@[i])
                },
                Err(e) => if !float_literal(edo@) {
                    e@ == "Invalid EDO"@
                } else if first_invalid(ov) < 8 {
                    e@ == open_string_error(first_invalid(ov))
                } else if first_invalid(hv) < hv.len() {
                    e@ == "Invalid Horiz Step"@
                } else {
                    hv.len() == 0 && e@ == "No horizontal steps provided"@
                },
            }
        }),
{
    let ghost ov = open@.map_values(|s: String| s@);
    let ghost hv = horiz@.map_values(|s: String| s@);
    if !is_float_literal(edo) {
        return Err("Invalid EDO".to_string());
    }
    let open_values = match parse_all(open) {
        Ok(v) => v,
        Err(k) => {
            return Err(open_string_error_text(k));
        },
    };
    let horiz_values = match parse_all(horiz) {
        Ok(v) => v,
        Err(_) => {
            return Err("Invalid Horiz Step".to_string());
        },
    };
    if horiz_values.len() == 0 {
        return Err("No horizontal steps provided".to_string());
    }
    proof {
        assert forall|i: int| 0 <= i < 8 implies parse_i32_spec(#[trigger] ov[i]) == Some(open_values@[i]) by {
            assert(ov[i] == open@[i]@);
        }
        assert forall|i: int| 0 <= i < hv.len() implies parse_i32_spec(#[trigger] hv[i]) == Some(horiz_values@[i]) by {
            assert(hv[i] == horiz@[i]@);
        }
    }
    Ok(EdoGridInput { edo: edo.to_string(), open: open_values, horiz: horiz_values })
}

/// The reference pitch, capo and octave fields read in that order: the
/// pitch's text and the two integers, or the first field's error.
pub open spec fn header_spec(ref_pitch: Seq<char>, capo: Seq<char>, octave: Seq<char>) -> Result<
    (Seq<char>, i32, i32),
    Seq<char>,
> {
    if !float_literal(ref_pitch) {
        Err("Invalid Ref Pitch"@)
    } else {
        match parse_i32_spec(capo) {
            None => Err("Invalid Capo"@),
            Some(c) => match parse_i32_spec(octave) {
                None => Err("Invalid Octave"@),
                Some(o) => Ok((ref_pitch, c, o)),
            },
        }
    }
}

/// The division, open-string and horizontal-step fields of an EDO grid
/// read in that order: the division's text and the integers, or the first
/// error.
pub open spec fn edo_input_spec(edo: Seq<char>, ov: Seq<Seq<char>>, hv: Seq<Seq<char>>) -> Result<
    (Seq<char>, Seq<i32>, Seq<i32>),
    Seq<char>,
> {
    if !float_literal(edo) {
        Err("Invalid EDO"@)
    } else if first_invalid(ov) < 8 {
        Err(open_string_error(first_invalid(ov)))
    } else if first_invalid(hv) < hv.len() {
        Err("Invalid Horiz Step"@)
    } else if hv.len() == 0 {
        Err("No horizontal steps provided"@)
    } else {
        Ok(
            (
                edo,
                Seq::new(8, |i: int| parse_i32_spec(ov[i])->0),
                Seq::new(hv.len(), |i: int| parse_i32_spec(hv[i])->0),
            ),
        )
    }
}

/// Every field an EDO-mode retuning reads, in the order it reads them: the
/// header fields first, then the division, open strings and steps.
pub open spec fn edo_grid_spec(
    edo: Seq<char>,
    ref_pitch: Seq<char>,
    ov: Seq<Seq<char>>,
    hv: Seq<Seq<char>>,
    capo: Seq<char>,
    octave: Seq<char>,
) -> Result<((Seq<char>, i32, i32), (Seq<char>, Seq<i32>, Seq<i32>)), Seq<char>> {
    match header_spec(ref_pitch, capo, octave) {
        Err(e) => Err(e),
        Ok(h) => match edo_input_spec(edo, ov, hv) {
            Err(e) => Err(e),
            Ok(g) => Ok((h, g)),
        },
    }
}

/// The fields of an EDO grid, read and checked.
#[derive(Debug)]
pub struct EdoGrid {
    pub header: GridHeader,
    pub input: EdoGridInput,
}

pub open spec fn edo_grid_view(r: Result<EdoGrid, String>) -> Result<
    ((Seq<char>, i32, i32), (Seq<char>, Seq<i32>, Seq<i32>)),
    Seq<char>,
> {
    match r {
        Ok(g) => Ok(
            (
                (g.header.ref_pitch@, g.header.capo, g.header.octave),
                (g.input.edo@, g.input.open@, g.input.horiz@),
            ),
        ),
        Err(e) => Err(e@),
    }
}

/// Reads every field an EDO-mode retuning uses, in its order: reference
/// pitch, capo, octave, division, open strings, horizontal steps. The
/// reference-note field is taken with the others but never read: the
/// result, as the contract states it, is the same whatever it holds.
pub fn edo_grid_fields(
    edo: &str,
    _ref_midi: &str,
    ref_pitch: &str,
    open: &[String],
    horiz: &[String],
    capo: &str,
    octave: &str,
) -> (r: Result<EdoGrid, String>)
    requires
        open@.len() == 8,
    ensures
        edo_grid_view(r) == edo_grid_spec(
            edo@,
            ref_pitch@,
            open@.map_values(|s: String| s@),
            horiz@.map_values(|s: String| s@),
            capo@,
            octave@,
        ),
{
    let ghost ov = open@.map_values(|s: String| s@);
    let ghost hv = horiz@.map_values(|s: String| s@);
    let header = match grid_header(ref_pitch, capo, octave) {
        Ok(h) => h,
        Err(e) => {
            return Err(e);
        },
    };
    let input = match edo_grid_input(edo, open, horiz) {
        Ok(g) => g,
        Err(e) => {
            return Err(e);
        },
    };
    assert(input.open@ =~= Seq::new(8, |i: int| parse_i32_spec(ov[i])->0));
    assert(input.horiz@ =~= Seq::new(hv.len(), |i: int| parse_i32_spec(hv[i])->0));
    Ok(EdoGrid { header, input })
}

/// Index into `len` cyclic steps for step number `i` (`i.rem_euclid(len)`).
pub fn step_index(i: i64, len: usize) -> (k: usize)
    requires
        len > 0,
    ensures
        k == i as int % len as int,
        k < len,
{
    let n = len as u64;
    proof {
        lemma_div_mod_facts(i as int, len as int);
    }
    if i >= 0 {
        (i as u64 % n) as usize
    } else {
        let m = (-(i as i128)) as u128;
        let rr = m % (n as u128);
        proof {
            lemma_div_mod_facts(m as int, len as int);
            let qq = m as int / len as int;
            if rr == 0 {
                assert(i == (-qq) * len + 0) by (nonlinear_arith)
                    requires
                        m == qq * len + rr,
                        rr == 0,
                        i == -m,
                ;
                lemma_div_mod_pos(i as int, len as int, -qq, 0);
            } else {
                assert(i == (-qq - 1) * len + (len - rr)) by (nonlinear_arith)
                    requires
                        m == qq * len + rr,
                        i == -m,
                ;
                lemma_div_mod_pos(i as int, len as int, -qq - 1, len - rr);
            }
        }
        if rr == 0 {
            0
        } else {
            (n as u128 - rr) as usize
        }
    }
}

/// Moving the capo up one fret moves every key one fret up the string; with
/// no capo, key (`row`, `col`) sits at fret `col` of its row's open string,
/// the first open string being the top row (notes 112 to 120).
pub proof fn law_capo_shifts_frets(
    open: Seq<i32>,
    h: Seq<i32>,
    capo: i32,
    octave: i32,
    edo: i32,
    row: int,
    col: int,
)
    requires
        capo < 0x7fff_ffff,
    ensures
        edo_steps(open, h, (capo + 1) as i32, octave, edo, row, col) == edo_steps(
            open,
            h,
            capo,
            octave,
            edo,
            row,
            col + 1,
        ),
        edo_steps(open, h, 0, octave, edo, row, col) == open[7 - row] + horiz_offset(h, col) + octave
            * edo,
{
}

} // verus!
