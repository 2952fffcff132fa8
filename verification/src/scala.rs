//! Scala scale (`.scl`) and keyboard-mapping (`.kbm`) text.
//!
//! Both formats are lines of text in which lines that start with `!` (after
//! leading whitespace) are comments. The parsers here read the structure of
//! the files; the interval values they hold are read by the caller.
use vstd::prelude::*;
use crate::text::{
    contains_char, eq_ignore_case, find_char, first_word, first_word_of, float_literal, index_of,
    is_float_literal, parse_i32, parse_i32_spec, parse_usize, parse_usize_spec, trim, trim_spec,
};

verus! {

/// The views of a slice of lines.
pub open spec fn lines_view(lines: &[String]) -> Seq<Seq<char>> {
    lines@.map_values(|l: String| l@)
}

/// The views of a list of strings.
pub open spec fn strings_view(v: Seq<String>) -> Seq<Seq<char>> {
    v.map_values(|l: String| l@)
}

/// A comment line: its first non-blank character is `!`.
pub open spec fn is_comment(l: Seq<char>) -> bool {
    let t = trim_spec(l);
    t.len() > 0 && t[0] == '!'
}

/// A line with something besides whitespace.
pub open spec fn is_blank(l: Seq<char>) -> bool {
    trim_spec(l).len() == 0
}

/// The lines that are not comments, in order.
pub open spec fn kept(ls: Seq<Seq<char>>) -> Seq<Seq<char>>
    decreases ls.len(),
{
    if ls.len() == 0 {
        seq![]
    } else {
        kept(ls.drop_last()) + if is_comment(ls.last()) {
            seq![]
        } else {
            seq![ls.last()]
        }
    }
}

/// The non-blank lines of `k`, trimmed.
pub open spec fn values(k: Seq<Seq<char>>) -> Seq<Seq<char>>
    decreases k.len(),
{
    if k.len() == 0 {
        seq![]
    } else {
        values(k.drop_last()) + if is_blank(k.last()) {
            seq![]
        } else {
            seq![trim_spec(k.last())]
        }
    }
}

/// The first word of each non-blank line of `k`.
pub open spec fn words(k: Seq<Seq<char>>) -> Seq<Seq<char>>
    decreases k.len(),
{
    if k.len() == 0 {
        seq![]
    } else {
        words(k.drop_last()) + if is_blank(k.last()) {
            seq![]
        } else {
            seq![first_word(k.last())]
        }
    }
}

/// Index of the first non-blank line of `k` from `from` on, or `k.len()`.
pub open spec fn first_nonblank(k: Seq<Seq<char>>, from: int) -> int
    decreases k.len() - from,
{
    if from < 0 || from >= k.len() {
        k.len() as int
    } else if !is_blank(k[from]) {
        from
    } else {
        first_nonblank(k, from + 1)
    }
}

pub open spec fn missing_description() -> Seq<char> {
    "Missing SCL description"@
}

pub open spec fn missing_note_count() -> Seq<char> {
    "Missing SCL note count"@
}

pub open spec fn invalid_note_count() -> Seq<char> {
    "Invalid SCL note count"@
}

pub open spec fn zero_notes() -> Seq<char> {
    "0-note unsupported."@
}

/// The degrees of a scale file: after the description line and the note
/// count, the first word of each non-blank line, at most as many as the
/// note count says.
pub open spec fn scl_degrees_spec(lines: Seq<Seq<char>>) -> Result<Seq<Seq<char>>, Seq<char>> {
    let k = kept(lines);
    if k.len() == 0 {
        Err(missing_description())
    } else {
        let j = first_nonblank(k, 1);
        if j >= k.len() {
            Err(missing_note_count())
        } else {
            match parse_usize_spec(trim_spec(k[j])) {
                None => Err(invalid_note_count()),
                Some(n) => if n == 0 {
                    Err(zero_notes())
                } else {
                    let w = words(k.subrange(j + 1, k.len() as int));
                    Ok(
                        if w.len() <= n {
                            w
                        } else {
                            w.take(n as int)
                        },
                    )
                },
            }
        }
    }
}

pub open spec fn result_view(r: Result<Vec<String>, String>) -> Result<Seq<Seq<char>>, Seq<char>> {
    match r {
        Ok(v) => Ok(strings_view(v@)),
        Err(e) => Err(e@),
    }
}

proof fn lemma_kept_step(ls: Seq<Seq<char>>, i: int)
    requires
        0 <= i < ls.len(),
    ensures
        kept(ls.take(i + 1)) == kept(ls.take(i)) + if is_comment(ls[i]) {
            seq![]
        } else {
            seq![ls[i]]
        },
{
    assert(ls.take(i + 1).drop_last() =~= ls.take(i));
}

proof fn lemma_words_append(a: Seq<Seq<char>>, b: Seq<Seq<char>>)
    ensures
        words(a + b) == words(a) + words(b),
    decreases b.len(),
{
    if b.len() == 0 {
        assert(a + b =~= a);
        assert(words(a) + words(b) =~= words(a));
    } else {
        lemma_words_append(a, b.drop_last());
        assert((a + b).drop_last() =~= a + b.drop_last());
        assert((a + b).last() == b.last());
        assert(words(a) + words(b) =~= words(a) + words(b.drop_last()) + if is_blank(b.last()) {
            seq![]
        } else {
            seq![first_word(b.last())]
        });
    }
}

proof fn lemma_first_nonblank(k: Seq<Seq<char>>, from: int, j: int)
    requires
        0 <= from <= j <= k.len(),
        forall|i: int| from <= i < j ==> is_blank(#[trigger] k[i]),
        j < k.len() ==> !is_blank(k[j]),
    ensures
        first_nonblank(k, from) == j,
    decreases j - from,
{
    if from < j {
        lemma_first_nonblank(k, from + 1, j);
    }
}

/// The lines of `lines` that are not comments.
fn kept_lines(lines: &[String]) -> (k: Vec<&str>)
    ensures
        k@.map_values(|l: &str| l@) == kept(lines_view(lines)),
{
    let ghost ls = lines_view(lines);
    let mut k: Vec<&str> = Vec::new();
    let mut i: usize = 0;
    while i < lines.len()
        invariant
            i <= lines@.len(),
            ls == lines_view(lines),
            k@.map_values(|l: &str| l@) == kept(ls.take(i as int)),
        decreases lines@.len() - i,
    {
        let line = lines[i].as_str();
        let t = trim(line);
        let comment = t.unicode_len() > 0 && t.get_char(0) == '!';
        proof {
            lemma_kept_step(ls, i as int);
            assert(ls[i as int] == line@);
        }
        if !comment {
            let ghost before = k@;
            k.push(line);
            assert(k@.map_values(|l: &str| l@) =~= before.map_values(|l: &str| l@) + seq![line@]);
        } else {
            assert(kept(ls.take(i as int)) + seq![] =~= kept(ls.take(i as int)));
        }
        i = i + 1;
    }
    assert(ls.take(lines@.len() as int) =~= ls);
    k
}

/// The scale degrees of Scala scale text, as the texts of their intervals.
///
/// Comment lines are skipped. The first remaining line is the description;
/// the next non-blank one holds the number of notes, which must be a
/// positive integer; each following non-blank line holds one degree as its
/// first word, up to that number of degrees (fewer when the text ends
/// sooner).
pub fn scl_degrees(lines: &[String]) -> (r: Result<Vec<String>, String>)
    ensures
        result_view(r) == scl_degrees_spec(lines_view(lines)),
{
    let ghost ls = lines_view(lines);
    let k = kept_lines(lines);
    let ghost kv = k@.map_values(|l: &str| l@);
    if k.len() == 0 {
        return Err("Missing SCL description".to_string());
    }
    let mut j: usize = 1;
    while j < k.len() && trim(k[j]).unicode_len() == 0
        invariant
            kv == k@.map_values(|l: &str| l@),
            kv == kept(ls),
            1 <= j <= k@.len(),
            forall|i: int| 1 <= i < j ==> is_blank(#[trigger] kv[i]),
        decreases k@.len() - j,
    {
        assert(kv[j as int] == k@[j as int]@);
        j = j + 1;
    }
    proof {
        if j < k.len() {
            assert(kv[j as int] == k@[j as int]@);
        }
        lemma_first_nonblank(kv, 1, j as int);
    }
    if j == k.len() {
        return Err("Missing SCL note count".to_string());
    }
    assert(kv[j as int] == k@[j as int]@);
    let num_notes = match parse_usize(trim(k[j])) {
        Some(n) => n,
        None => {
            return Err("Invalid SCL note count".to_string());
        },
    };
    if num_notes == 0 {
        return Err("0-note unsupported.".to_string());
    }
    let mut out: Vec<String> = Vec::new();
    let mut i: usize = j + 1;
    while i < k.len() && out.len() < num_notes
        invariant
            kv == k@.map_values(|l: &str| l@),
            j < k@.len(),
            j + 1 <= i <= k@.len(),
            out@.len() <= num_notes,
            strings_view(out@) == words(kv.subrange(j + 1, i as int)),
        decreases k@.len() - i,
    {
        let line = k[i];
        assert(kv[i as int] == line@);
        let ghost sub = kv.subrange(j + 1, i as int);
        assert(kv.subrange(j + 1, i + 1).drop_last() =~= sub);
        if trim(line).unicode_len() > 0 {
            let w = first_word_of(line).to_string();
            let ghost before = out@;
            out.push(w);
            assert(strings_view(out@) =~= strings_view(before) + seq![first_word(line@)]);
        } else {
            assert(words(sub) + seq![] =~= words(sub));
        }
        i = i + 1;
    }
    proof {
        let all = kv.subrange(j + 1, kv.len() as int);
        let done = kv.subrange(j + 1, i as int);
        let rest = kv.subrange(i as int, kv.len() as int);
        assert(all =~= done + rest);
        lemma_words_append(done, rest);
        if i < k.len() {
            assert(words(all).take(num_notes as int) =~= words(done));
        } else {
            assert(rest =~= seq![]);
            assert(words(all) =~= words(done));
        }
    }
    Ok(out)
}


/// A keyboard mapping. The reference frequency is kept as the text of a
/// floating-point literal.
#[derive(Debug)]
pub struct Kbm {
    pub map_size: i32,
    pub first_note: i32,
    pub last_note: i32,
    pub middle_note: i32,
    pub ref_note: i32,
    pub ref_freq: String,
    pub formal_octave: i32,
    pub mapping: Vec<Option<i32>>,
}

pub struct KbmView {
    pub map_size: i32,
    pub first_note: i32,
    pub last_note: i32,
    pub middle_note: i32,
    pub ref_note: i32,
    pub ref_freq: Seq<char>,
    pub formal_octave: i32,
    pub mapping: Seq<Option<i32>>,
}

impl View for Kbm {
    type V = KbmView;

    open spec fn view(&self) -> KbmView {
        KbmView {
            map_size: self.map_size,
            first_note: self.first_note,
            last_note: self.last_note,
            middle_note: self.middle_note,
            ref_note: self.ref_note,
            ref_freq: self.ref_freq@,
            formal_octave: self.formal_octave,
            mapping: self.mapping@,
        }
    }
}

pub open spec fn incomplete_kbm() -> Seq<char> {
    "Incomplete KBM data"@
}

/// Integer field `i` of the values of a mapping file.
pub open spec fn int_field(v: Seq<Seq<char>>, i: int, err: Seq<char>) -> Result<i32, Seq<char>> {
    if i >= v.len() {
        Err(incomplete_kbm())
    } else {
        match parse_i32_spec(v[i]) {
            Some(x) => Ok(x),
            None => Err(err),
        }
    }
}

/// One entry of the mapping list: `x` (either case) for an unmapped key,
/// otherwise a scale degree.
pub open spec fn map_entry(line: Seq<char>) -> Result<Option<i32>, Seq<char>> {
    let w = first_word(line);
    if eq_ignore_case(w, seq!['x']) {
        Ok(None)
    } else {
        match parse_i32_spec(w) {
            Some(d) => Ok(Some(d)),
            None => Err("Invalid map step"@),
        }
    }
}

/// The first `count` entries of the mapping list, which starts at value 7.
pub open spec fn map_entries(v: Seq<Seq<char>>, count: int) -> Result<Seq<Option<i32>>, Seq<char>>
    decreases count,
{
    if count <= 0 {
        Ok(seq![])
    } else {
        match map_entries(v, count - 1) {
            Err(e) => Err(e),
            Ok(prev) => match map_entry(v[7 + count - 1]) {
                Err(e) => Err(e),
                Ok(x) => Ok(prev.push(x)),
            },
        }
    }
}

/// Number of mapping entries read: `map_size` when positive, fewer when the
/// text ends sooner.
pub open spec fn entry_count(v: Seq<Seq<char>>, map_size: i32) -> int {
    if map_size <= 0 {
        0
    } else if map_size <= v.len() - 7 {
        map_size as int
    } else {
        v.len() - 7
    }
}

/// The keyboard mapping that a `.kbm` text describes. The values are the
/// non-blank lines that are not comments, trimmed: map size, first note,
/// last note, middle note, reference note, reference frequency, formal
/// octave, then one mapping entry per key.
pub open spec fn kbm_spec(lines: Seq<Seq<char>>) -> Result<KbmView, Seq<char>> {
    let v = values(kept(lines));
    match int_field(v, 0, "Invalid map size"@) {
        Err(e) => Err(e),
        Ok(map_size) => match int_field(v, 1, "Invalid first note"@) {
            Err(e) => Err(e),
            Ok(first_note) => match int_field(v, 2, "Invalid last note"@) {
                Err(e) => Err(e),
                Ok(last_note) => match int_field(v, 3, "Invalid middle note"@) {
                    Err(e) => Err(e),
                    Ok(middle_note) => match int_field(v, 4, "Invalid reference note"@) {
                        Err(e) => Err(e),
                        Ok(ref_note) => if 5 >= v.len() {
                            Err(incomplete_kbm())
                        } else if !float_literal(v[5]) {
                            Err("Invalid reference frequency"@)
                        } else {
                            match int_field(v, 6, "Invalid formal octave"@) {
                                Err(e) => Err(e),
                                Ok(formal_octave) => match map_entries(
                                    v,
                                    entry_count(v, map_size),
                                ) {
                                    Err(e) => Err(e),
                                    Ok(mapping) => Ok(
                                        KbmView {
                                            map_size,
                                            first_note,
                                            last_note,
                                            middle_note,
                                            ref_note,
                                            ref_freq: v[5],
                                            formal_octave,
                                            mapping,
                                        },
                                    ),
                                },
                            }
                        },
                    },
                },
            },
        },
    }
}

pub open spec fn kbm_result_view(r: Result<Kbm, String>) -> Result<KbmView, Seq<char>> {
    match r {
        Ok(k) => Ok(k@),
        Err(e) => Err(e@),
    }
}

/// The trimmed non-blank lines of `k`.
fn value_lines<'a>(k: &Vec<&'a str>) -> (v: Vec<&'a str>)
    ensures
        v@.map_values(|l: &str| l@) == values(k@.map_values(|l: &str| l@)),
{
    let ghost kv = k@.map_values(|l: &str| l@);
    let mut v: Vec<&str> = Vec::new();
    let mut i: usize = 0;
    while i < k.len()
        invariant
            i <= k@.len(),
            kv == k@.map_values(|l: &str| l@),
            v@.map_values(|l: &str| l@) == values(kv.take(i as int)),
        decreases k@.len() - i,
    {
        let t = trim(k[i]);
        assert(kv.take(i + 1).drop_last() =~= kv.take(i as int));
        assert(kv[i as int] == k@[i as int]@);
        if t.unicode_len() > 0 {
            let ghost before = v@;
            v.push(t);
            assert(v@.map_values(|l: &str| l@) =~= before.map_values(|l: &str| l@) + seq![t@]);
        } else {
            assert(values(kv.take(i as int)) + seq![] =~= values(kv.take(i as int)));
        }
        i = i + 1;
    }
    assert(kv.take(k@.len() as int) =~= kv);
    v
}

/// Integer field `i`.
fn int_value(v: &Vec<&str>, i: usize, err: &str) -> (r: Result<i32, String>)
    ensures
        match r {
            Ok(x) => int_field(v@.map_values(|l: &str| l@), i as int, err@) == Ok::<i32, Seq<char>>(x),
            Err(e) => int_field(v@.map_values(|l: &str| l@), i as int, err@) == Err::<i32, Seq<char>>(e@),
        },
{
    if i >= v.len() {
        return Err("Incomplete KBM data".to_string());
    }
    assert(v@.map_values(|l: &str| l@)[i as int] == v@[i as int]@);
    match parse_i32(v[i]) {
        Some(x) => Ok(x),
        None => Err(err.to_string()),
    }
}

/// Once an entry fails, every longer prefix of the mapping list fails the same way.
proof fn lemma_map_entries_err(v: Seq<Seq<char>>, i: int, count: int)
    requires
        0 <= i <= count,
        map_entries(v, i) is Err,
    ensures
        map_entries(v, count) == map_entries(v, i),
    decreases count - i,
{
    if i < count {
        lemma_map_entries_err(v, i, count - 1);
    }
}

/// Reads a keyboard mapping from `.kbm` text.
#[verifier::loop_isolation(false)]
pub fn parse_kbm_content(lines: &[String]) -> (r: Result<Kbm, String>)
    ensures
        kbm_result_view(r) == kbm_spec(lines_view(lines)),
{
    let k = kept_lines(lines);
    let v = value_lines(&k);
    let ghost vv = v@.map_values(|l: &str| l@);
    assert(vv == values(kept(lines_view(lines))));
    let map_size = match int_value(&v, 0, "Invalid map size") {
        Ok(x) => x,
        Err(e) => {
            return Err(e);
        },
    };
    let first_note = match int_value(&v, 1, "Invalid first note") {
        Ok(x) => x,
        Err(e) => {
            return Err(e);
        },
    };
    let last_note = match int_value(&v, 2, "Invalid last note") {
        Ok(x) => x,
        Err(e) => {
            return Err(e);
        },
    };
    let middle_note = match int_value(&v, 3, "Invalid middle note") {
        Ok(x) => x,
        Err(e) => {
            return Err(e);
        },
    };
    let ref_note = match int_value(&v, 4, "Invalid reference note") {
        Ok(x) => x,
        Err(e) => {
            return Err(e);
        },
    };
    if 5 >= v.len() {
        return Err("Incomplete KBM data".to_string());
    }
    assert(vv[5] == v@[5]@);
    if !is_float_literal(v[5]) {
        return Err("Invalid reference frequency".to_string());
    }
    let ref_freq = v[5].to_string();
    let formal_octave = match int_value(&v, 6, "Invalid formal octave") {
        Ok(x) => x,
        Err(e) => {
            return Err(e);
        },
    };
    let count: usize = if map_size <= 0 {
        0
    } else if map_size as usize <= v.len() - 7 {
        map_size as usize
    } else {
        v.len() - 7
    };
    assert(count == entry_count(vv, map_size));
    let mut mapping: Vec<Option<i32>> = Vec::new();
    let mut i: usize = 0;
    while i < count
        invariant
            vv == v@.map_values(|l: &str| l@),
            count == 0 || 7 + count <= vv.len(),
            vv.len() == v@.len(),
            i <= count,
            map_entries(vv, i as int) == Ok::<Seq<Option<i32>>, Seq<char>>(mapping@),
        decreases count - i,
    {
        let line = v[7 + i];
        assert(vv[7 + i] == line@);
        let w = first_word_of(line);
        let x = w.unicode_len() == 1 && (w.get_char(0) == 'x' || w.get_char(0) == 'X');
        proof {
            reveal_strlit("x");
        }
        assert(x == eq_ignore_case(w@, seq!['x'])) by {
            if w@.len() == 1 {
                assert(crate::text::ascii_lower(w@[0]) == 'x' <==> (w@[0] == 'x' || w@[0] == 'X'));
            }
        }
        if x {
            mapping.push(None);
        } else {
            match parse_i32(w) {
                Some(d) => {
                    mapping.push(Some(d));
                },
                None => {
                    proof {
                        lemma_map_entries_err(vv, i + 1, count as int);
                    }
                    return Err("Invalid map step".to_string());
                },
            }
        }
        i = i + 1;
    }
    Ok(
        Kbm {
            map_size,
            first_note,
            last_note,
            middle_note,
            ref_note,
            ref_freq,
            formal_octave,
            mapping,
        },
    )
}


/// Euclidean division by a divisor of either sign.
proof fn lemma_euclid(x: int, d: int, q: int, r: int)
    requires
        d != 0,
        0 <= r,
        r < (if d > 0 {
            d
        } else {
            -d
        }),
        x == q * d + r,
    ensures
        q == x / d,
        r == x % d,
{
    if d > 0 {
        vstd::arithmetic::div_mod::lemma_fundamental_div_mod_converse(x, d, q, r);
    } else {
        vstd::arithmetic::div_mod::lemma_fundamental_div_mod(x, d);
        let q2 = x / d;
        let r2 = x % d;
        assert(0 <= r2 < -d) by (nonlinear_arith)
            requires
                d < 0,
                r2 == x % d,
        ;
        assert(q == q2) by (nonlinear_arith)
            requires
                x == q * d + r,
                x == d * q2 + r2,
                0 <= r < -d,
                0 <= r2 < -d,
        ;
        assert(r == r2) by (nonlinear_arith)
            requires
                q == q2,
                x == q * d + r,
                x == d * q2 + r2,
        ;
    }
}

/// Euclidean quotient and remainder (`div_euclid`, `rem_euclid`).
pub fn div_rem_euclid(a: i128, b: i128) -> (qr: (i128, i128))
    requires
        b != 0,
        -0x1_0000_0000_0000_0000 <= a <= 0x1_0000_0000_0000_0000,
        -0x1_0000_0000_0000_0000 <= b <= 0x1_0000_0000_0000_0000,
    ensures
        qr.0 == a as int / b as int,
        qr.1 == a as int % b as int,
        a == qr.0 * b + qr.1,
        0 <= qr.1,
        qr.1 < b || qr.1 < -b,
{
    let ua: u128 = if a < 0 {
        (-a) as u128
    } else {
        a as u128
    };
    let ub: u128 = if b < 0 {
        (-b) as u128
    } else {
        b as u128
    };
    let qq = ua / ub;
    let rr = ua % ub;
    proof {
        vstd::arithmetic::div_mod::lemma_fundamental_div_mod(ua as int, ub as int);
        assert(ua as int == ub as int * (qq as int) + rr as int);
        assert(ua == qq * ub + rr) by (nonlinear_arith)
            requires
                ua as int == ub as int * (qq as int) + rr as int,
        ;
        assert(qq <= ua) by (nonlinear_arith)
            requires
                ub >= 1,
                qq == ua as int / ub as int,
        ;
    }
    let (q0, r): (i128, i128) = if a >= 0 {
        (qq as i128, rr as i128)
    } else if rr == 0 {
        (-(qq as i128), 0)
    } else {
        (-(qq as i128) - 1, (ub - rr) as i128)
    };
    assert(a == q0 * (ub as int) + r) by (nonlinear_arith)
        requires
            ua == qq * ub + rr,
            a >= 0 ==> (ua == a && q0 == qq && r == rr),
            a < 0 && rr == 0 ==> (ua == -a && q0 == -qq && r == 0),
            a < 0 && rr != 0 ==> (ua == -a && q0 == -qq - 1 && r == ub - rr),
    ;
    let q: i128 = if b < 0 {
        -q0
    } else {
        q0
    };
    assert(a == q * b + r) by (nonlinear_arith)
        requires
            a == q0 * (ub as int) + r,
            b < 0 ==> (ub == -b && q == -q0),
            b >= 0 ==> (ub == b && q == q0),
    ;
    proof {
        lemma_euclid(a as int, b as int, q as int, r as int);
    }
    (q, r)
}

/// The scale degree a key plays under a keyboard mapping, before the
/// keyboard range is applied. Without a mapping list (map size 0) key
/// `middle_note` plays degree 0 and each key one degree more than the key
/// below. Otherwise the key's distance from `middle_note` selects an entry
/// of the list cyclically, and each full cycle adds `formal_octave`
/// degrees; keys whose entry is `x` or missing play nothing.
pub open spec fn key_degree(k: KbmView, key: int) -> Option<int> {
    if k.map_size == 0 {
        Some(key - k.middle_note)
    } else {
        let diff = key - k.middle_note;
        let idx = diff % (k.map_size as int);
        if idx < k.mapping.len() {
            match k.mapping[idx] {
                Some(v) => Some(v + (diff / (k.map_size as int)) * k.formal_octave),
                None => None,
            }
        } else {
            None
        }
    }
}

/// The degree key `key` plays, or `None` when it is outside the mapped
/// keyboard range or unmapped.
pub open spec fn played_degree(k: KbmView, key: int) -> Option<int> {
    if key < k.first_note || key > k.last_note {
        None
    } else {
        key_degree(k, key)
    }
}

pub open spec fn widen(o: Option<i128>) -> Option<int> {
    match o {
        Some(x) => Some(x as int),
        None => None,
    }
}

/// The degrees a keyboard mapping gives: that of its reference key, and for
/// each of the 128 MIDI keys the degree it plays, if any.
#[derive(Debug)]
pub struct KeyDegrees {
    pub reference: i128,
    pub keys: Vec<Option<i128>>,
}

fn degree_of_key(kbm: &Kbm, key: i32) -> (d: Option<i128>)
    ensures
        widen(d) == key_degree(kbm@, key as int),
{
    let diff: i128 = key as i128 - kbm.middle_note as i128;
    if kbm.map_size == 0 {
        return Some(diff);
    }
    let (q, idx) = div_rem_euclid(diff, kbm.map_size as i128);
    if idx as usize >= kbm.mapping.len() || idx >= 0x1_0000_0000 {
        return None;
    }
    match kbm.mapping[idx as usize] {
        Some(v) => {
            assert(-0x2_0000_0000 <= q <= 0x2_0000_0000) by (nonlinear_arith)
                requires
                    diff == q * kbm.map_size + idx,
                    0 <= idx,
                    idx < kbm.map_size || idx < -kbm.map_size,
                    -0x1_0000_0000 <= diff <= 0x1_0000_0000,
                    -0x8000_0000 <= kbm.map_size <= 0x7fff_ffff,
                    kbm.map_size != 0,
            ;
            let f = kbm.formal_octave as i128;
            assert(-0x1_0000_0000_0000_0000 <= q * f <= 0x1_0000_0000_0000_0000) by (nonlinear_arith)
                requires
                    -0x2_0000_0000 <= q <= 0x2_0000_0000,
                    -0x8000_0000 <= f <= 0x7fff_ffff,
            ;
            Some(v as i128 + q * f)
        },
        None => None,
    }
}

pub open spec fn reference_unmapped() -> Seq<char> {
    "Reference Note maps to 'x'."@
}

/// The degrees of the reference key and of every key; an error when the
/// reference key plays nothing.
pub fn key_degrees(kbm: &Kbm) -> (r: Result<KeyDegrees, String>)
    ensures
        match r {
            Ok(d) => {
                &&& key_degree(kbm@, kbm.ref_note as int) == Some(d.reference as int)
                &&& d.keys@.len() == 128
                &&& forall|i: int| 0 <= i < 128 ==> widen(#[trigger] d.keys@[i]) == played_degree(kbm@, i)
            },
            Err(e) => key_degree(kbm@, kbm.ref_note as int) is None && e@ == reference_unmapped(),
        },
{
    let reference = match degree_of_key(kbm, kbm.ref_note) {
        Some(d) => d,
        None => {
            return Err("Reference Note maps to 'x'.".to_string());
        },
    };
    let mut keys: Vec<Option<i128>> = Vec::new();
    let mut i: i32 = 0;
    while i < 128
        invariant
            0 <= i <= 128,
            keys@.len() == i,
            forall|j: int| 0 <= j < i ==> widen(#[trigger] keys@[j]) == played_degree(kbm@, j),
        decreases 128 - i,
    {
        if i < kbm.first_note || i > kbm.last_note {
            keys.push(None);
        } else {
            let d = degree_of_key(kbm, i);
            keys.push(d);
        }
        i = i + 1;
    }
    Ok(KeyDegrees { reference, keys })
}

/// The mapping used when the keyboard-mapping text does not parse: every
/// key from 0 to 127 plays, key 69 plays degree 0 at 440 Hz, and the period
/// spans `degree_count` degrees.
pub open spec fn default_kbm_view(degree_count: usize) -> KbmView {
    KbmView {
        map_size: 0,
        first_note: 0,
        last_note: 127,
        middle_note: 69,
        ref_note: 69,
        ref_freq: "440.0"@,
        formal_octave: degree_count as i32,
        mapping: seq![],
    }
}

/// The default mapping for `degree_count` degrees.
pub fn default_kbm(degree_count: usize) -> (k: Kbm)
    ensures
        k@ == default_kbm_view(degree_count),
{
    let k = Kbm {
        map_size: 0,
        first_note: 0,
        last_note: 127,
        middle_note: 69,
        ref_note: 69,
        ref_freq: "440.0".to_string(),
        formal_octave: degree_count as i32,
        mapping: Vec::new(),
    };
    assert(k@.mapping =~= seq![]);
    k
}

/// The keyboard mapping that retuning from the editors uses: that of the
/// mapping text, or the default one for `degree_count` degrees when the text
/// does not parse. A mapping text that does not parse is not reported.
pub fn mapping_or_default(lines: &[String], degree_count: usize) -> (k: Kbm)
    ensures
        k@ == match kbm_spec(lines_view(lines)) {
            Ok(v) => v,
            Err(_) => default_kbm_view(degree_count),
        },
{
    match parse_kbm_content(lines) {
        Ok(k) => k,
        Err(_) => default_kbm(degree_count),
    }
}


/// The written form of an interval, with the texts of its numbers (each a
/// floating-point literal).
#[derive(Debug)]
pub enum IntervalText {
    /// `c` with a decimal point: `c` cents.
    Cents(String),
    /// `a/b`: the frequency ratio `a / b`.
    Ratio(String, String),
    /// `s\e`: `s` steps of `e` equal divisions of the octave.
    Edo(String, String),
    /// Anything else: a frequency ratio.
    Plain(String),
}

pub enum IntervalSpec {
    Cents(Seq<char>),
    Ratio(Seq<char>, Seq<char>),
    Edo(Seq<char>, Seq<char>),
    Plain(Seq<char>),
}

impl View for IntervalText {
    type V = IntervalSpec;

    open spec fn view(&self) -> IntervalSpec {
        match self {
            IntervalText::Cents(c) => IntervalSpec::Cents(c@),
            IntervalText::Ratio(a, b) => IntervalSpec::Ratio(a@, b@),
            IntervalText::Edo(a, b) => IntervalSpec::Edo(a@, b@),
            IntervalText::Plain(p) => IntervalSpec::Plain(p@),
        }
    }
}

/// The first two parts of `t` split at `sep` (`t.split(sep)`), when `t`
/// holds `sep`.
pub open spec fn split_pair(t: Seq<char>, sep: char) -> (Seq<char>, Seq<char>) {
    let i = index_of(t, sep);
    let rest = t.skip(i + 1);
    (t.take(i), rest.take(index_of(rest, sep)))
}

/// The form of an interval token, or the error for the first part that is
/// not a number. A decimal point makes cents; otherwise `/` a ratio, then
/// `\` an equal-division step, and anything else a plain ratio.
pub open spec fn interval_spec(t: Seq<char>) -> Result<IntervalSpec, Seq<char>> {
    if t.contains('.') {
        if float_literal(t) {
            Ok(IntervalSpec::Cents(t))
        } else {
            Err("Invalid cents"@)
        }
    } else if t.contains('/') {
        let (a, b) = split_pair(t, '/');
        if !float_literal(a) {
            Err("Invalid numerator"@)
        } else if !float_literal(b) {
            Err("Invalid denominator"@)
        } else {
            Ok(IntervalSpec::Ratio(a, b))
        }
    } else if t.contains('\\') {
        let (a, b) = split_pair(t, '\\');
        if !float_literal(a) {
            Err("Invalid steps"@)
        } else if !float_literal(b) {
            Err("Invalid edo"@)
        } else {
            Ok(IntervalSpec::Edo(a, b))
        }
    } else if float_literal(t) {
        Ok(IntervalSpec::Plain(t))
    } else {
        Err("Invalid interval ratio"@)
    }
}

proof fn lemma_index_of_contains(t: Seq<char>, c: char)
    ensures
        0 <= index_of(t, c) <= t.len(),
        t.contains(c) <==> index_of(t, c) < t.len(),
        index_of(t, c) < t.len() ==> t[index_of(t, c)] == c,
    decreases t.len(),
{
    if t.len() > 0 && t[0] != c {
        lemma_index_of_contains(t.drop_first(), c);
        if t.contains(c) {
            let k = choose|k: int| 0 <= k < t.len() && t[k] == c;
            assert(t.drop_first()[k - 1] == c);
        }
        if t.drop_first().contains(c) {
            let k = choose|k: int| 0 <= k < t.drop_first().len() && t.drop_first()[k] == c;
            assert(t[k + 1] == c);
        }
    }
}

/// The parts of `t` split at `sep`.
fn split_pair_of<'a>(t: &'a str, sep: char) -> (parts: (&'a str, &'a str))
    requires
        t@.contains(sep),
    ensures
        (parts.0@, parts.1@) == split_pair(t@, sep),
{
    let n = t.unicode_len();
    let i = find_char(t, 0, n, sep);
    assert(t@.subrange(0, n as int) =~= t@);
    proof {
        lemma_index_of_contains(t@, sep);
    }
    let j = find_char(t, i + 1, n, sep);
    let ghost rest = t@.skip(i + 1);
    assert(rest =~= t@.subrange(i + 1, n as int));
    let a = t.substring_char(0, i);
    let b = t.substring_char(i + 1, j);
    assert(a@ =~= t@.take(i as int));
    assert(b@ =~= rest.take(index_of(rest, sep)));
    (a, b)
}

/// The form of an interval token.
pub fn interval_text(token: &str) -> (r: Result<IntervalText, String>)
    ensures
        match r {
            Ok(i) => interval_spec(token@) == Ok::<IntervalSpec, Seq<char>>(i@),
            Err(e) => interval_spec(token@) == Err::<IntervalSpec, Seq<char>>(e@),
        },
{
    if contains_char(token, '.') {
        if is_float_literal(token) {
            return Ok(IntervalText::Cents(token.to_string()));
        }
        return Err("Invalid cents".to_string());
    }
    if contains_char(token, '/') {
        let (a, b) = split_pair_of(token, '/');
        if !is_float_literal(a) {
            return Err("Invalid numerator".to_string());
        }
        if !is_float_literal(b) {
            return Err("Invalid denominator".to_string());
        }
        return Ok(IntervalText::Ratio(a.to_string(), b.to_string()));
    }
    if contains_char(token, '\\') {
        let (a, b) = split_pair_of(token, '\\');
        if !is_float_literal(a) {
            return Err("Invalid steps".to_string());
        }
        if !is_float_literal(b) {
            return Err("Invalid edo".to_string());
        }
        return Ok(IntervalText::Edo(a.to_string(), b.to_string()));
    }
    if is_float_literal(token) {
        Ok(IntervalText::Plain(token.to_string()))
    } else {
        Err("Invalid interval ratio".to_string())
    }
}


/// Keyboard mappings repeat: the key one mapping cycle (`map_size` keys)
/// higher plays the same entry, `formal_octave` degrees higher; without a
/// mapping list each key plays one degree above the key below it.
pub proof fn law_mapping_repeats(k: KbmView, key: int)
    ensures
        k.map_size != 0 ==> key_degree(k, key + k.map_size) == match key_degree(k, key) {
            Some(d) => Some(d + k.formal_octave),
            None => None,
        },
        k.map_size == 0 ==> key_degree(k, key + 1) == match key_degree(k, key) {
            Some(d) => Some(d + 1),
            None => None,
        },
{
    if k.map_size != 0 {
        let m = k.map_size as int;
        let diff = key - k.middle_note;
        vstd::arithmetic::div_mod::lemma_fundamental_div_mod(diff, m);
        let q = diff / m;
        let r = diff % m;
        assert(0 <= r < (if m > 0 {
            m
        } else {
            -m
        })) by (nonlinear_arith)
            requires
                m != 0,
                r == diff % m,
        ;
        assert(diff + m == (q + 1) * m + r) by (nonlinear_arith)
            requires
                diff == m * q + r,
        ;
        lemma_euclid(diff + m, m, q + 1, r);
        assert(key + k.map_size - k.middle_note == diff + m);
        let f = k.formal_octave as int;
        assert((q + 1) * f == q * f + f) by (nonlinear_arith);
        assert((diff + m) / m == q + 1);
        assert((diff + m) % m == r);
    }
}

/// A parsed keyboard mapping takes its header from the value lines (the
/// non-comment, non-blank lines, trimmed) in order: map size, first note,
/// last note, middle note, reference note, reference frequency, formal
/// octave; then one entry per mapped key.
pub proof fn law_kbm_header_order(lines: Seq<Seq<char>>)
    ensures
        kbm_spec(lines) matches Ok(k) ==> {
            let v = values(kept(lines));
            &&& 7 <= v.len()
            &&& parse_i32_spec(v[0]) == Some(k.map_size)
            &&& parse_i32_spec(v[1]) == Some(k.first_note)
            &&& parse_i32_spec(v[2]) == Some(k.last_note)
            &&& parse_i32_spec(v[3]) == Some(k.middle_note)
            &&& parse_i32_spec(v[4]) == Some(k.ref_note)
            &&& k.ref_freq == v[5] && float_literal(v[5])
            &&& parse_i32_spec(v[6]) == Some(k.formal_octave)
        },
{
}

/// The middle note is the mapping's origin: without a mapping list it plays
/// degree 0 and each key plays its distance from it; with a list it plays
/// the list's first entry.
pub proof fn law_middle_note_is_origin(k: KbmView, key: int)
    ensures
        k.map_size == 0 ==> key_degree(k, k.middle_note as int) == Some(0int),
        k.map_size == 0 ==> key_degree(k, key) == Some(key - k.middle_note),
        k.map_size != 0 && k.mapping.len() > 0 ==> key_degree(k, k.middle_note as int) == match k.mapping[0] {
            Some(v) => Some(v as int),
            None => None::<int>,
        },
{
    if k.map_size != 0 {
        assert(0int % (k.map_size as int) == 0) by (nonlinear_arith)
            requires
                k.map_size != 0,
        ;
        assert(0int / (k.map_size as int) == 0) by (nonlinear_arith)
            requires
                k.map_size != 0,
        ;
    }
}

} // verus!
