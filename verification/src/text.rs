//! Text primitives: whitespace, trimming, tokens, and the syntax of decimal
//! integers and floating-point literals as `str::parse` accepts them.
use vstd::prelude::*;
use vstd::string::StrSliceExecFns;

verus! {

/// Unicode `White_Space`, the property `char::is_whitespace` tests.
pub open spec fn is_ws(c: char) -> bool {
    let u = c as u32;
    ||| 0x9 <= u <= 0xD
    ||| u == 0x20
    ||| u == 0x85
    ||| u == 0xA0
    ||| u == 0x1680
    ||| 0x2000 <= u <= 0x200A
    ||| u == 0x2028
    ||| u == 0x2029
    ||| u == 0x202F
    ||| u == 0x205F
    ||| u == 0x3000
}

pub fn is_whitespace(c: char) -> (b: bool)
    ensures
        b == is_ws(c),
{
    let u = c as u32;
    (0x9 <= u && u <= 0xD) || u == 0x20 || u == 0x85 || u == 0xA0 || u == 0x1680 || (0x2000 <= u
        && u <= 0x200A) || u == 0x2028 || u == 0x2029 || u == 0x202F || u == 0x205F || u == 0x3000
}

/// Number of leading whitespace characters.
pub open spec fn lead_ws(s: Seq<char>) -> int
    decreases s.len(),
{
    if s.len() == 0 || !is_ws(s[0]) {
        0
    } else {
        1 + lead_ws(s.drop_first())
    }
}

/// Number of trailing whitespace characters.
pub open spec fn trail_ws(s: Seq<char>) -> int
    decreases s.len(),
{
    if s.len() == 0 || !is_ws(s.last()) {
        0
    } else {
        1 + trail_ws(s.drop_last())
    }
}

/// `s` without leading and trailing whitespace (`str::trim`).
pub open spec fn trim_spec(s: Seq<char>) -> Seq<char> {
    if lead_ws(s) == s.len() {
        seq![]
    } else {
        s.subrange(lead_ws(s), s.len() - trail_ws(s))
    }
}

/// Length of the longest prefix without whitespace.
pub open spec fn word_len(s: Seq<char>) -> int
    decreases s.len(),
{
    if s.len() == 0 || is_ws(s[0]) {
        0
    } else {
        1 + word_len(s.drop_first())
    }
}

/// The first whitespace-separated token of `s`, or the empty sequence when
/// there is none (`s.split_whitespace().next().unwrap_or("")`).
pub open spec fn first_word(s: Seq<char>) -> Seq<char> {
    let rest = s.subrange(lead_ws(s), s.len() as int);
    rest.subrange(0, word_len(rest))
}

proof fn lemma_lead_ws(s: Seq<char>)
    ensures
        0 <= lead_ws(s) <= s.len(),
        forall|i: int| 0 <= i < lead_ws(s) ==> is_ws(#[trigger] s[i]),
        lead_ws(s) < s.len() ==> !is_ws(s[lead_ws(s)]),
    decreases s.len(),
{
    if s.len() > 0 && is_ws(s[0]) {
        lemma_lead_ws(s.drop_first());
        assert forall|i: int| 0 <= i < lead_ws(s) implies is_ws(#[trigger] s[i]) by {
            if i > 0 {
                assert(s[i] == s.drop_first()[i - 1]);
            }
        }
    }
}

proof fn lemma_lead_ws_char(s: Seq<char>, k: int)
    requires
        0 <= k <= s.len(),
        forall|i: int| 0 <= i < k ==> is_ws(#[trigger] s[i]),
        k < s.len() ==> !is_ws(s[k]),
    ensures
        lead_ws(s) == k,
    decreases s.len(),
{
    if k > 0 {
        assert(is_ws(s[0]));
        let t = s.drop_first();
        assert forall|i: int| 0 <= i < k - 1 implies is_ws(#[trigger] t[i]) by {
            assert(t[i] == s[i + 1]);
        }
        if k - 1 < t.len() {
            assert(t[k - 1] == s[k]);
        }
        lemma_lead_ws_char(t, k - 1);
    }
}

proof fn lemma_trail_ws_char(s: Seq<char>, k: int)
    requires
        0 <= k <= s.len(),
        forall|i: int| s.len() - k <= i < s.len() ==> is_ws(#[trigger] s[i]),
        k < s.len() ==> !is_ws(s[s.len() - k - 1]),
    ensures
        trail_ws(s) == k,
    decreases s.len(),
{
    if k > 0 {
        assert(is_ws(s[s.len() - 1]));
        let t = s.drop_last();
        assert forall|i: int| t.len() - (k - 1) <= i < t.len() implies is_ws(#[trigger] t[i]) by {
            assert(t[i] == s[i]);
        }
        if k - 1 < t.len() {
            assert(t[t.len() - (k - 1) - 1] == s[s.len() - k - 1]);
        }
        lemma_trail_ws_char(t, k - 1);
    }
}

proof fn lemma_word_len_char(s: Seq<char>, k: int)
    requires
        0 <= k <= s.len(),
        forall|i: int| 0 <= i < k ==> !is_ws(#[trigger] s[i]),
        k < s.len() ==> is_ws(s[k]),
    ensures
        word_len(s) == k,
    decreases s.len(),
{
    if k > 0 {
        let t = s.drop_first();
        assert forall|i: int| 0 <= i < k - 1 implies !is_ws(#[trigger] t[i]) by {
            assert(t[i] == s[i + 1]);
        }
        if k - 1 < t.len() {
            assert(t[k - 1] == s[k]);
        }
        lemma_word_len_char(t, k - 1);
    }
}

/// `s` without leading and trailing whitespace.
pub fn trim(s: &str) -> (t: &str)
    ensures
        t@ == trim_spec(s@),
{
    let n = s.unicode_len();
    let mut a: usize = 0;
    while a < n && is_whitespace(s.get_char(a))
        invariant
            n == s@.len(),
            a <= n,
            forall|i: int| 0 <= i < a ==> is_ws(#[trigger] s@[i]),
        decreases n - a,
    {
        a = a + 1;
    }
    proof {
        lemma_lead_ws_char(s@, a as int);
    }
    if a == n {
        let t = s.substring_char(0, 0);
        assert(t@ =~= seq![]);
        return t;
    }
    let mut b: usize = n;
    while b > a && is_whitespace(s.get_char(b - 1))
        invariant
            n == s@.len(),
            a < n,
            a <= b <= n,
            !is_ws(s@[a as int]),
            forall|i: int| b <= i < n ==> is_ws(#[trigger] s@[i]),
        decreases b,
    {
        b = b - 1;
    }
    proof {
        lemma_trail_ws_char(s@, (n - b) as int);
    }
    s.substring_char(a, b)
}

/// `s` without its leading and trailing `c`s (`str::trim_matches` with a
/// character).
pub open spec fn strip_char(s: Seq<char>, c: char) -> Seq<char>
    decreases s.len(),
{
    if s.len() > 0 && s[0] == c {
        strip_char(s.drop_first(), c)
    } else if s.len() > 0 && s.last() == c {
        strip_char(s.drop_last(), c)
    } else {
        s
    }
}

proof fn lemma_strip_char(s: Seq<char>, c: char, a: int, b: int)
    requires
        0 <= a <= b <= s.len(),
        forall|i: int| 0 <= i < a ==> #[trigger] s[i] == c,
        forall|i: int| b <= i < s.len() ==> #[trigger] s[i] == c,
        a < b ==> s[a] != c && s[b - 1] != c,
    ensures
        strip_char(s, c) == s.subrange(a, b),
    decreases s.len(),
{
    if a > 0 {
        let t = s.drop_first();
        assert forall|i: int| 0 <= i < a - 1 implies #[trigger] t[i] == c by {
            assert(t[i] == s[i + 1]);
        }
        assert forall|i: int| b - 1 <= i < t.len() implies #[trigger] t[i] == c by {
            assert(t[i] == s[i + 1]);
        }
        if a < b {
            assert(t[a - 1] == s[a]);
            assert(t[b - 2] == s[b - 1]);
        }
        lemma_strip_char(t, c, a - 1, b - 1);
        assert(t.subrange(a - 1, b - 1) =~= s.subrange(a, b));
    } else if b < s.len() {
        let t = s.drop_last();
        assert(s.len() > 0 && s.last() == c);
        if s.len() > 0 && s[0] == c {
            assert(a == b);
            lemma_strip_char(s.drop_first(), c, 0, 0);
            assert(s.subrange(a, b) =~= seq![]);
            assert(s.drop_first().subrange(0, 0) =~= seq![]);
        } else {
            assert forall|i: int| b <= i < t.len() implies #[trigger] t[i] == c by {
                assert(t[i] == s[i]);
            }
            if a < b {
                assert(t[b - 1] == s[b - 1]);
                assert(t[a] == s[a]);
            }
            lemma_strip_char(t, c, a, b);
            assert(t.subrange(a, b) =~= s.subrange(a, b));
        }
    } else {
        if s.len() > 0 {
            assert(s[0] != c);
            assert(s.last() != c);
        }
        assert(s.subrange(0, s.len() as int) =~= s);
    }
}

/// `s` without its leading and trailing `c`s.
pub fn strip(s: &str, c: char) -> (t: &str)
    ensures
        t@ == strip_char(s@, c),
{
    let n = s.unicode_len();
    let mut a: usize = 0;
    while a < n && s.get_char(a) == c
        invariant
            n == s@.len(),
            a <= n,
            forall|i: int| 0 <= i < a ==> #[trigger] s@[i] == c,
        decreases n - a,
    {
        a = a + 1;
    }
    let mut b: usize = n;
    while b > a && s.get_char(b - 1) == c
        invariant
            n == s@.len(),
            a <= b <= n,
            a < n ==> s@[a as int] != c,
            forall|i: int| b <= i < n ==> #[trigger] s@[i] == c,
        decreases b,
    {
        b = b - 1;
    }
    proof {
        lemma_strip_char(s@, c, a as int, b as int);
    }
    s.substring_char(a, b)
}

/// A path as typed or dropped into a terminal: without surrounding double
/// quotes, then single quotes, then whitespace.
pub open spec fn clean_path_spec(p: Seq<char>) -> Seq<char> {
    trim_spec(strip_char(strip_char(p, '"'), '\''))
}

/// A path as typed or dropped into a terminal, cleaned.
pub fn clean_path(p: &str) -> (t: &str)
    ensures
        t@ == clean_path_spec(p@),
{
    trim(strip(strip(p, '"'), '\''))
}

/// The first whitespace-separated token of `s`, empty when there is none.
pub fn first_word_of(s: &str) -> (w: &str)
    ensures
        w@ == first_word(s@),
{
    let n = s.unicode_len();
    let mut a: usize = 0;
    while a < n && is_whitespace(s.get_char(a))
        invariant
            n == s@.len(),
            a <= n,
            forall|i: int| 0 <= i < a ==> is_ws(#[trigger] s@[i]),
        decreases n - a,
    {
        a = a + 1;
    }
    proof {
        lemma_lead_ws_char(s@, a as int);
    }
    let mut b: usize = a;
    while b < n && !is_whitespace(s.get_char(b))
        invariant
            n == s@.len(),
            a <= b <= n,
            forall|i: int| a <= i < b ==> !is_ws(#[trigger] s@[i]),
        decreases n - b,
    {
        b = b + 1;
    }
    proof {
        let rest = s@.subrange(a as int, n as int);
        assert forall|i: int| 0 <= i < b - a implies !is_ws(#[trigger] rest[i]) by {
            assert(rest[i] == s@[a + i]);
        }
        if b < n {
            assert(rest[b - a] == s@[b as int]);
        }
        lemma_word_len_char(rest, (b - a) as int);
        assert(rest.subrange(0, (b - a) as int) =~= s@.subrange(a as int, b as int));
    }
    s.substring_char(a, b)
}

/// Whether `c` occurs in `s`.
pub fn contains_char(s: &str, c: char) -> (b: bool)
    ensures
        b == s@.contains(c),
{
    let n = s.unicode_len();
    let mut i: usize = 0;
    while i < n
        invariant
            n == s@.len(),
            i <= n,
            forall|k: int| 0 <= k < i ==> s@[k] != c,
        decreases n - i,
    {
        if s.get_char(i) == c {
            assert(s@[i as int] == c);
            return true;
        }
        i = i + 1;
    }
    false
}


// ---------------------------------------------------------------------------
// Decimal integers
// ---------------------------------------------------------------------------

pub open spec fn is_digit(c: char) -> bool {
    48 <= (c as u32) <= 57
}

pub open spec fn digit_val(c: char) -> int {
    (c as u32) - 48
}

pub open spec fn all_digits(s: Seq<char>) -> bool {
    forall|i: int| 0 <= i < s.len() ==> is_digit(#[trigger] s[i])
}

/// The value of a string of decimal digits.
pub open spec fn digits_value(s: Seq<char>) -> int
    decreases s.len(),
{
    if s.len() == 0 {
        0
    } else {
        digits_value(s.drop_last()) * 10 + digit_val(s.last())
    }
}

/// The value of a non-empty string of decimal digits.
pub open spec fn unsigned_literal(s: Seq<char>) -> Option<int> {
    if s.len() > 0 && all_digits(s) {
        Some(digits_value(s))
    } else {
        None
    }
}

/// The integer that `str::parse` reads from `s` before its range check: an
/// optional `+` (or `-` for a signed type) and at least one ASCII digit,
/// nothing else.
pub open spec fn int_literal(s: Seq<char>, signed: bool) -> Option<int> {
    if s.len() > 1 && s[0] == '+' {
        unsigned_literal(s.drop_first())
    } else if signed && s.len() > 1 && s[0] == '-' {
        match unsigned_literal(s.drop_first()) {
            Some(v) => Some(-v),
            None => None,
        }
    } else {
        unsigned_literal(s)
    }
}

/// What `str::parse` gives for an integer type whose values are `lo..=hi`.
pub open spec fn parse_int_spec(s: Seq<char>, signed: bool, lo: int, hi: int) -> Option<int> {
    match int_literal(s, signed) {
        Some(v) => if lo <= v <= hi {
            Some(v)
        } else {
            None
        },
        None => None,
    }
}

/// `str::parse::<i32>`.
pub open spec fn parse_i32_spec(s: Seq<char>) -> Option<i32> {
    match parse_int_spec(s, true, i32::MIN as int, i32::MAX as int) {
        Some(v) => Some(v as i32),
        None => None,
    }
}

/// `str::parse::<u8>`.
pub open spec fn parse_u8_spec(s: Seq<char>) -> Option<u8> {
    match parse_int_spec(s, false, 0, u8::MAX as int) {
        Some(v) => Some(v as u8),
        None => None,
    }
}

/// `str::parse::<usize>`.
pub open spec fn parse_usize_spec(s: Seq<char>) -> Option<usize> {
    match parse_int_spec(s, false, 0, usize::MAX as int) {
        Some(v) => Some(v as usize),
        None => None,
    }
}

proof fn lemma_digits_value_nonneg(s: Seq<char>)
    requires
        all_digits(s),
    ensures
        digits_value(s) >= 0,
    decreases s.len(),
{
    if s.len() > 0 {
        lemma_digits_value_nonneg(s.drop_last());
    }
}

proof fn lemma_digits_value_grows(s: Seq<char>, k: int)
    requires
        all_digits(s),
        0 <= k <= s.len(),
    ensures
        digits_value(s.take(k)) <= digits_value(s),
    decreases s.len(),
{
    if k < s.len() {
        assert(all_digits(s.drop_last()));
        lemma_digits_value_grows(s.drop_last(), k);
        assert(s.drop_last().take(k) =~= s.take(k));
        lemma_digits_value_nonneg(s.drop_last());
    } else {
        assert(s.take(k) =~= s);
    }
}

/// Value of a non-empty all-digit string, or `None` when it is not one or
/// its value exceeds `limit`.
fn digits_up_to(s: &str, from: usize, limit: u128) -> (r: Option<u128>)
    requires
        from <= s@.len(),
        limit <= u64::MAX,
    ensures
        ({
            let t = s@.subrange(from as int, s@.len() as int);
            r == match unsigned_literal(t) {
                Some(v) => if v <= limit {
                    Some(v as u128)
                } else {
                    None
                },
                None => None,
            }
        }),
{
    let ghost t = s@.subrange(from as int, s@.len() as int);
    let n = s.unicode_len();
    if from == n {
        return None;
    }
    let mut acc: u128 = 0;
    let mut over = false;
    let mut i: usize = from;
    while i < n
        invariant
            n == s@.len(),
            from < n,
            from <= i <= n,
            t == s@.subrange(from as int, n as int),
            all_digits(t.take(i - from)),
            !over ==> acc == digits_value(t.take(i - from)),
            over ==> digits_value(t.take(i - from)) > limit,
            acc <= limit,
            limit <= u64::MAX,
        decreases n - i,
    {
        let c = s.get_char(i);
        let u = c as u32;
        if u < 48 || u > 57 {
            assert(t[i - from] == c);
            assert(!all_digits(t));
            return None;
        }
        let ghost prev = t.take(i - from);
        let ghost next = t.take(i - from + 1);
        assert(next.drop_last() =~= prev);
        assert(next.last() == c) by {
            assert(t[i - from] == s@[i as int]);
        }
        assert(all_digits(next)) by {
            assert forall|k: int| 0 <= k < next.len() implies is_digit(#[trigger] next[k]) by {
                if k < prev.len() {
                    assert(next[k] == prev[k]);
                }
            }
        }
        if !over {
            let d = (u - 48) as u128;
            let v = acc * 10 + d;
            if v > limit {
                over = true;
            } else {
                acc = v;
            }
        } else {
            proof {
                lemma_digits_value_nonneg(prev);
            }
        }
        i = i + 1;
    }
    assert(t.take(n - from) =~= t);
    if over {
        None
    } else {
        Some(acc)
    }
}

/// `str::parse` for an integer type with values `-neg_limit..=pos_limit`
/// (signed when `neg_limit > 0`).
fn parse_integer(s: &str, neg_limit: u128, pos_limit: u128) -> (r: Option<i128>)
    requires
        neg_limit <= u64::MAX,
        pos_limit <= u64::MAX,
    ensures
        r == match parse_int_spec(s@, neg_limit > 0, -(neg_limit as int), pos_limit as int) {
            Some(v) => Some(v as i128),
            None => None,
        },
{
    let n = s.unicode_len();
    let signed = neg_limit > 0;
    if n > 1 && s.get_char(0) == '+' {
        let r = digits_up_to(s, 1, pos_limit);
        assert(s@.subrange(1, s@.len() as int) =~= s@.drop_first());
        proof {
            if let Some(v) = unsigned_literal(s@.drop_first()) {
                lemma_digits_value_nonneg(s@.drop_first());
            }
        }
        return match r {
            Some(v) => Some(v as i128),
            None => None,
        };
    }
    if signed && n > 1 && s.get_char(0) == '-' {
        let r = digits_up_to(s, 1, neg_limit);
        assert(s@.subrange(1, s@.len() as int) =~= s@.drop_first());
        proof {
            if let Some(v) = unsigned_literal(s@.drop_first()) {
                lemma_digits_value_nonneg(s@.drop_first());
            }
        }
        return match r {
            Some(v) => Some(-(v as i128)),
            None => None,
        };
    }
    let r = digits_up_to(s, 0, pos_limit);
    assert(s@.subrange(0, s@.len() as int) =~= s@);
    proof {
        if let Some(v) = unsigned_literal(s@) {
            lemma_digits_value_nonneg(s@);
        }
    }
    match r {
        Some(v) => Some(v as i128),
        None => None,
    }
}

/// `str::parse::<i32>`: `None` where it returns an error.
pub fn parse_i32(s: &str) -> (r: Option<i32>)
    ensures
        r == parse_i32_spec(s@),
{
    match parse_integer(s, 0x8000_0000, 0x7fff_ffff) {
        Some(v) => Some(v as i32),
        None => None,
    }
}

/// `str::parse::<u8>`: `None` where it returns an error.
pub fn parse_u8(s: &str) -> (r: Option<u8>)
    ensures
        r == parse_u8_spec(s@),
{
    match parse_integer(s, 0, 255) {
        Some(v) => Some(v as u8),
        None => None,
    }
}

/// `str::parse::<usize>`: `None` where it returns an error.
pub fn parse_usize(s: &str) -> (r: Option<usize>)
    ensures
        r == parse_usize_spec(s@),
{
    match parse_integer(s, 0, usize::MAX as u128) {
        Some(v) => Some(v as usize),
        None => None,
    }
}


// ---------------------------------------------------------------------------
// Floating-point literals
// ---------------------------------------------------------------------------

/// ASCII lower case.
pub open spec fn ascii_lower(c: char) -> char {
    if 65 <= (c as u32) <= 90 {
        ((c as u32) + 32) as char
    } else {
        c
    }
}

/// `s` equals the lower-case word `w` ignoring ASCII case.
pub open spec fn eq_ignore_case(s: Seq<char>, w: Seq<char>) -> bool {
    s.len() == w.len() && forall|i: int| 0 <= i < s.len() ==> ascii_lower(#[trigger] s[i]) == w[i]
}

/// Index of the first character of `s` that satisfies `is_e` (an `e` in
/// either case), or `s.len()`.
pub open spec fn exp_index(s: Seq<char>) -> int
    decreases s.len(),
{
    if s.len() == 0 || ascii_lower(s[0]) == 'e' {
        0
    } else {
        1 + exp_index(s.drop_first())
    }
}

/// Index of the first `c` in `s`, or `s.len()`.
pub open spec fn index_of(s: Seq<char>, c: char) -> int
    decreases s.len(),
{
    if s.len() == 0 || s[0] == c {
        0
    } else {
        1 + index_of(s.drop_first(), c)
    }
}

/// `Digit+ | Digit+ '.' Digit* | Digit* '.' Digit+`
pub open spec fn mantissa_ok(m: Seq<char>) -> bool {
    let k = index_of(m, '.');
    if k == m.len() {
        m.len() > 0 && all_digits(m)
    } else {
        m.len() >= 2 && all_digits(m.take(k)) && all_digits(m.skip(k + 1))
    }
}

/// `Sign? Digit+` (what follows the `e` of an exponent)
pub open spec fn exponent_ok(x: Seq<char>) -> bool {
    let y = if x.len() > 0 && (x[0] == '+' || x[0] == '-') {
        x.drop_first()
    } else {
        x
    };
    y.len() > 0 && all_digits(y)
}

/// `Number ::= Mantissa Exp?` with `Exp ::= 'e' Sign? Digit+`
pub open spec fn number_ok(t: Seq<char>) -> bool {
    let k = exp_index(t);
    if k == t.len() {
        mantissa_ok(t)
    } else {
        mantissa_ok(t.take(k)) && exponent_ok(t.skip(k + 1))
    }
}

/// The strings `str::parse::<f32>` accepts, by the grammar of its
/// documentation (case-insensitive):
/// `Sign? ( 'inf' | 'infinity' | 'nan' | Number )`.
pub open spec fn float_literal(s: Seq<char>) -> bool {
    let t = if s.len() > 0 && (s[0] == '+' || s[0] == '-') {
        s.drop_first()
    } else {
        s
    };
    ||| eq_ignore_case(t, seq!['i', 'n', 'f'])
    ||| eq_ignore_case(t, seq!['i', 'n', 'f', 'i', 'n', 'i', 't', 'y'])
    ||| eq_ignore_case(t, seq!['n', 'a', 'n'])
    ||| number_ok(t)
}

fn lower_char(c: char) -> (l: char)
    ensures
        l == ascii_lower(c),
{
    let u = c as u32;
    if 65 <= u && u <= 90 {
        let v: u8 = (u + 32) as u8;
        v as char
    } else {
        c
    }
}

/// Whether `s@[from..to]` is all ASCII digits.
fn digits_between(s: &str, from: usize, to: usize) -> (b: bool)
    requires
        from <= to <= s@.len(),
    ensures
        b == all_digits(s@.subrange(from as int, to as int)),
{
    let ghost t = s@.subrange(from as int, to as int);
    let mut i = from;
    while i < to
        invariant
            from <= i <= to <= s@.len(),
            t == s@.subrange(from as int, to as int),
            forall|k: int| 0 <= k < i - from ==> is_digit(#[trigger] t[k]),
        decreases to - i,
    {
        let u = s.get_char(i) as u32;
        if u < 48 || u > 57 {
            assert(t[i - from] == s@[i as int]);
            return false;
        }
        assert(t[i - from] == s@[i as int]);
        i = i + 1;
    }
    true
}

/// Whether `s@[from..]` equals `word` ignoring ASCII case.
fn eq_ignore_case_from(s: &str, from: usize, word: &str) -> (b: bool)
    requires
        from <= s@.len(),
    ensures
        b == eq_ignore_case(s@.subrange(from as int, s@.len() as int), word@),
{
    let ghost t = s@.subrange(from as int, s@.len() as int);
    let n = s.unicode_len();
    let m = word.unicode_len();
    if n - from != m {
        return false;
    }
    let mut i: usize = 0;
    while i < m
        invariant
            n == s@.len(),
            m == word@.len(),
            n - from == m,
            from <= n,
            i <= m,
            t == s@.subrange(from as int, n as int),
            forall|k: int| 0 <= k < i ==> ascii_lower(#[trigger] t[k]) == word@[k],
        decreases m - i,
    {
        let c = lower_char(s.get_char(from + i));
        assert(t[i as int] == s@[from + i]);
        if c != word.get_char(i) {
            return false;
        }
        i = i + 1;
    }
    true
}

proof fn lemma_exp_index(s: Seq<char>, k: int)
    requires
        0 <= k <= s.len(),
        forall|i: int| 0 <= i < k ==> ascii_lower(#[trigger] s[i]) != 'e',
        k < s.len() ==> ascii_lower(s[k]) == 'e',
    ensures
        exp_index(s) == k,
    decreases s.len(),
{
    if k > 0 {
        let t = s.drop_first();
        assert forall|i: int| 0 <= i < k - 1 implies ascii_lower(#[trigger] t[i]) != 'e' by {
            assert(t[i] == s[i + 1]);
        }
        if k - 1 < t.len() {
            assert(t[k - 1] == s[k]);
        }
        lemma_exp_index(t, k - 1);
    }
}

proof fn lemma_index_of(s: Seq<char>, c: char, k: int)
    requires
        0 <= k <= s.len(),
        forall|i: int| 0 <= i < k ==> #[trigger] s[i] != c,
        k < s.len() ==> s[k] == c,
    ensures
        index_of(s, c) == k,
    decreases s.len(),
{
    if k > 0 {
        let t = s.drop_first();
        assert forall|i: int| 0 <= i < k - 1 implies #[trigger] t[i] != c by {
            assert(t[i] == s[i + 1]);
        }
        if k - 1 < t.len() {
            assert(t[k - 1] == s[k]);
        }
        lemma_index_of(t, c, k - 1);
    }
}

/// Index of the first `c` in `s@[from..to]`, counted from `from`, or `to`.
pub fn find_char(s: &str, from: usize, to: usize, c: char) -> (k: usize)
    requires
        from <= to <= s@.len(),
    ensures
        from <= k <= to,
        k - from == index_of(s@.subrange(from as int, to as int), c),
{
    let ghost t = s@.subrange(from as int, to as int);
    let mut k = from;
    while k < to && s.get_char(k) != c
        invariant
            from <= k <= to <= s@.len(),
            t == s@.subrange(from as int, to as int),
            forall|i: int| 0 <= i < k - from ==> #[trigger] t[i] != c,
        decreases to - k,
    {
        assert(t[k - from] == s@[k as int]);
        k = k + 1;
    }
    proof {
        if k < to {
            assert(t[k - from] == s@[k as int]);
        }
        lemma_index_of(t, c, (k - from) as int);
    }
    k
}

/// Whether `s@[from..to]` is a `Number` (mantissa and optional exponent).
fn number_between(s: &str, from: usize, to: usize) -> (b: bool)
    requires
        from <= to <= s@.len(),
    ensures
        b == number_ok(s@.subrange(from as int, to as int)),
{
    let ghost t = s@.subrange(from as int, to as int);
    // the exponent marker
    let mut e = from;
    while e < to && lower_char(s.get_char(e)) != 'e'
        invariant
            from <= e <= to <= s@.len(),
            t == s@.subrange(from as int, to as int),
            forall|k: int| 0 <= k < e - from ==> ascii_lower(#[trigger] t[k]) != 'e',
        decreases to - e,
    {
        assert(t[e - from] == s@[e as int]);
        e = e + 1;
    }
    proof {
        if e < to {
            assert(t[e - from] == s@[e as int]);
        }
        lemma_exp_index(t, (e - from) as int);
    }
    let ghost mt = t.take(e - from);
    assert(mt =~= s@.subrange(from as int, e as int));
    // the decimal point of the mantissa
    let d = find_char(s, from, e, '.');
    let mantissa = if d == e {
        e > from && digits_between(s, from, e)
    } else {
        let ok = e - from >= 2 && digits_between(s, from, d) && digits_between(s, d + 1, e);
        assert(mt.take(d - from) =~= s@.subrange(from as int, d as int));
        assert(mt.skip(d - from + 1) =~= s@.subrange(d + 1, e as int));
        ok
    };
    if e == to {
        assert(mt =~= t);
        return mantissa;
    }
    // the exponent
    let ghost x = t.skip(e - from + 1);
    assert(x =~= s@.subrange(e + 1, to as int));
    let start = if e + 1 < to && (s.get_char(e + 1) == '+' || s.get_char(e + 1) == '-') {
        e + 2
    } else {
        e + 1
    };
    proof {
        if e + 1 < to {
            assert(x[0] == s@[e + 1]);
        }
        if start == e + 2 {
            assert(x.drop_first() =~= s@.subrange(e + 2, to as int));
        }
    }
    let exponent = start < to && digits_between(s, start, to);
    mantissa && exponent
}

/// Whether `str::parse::<f32>` accepts `s`.
pub fn is_float_literal(s: &str) -> (b: bool)
    ensures
        b == float_literal(s@),
{
    let n = s.unicode_len();
    let start: usize = if n > 0 && (s.get_char(0) == '+' || s.get_char(0) == '-') {
        1
    } else {
        0
    };
    let ghost t = if s@.len() > 0 && (s@[0] == '+' || s@[0] == '-') {
        s@.drop_first()
    } else {
        s@
    };
    assert(t =~= s@.subrange(start as int, n as int));
    let inf = eq_ignore_case_from(s, start, "inf");
    let infinity = eq_ignore_case_from(s, start, "infinity");
    let nan = eq_ignore_case_from(s, start, "nan");
    proof {
        reveal_strlit("inf");
        reveal_strlit("infinity");
        reveal_strlit("nan");
        assert("inf"@ =~= seq!['i', 'n', 'f']);
        assert("infinity"@ =~= seq!['i', 'n', 'f', 'i', 'n', 'i', 't', 'y']);
        assert("nan"@ =~= seq!['n', 'a', 'n']);
    }
    inf || infinity || nan || number_between(s, start, n)
}


// ---------------------------------------------------------------------------
// Building and searching strings
// ---------------------------------------------------------------------------

/// Calls `String::push`. Trusted to leave the string's text as the old
/// text followed by `c` (std documents `push` as appending the character).
#[verifier::external_body]
pub(crate) fn push_char(s: &mut String, c: char)
    ensures
        final(s)@ == old(s)@.push(c),
{
    s.push(c);
}

/// Calls `String::pop` and drops what it returns. Trusted to leave the old
/// text without its last character, or unchanged when it is empty (std
/// documents `pop` as removing the last character, if any).
#[verifier::external_body]
pub(crate) fn pop_char(s: &mut String)
    ensures
        final(s)@ == if old(s)@.len() > 0 {
            old(s)@.drop_last()
        } else {
            old(s)@
        },
{
    s.pop();
}

/// The decimal digits of `v`, without leading zeros.
pub open spec fn decimal(v: nat) -> Seq<char>
    decreases v,
{
    if v < 10 {
        seq![(48 + v) as char]
    } else {
        decimal(v / 10).push((48 + v % 10) as char)
    }
}

/// The decimal text of `v` (its `to_string`).
pub fn decimal_u8(v: u8) -> (s: String)
    ensures
        s@ == decimal(v as nat),
{
    let mut s = String::new();
    if v >= 100 {
        push_char(&mut s, ((48 + v / 100) as u8) as char);
    }
    if v >= 10 {
        push_char(&mut s, ((48 + (v / 10) % 10) as u8) as char);
    }
    push_char(&mut s, ((48 + v % 10) as u8) as char);
    proof {
        if v >= 100 {
            assert(decimal((v / 10) as nat) == decimal((v / 100) as nat).push(
                (48 + (v / 10) % 10) as char,
            ));
        }
        if v >= 10 {
            assert(decimal(v as nat) == decimal((v / 10) as nat).push((48 + v % 10) as char));
        }
        assert(s@ =~= decimal(v as nat));
    }
    s
}

/// `needle` occurs in `hay` at position `i`.
pub open spec fn occurs_at(hay: Seq<char>, needle: Seq<char>, i: int) -> bool {
    0 <= i && i + needle.len() <= hay.len() && hay.subrange(i, i + needle.len()) == needle
}

/// `hay` contains `needle` (`str::contains` with a string pattern).
pub open spec fn contains_seq(hay: Seq<char>, needle: Seq<char>) -> bool {
    exists|i: int| occurs_at(hay, needle, i)
}

/// Whether two texts are equal.
pub fn same_text(a: &str, b: &str) -> (r: bool)
    ensures
        r == (a@ == b@),
{
    let n = a.unicode_len();
    if n != b.unicode_len() {
        return false;
    }
    let mut i: usize = 0;
    while i < n
        invariant
            n == a@.len(),
            n == b@.len(),
            i <= n,
            forall|k: int| 0 <= k < i ==> a@[k] == b@[k],
        decreases n - i,
    {
        if a.get_char(i) != b.get_char(i) {
            return false;
        }
        i = i + 1;
    }
    assert(a@ =~= b@);
    true
}

/// Whether `needle` occurs in `hay`.
pub fn contains_str(hay: &str, needle: &str) -> (b: bool)
    ensures
        b == contains_seq(hay@, needle@),
{
    let n = hay.unicode_len();
    let m = needle.unicode_len();
    if m > n {
        assert forall|i: int| !occurs_at(hay@, needle@, i) by {}
        return false;
    }
    let mut i: usize = 0;
    while i <= n - m
        invariant
            n == hay@.len(),
            m == needle@.len(),
            m <= n,
            i <= n - m + 1,
            forall|k: int| 0 <= k < i ==> !occurs_at(hay@, needle@, k),
        decreases n - m + 1 - i,
    {
        let mut j: usize = 0;
        while j < m && hay.get_char(i + j) == needle.get_char(j)
            invariant
                n == hay@.len(),
                m == needle@.len(),
                i + m <= n,
                j <= m,
                forall|k: int| 0 <= k < j ==> hay@[i + k] == needle@[k],
            decreases m - j,
        {
            j = j + 1;
        }
        if j == m {
            assert(hay@.subrange(i as int, i + m) =~= needle@);
            assert(occurs_at(hay@, needle@, i as int));
            return true;
        }
        assert(hay@.subrange(i as int, i + m)[j as int] != needle@[j as int]);
        i = i + 1;
    }
    assert forall|k: int| !occurs_at(hay@, needle@, k) by {
        if 0 <= k && k + m <= n {
            assert(k < i);
        }
    }
    false
}

/// `hay` contains `word` (a lower-case ASCII word) ignoring ASCII case.
pub open spec fn contains_ignore_case(hay: Seq<char>, word: Seq<char>) -> bool {
    exists|i: int|
        0 <= i && i + word.len() <= hay.len() && eq_ignore_case(
            #[trigger] hay.subrange(i, i + word.len()),
            word,
        )
}

/// Whether `hay` holds `mpe` in any mix of cases (what
/// `hay.to_lowercase().contains("mpe")` tests: no character but `M`, `P`
/// and `E` lower-cases to these letters).
pub fn contains_mpe(hay: &str) -> (b: bool)
    ensures
        b == contains_ignore_case(hay@, seq!['m', 'p', 'e']),
{
    let n = hay.unicode_len();
    let ghost word = seq!['m', 'p', 'e'];
    let mut i: usize = 0;
    while i < n && 3 <= n - i
        invariant
            n == hay@.len(),
            i <= n,
            word == seq!['m', 'p', 'e'],
            forall|k: int|
                0 <= k < i && k + 3 <= n ==> !eq_ignore_case(#[trigger] hay@.subrange(k, k + 3), word),
        decreases n - i,
    {
        let a = lower_char(hay.get_char(i));
        let b = lower_char(hay.get_char(i + 1));
        let c = lower_char(hay.get_char(i + 2));
        let ghost sub = hay@.subrange(i as int, i + 3);
        assert(sub[0] == hay@[i as int] && sub[1] == hay@[i + 1] && sub[2] == hay@[i + 2]);
        if a == 'm' && b == 'p' && c == 'e' {
            assert(eq_ignore_case(sub, word));
            return true;
        }
        i = i + 1;
    }
    assert forall|k: int|
        0 <= k && k + word.len() <= hay@.len() implies !eq_ignore_case(
        #[trigger] hay@.subrange(k, k + word.len()),
        word,
    ) by {
        assert(k < i);
    }
    false
}

} // verus!
