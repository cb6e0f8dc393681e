//! The metadata blob format.
//!
//! Authors attach behavior properties to scene nodes as a JSON-encoded
//! object, one per entity. The core needs only flat objects: booleans,
//! strings, numbers and arrays of numbers, e.g.
//! `{"enabled": false, "speed": 2.0, "move_to": [0, 3, 0]}`.
//! This module parses exactly that shape. Numbers are read into
//! fixed-point thousandths with at most three fraction digits kept;
//! string values take no escape sequences; keys must be unique; and the
//! whole input must be one object. Anything else is a parse failure,
//! which the matcher treats as a fatal content error.
//!
//! The grammar is defined by the specification functions below; the
//! executable parser returns exactly what they denote.

use vstd::prelude::*;

verus! {

/// Largest whole-number magnitude a metadata number may carry.
pub const NUMBER_LIMIT: i64 = 1_000_000_000_000_000;

/// A parsed number: its value in thousandths, and whether it was
/// written without a fraction part.
#[derive(Clone, Copy, Debug, PartialEq, Eq, Structural)]
pub struct JsonNumber {
    pub milli: i64,
    pub integral: bool,
}

/// A parsed property value.
#[derive(Clone, Debug)]
pub enum PropValue {
    Bool(bool),
    Num(JsonNumber),
    Text(String),
    Nums(Vec<JsonNumber>),
}

/// The mathematical shape of a property value.
pub enum PropView {
    Bool(bool),
    Num(JsonNumber),
    Text(Seq<char>),
    Nums(Seq<JsonNumber>),
}

impl View for PropValue {
    type V = PropView;

    open spec fn view(&self) -> PropView {
        match self {
            PropValue::Bool(b) => PropView::Bool(*b),
            PropValue::Num(n) => PropView::Num(*n),
            PropValue::Text(s) => PropView::Text(s@),
            PropValue::Nums(v) => PropView::Nums(v@),
        }
    }
}

/// The mathematical shape of a parsed property list.
pub open spec fn props_view(props: Seq<(String, PropValue)>) -> Seq<(Seq<char>, PropView)> {
    props.map_values(|p: (String, PropValue)| (p.0@, p.1@))
}

/// JSON whitespace.
pub open spec fn is_ws(c: char) -> bool {
    c == ' ' || c == '\t' || c == '\n' || c == '\r'
}

/// An ASCII decimal digit.
pub open spec fn is_digit(c: char) -> bool {
    48 <= c as u32 <= 57
}

/// The value of one digit.
pub open spec fn digit_val(c: char) -> int {
    c as u32 - 48
}

/// The first position at or after `i` holding no whitespace.
pub open spec fn skip_ws(s: Seq<char>, i: int) -> int
    decreases s.len() - i,
{
    if 0 <= i && i < s.len() && is_ws(s[i]) {
        skip_ws(s, i + 1)
    } else {
        i
    }
}

/// Skipping whitespace stays inside the input.
pub proof fn lemma_skip_ws_bounds(s: Seq<char>, i: int)
    requires
        0 <= i <= s.len(),
    ensures
        i <= skip_ws(s, i) <= s.len(),
    decreases s.len() - i,
{
    if i < s.len() && is_ws(s[i]) {
        lemma_skip_ws_bounds(s, i + 1);
    }
}

/// The characters of a string value from position `i` (just after the
/// opening quote) to its closing quote: any characters but quotes and
/// backslashes, then the closing quote. Yields the content and the
/// position after the closing quote.
pub open spec fn string_body(s: Seq<char>, i: int) -> Option<(Seq<char>, int)>
    decreases s.len() - i,
{
    if !(0 <= i && i < s.len()) {
        None
    } else if s[i] == '"' {
        Some((Seq::empty(), i + 1))
    } else if s[i] == '\\' {
        None
    } else {
        match string_body(s, i + 1) {
            Some((t, j)) => Some((seq![s[i]] + t, j)),
            None => None,
        }
    }
}

/// A string value body spans exactly the characters up to its closing
/// quote.
pub proof fn lemma_string_scan(s: Seq<char>, i: int, m: int)
    requires
        0 <= i <= m <= s.len(),
        forall|k: int| i <= k < m ==> s[k] != '"' && s[k] != '\\',
        m == s.len() || s[m] == '"' || s[m] == '\\',
    ensures
        string_body(s, i) == if m < s.len() && s[m] == '"' {
            Some((s.subrange(i, m), m + 1))
        } else {
            None::<(Seq<char>, int)>
        },
    decreases m - i,
{
    if i == m {
        if m < s.len() && s[m] == '"' {
            assert(s.subrange(i, m) =~= Seq::<char>::empty());
        }
    } else {
        lemma_string_scan(s, i + 1, m);
        if m < s.len() && s[m] == '"' {
            assert(seq![s[i]] + s.subrange(i + 1, m) =~= s.subrange(i, m));
        }
    }
}

/// A quoted string starting at `i`.
pub open spec fn parse_string(s: Seq<char>, i: int) -> Option<(Seq<char>, int)> {
    if 0 <= i && i < s.len() && s[i] == '"' {
        string_body(s, i + 1)
    } else {
        None
    }
}

/// The first position at or after `i` holding no digit.
pub open spec fn digits_end(s: Seq<char>, i: int) -> int
    decreases s.len() - i,
{
    if 0 <= i && i < s.len() && is_digit(s[i]) {
        digits_end(s, i + 1)
    } else {
        i
    }
}

/// A digit run stays inside the input.
pub proof fn lemma_digits_end_bounds(s: Seq<char>, i: int)
    requires
        0 <= i <= s.len(),
    ensures
        i <= digits_end(s, i) <= s.len(),
        forall|k: int| i <= k < digits_end(s, i) ==> is_digit(#[trigger] s[k]),
        digits_end(s, i) < s.len() ==> !is_digit(s[digits_end(s, i)]),
    decreases s.len() - i,
{
    if i < s.len() && is_digit(s[i]) {
        lemma_digits_end_bounds(s, i + 1);
        assert forall|k: int| i <= k < digits_end(s, i) implies is_digit(#[trigger] s[k]) by {
            if k > i {
                assert(is_digit(s[k]));
            }
        }
    }
}

/// The decimal value of the digits `s[i..end)`.
pub open spec fn digits_value(s: Seq<char>, i: int, end: int) -> int
    decreases end - i,
{
    if i < end {
        digits_value(s, i, end - 1) * 10 + digit_val(s[end - 1])
    } else {
        0
    }
}

/// Digit values are never negative.
pub proof fn lemma_digits_value_nonneg(s: Seq<char>, i: int, k: int)
    requires
        i <= k,
        forall|j: int| i <= j < k ==> 0 <= digit_val(#[trigger] s[j]),
    ensures
        0 <= digits_value(s, i, k),
    decreases k - i,
{
    if i < k {
        lemma_digits_value_nonneg(s, i, k - 1);
        let v = digits_value(s, i, k - 1);
        assert(v * 10 >= 0) by (nonlinear_arith)
            requires v >= 0;
    }
}

/// Digit values grow as digits are appended.
pub proof fn lemma_digits_value_grows(s: Seq<char>, i: int, k: int, end: int)
    requires
        i <= k <= end,
        forall|j: int| i <= j < end ==> 0 <= digit_val(#[trigger] s[j]),
    ensures
        0 <= digits_value(s, i, k) <= digits_value(s, i, end),
    decreases end - k,
{
    if k < end {
        lemma_digits_value_grows(s, i, k, end - 1);
        let v = digits_value(s, i, end - 1);
        assert(v * 10 >= v) by (nonlinear_arith)
            requires v >= 0;
    } else {
        lemma_digits_value_nonneg(s, i, k);
    }
}

/// The fraction digits `s[f..fe)` as thousandths: the first three
/// digits padded to three; further digits are dropped.
pub open spec fn frac_milli(s: Seq<char>, f: int, fe: int) -> int {
    let d1 = digit_val(s[f]);
    let d2 = if f + 1 < fe {
        digit_val(s[f + 1])
    } else {
        0
    };
    let d3 = if f + 2 < fe {
        digit_val(s[f + 2])
    } else {
        0
    };
    d1 * 100 + d2 * 10 + d3
}

/// A number starting at `i`: an optional minus sign, digits, and an
/// optional fraction with at least one digit. The whole part may not
/// exceed [`NUMBER_LIMIT`]; exponent notation is not taken.
pub open spec fn parse_number(s: Seq<char>, i: int) -> Option<(JsonNumber, int)> {
    let neg = 0 <= i && i < s.len() && s[i] == '-';
    let i1 = if neg {
        i + 1
    } else {
        i
    };
    if !(0 <= i1 && i1 < s.len() && is_digit(s[i1])) {
        None
    } else {
        let e1 = digits_end(s, i1);
        let v = digits_value(s, i1, e1);
        if v > NUMBER_LIMIT {
            None
        } else if e1 < s.len() && s[e1] == '.' {
            if e1 + 1 < s.len() && is_digit(s[e1 + 1]) {
                let fe = digits_end(s, e1 + 1);
                let m = v * 1000 + frac_milli(s, e1 + 1, fe);
                Some(
                    (
                        JsonNumber {
                            milli: (if neg {
                                -m
                            } else {
                                m
                            }) as i64,
                            integral: false,
                        },
                        fe,
                    ),
                )
            } else {
                None
            }
        } else {
            Some(
                (
                    JsonNumber {
                        milli: (if neg {
                            -(v * 1000)
                        } else {
                            v * 1000
                        }) as i64,
                        integral: true,
                    },
                    e1,
                ),
            )
        }
    }
}

/// The elements of a non-empty array of numbers, starting at the first
/// number; ends at the position after the closing bracket.
pub open spec fn array_items(s: Seq<char>, i: int) -> Option<(Seq<JsonNumber>, int)>
    decreases s.len() - i,
{
    match parse_number(s, i) {
        None => None,
        Some((num, j)) => {
            let j2 = skip_ws(s, j);
            if j2 < s.len() && s[j2] == ',' {
                let j3 = skip_ws(s, j2 + 1);
                if i < j3 <= s.len() {
                    match array_items(s, j3) {
                        Some((rest, k)) => Some((seq![num] + rest, k)),
                        None => None,
                    }
                } else {
                    None
                }
            } else if j2 < s.len() && s[j2] == ']' {
                Some((seq![num], j2 + 1))
            } else {
                None
            }
        },
    }
}

/// An array of numbers starting at `i`.
pub open spec fn parse_array(s: Seq<char>, i: int) -> Option<(Seq<JsonNumber>, int)> {
    if 0 <= i && i < s.len() && s[i] == '[' {
        let j = skip_ws(s, i + 1);
        if j < s.len() && s[j] == ']' {
            Some((Seq::empty(), j + 1))
        } else {
            array_items(s, j)
        }
    } else {
        None
    }
}

/// A property value starting at `i`: `true`, `false`, a string, an
/// array of numbers, or a number.
pub open spec fn parse_value(s: Seq<char>, i: int) -> Option<(PropView, int)> {
    if !(0 <= i && i < s.len()) {
        None
    } else if s[i] == '"' {
        match parse_string(s, i) {
            Some((t, j)) => Some((PropView::Text(t), j)),
            None => None,
        }
    } else if s[i] == '[' {
        match parse_array(s, i) {
            Some((v, j)) => Some((PropView::Nums(v), j)),
            None => None,
        }
    } else if s[i] == 't' {
        if i + 4 <= s.len() && s[i + 1] == 'r' && s[i + 2] == 'u' && s[i + 3] == 'e' {
            Some((PropView::Bool(true), i + 4))
        } else {
            None
        }
    } else if s[i] == 'f' {
        if i + 5 <= s.len() && s[i + 1] == 'a' && s[i + 2] == 'l' && s[i + 3] == 's' && s[i + 4]
            == 'e' {
            Some((PropView::Bool(false), i + 5))
        } else {
            None
        }
    } else {
        match parse_number(s, i) {
            Some((n, j)) => Some((PropView::Num(n), j)),
            None => None,
        }
    }
}

/// One `"key": value` pair starting at the key's opening quote.
pub open spec fn parse_pair(s: Seq<char>, i: int) -> Option<((Seq<char>, PropView), int)> {
    match parse_string(s, i) {
        None => None,
        Some((k, j)) => {
            let j2 = skip_ws(s, j);
            if j2 < s.len() && s[j2] == ':' {
                let j3 = skip_ws(s, j2 + 1);
                match parse_value(s, j3) {
                    Some((v, j4)) => Some(((k, v), j4)),
                    None => None,
                }
            } else {
                None
            }
        },
    }
}

/// One or more comma-separated pairs starting at the first key; stops
/// before the closing brace, trailing whitespace consumed.
pub open spec fn parse_members(s: Seq<char>, i: int) -> Option<
    (Seq<(Seq<char>, PropView)>, int),
>
    decreases s.len() - i,
{
    match parse_pair(s, i) {
        None => None,
        Some((p, j)) => {
            let j2 = skip_ws(s, j);
            if j2 < s.len() && s[j2] == ',' {
                let j3 = skip_ws(s, j2 + 1);
                if i < j3 <= s.len() {
                    match parse_members(s, j3) {
                        Some((rest, k)) => Some((seq![p] + rest, k)),
                        None => None,
                    }
                } else {
                    None
                }
            } else {
                Some((seq![p], j2))
            }
        },
    }
}

/// Whether `c` is an ASCII decimal digit.
fn is_digit_exec(c: char) -> (r: bool)
    ensures
        r == is_digit(c),
{
    let u = c as u32;
    48 <= u && u <= 57
}

/// Skip whitespace from `i`.
fn skip_ws_exec(s: &str, i: usize) -> (r: usize)
    requires
        i <= s@.len(),
    ensures
        r as int == skip_ws(s@, i as int),
        i <= r <= s@.len(),
{
    let len = s.unicode_len();
    let mut j = i;
    while j < len
        invariant
            len == s@.len(),
            i <= j <= len,
            skip_ws(s@, i as int) == skip_ws(s@, j as int),
        decreases len - j,
    {
        let c = s.get_char(j);
        if !(c == ' ' || c == '\t' || c == '\n' || c == '\r') {
            return j;
        }
        j += 1;
    }
    j
}

/// Parse a quoted string at `i`.
fn parse_string_exec(s: &str, i: usize) -> (r: Option<(String, usize)>)
    requires
        i <= s@.len(),
    ensures
        match r {
            Some(t) => {
                &&& parse_string(s@, i as int) == Some((t.0@, t.1 as int))
                &&& i < t.1 <= s@.len()
            },
            None => parse_string(s@, i as int) is None,
        },
{
    let len = s.unicode_len();
    if i >= len {
        return None;
    }
    if s.get_char(i) != '"' {
        return None;
    }
    let mut m = i + 1;
    loop
        invariant
            len == s@.len(),
            i + 1 <= m <= len,
            forall|k: int| i + 1 <= k < m ==> s@[k] != '"' && s@[k] != '\\',
        ensures
            i + 1 <= m <= len,
            forall|k: int| i + 1 <= k < m ==> s@[k] != '"' && s@[k] != '\\',
            m == len || s@[m as int] == '"' || s@[m as int] == '\\',
        decreases len - m,
    {
        if m >= len {
            break ;
        }
        let c = s.get_char(m);
        if c == '"' || c == '\\' {
            break ;
        }
        m += 1;
    }
    proof {
        lemma_string_scan(s@, i as int + 1, m as int);
    }
    if m < len {
        let c = s.get_char(m);
        if c == '"' {
            let body = s.substring_char(i + 1, m);
            let text = String::from_str(body);
            Some((text, m + 1))
        } else {
            None
        }
    } else {
        None
    }
}

/// Parse a number at `i`.
fn parse_number_exec(s: &str, i: usize) -> (r: Option<(JsonNumber, usize)>)
    requires
        i <= s@.len(),
    ensures
        match r {
            Some(t) => {
                &&& parse_number(s@, i as int) == Some((t.0, t.1 as int))
                &&& i < t.1 <= s@.len()
            },
            None => parse_number(s@, i as int) is None,
        },
{
    let len = s.unicode_len();
    let neg = i < len && s.get_char(i) == '-';
    let i1 = if neg {
        i + 1
    } else {
        i
    };
    if i1 >= len {
        return None;
    }
    if !is_digit_exec(s.get_char(i1)) {
        return None;
    }
    let ghost end = digits_end(s@, i1 as int);
    proof {
        lemma_digits_end_bounds(s@, i1 as int);
        assert forall|j: int| i1 <= j < end implies 0 <= digit_val(#[trigger] s@[j]) by {
            assert(is_digit(s@[j]));
        }
    }
    let mut e = i1;
    let mut acc: i64 = 0;
    loop
        invariant
            len == s@.len(),
            neg == (0 <= i as int && (i as int) < s@.len() && s@[i as int] == '-'),
            i1 as int == if neg {
                i as int + 1
            } else {
                i as int
            },
            is_digit(s@[i1 as int]),
            i1 < len,
            i1 <= e <= len,
            end == digits_end(s@, i1 as int),
            digits_end(s@, e as int) == end,
            e <= end,
            acc == digits_value(s@, i1 as int, e as int),
            0 <= acc <= NUMBER_LIMIT,
            forall|j: int| i1 <= j < end ==> 0 <= digit_val(#[trigger] s@[j]),
        ensures
            e == end,
            acc == digits_value(s@, i1 as int, end),
            0 <= acc <= NUMBER_LIMIT,
        decreases len - e,
    {
        if e >= len {
            break ;
        }
        let c = s.get_char(e);
        if !is_digit_exec(c) {
            break ;
        }
        proof {
            assert(digits_end(s@, e as int) == digits_end(s@, e as int + 1));
            lemma_digits_end_bounds(s@, e as int + 1);
        }
        let d: i64 = (c as u32 - 48) as i64;
        let next: i64 = acc * 10 + d;
        if next > NUMBER_LIMIT {
            proof {
                assert(digits_value(s@, i1 as int, e as int + 1) == next);
                lemma_digits_value_grows(s@, i1 as int, e as int + 1, end);
            }
            return None;
        }
        acc = next;
        e += 1;
    }
    proof {
        lemma_digits_end_bounds(s@, i1 as int + 1);
        assert(end >= i1 + 1);
    }
    if e < len && s.get_char(e) == '.' {
        if e + 1 >= len {
            return None;
        }
        if !is_digit_exec(s.get_char(e + 1)) {
            return None;
        }
        let f1 = e + 1;
        let ghost fend = digits_end(s@, f1 as int);
        proof {
            lemma_digits_end_bounds(s@, f1 as int);
        }
        let mut fe = f1;
        loop
            invariant
                len == s@.len(),
                f1 <= fe <= len,
                fend == digits_end(s@, f1 as int),
                digits_end(s@, fe as int) == fend,
                fe <= fend,
            ensures
                fe == fend,
            decreases len - fe,
        {
            if fe >= len {
                break ;
            }
            let c = s.get_char(fe);
            if !is_digit_exec(c) {
                break ;
            }
            proof {
                assert(digits_end(s@, fe as int) == digits_end(s@, fe as int + 1));
                lemma_digits_end_bounds(s@, fe as int + 1);
            }
            fe += 1;
        }
        proof {
            assert(is_digit(s@[f1 as int]));
            assert(forall|k: int| f1 <= k < fend ==> is_digit(#[trigger] s@[k]));
        }
        let d1: i64 = (s.get_char(f1) as u32 - 48) as i64;
        let d2: i64 = if fe - f1 > 1 {
            proof {
                assert(is_digit(s@[f1 as int + 1]));
            }
            (s.get_char(f1 + 1) as u32 - 48) as i64
        } else {
            0
        };
        let d3: i64 = if fe - f1 > 2 {
            proof {
                assert(is_digit(s@[f1 as int + 2]));
            }
            (s.get_char(f1 + 2) as u32 - 48) as i64
        } else {
            0
        };
        let frac: i64 = d1 * 100 + d2 * 10 + d3;
        let whole: i64 = acc * 1000 + frac;
        let milli: i64 = if neg {
            -whole
        } else {
            whole
        };
        Some((JsonNumber { milli, integral: false }, fe))
    } else {
        let scaled: i64 = acc * 1000;
        let milli: i64 = if neg {
            -scaled
        } else {
            scaled
        };
        Some((JsonNumber { milli, integral: true }, e))
    }
}

/// Parse the items of a non-empty number array, starting at the first
/// number.
fn array_items_exec(s: &str, i: usize) -> (r: Option<(Vec<JsonNumber>, usize)>)
    requires
        i <= s@.len(),
    ensures
        match r {
            Some(t) => {
                &&& array_items(s@, i as int) == Some((t.0@, t.1 as int))
                &&& i < t.1 <= s@.len()
            },
            None => array_items(s@, i as int) is None,
        },
    decreases s@.len() - i,
{
    let len = s.unicode_len();
    match parse_number_exec(s, i) {
        None => None,
        Some((num, j)) => {
            let j2 = skip_ws_exec(s, j);
            if j2 < len && s.get_char(j2) == ',' {
                let j3 = skip_ws_exec(s, j2 + 1);
                match array_items_exec(s, j3) {
                    Some((rest, k)) => {
                        let mut rest = rest;
                        let mut out: Vec<JsonNumber> = Vec::new();
                        out.push(num);
                        out.append(&mut rest);
                        proof {
                            assert(out@ =~= seq![num] + array_items(s@, j3 as int)->Some_0.0);
                        }
                        Some((out, k))
                    }
                    None => None,
                }
            } else if j2 < len && s.get_char(j2) == ']' {
                let mut out: Vec<JsonNumber> = Vec::new();
                out.push(num);
                proof {
                    assert(out@ =~= seq![num]);
                }
                Some((out, j2 + 1))
            } else {
                None
            }
        }
    }
}

/// Parse a number array at `i`.
fn parse_array_exec(s: &str, i: usize) -> (r: Option<(Vec<JsonNumber>, usize)>)
    requires
        i <= s@.len(),
    ensures
        match r {
            Some(t) => {
                &&& parse_array(s@, i as int) == Some((t.0@, t.1 as int))
                &&& i < t.1 <= s@.len()
            },
            None => parse_array(s@, i as int) is None,
        },
{
    let len = s.unicode_len();
    if i >= len {
        return None;
    }
    if s.get_char(i) != '[' {
        return None;
    }
    let j = skip_ws_exec(s, i + 1);
    if j < len && s.get_char(j) == ']' {
        let out: Vec<JsonNumber> = Vec::new();
        proof {
            assert(out@ =~= Seq::<JsonNumber>::empty());
        }
        Some((out, j + 1))
    } else {
        array_items_exec(s, j)
    }
}

/// Parse one property value at `i`.
fn parse_value_exec(s: &str, i: usize) -> (r: Option<(PropValue, usize)>)
    requires
        i <= s@.len(),
    ensures
        match r {
            Some(t) => {
                &&& parse_value(s@, i as int) == Some((t.0@, t.1 as int))
                &&& i < t.1 <= s@.len()
            },
            None => parse_value(s@, i as int) is None,
        },
{
    let len = s.unicode_len();
    if i >= len {
        return None;
    }
    let c = s.get_char(i);
    if c == '"' {
        match parse_string_exec(s, i) {
            Some((t, j)) => Some((PropValue::Text(t), j)),
            None => None,
        }
    } else if c == '[' {
        match parse_array_exec(s, i) {
            Some((v, j)) => Some((PropValue::Nums(v), j)),
            None => None,
        }
    } else if c == 't' {
        if len - i >= 4 && s.get_char(i + 1) == 'r' && s.get_char(i + 2) == 'u' && s.get_char(
            i + 3,
        ) == 'e' {
            Some((PropValue::Bool(true), i + 4))
        } else {
            None
        }
    } else if c == 'f' {
        if len - i >= 5 && s.get_char(i + 1) == 'a' && s.get_char(i + 2) == 'l' && s.get_char(
            i + 3,
        ) == 's' && s.get_char(i + 4) == 'e' {
            Some((PropValue::Bool(false), i + 5))
        } else {
            None
        }
    } else {
        match parse_number_exec(s, i) {
            Some((n, j)) => Some((PropValue::Num(n), j)),
            None => None,
        }
    }
}

/// Parse one `"key": value` pair at `i`.
fn parse_pair_exec(s: &str, i: usize) -> (r: Option<((String, PropValue), usize)>)
    requires
        i <= s@.len(),
    ensures
        match r {
            Some(t) => {
                &&& parse_pair(s@, i as int) == Some(((t.0.0@, t.0.1@), t.1 as int))
                &&& i < t.1 <= s@.len()
            },
            None => parse_pair(s@, i as int) is None,
        },
{
    let len = s.unicode_len();
    match parse_string_exec(s, i) {
        None => None,
        Some((k, j)) => {
            let j2 = skip_ws_exec(s, j);
            if j2 < len && s.get_char(j2) == ':' {
                let j3 = skip_ws_exec(s, j2 + 1);
                match parse_value_exec(s, j3) {
                    Some((v, j4)) => Some(((k, v), j4)),
                    None => None,
                }
            } else {
                None
            }
        }
    }
}

/// Parse the comma-separated pairs of a non-empty object, starting at
/// the first key.
fn parse_members_exec(s: &str, i: usize) -> (r: Option<(Vec<(String, PropValue)>, usize)>)
    requires
        i <= s@.len(),
    ensures
        match r {
            Some(t) => {
                &&& parse_members(s@, i as int) == Some((props_view(t.0@), t.1 as int))
                &&& i < t.1 <= s@.len()
            },
            None => parse_members(s@, i as int) is None,
        },
    decreases s@.len() - i,
{
    let len = s.unicode_len();
    match parse_pair_exec(s, i) {
        None => None,
        Some((p, j)) => {
            let j2 = skip_ws_exec(s, j);
            if j2 < len && s.get_char(j2) == ',' {
                let j3 = skip_ws_exec(s, j2 + 1);
                match parse_members_exec(s, j3) {
                    Some((rest, k)) => {
                        let ghost p_view = (p.0@, p.1@);
                        let mut rest = rest;
                        let ghost rest_view = rest@;
                        let mut out: Vec<(String, PropValue)> = Vec::new();
                        out.push(p);
                        out.append(&mut rest);
                        proof {
                            assert(props_view(out@) =~= seq![p_view] + props_view(rest_view));
                        }
                        Some((out, k))
                    }
                    None => None,
                }
            } else {
                let ghost p_view = (p.0@, p.1@);
                let mut out: Vec<(String, PropValue)> = Vec::new();
                out.push(p);
                proof {
                    assert(props_view(out@) =~= seq![p_view]);
                }
                Some((out, j2))
            }
        }
    }
}

/// Whether all keys are distinct, by character content.
fn distinct_keys_exec(props: &Vec<(String, PropValue)>) -> (r: bool)
    ensures
        r == distinct_keys(props_view(props@)),
{
    let n = props.len();
    let mut a: usize = 0;
    while a < n
        invariant
            n == props@.len(),
            0 <= a <= n,
            forall|x: int, y: int|
                0 <= x < y < props@.len() && x < a ==> props_view(props@)[x].0 != props_view(
                    props@,
                )[y].0,
        decreases n - a,
    {
        let mut b: usize = a + 1;
        while b < n
            invariant
                n == props@.len(),
                0 <= a < n,
                a < b <= n,
                forall|y: int| a < y < b ==> props_view(props@)[a as int].0 != props_view(
                    props@,
                )[y].0,
            decreases n - b,
        {
            if props[a].0.eq(&props[b].0) {
                proof {
                    assert(props_view(props@)[a as int].0 == props_view(props@)[b as int].0);
                }
                return false;
            }
            b += 1;
        }
        a += 1;
    }
    true
}

/// Parse a metadata blob: one flat object with unique keys, or nothing.
///
/// The result is exactly what the grammar specification denotes:
/// `Some` with the key/value pairs in source order when the whole
/// input is one well-formed object, `None` otherwise.
pub fn parse_metadata(s: &str) -> (r: Option<Vec<(String, PropValue)>>)
    ensures
        match r {
            Some(props) => parse_props(s@) == Some(props_view(props@)),
            None => parse_props(s@) is None,
        },
{
    let len = s.unicode_len();
    let i0 = skip_ws_exec(s, 0);
    if i0 >= len {
        return None;
    }
    if s.get_char(i0) != '{' {
        return None;
    }
    let i1 = skip_ws_exec(s, i0 + 1);
    if i1 < len && s.get_char(i1) == '}' {
        let e = skip_ws_exec(s, i1 + 1);
        if e == len {
            let out: Vec<(String, PropValue)> = Vec::new();
            proof {
                assert(props_view(out@) =~= Seq::<(Seq<char>, PropView)>::empty());
            }
            Some(out)
        } else {
            None
        }
    } else {
        match parse_members_exec(s, i1) {
            None => None,
            Some((props, j)) => {
                if j < len && s.get_char(j) == '}' {
                    let e = skip_ws_exec(s, j + 1);
                    if e == len {
                        if distinct_keys_exec(&props) {
                            Some(props)
                        } else {
                            None
                        }
                    } else {
                        None
                    }
                } else {
                    None
                }
            }
        }
    }
}

/// No two pairs share a key.
pub open spec fn distinct_keys(props: Seq<(Seq<char>, PropView)>) -> bool {
    forall|a: int, b: int| 0 <= a < b < props.len() ==> props[a].0 != props[b].0
}

/// The whole metadata blob: exactly one object with unique keys,
/// nothing but whitespace around it.
pub open spec fn parse_props(s: Seq<char>) -> Option<Seq<(Seq<char>, PropView)>> {
    let i0 = skip_ws(s, 0);
    if !(i0 < s.len() && s[i0] == '{') {
        None
    } else {
        let i1 = skip_ws(s, i0 + 1);
        if i1 < s.len() && s[i1] == '}' {
            if skip_ws(s, i1 + 1) == s.len() {
                Some(Seq::empty())
            } else {
                None
            }
        } else {
            match parse_members(s, i1) {
                None => None,
                Some((ps, j)) => {
                    if j < s.len() && s[j] == '}' && skip_ws(s, j + 1) == s.len() && distinct_keys(
                        ps,
                    ) {
                        Some(ps)
                    } else {
                        None
                    }
                },
            }
        }
    }
}

} // verus!
