//! Reading and writing the JSON objects that carry envelopes: a top-level
//! object whose members hold strings, lists of strings, `null`, or values of
//! any other shape that the reader skips.
//!
//! The reader follows the JSON grammar (RFC 8259) for everything it reads or
//! skips: strings with all their escapes (surrogate pairs included, lone
//! halves refused), numbers, literals, arrays and nested objects. It sets no
//! limit on how deeply skipped values nest. The writer emits compact JSON,
//! escaping characters the way serde_json does (`\"`, `\\`, `\n`, `\r`,
//! `\t`, `\b`, `\f`, and `\u00xx` for the other control characters).

use vstd::prelude::*;
use crate::text::{parse_string, parse_string_exec, push_char, push_quoted, quoted};

verus! {

/// What a member of an object holds, as far as envelopes care.
pub enum FieldView {
    Text(Seq<char>),
    TextList(Seq<Seq<char>>),
    Null,
    Other,
}

/// A member value read from the wire.
pub enum FieldValue {
    Text(String),
    TextList(Vec<String>),
    Null,
    Other,
}

impl View for FieldValue {
    type V = FieldView;

    open spec fn view(&self) -> FieldView {
        match self {
            FieldValue::Text(s) => FieldView::Text(s@),
            FieldValue::TextList(l) => FieldView::TextList(l.deep_view()),
            FieldValue::Null => FieldView::Null,
            FieldValue::Other => FieldView::Other,
        }
    }
}

/// The members of an object, in the order they were read.
pub open spec fn members_view(ms: Seq<(String, FieldValue)>) -> Seq<(Seq<char>, FieldView)> {
    ms.map_values(|m: (String, FieldValue)| (m.0@, m.1@))
}

pub open spec fn is_ws(c: char) -> bool {
    c == ' ' || c == '\n' || c == '\r' || c == '\t'
}

/// The first position at or after `i` that holds no whitespace.
pub open spec fn skip_ws(t: Seq<char>, i: int) -> int
    decreases t.len() - i,
{
    if 0 <= i && i < t.len() && is_ws(t[i]) {
        skip_ws(t, i + 1)
    } else {
        i
    }
}

/// Whether `lit` stands in `t` at `i`.
pub open spec fn literal_at(t: Seq<char>, i: int, lit: Seq<char>) -> bool {
    0 <= i && i + lit.len() <= t.len() && t.subrange(i, i + lit.len()) == lit
}

pub open spec fn is_digit(c: char) -> bool {
    '0' <= c && c <= '9'
}

pub open spec fn digit_at(t: Seq<char>, i: int) -> bool {
    0 <= i && i < t.len() && is_digit(t[i])
}

/// The end of the run of digits that starts at `i`.
pub open spec fn digits_end(t: Seq<char>, i: int) -> int
    decreases t.len() - i,
{
    if digit_at(t, i) {
        digits_end(t, i + 1)
    } else {
        i
    }
}

/// The end of the fraction and exponent parts that may follow the integer
/// part of a number, which ends at `q`.
pub open spec fn number_tail(t: Seq<char>, q: int) -> Option<int> {
    let r = if 0 <= q && q < t.len() && t[q] == '.' {
        if digit_at(t, q + 1) { Some(digits_end(t, q + 1)) } else { None }
    } else {
        Some(q)
    };
    match r {
        Some(r) => if 0 <= r && r < t.len() && (t[r] == 'e' || t[r] == 'E') {
            let s = if r + 1 < t.len() && (t[r + 1] == '+' || t[r + 1] == '-') { r + 2 } else { r + 1 };
            if digit_at(t, s) { Some(digits_end(t, s)) } else { None }
        } else {
            Some(r)
        },
        None => None,
    }
}

/// The end of the JSON number that starts at `i`:
/// `-? (0 | [1-9][0-9]*) (. [0-9]+)? ([eE] [+-]? [0-9]+)?`.
#[verifier::opaque]
pub open spec fn number_end(t: Seq<char>, i: int) -> Option<int> {
    let p = if 0 <= i && i < t.len() && t[i] == '-' { i + 1 } else { i };
    if digit_at(t, p) {
        let q = if t[p] == '0' { p + 1 } else { digits_end(t, p + 1) };
        number_tail(t, q)
    } else {
        None
    }
}

/// The end of the JSON value that starts at `i`, if one does.
pub open spec fn skip_value(t: Seq<char>, i: int) -> Option<int>
    decreases t.len() - i, 0int,
{
    if i < 0 || i >= t.len() {
        None
    } else if t[i] == '"' {
        match parse_string(t, i) {
            Some((_, e)) => Some(e),
            None => None,
        }
    } else if t[i] == '[' {
        skip_open(t, i + 1, ']')
    } else if t[i] == '{' {
        skip_open(t, i + 1, '}')
    } else if t[i] == 't' {
        if literal_at(t, i, seq!['t', 'r', 'u', 'e']) { Some(i + 4) } else { None }
    } else if t[i] == 'f' {
        if literal_at(t, i, seq!['f', 'a', 'l', 's', 'e']) { Some(i + 5) } else { None }
    } else if t[i] == 'n' {
        if literal_at(t, i, seq!['n', 'u', 'l', 'l']) { Some(i + 4) } else { None }
    } else if t[i] == '-' || is_digit(t[i]) {
        number_end(t, i)
    } else {
        None
    }
}

/// The end of an array (`close == ']'`) or object (`close == '}'`) whose
/// opening bracket stands before `i`.
pub open spec fn skip_open(t: Seq<char>, i: int, close: char) -> Option<int>
    decreases t.len() - i, 2int,
{
    let j = skip_ws(t, i);
    if j < i || i < 0 || j > t.len() {
        None
    } else if j < t.len() && t[j] == close {
        Some(j + 1)
    } else {
        skip_items(t, j, close)
    }
}

/// The end of the items of an array or object, from the start of an item.
/// An object's item is a string key, a colon and a value.
pub open spec fn skip_items(t: Seq<char>, j: int, close: char) -> Option<int>
    decreases t.len() - j, 1int,
{
    if j < 0 || j >= t.len() {
        None
    } else {
        let start = if close == '}' {
            match parse_string(t, j) {
                Some((_, a)) => {
                    let b = skip_ws(t, a);
                    if j < a && a <= b && b < t.len() && t[b] == ':' {
                        Some(skip_ws(t, b + 1))
                    } else {
                        None
                    }
                },
                None => None,
            }
        } else {
            Some(j)
        };
        match start {
            Some(v) => if j <= v && v <= t.len() {
                match skip_value(t, v) {
                    Some(k) => {
                        let m = skip_ws(t, k);
                        if m < k || k <= j || m >= t.len() {
                            None
                        } else if t[m] == close {
                            Some(m + 1)
                        } else if t[m] == ',' {
                            let n = skip_ws(t, m + 1);
                            if n > m && n <= t.len() {
                                skip_items(t, n, close)
                            } else {
                                None
                            }
                        } else {
                            None
                        }
                    },
                    None => None,
                }
            } else {
                None
            },
            None => None,
        }
    }
}


/// The strings of a list of string literals, from the start of an item, and
/// the position after the closing bracket.
pub open spec fn string_items(t: Seq<char>, j: int) -> Option<(Seq<Seq<char>>, int)>
    decreases t.len() - j,
{
    match parse_string(t, j) {
        Some((s, k)) => {
            let m = skip_ws(t, k);
            if m < k || k <= j || m >= t.len() {
                None
            } else if t[m] == ']' {
                Some((seq![s], m + 1))
            } else if t[m] == ',' {
                let n = skip_ws(t, m + 1);
                if n > m && n <= t.len() {
                    match string_items(t, n) {
                        Some((rest, e)) => Some((seq![s] + rest, e)),
                        None => None,
                    }
                } else {
                    None
                }
            } else {
                None
            }
        },
        None => None,
    }
}

/// A list of string literals whose opening bracket stands before `i`.
pub open spec fn string_list(t: Seq<char>, i: int) -> Option<(Seq<Seq<char>>, int)> {
    let j = skip_ws(t, i);
    if 0 <= j && j < t.len() && t[j] == ']' {
        Some((seq![], j + 1))
    } else {
        string_items(t, j)
    }
}

/// The value of a member, starting at `i`, and where it ends.
pub open spec fn field_value(t: Seq<char>, i: int) -> Option<(FieldView, int)> {
    if 0 <= i && i < t.len() && t[i] == '"' {
        match parse_string(t, i) {
            Some((s, e)) => Some((FieldView::Text(s), e)),
            None => None,
        }
    } else if literal_at(t, i, seq!['n', 'u', 'l', 'l']) {
        Some((FieldView::Null, i + 4))
    } else if 0 <= i && i < t.len() && t[i] == '[' && string_list(t, i + 1) is Some {
        let (l, e) = string_list(t, i + 1)->Some_0;
        Some((FieldView::TextList(l), e))
    } else {
        match skip_value(t, i) {
            Some(e) => Some((FieldView::Other, e)),
            None => None,
        }
    }
}

/// The members of an object from the start of one (its key), and the
/// position after the closing brace.
pub open spec fn member_items(t: Seq<char>, j: int) -> Option<(Seq<(Seq<char>, FieldView)>, int)>
    decreases t.len() - j,
{
    match parse_string(t, j) {
        Some((key, a)) => {
            let b = skip_ws(t, a);
            if a <= j || b < a || b >= t.len() || t[b] != ':' {
                None
            } else {
                match field_value(t, skip_ws(t, b + 1)) {
                    Some((v, d)) => {
                        let m = skip_ws(t, d);
                        if m < d || d <= b || m >= t.len() {
                            None
                        } else if t[m] == '}' {
                            Some((seq![(key, v)], m + 1))
                        } else if t[m] == ',' {
                            let n = skip_ws(t, m + 1);
                            if n > m && n <= t.len() {
                                match member_items(t, n) {
                                    Some((rest, e)) => Some((seq![(key, v)] + rest, e)),
                                    None => None,
                                }
                            } else {
                                None
                            }
                        } else {
                            None
                        }
                    },
                    None => None,
                }
            }
        },
        None => None,
    }
}

/// The members of a text that holds one JSON object and nothing else but
/// whitespace around it.
#[verifier::opaque]
pub open spec fn parse_object(t: Seq<char>) -> Option<Seq<(Seq<char>, FieldView)>> {
    let j = skip_ws(t, 0);
    if 0 <= j && j < t.len() && t[j] == '{' {
        let k = skip_ws(t, j + 1);
        let r = if 0 <= k && k < t.len() && t[k] == '}' {
            Some((seq![], k + 1))
        } else {
            member_items(t, k)
        };
        match r {
            Some((ms, e)) => if skip_ws(t, e) == t.len() {
                Some(ms)
            } else {
                None
            },
            None => None,
        }
    } else {
        None
    }
}

fn is_ws_exec(c: char) -> (r: bool)
    ensures
        r == is_ws(c),
{
    c == ' ' || c == '\n' || c == '\r' || c == '\t'
}

fn skip_ws_exec(t: &str, n: usize, i: usize) -> (r: usize)
    requires
        n == t@.len(),
        i <= n,
    ensures
        r == skip_ws(t@, i as int),
        i <= r <= n,
{
    let mut j = i;
    while j < n && is_ws_exec(t.get_char(j))
        invariant
            n == t@.len(),
            i <= j <= n,
            skip_ws(t@, i as int) == skip_ws(t@, j as int),
        decreases n - j,
    {
        j = j + 1;
    }
    j
}

fn digits_end_exec(t: &str, n: usize, i: usize) -> (r: usize)
    requires
        n == t@.len(),
        i <= n,
    ensures
        r == digits_end(t@, i as int),
        i <= r <= n,
{
    let mut j = i;
    while j < n && is_digit_exec(t.get_char(j))
        invariant
            n == t@.len(),
            i <= j <= n,
            digits_end(t@, i as int) == digits_end(t@, j as int),
        decreases n - j,
    {
        j = j + 1;
    }
    j
}

fn is_digit_exec(c: char) -> (r: bool)
    ensures
        r == is_digit(c),
{
    '0' <= c && c <= '9'
}

fn digit_at_exec(t: &str, n: usize, i: usize) -> (r: bool)
    requires
        n == t@.len(),
    ensures
        r == digit_at(t@, i as int),
{
    i < n && is_digit_exec(t.get_char(i))
}

fn number_end_exec(t: &str, n: usize, i: usize) -> (r: Option<usize>)
    requires
        n == t@.len(),
        i < n,
    ensures
        r == (match number_end(t@, i as int) { Some(e) => Some(e as usize), None => None::<usize> }),
        r matches Some(e) ==> i < e <= n && number_end(t@, i as int) == Some(e as int),
{
    proof {
        reveal(number_end);
    }
    let p = if t.get_char(i) == '-' { i + 1 } else { i };
    if !digit_at_exec(t, n, p) {
        return None;
    }
    let q = if t.get_char(p) == '0' { p + 1 } else { digits_end_exec(t, n, p + 1) };
    let r = if q < n && t.get_char(q) == '.' {
        if digit_at_exec(t, n, q + 1) {
            digits_end_exec(t, n, q + 1)
        } else {
            return None;
        }
    } else {
        q
    };
    if r < n && (t.get_char(r) == 'e' || t.get_char(r) == 'E') {
        let s = if r + 1 < n && (t.get_char(r + 1) == '+' || t.get_char(r + 1) == '-') { r + 2 } else { r + 1 };
        if digit_at_exec(t, n, s) {
            Some(digits_end_exec(t, n, s))
        } else {
            None
        }
    } else {
        Some(r)
    }
}

fn literal_at_exec(t: &str, n: usize, i: usize, lit: &str) -> (r: bool)
    requires
        n == t@.len(),
    ensures
        r == literal_at(t@, i as int, lit@),
{
    let m = lit.unicode_len();
    if i > n || n - i < m {
        return false;
    }
    let mut k: usize = 0;
    while k < m
        invariant
            n == t@.len(),
            m == lit@.len(),
            i + m <= n,
            k <= m,
            t@.subrange(i as int, i + k) == lit@.subrange(0, k as int),
        decreases m - k,
    {
        if t.get_char(i + k) != lit.get_char(k) {
            assert(t@.subrange(i as int, i + m)[k as int] != lit@[k as int]);
            return false;
        }
        assert(t@.subrange(i as int, i + k + 1) =~= lit@.subrange(0, k + 1));
        k = k + 1;
    }
    assert(lit@.subrange(0, m as int) =~= lit@);
    true
}


fn skip_value_exec(t: &str, n: usize, i: usize) -> (r: Option<usize>)
    requires
        n == t@.len(),
        i <= n,
    ensures
        r == (match skip_value(t@, i as int) { Some(e) => Some(e as usize), None => None::<usize> }),
        r matches Some(e) ==> i < e <= n && skip_value(t@, i as int) == Some(e as int),
    decreases n - i, 0int,
{
    if i >= n {
        return None;
    }
    let c = t.get_char(i);
    proof {
        reveal_strlit("true");
        reveal_strlit("false");
        reveal_strlit("null");
        assert("true"@ =~= seq!['t', 'r', 'u', 'e']);
        assert("false"@ =~= seq!['f', 'a', 'l', 's', 'e']);
        assert("null"@ =~= seq!['n', 'u', 'l', 'l']);
    }
    if c == '"' {
        match parse_string_exec(t, n, i) {
            Some((_, e)) => Some(e),
            None => None,
        }
    } else if c == '[' {
        skip_open_exec(t, n, i + 1, ']')
    } else if c == '{' {
        skip_open_exec(t, n, i + 1, '}')
    } else if c == 't' {
        if literal_at_exec(t, n, i, "true") { Some(i + 4) } else { None }
    } else if c == 'f' {
        if literal_at_exec(t, n, i, "false") { Some(i + 5) } else { None }
    } else if c == 'n' {
        if literal_at_exec(t, n, i, "null") { Some(i + 4) } else { None }
    } else if c == '-' || is_digit_exec(c) {
        number_end_exec(t, n, i)
    } else {
        None
    }
}

fn skip_open_exec(t: &str, n: usize, i: usize, close: char) -> (r: Option<usize>)
    requires
        n == t@.len(),
        i <= n,
    ensures
        r == (match skip_open(t@, i as int, close) { Some(e) => Some(e as usize), None => None::<usize> }),
        r matches Some(e) ==> i < e <= n && skip_open(t@, i as int, close) == Some(e as int),
    decreases n - i, 2int,
{
    let j = skip_ws_exec(t, n, i);
    if j < n && t.get_char(j) == close {
        Some(j + 1)
    } else {
        skip_items_exec(t, n, j, close)
    }
}

fn skip_items_exec(t: &str, n: usize, j: usize, close: char) -> (r: Option<usize>)
    requires
        n == t@.len(),
        j <= n,
    ensures
        r == (match skip_items(t@, j as int, close) { Some(e) => Some(e as usize), None => None::<usize> }),
        r matches Some(e) ==> j < e <= n && skip_items(t@, j as int, close) == Some(e as int),
    decreases n - j, 1int,
{
    if j >= n {
        return None;
    }
    let v: usize;
    if close == '}' {
        match parse_string_exec(t, n, j) {
            Some((_, a)) => {
                let b = skip_ws_exec(t, n, a);
                if b < n && t.get_char(b) == ':' {
                    v = skip_ws_exec(t, n, b + 1);
                } else {
                    return None;
                }
            },
            None => return None,
        }
    } else {
        v = j;
    }
    match skip_value_exec(t, n, v) {
        Some(k) => {
            let m = skip_ws_exec(t, n, k);
            if m >= n {
                None
            } else if t.get_char(m) == close {
                Some(m + 1)
            } else if t.get_char(m) == ',' {
                let p = skip_ws_exec(t, n, m + 1);
                skip_items_exec(t, n, p, close)
            } else {
                None
            }
        },
        None => None,
    }
}


fn string_items_exec(t: &str, n: usize, j: usize) -> (r: Option<(Vec<String>, usize)>)
    requires
        n == t@.len(),
        j <= n,
    ensures
        match r {
            Some((l, e)) => string_items(t@, j as int) == Some((l.deep_view(), e as int)) && j < e <= n,
            None => string_items(t@, j as int) is None,
        },
    decreases n - j,
{
    match parse_string_exec(t, n, j) {
        Some((s, k)) => {
            let m = skip_ws_exec(t, n, k);
            if m >= n {
                None
            } else if t.get_char(m) == ']' {
                let mut l: Vec<String> = Vec::new();
                l.push(s);
                assert(l.deep_view() =~= seq![s@]);
                Some((l, m + 1))
            } else if t.get_char(m) == ',' {
                let p = skip_ws_exec(t, n, m + 1);
                match string_items_exec(t, n, p) {
                    Some((rest, e)) => {
                        let mut l: Vec<String> = Vec::new();
                        l.push(s);
                        let mut rest = rest;
                        let ghost first = l@;
                        let ghost rest_seq = rest@;
                        let ghost rest_view = rest.deep_view();
                        l.append(&mut rest);
                        assert(l@ == first + rest_seq);
                        assert(l.deep_view() =~= seq![s@] + rest_view);
                        Some((l, e))
                    },
                    None => None,
                }
            } else {
                None
            }
        },
        None => None,
    }
}

fn string_list_exec(t: &str, n: usize, i: usize) -> (r: Option<(Vec<String>, usize)>)
    requires
        n == t@.len(),
        i <= n,
    ensures
        match r {
            Some((l, e)) => string_list(t@, i as int) == Some((l.deep_view(), e as int)) && i < e <= n,
            None => string_list(t@, i as int) is None,
        },
{
    let j = skip_ws_exec(t, n, i);
    if j < n && t.get_char(j) == ']' {
        let l: Vec<String> = Vec::new();
        assert(l.deep_view() =~= Seq::<Seq<char>>::empty());
        Some((l, j + 1))
    } else {
        string_items_exec(t, n, j)
    }
}

fn field_value_exec(t: &str, n: usize, i: usize) -> (r: Option<(FieldValue, usize)>)
    requires
        n == t@.len(),
        i <= n,
    ensures
        match r {
            Some((v, e)) => field_value(t@, i as int) == Some((v@, e as int)) && i < e <= n,
            None => field_value(t@, i as int) is None,
        },
{
    proof {
        reveal_strlit("null");
        assert("null"@ =~= seq!['n', 'u', 'l', 'l']);
    }
    if i < n && t.get_char(i) == '"' {
        match parse_string_exec(t, n, i) {
            Some((s, e)) => Some((FieldValue::Text(s), e)),
            None => None,
        }
    } else if literal_at_exec(t, n, i, "null") {
        Some((FieldValue::Null, i + 4))
    } else {
        if i < n && t.get_char(i) == '[' {
            match string_list_exec(t, n, i + 1) {
                Some((l, e)) => {
                    return Some((FieldValue::TextList(l), e));
                },
                None => {},
            }
        }
        match skip_value_exec(t, n, i) {
            Some(e) => Some((FieldValue::Other, e)),
            None => None,
        }
    }
}

fn member_items_exec(t: &str, n: usize, j: usize) -> (r: Option<(Vec<(String, FieldValue)>, usize)>)
    requires
        n == t@.len(),
        j <= n,
    ensures
        match r {
            Some((ms, e)) => member_items(t@, j as int) == Some((members_view(ms@), e as int)) && j < e <= n,
            None => member_items(t@, j as int) is None,
        },
    decreases n - j,
{
    match parse_string_exec(t, n, j) {
        Some((key, a)) => {
            let b = skip_ws_exec(t, n, a);
            if b >= n || t.get_char(b) != ':' {
                return None;
            }
            let c = skip_ws_exec(t, n, b + 1);
            match field_value_exec(t, n, c) {
                Some((v, d)) => {
                    let m = skip_ws_exec(t, n, d);
                    if m >= n {
                        None
                    } else if t.get_char(m) == '}' {
                        let mut ms: Vec<(String, FieldValue)> = Vec::new();
                        ms.push((key, v));
                        assert(members_view(ms@) =~= seq![(key@, v@)]);
                        Some((ms, m + 1))
                    } else if t.get_char(m) == ',' {
                        let p = skip_ws_exec(t, n, m + 1);
                        match member_items_exec(t, n, p) {
                            Some((rest, e)) => {
                                let mut ms: Vec<(String, FieldValue)> = Vec::new();
                                ms.push((key, v));
                                let ghost first = ms@;
                                let mut rest = rest;
                                let ghost rest_view = rest@;
                                ms.append(&mut rest);
                                assert(ms@ == first + rest_view);
                                assert(members_view(ms@) =~= seq![(key@, v@)] + members_view(rest_view));
                                Some((ms, e))
                            },
                            None => None,
                        }
                    } else {
                        None
                    }
                },
                None => None,
            }
        },
        None => None,
    }
}

/// Reads a text that holds one JSON object: its members in order, or `None`
/// where the text is not such an object.
pub fn parse_object_exec(t: &str) -> (r: Option<Vec<(String, FieldValue)>>)
    ensures
        match r {
            Some(ms) => parse_object(t@) == Some(members_view(ms@)),
            None => parse_object(t@) is None,
        },
{
    proof {
        reveal(parse_object);
    }
    let n = t.unicode_len();
    let j = skip_ws_exec(t, n, 0);
    if j < n && t.get_char(j) == '{' {
        let k = skip_ws_exec(t, n, j + 1);
        let r = if k < n && t.get_char(k) == '}' {
            let ms: Vec<(String, FieldValue)> = Vec::new();
            assert(members_view(ms@) =~= Seq::<(Seq<char>, FieldView)>::empty());
            Some((ms, k + 1))
        } else {
            member_items_exec(t, n, k)
        };
        match r {
            Some((ms, e)) => if skip_ws_exec(t, n, e) == n {
                Some(ms)
            } else {
                None
            },
            None => None,
        }
    } else {
        None
    }
}


/// The items of a list of strings as written: literals separated by commas.
pub open spec fn list_items_text(l: Seq<Seq<char>>) -> Seq<char>
    decreases l.len(),
{
    if l.len() == 0 {
        seq![]
    } else if l.len() == 1 {
        quoted(l[0])
    } else {
        quoted(l[0]) + seq![','] + list_items_text(l.drop_first())
    }
}

/// A value as written: a string literal, or a bracketed list of them.
pub open spec fn value_text(v: FieldView) -> Seq<char> {
    match v {
        FieldView::Text(s) => quoted(s),
        FieldView::TextList(l) => seq!['['] + list_items_text(l) + seq![']'],
        FieldView::Null => seq!['n', 'u', 'l', 'l'],
        FieldView::Other => seq![],
    }
}

/// Whether a value is one that is written out (a string or a list of them).
pub open spec fn is_written(v: FieldView) -> bool {
    v is Text || v is TextList
}

pub open spec fn member_text(m: (Seq<char>, FieldView)) -> Seq<char> {
    quoted(m.0) + seq![':'] + value_text(m.1)
}

pub open spec fn members_text(ms: Seq<(Seq<char>, FieldView)>) -> Seq<char>
    decreases ms.len(),
{
    if ms.len() <= 1 {
        if ms.len() == 1 { member_text(ms[0]) } else { seq![] }
    } else {
        member_text(ms[0]) + seq![','] + members_text(ms.drop_first())
    }
}

/// An object as written: its members in order, no whitespace.
pub open spec fn object_text(ms: Seq<(Seq<char>, FieldView)>) -> Seq<char> {
    seq!['{'] + members_text(ms) + seq!['}']
}

proof fn lemma_split(t: Seq<char>, i: int, a: Seq<char>, b: Seq<char>)
    requires
        0 <= i,
        i + a.len() + b.len() <= t.len(),
        t.subrange(i, i + a.len() + b.len()) == a + b,
    ensures
        t.subrange(i, i + a.len()) == a,
        t.subrange(i + a.len(), i + a.len() + b.len()) == b,
        a.len() > 0 ==> t[i] == a[0],
        b.len() > 0 ==> t[i + a.len()] == b[0],
{
    let w = t.subrange(i, i + a.len() + b.len());
    assert(t.subrange(i, i + a.len()) =~= w.subrange(0, a.len() as int));
    assert(w.subrange(0, a.len() as int) =~= a);
    assert(t.subrange(i + a.len(), i + a.len() + b.len()) =~= w.subrange(a.len() as int, w.len() as int));
    assert(w.subrange(a.len() as int, w.len() as int) =~= b);
    if a.len() > 0 {
        assert(t[i] == w[0]);
    }
    if b.len() > 0 {
        assert(t[i + a.len()] == w[a.len() as int]);
    }
}

proof fn lemma_string_items(t: Seq<char>, j: int, l: Seq<Seq<char>>)
    requires
        l.len() > 0,
        0 <= j,
        j + list_items_text(l).len() + 1 <= t.len(),
        t.subrange(j, j + list_items_text(l).len() + 1) == list_items_text(l) + seq![']'],
    ensures
        string_items(t, j) == Some((l, j + list_items_text(l).len() + 1)),
    decreases l.len(),
{
    let q = quoted(l[0]);
    if l.len() == 1 {
        lemma_split(t, j, q, seq![']']);
        crate::text::lemma_parse_quoted(t, j, l[0]);
        assert(seq![l[0]] =~= l);
    } else {
        let rest = l.drop_first();
        let tail = list_items_text(rest);
        assert(list_items_text(l) + seq![']'] =~= q + (seq![','] + (tail + seq![']'])));
        lemma_split(t, j, q, seq![','] + (tail + seq![']']));
        lemma_split(t, j + q.len(), seq![','], tail + seq![']']);
        crate::text::lemma_parse_quoted(t, j, l[0]);
        lemma_string_items(t, j + q.len() + 1, rest);
        assert(seq![l[0]] + rest =~= l);
    }
}

proof fn lemma_field_value(t: Seq<char>, i: int, v: FieldView)
    requires
        is_written(v),
        0 <= i,
        i + value_text(v).len() <= t.len(),
        t.subrange(i, i + value_text(v).len()) == value_text(v),
    ensures
        field_value(t, i) == Some((v, i + value_text(v).len())),
{
    match v {
        FieldView::Text(s) => {
            crate::text::lemma_parse_quoted(t, i, s);
            assert(t.subrange(i, i + quoted(s).len())[0] == t[i]);
            assert(quoted(s)[0] == '"');
            assert(t[i] == '"');
            assert(parse_string(t, i) == Some((s, i + quoted(s).len())));
            assert(value_text(v) == quoted(s));
            assert(i < t.len());
            assert(field_value(t, i) == Some((FieldView::Text(s), i + quoted(s).len())));
        },
        FieldView::TextList(l) => {
            let body = list_items_text(l);
            assert(value_text(v) =~= seq!['['] + (body + seq![']']));
            lemma_split(t, i, seq!['['], body + seq![']']);
            if l.len() == 0 {
                assert(t[i + 1] == (body + seq![']'])[0]);
                assert(l =~= Seq::<Seq<char>>::empty());
                assert(skip_ws(t, i + 1) == i + 1);
                assert(string_list(t, i + 1) == Some((l, i + 1 + body.len() + 1)));
            } else {
                assert(t[i + 1] == quoted(l[0])[0]);
                lemma_string_items(t, i + 1, l);
                assert(string_list(t, i + 1) == Some((l, i + 1 + body.len() + 1)));
            }
            assert(t[i] == '[');
            if literal_at(t, i, seq!['n', 'u', 'l', 'l']) {
                assert(t.subrange(i, i + 4)[0] == t[i]);
            }
            assert(field_value(t, i) == Some((v, i + value_text(v).len())));
        },
        _ => {},
    }
}

#[verifier::rlimit(40)]
proof fn lemma_member_items(t: Seq<char>, j: int, ms: Seq<(Seq<char>, FieldView)>)
    requires
        ms.len() > 0,
        forall|k: int| 0 <= k < ms.len() ==> is_written(#[trigger] ms[k].1),
        0 <= j,
        j + members_text(ms).len() + 1 <= t.len(),
        t.subrange(j, j + members_text(ms).len() + 1) == members_text(ms) + seq!['}'],
    ensures
        member_items(t, j) == Some((ms, j + members_text(ms).len() + 1)),
    decreases ms.len(),
{
    let (key, v) = ms[0];
    let q = quoted(key);
    let vt = value_text(v);
    let after = if ms.len() == 1 { seq!['}'] } else { seq![','] + (members_text(ms.drop_first()) + seq!['}']) };
    assert(members_text(ms) + seq!['}'] =~= q + (seq![':'] + (vt + after)));
    lemma_split(t, j, q, seq![':'] + (vt + after));
    lemma_split(t, j + q.len(), seq![':'], vt + after);
    lemma_split(t, j + q.len() + 1, vt, after);
    crate::text::lemma_parse_quoted(t, j, key);
    assert(is_written(ms[0].1));
    if vt.len() > 0 {
        assert(t[j + q.len() + 1] == vt[0]);
        match v {
            FieldView::Text(s) => assert(vt[0] == '"'),
            FieldView::TextList(l) => assert(vt[0] == '['),
            _ => {},
        }
    }
    lemma_field_value(t, j + q.len() + 1, v);
    let d = j + q.len() + 1 + vt.len();
    assert(t[d] == after[0]);
    if ms.len() == 1 {
        assert(seq![(key, v)] =~= ms);
    } else {
        let rest = ms.drop_first();
        lemma_split(t, d, seq![','], members_text(rest) + seq!['}']);
        assert(t[d + 1] == quoted(rest[0].0)[0]);
        lemma_member_items(t, d + 1, rest);
        assert(seq![(key, v)] + rest =~= ms);
    }
}

/// An object written by `object_text` reads back as the same members.
#[verifier::rlimit(40)]
pub proof fn lemma_parse_object_text(ms: Seq<(Seq<char>, FieldView)>)
    requires
        ms.len() > 0,
        forall|k: int| 0 <= k < ms.len() ==> is_written(#[trigger] ms[k].1),
    ensures
        parse_object(object_text(ms)) == Some(ms),
{
    reveal(parse_object);
    let t = object_text(ms);
    let body = members_text(ms);
    assert(t =~= seq!['{'] + (body + seq!['}']));
    assert(t.subrange(0, t.len() as int) =~= t);
    lemma_split(t, 0, seq!['{'], body + seq!['}']);
    assert(t[1] == quoted(ms[0].0)[0]);
    lemma_member_items(t, 1, ms);
}

} // verus!
