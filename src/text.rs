//! JSON string literals: escaping on the way out, unescaping on the way in.

use vstd::prelude::*;

verus! {

/// The lower-case hexadecimal digit for `d` (`d < 16`).
pub open spec fn hex_digit(d: u32) -> char {
    if d < 10 {
        ((d + 48) as u8) as char
    } else {
        ((d + 87) as u8) as char
    }
}

/// The value of a hexadecimal digit, either case.
pub open spec fn hex_value(c: char) -> Option<u32> {
    if '0' <= c && c <= '9' {
        Some((c as u32 - 48) as u32)
    } else if 'a' <= c && c <= 'f' {
        Some((c as u32 - 87) as u32)
    } else if 'A' <= c && c <= 'F' {
        Some((c as u32 - 55) as u32)
    } else {
        None
    }
}

/// Whether `v` is a Unicode scalar value, i.e. the code of some `char`.
pub open spec fn is_scalar(v: u32) -> bool {
    v < 0xD800 || (0xE000 <= v && v < 0x110000)
}

/// The code of a character.
pub open spec fn code_of(c: char) -> u32 {
    c as u32
}

/// The character whose code is `v`.
pub open spec fn char_of_code(v: u32) -> char {
    choose|c: char| #[trigger] code_of(c) == v
}

/// How one character is written inside a JSON string literal.
pub open spec fn escape_char(c: char) -> Seq<char> {
    if c == '"' {
        seq!['\\', '"']
    } else if c == '\\' {
        seq!['\\', '\\']
    } else if c == '\n' {
        seq!['\\', 'n']
    } else if c == '\r' {
        seq!['\\', 'r']
    } else if c == '\t' {
        seq!['\\', 't']
    } else if c == '\x08' {
        seq!['\\', 'b']
    } else if c == '\x0c' {
        seq!['\\', 'f']
    } else if (c as u32) < 0x20 {
        seq!['\\', 'u', '0', '0', hex_digit((c as u32) / 16), hex_digit((c as u32) % 16)]
    } else {
        seq![c]
    }
}

/// The body of the JSON string literal for `s`, without the quotes.
#[verifier::opaque]
pub open spec fn escaped(s: Seq<char>) -> Seq<char>
    decreases s.len(),
{
    if s.len() == 0 {
        seq![]
    } else {
        escape_char(s[0]) + escaped(s.drop_first())
    }
}

/// The JSON string literal for `s`.
pub open spec fn quoted(s: Seq<char>) -> Seq<char> {
    seq!['"'] + escaped(s) + seq!['"']
}

/// The four hexadecimal digits of a `\u` escape starting at `k`.
pub open spec fn hex4(t: Seq<char>, k: int) -> Option<u32> {
    if 0 <= k && k + 4 <= t.len() {
        match (hex_value(t[k]), hex_value(t[k + 1]), hex_value(t[k + 2]), hex_value(t[k + 3])) {
            (Some(a), Some(b), Some(c), Some(d)) => Some((a * 4096 + b * 256 + c * 16 + d) as u32),
            _ => None,
        }
    } else {
        None
    }
}

/// The character that the escape sequence whose letter stands at `k` (just
/// after the backslash) denotes. A `\u` escape names a scalar value, or is
/// the high half of a surrogate pair whose low half follows as a second
/// `\u` escape; a lone surrogate half is refused.
pub open spec fn unescape_at(t: Seq<char>, k: int) -> Option<char> {
    if 0 <= k && k < t.len() {
        let e = t[k];
        if e == '"' {
            Some('"')
        } else if e == '\\' {
            Some('\\')
        } else if e == '/' {
            Some('/')
        } else if e == 'b' {
            Some('\x08')
        } else if e == 'f' {
            Some('\x0c')
        } else if e == 'n' {
            Some('\n')
        } else if e == 'r' {
            Some('\r')
        } else if e == 't' {
            Some('\t')
        } else if e == 'u' {
            match hex4(t, k + 1) {
                Some(v) => if is_scalar(v) {
                    Some(char_of_code(v))
                } else {
                    match surrogate_pair(t, k) {
                        Some(c) => Some(char_of_code(c)),
                        None => None,
                    }
                },
                None => None,
            }
        } else {
            None
        }
    } else {
        None
    }
}

/// The code that a `\u` escape of a high surrogate, whose `u` stands at
/// `k`, forms with the `\u` escape of a low surrogate right after it.
pub open spec fn surrogate_pair(t: Seq<char>, k: int) -> Option<u32> {
    match (hex4(t, k + 1), hex4(t, k + 7)) {
        (Some(hi), Some(lo)) => if 0xD800 <= hi && hi < 0xDC00 && 0xDC00 <= lo && lo < 0xE000 && k + 6 < t.len()
            && t[k + 5] == '\\' && t[k + 6] == 'u' {
            Some((0x10000 + (hi - 0xD800) * 0x400 + (lo - 0xDC00)) as u32)
        } else {
            None
        },
        _ => None,
    }
}

/// How many characters the escape whose letter stands at `k` takes: a
/// surrogate pair takes two `\u` escapes.
pub open spec fn escape_width(t: Seq<char>, k: int) -> int {
    if t[k] == 'u' {
        match hex4(t, k + 1) {
            Some(v) => if is_scalar(v) { 5 } else { 11 },
            None => 5,
        }
    } else {
        1
    }
}

/// Puts `p` in front of the characters of a parse result.
pub open spec fn prefixed(p: Seq<char>, r: Option<(Seq<char>, int)>) -> Option<(Seq<char>, int)> {
    match r {
        Some((s, e)) => Some((p + s, e)),
        None => None,
    }
}

/// Reads the rest of a string literal whose opening quote stands before `i`:
/// the characters it denotes and the position after its closing quote.
pub open spec fn parse_chars(t: Seq<char>, i: int) -> Option<(Seq<char>, int)>
    decreases t.len() - i,
{
    if i < 0 || i >= t.len() {
        None
    } else if t[i] == '"' {
        Some((seq![], i + 1))
    } else if t[i] == '\\' {
        if i + 1 < t.len() {
            match unescape_at(t, i + 1) {
                Some(c) => prefixed(seq![c], parse_chars(t, i + 1 + escape_width(t, i + 1))),
                None => None,
            }
        } else {
            None
        }
    } else if (t[i] as u32) < 0x20 {
        None
    } else {
        prefixed(seq![t[i]], parse_chars(t, i + 1))
    }
}

/// Reads a string literal starting at `i` (on its opening quote).
pub open spec fn parse_string(t: Seq<char>, i: int) -> Option<(Seq<char>, int)> {
    if 0 <= i && i < t.len() && t[i] == '"' {
        parse_chars(t, i + 1)
    } else {
        None
    }
}

/// Relies on `String::push`: appends one character.
#[verifier::external_body]
pub(crate) fn push_char(s: &mut String, c: char)
    ensures
        final(s)@ == old(s)@.push(c),
{
    s.push(c)
}

/// Relies on `char::from_u32`: the character with code `v`, if `v` is a
/// scalar value.
#[verifier::external_body]
fn char_from_code(v: u32) -> (r: Option<char>)
    ensures
        r is Some <==> is_scalar(v),
        r matches Some(c) ==> c as u32 == v,
{
    char::from_u32(v)
}

proof fn lemma_code_injective(c: char, d: char)
    requires
        c as u32 == d as u32,
    ensures
        c == d,
{
}

fn hex_digit_exec(d: u32) -> (r: char)
    requires
        d < 16,
    ensures
        r == hex_digit(d),
{
    if d < 10 {
        ((d + 48) as u8) as char
    } else {
        ((d + 87) as u8) as char
    }
}

fn hex_value_exec(c: char) -> (r: Option<u32>)
    ensures
        r == hex_value(c),
{
    if '0' <= c && c <= '9' {
        Some(c as u32 - 48)
    } else if 'a' <= c && c <= 'f' {
        Some(c as u32 - 87)
    } else if 'A' <= c && c <= 'F' {
        Some(c as u32 - 55)
    } else {
        None
    }
}


proof fn lemma_escaped_push(s: Seq<char>, c: char)
    ensures
        escaped(s.push(c)) == escaped(s) + escape_char(c),
    decreases s.len(),
{
    reveal(escaped);
    if s.len() == 0 {
        assert(s.push(c).drop_first() =~= seq![]);
        assert(escaped(seq![]) == Seq::<char>::empty());
        assert(escaped(s.push(c)) =~= escaped(s) + escape_char(c));
    } else {
        lemma_escaped_push(s.drop_first(), c);
        assert(s.push(c).drop_first() =~= s.drop_first().push(c));
        assert(escaped(s.push(c)) =~= escaped(s) + escape_char(c));
    }
}

/// Appends to `out` the body of the JSON string literal for `s`.
pub fn push_escaped(out: &mut String, s: &str)
    ensures
        final(out)@ == old(out)@ + escaped(s@),
{
    let n = s.unicode_len();
    let ghost start = out@;
    let mut i: usize = 0;
    proof {
        assert(s@.subrange(0, 0) =~= seq![]);
        reveal(escaped);
    }
    while i < n
        invariant
            n == s@.len(),
            i <= n,
            out@ == start + escaped(s@.subrange(0, i as int)),
        decreases n - i,
    {
        let c = s.get_char(i);
        proof {
            lemma_escaped_push(s@.subrange(0, i as int), c);
            assert(s@.subrange(0, i as int).push(c) =~= s@.subrange(0, i + 1));
            reveal_strlit("\\\"");
            reveal_strlit("\\\\");
            reveal_strlit("\\n");
            reveal_strlit("\\r");
            reveal_strlit("\\t");
            reveal_strlit("\\b");
            reveal_strlit("\\f");
            reveal_strlit("\\u00");
        }
        if c == '"' {
            out.append("\\\"");
        } else if c == '\\' {
            out.append("\\\\");
        } else if c == '\n' {
            out.append("\\n");
        } else if c == '\r' {
            out.append("\\r");
        } else if c == '\t' {
            out.append("\\t");
        } else if c == '\x08' {
            out.append("\\b");
        } else if c == '\x0c' {
            out.append("\\f");
        } else if (c as u32) < 0x20 {
            out.append("\\u00");
            push_char(out, hex_digit_exec((c as u32) / 16));
            push_char(out, hex_digit_exec((c as u32) % 16));
        } else {
            push_char(out, c);
        }
        assert(out@ =~= start + escaped(s@.subrange(0, i + 1)));
        i = i + 1;
    }
    assert(s@.subrange(0, n as int) =~= s@);
}

/// Appends to `out` the JSON string literal for `s`.
pub fn push_quoted(out: &mut String, s: &str)
    ensures
        final(out)@ == old(out)@ + quoted(s@),
{
    push_char(out, '"');
    push_escaped(out, s);
    push_char(out, '"');
    assert(out@ =~= old(out)@ + quoted(s@));
}

fn hex4_exec(t: &str, n: usize, k: usize) -> (r: Option<u32>)
    requires
        n == t@.len(),
    ensures
        r == hex4(t@, k as int),
{
    if k > n || n - k < 4 {
        return None;
    }
    let a = hex_value_exec(t.get_char(k));
    let b = hex_value_exec(t.get_char(k + 1));
    let c = hex_value_exec(t.get_char(k + 2));
    let d = hex_value_exec(t.get_char(k + 3));
    match (a, b, c, d) {
        (Some(a), Some(b), Some(c), Some(d)) => Some(a * 4096 + b * 256 + c * 16 + d),
        _ => None,
    }
}

fn unescape_exec(t: &str, n: usize, k: usize) -> (r: Option<char>)
    requires
        n == t@.len(),
        k < n,
    ensures
        r == unescape_at(t@, k as int),
{
    let e = t.get_char(k);
    if e == '"' {
        Some('"')
    } else if e == '\\' {
        Some('\\')
    } else if e == '/' {
        Some('/')
    } else if e == 'b' {
        Some('\x08')
    } else if e == 'f' {
        Some('\x0c')
    } else if e == 'n' {
        Some('\n')
    } else if e == 'r' {
        Some('\r')
    } else if e == 't' {
        Some('\t')
    } else if e == 'u' {
        match hex4_exec(t, n, k + 1) {
            Some(v) => {
                let code = if v < 0xD800 || (0xE000 <= v && v < 0x110000) {
                    v
                } else {
                    match surrogate_pair_exec(t, n, k) {
                        Some(c) => c,
                        None => return None,
                    }
                };
                match char_from_code(code) {
                    Some(c) => {
                        proof {
                            assert(code_of(c) == code);
                            let d = char_of_code(code);
                            lemma_code_injective(c, d);
                        }
                        Some(c)
                    },
                    None => None,
                }
            },
            None => None,
        }
    } else {
        None
    }
}

fn surrogate_pair_exec(t: &str, n: usize, k: usize) -> (r: Option<u32>)
    requires
        n == t@.len(),
        k < n,
    ensures
        r == surrogate_pair(t@, k as int),
        r matches Some(c) ==> is_scalar(c),
{
    let hi = match hex4_exec(t, n, k + 1) {
        Some(h) => h,
        None => return None,
    };
    if n - k < 7 {
        proof {
            assert(hex4(t@, k + 7) is None);
        }
        return None;
    }
    let lo = match hex4_exec(t, n, k + 7) {
        Some(l) => l,
        None => return None,
    };
    if 0xD800 <= hi && hi < 0xDC00 && 0xDC00 <= lo && lo < 0xE000 && t.get_char(k + 5) == '\\' && t.get_char(k + 6) == 'u' {
        Some(0x10000 + (hi - 0xD800) * 0x400 + (lo - 0xDC00))
    } else {
        None
    }
}

fn escape_width_exec(t: &str, n: usize, k: usize) -> (r: usize)
    requires
        n == t@.len(),
        k < n,
    ensures
        r == escape_width(t@, k as int),
{
    if t.get_char(k) == 'u' {
        match hex4_exec(t, n, k + 1) {
            Some(v) => if v < 0xD800 || (0xE000 <= v && v < 0x110000) { 5 } else { 11 },
            None => 5,
        }
    } else {
        1
    }
}

/// Reads the string literal whose opening quote stands at `i`: the text it
/// denotes and the position just after its closing quote.
pub fn parse_string_exec(t: &str, n: usize, i: usize) -> (r: Option<(String, usize)>)
    requires
        n == t@.len(),
    ensures
        match r {
            Some((s, e)) => parse_string(t@, i as int) == Some((s@, e as int)) && i < e <= n,
            None => parse_string(t@, i as int) is None,
        },
{
    if i >= n || t.get_char(i) != '"' {
        return None;
    }
    let mut out = String::new();
    let mut j: usize = i + 1;
    assert(out@ + Seq::<char>::empty() =~= Seq::<char>::empty());
    while j < n
        invariant
            n == t@.len(),
            i < j <= n,
            parse_string(t@, i as int) == prefixed(out@, parse_chars(t@, j as int)),
        decreases n - j,
    {
        let c = t.get_char(j);
        if c == '"' {
            assert(out@ + Seq::<char>::empty() =~= out@);
            return Some((out, j + 1));
        } else if c == '\\' {
            if j + 1 >= n {
                return None;
            }
            match unescape_exec(t, n, j + 1) {
                Some(d) => {
                    let w = escape_width_exec(t, n, j + 1);
                    if w > n - (j + 1) {
                        // the escape claimed more characters than are left
                        proof {
                            assert(parse_chars(t@, j + 1 + w) is None);
                        }
                        return None;
                    }
                    proof {
                        let rest = parse_chars(t@, j + 1 + w);
                        match rest {
                            Some((x, e)) => assert(out@.push(d) + x =~= out@ + (seq![d] + x)),
                            None => {},
                        }
                    }
                    push_char(&mut out, d);
                    j = j + 1 + w;
                },
                None => return None,
            }
        } else if (c as u32) < 0x20 {
            return None;
        } else {
            proof {
                let rest = parse_chars(t@, j + 1);
                match rest {
                    Some((x, e)) => assert(out@.push(c) + x =~= out@ + (seq![c] + x)),
                    None => {},
                }
            }
            push_char(&mut out, c);
            j = j + 1;
        }
    }
    None
}


proof fn lemma_hex_round_trip(d: u32)
    requires
        d < 16,
    ensures
        hex_value(hex_digit(d)) == Some(d),
{
}

proof fn lemma_escape_char_parses(t: Seq<char>, i: int, c: char)
    requires
        0 <= i,
        i + escape_char(c).len() <= t.len(),
        t.subrange(i, i + escape_char(c).len()) == escape_char(c),
    ensures
        t[i] == '\\' ==> i + 1 < t.len() && unescape_at(t, i + 1) == Some(c) && 1 + escape_width(t, i + 1) == escape_char(c).len(),
        t[i] != '\\' ==> t[i] == c && c != '"' && (c as u32) >= 0x20 && escape_char(c).len() == 1,
{
    let e = escape_char(c);
    assert(t[i] == e[0]);
    if e.len() > 1 {
        assert(t[i + 1] == e[1]);
    }
    if c != '"' && c != '\\' && c != '\n' && c != '\r' && c != '\t' && c != '\x08' && c != '\x0c' && (c as u32) < 0x20 {
        let v = c as u32;
        assert(t[i + 2] == e[2]);
        assert(t[i + 3] == e[3]);
        assert(t[i + 4] == e[4]);
        assert(t[i + 5] == e[5]);
        lemma_hex_round_trip(v / 16);
        lemma_hex_round_trip(v % 16);
        assert(hex_value('0') == Some(0u32));
        assert(hex4(t, i + 2) == Some(v));
        assert(code_of(c) == v);
        lemma_code_injective(c, char_of_code(v));
    }
}

/// The characters of an escaped body followed by a closing quote read back
/// as the original text.
pub proof fn lemma_parse_chars_escaped(t: Seq<char>, i: int, s: Seq<char>)
    requires
        0 <= i,
        i + escaped(s).len() + 1 <= t.len(),
        t.subrange(i, i + escaped(s).len() + 1) == escaped(s) + seq!['"'],
    ensures
        parse_chars(t, i) == Some((s, i + escaped(s).len() + 1)),
    decreases s.len(),
{
    reveal(escaped);
    if s.len() == 0 {
        assert(t[i] == (escaped(s) + seq!['"'])[0]);
    } else {
        let c = s[0];
        let e = escape_char(c);
        let rest = s.drop_first();
        let j = i + e.len();
        assert(escaped(s) == e + escaped(rest));
        let w = t.subrange(i, i + escaped(s).len() + 1);
        assert(w == e + (escaped(rest) + seq!['"']));
        assert(t.subrange(i, j) =~= w.subrange(0, e.len() as int));
        assert(w.subrange(0, e.len() as int) =~= e);
        assert(t.subrange(j, j + escaped(rest).len() + 1) =~= w.subrange(e.len() as int, w.len() as int));
        assert(w.subrange(e.len() as int, w.len() as int) =~= escaped(rest) + seq!['"']);
        lemma_escape_char_parses(t, i, c);
        lemma_parse_chars_escaped(t, j, rest);
        assert(seq![c] + rest =~= s);
    }
}

/// A string literal written by `quoted` reads back as the original text.
pub proof fn lemma_parse_quoted(t: Seq<char>, i: int, s: Seq<char>)
    requires
        0 <= i,
        i + quoted(s).len() <= t.len(),
        t.subrange(i, i + quoted(s).len()) == quoted(s),
    ensures
        parse_string(t, i) == Some((s, i + quoted(s).len())),
{
    assert(t[i] == quoted(s)[0]);
    let w = t.subrange(i, i + quoted(s).len());
    assert(t.subrange(i + 1, i + 1 + escaped(s).len() + 1) =~= w.subrange(1, w.len() as int));
    assert(w.subrange(1, w.len() as int) =~= escaped(s) + seq!['"']);
    lemma_parse_chars_escaped(t, i + 1, s);
}

} // verus!
