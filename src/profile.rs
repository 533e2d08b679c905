//! User profiles: a display name and the avatar picture derived from it.

use vstd::prelude::*;
use crate::text::push_char;

verus! {

/// The upper-case hexadecimal digit for `d` (`d < 16`).
pub open spec fn hex_upper(d: int) -> char {
    if d < 10 {
        ((d + 48) as u8) as char
    } else {
        ((d + 55) as u8) as char
    }
}

/// The bytes of the UTF-8 encoding of a character.
pub open spec fn utf8_of(c: char) -> Seq<int> {
    let v = c as int;
    if v < 0x80 {
        seq![v]
    } else if v < 0x800 {
        seq![0xC0 + v / 64, 0x80 + v % 64]
    } else if v < 0x10000 {
        seq![0xE0 + v / 4096, 0x80 + (v / 64) % 64, 0x80 + v % 64]
    } else {
        seq![0xF0 + v / 262144, 0x80 + (v / 4096) % 64, 0x80 + (v / 64) % 64, 0x80 + v % 64]
    }
}

/// `%XX` for each byte.
pub open spec fn percent_bytes(b: Seq<int>) -> Seq<char>
    decreases b.len(),
{
    if b.len() == 0 {
        seq![]
    } else {
        seq!['%', hex_upper(b[0] / 16), hex_upper(b[0] % 16)] + percent_bytes(b.drop_first())
    }
}

/// Characters that stand for themselves in a URL path segment.
pub open spec fn is_unreserved(c: char) -> bool {
    ('A' <= c && c <= 'Z') || ('a' <= c && c <= 'z') || ('0' <= c && c <= '9') || c == '-' || c == '.'
        || c == '_' || c == '~'
}

pub open spec fn url_encode_char(c: char) -> Seq<char> {
    if is_unreserved(c) {
        seq![c]
    } else {
        percent_bytes(utf8_of(c))
    }
}

/// A name made safe for a URL path segment: unreserved characters stay,
/// every other one becomes the `%XX` escapes of its UTF-8 bytes.
pub open spec fn url_encoded(s: Seq<char>) -> Seq<char>
    decreases s.len(),
{
    if s.len() == 0 {
        seq![]
    } else {
        url_encoded(s.drop_last()) + url_encode_char(s.last())
    }
}

pub open spec fn avatar_prefix() -> Seq<char> {
    "https://avatars.dicebear.com/api/adventurer-neutral/"@
}

pub open spec fn avatar_suffix() -> Seq<char> {
    ".svg"@
}

/// The avatar picture of a name.
pub open spec fn avatar_url_spec(name: Seq<char>) -> Seq<char> {
    avatar_prefix() + url_encoded(name) + avatar_suffix()
}

/// A user as shown: name and avatar picture.
#[derive(Debug, Clone, PartialEq, Eq)]
pub struct UserProfile {
    pub name: String,
    pub avatar: String,
}

fn hex_upper_exec(d: u32) -> (r: char)
    requires
        d < 16,
    ensures
        r == hex_upper(d as int),
{
    if d < 10 {
        ((d + 48) as u8) as char
    } else {
        ((d + 55) as u8) as char
    }
}

fn push_percent(out: &mut String, b: u32)
    requires
        b < 256,
    ensures
        final(out)@ == old(out)@ + seq!['%', hex_upper(b as int / 16), hex_upper(b as int % 16)],
{
    push_char(out, '%');
    push_char(out, hex_upper_exec(b / 16));
    push_char(out, hex_upper_exec(b % 16));
    assert(out@ =~= old(out)@ + seq!['%', hex_upper(b as int / 16), hex_upper(b as int % 16)]);
}

fn push_url_char(out: &mut String, c: char)
    ensures
        final(out)@ == old(out)@ + url_encode_char(c),
{
    if ('A' <= c && c <= 'Z') || ('a' <= c && c <= 'z') || ('0' <= c && c <= '9') || c == '-' || c == '.'
        || c == '_' || c == '~' {
        push_char(out, c);
        return;
    }
    let v = c as u32;
    let ghost bytes = utf8_of(c);
    if v < 0x80 {
        push_percent(out, v);
    } else if v < 0x800 {
        push_percent(out, 0xC0 + v / 64);
        push_percent(out, 0x80 + v % 64);
    } else if v < 0x10000 {
        push_percent(out, 0xE0 + v / 4096);
        push_percent(out, 0x80 + (v / 64) % 64);
        push_percent(out, 0x80 + v % 64);
    } else {
        push_percent(out, 0xF0 + v / 262144);
        push_percent(out, 0x80 + (v / 4096) % 64);
        push_percent(out, 0x80 + (v / 64) % 64);
        push_percent(out, 0x80 + v % 64);
    }
    proof {
        reveal_with_fuel(percent_bytes, 5);
        let b = bytes;
        assert(b.len() <= 4);
        if b.len() >= 1 {
            assert(b.drop_first() =~= b.subrange(1, b.len() as int));
        }
        assert(out@ =~= old(out)@ + percent_bytes(b));
    }
}

/// The avatar picture of a name: the same name always gives the same URL.
pub fn avatar_url(name: &str) -> (r: String)
    ensures
        r@ == avatar_url_spec(name@),
{
    let mut out = String::from_str("https://avatars.dicebear.com/api/adventurer-neutral/");
    let ghost head = out@;
    let n = name.unicode_len();
    let mut i: usize = 0;
    assert(name@.subrange(0, 0) =~= Seq::<char>::empty());
    while i < n
        invariant
            n == name@.len(),
            i <= n,
            out@ == head + url_encoded(name@.subrange(0, i as int)),
        decreases n - i,
    {
        let c = name.get_char(i);
        push_url_char(&mut out, c);
        proof {
            let p = name@.subrange(0, i + 1);
            assert(p.drop_last() =~= name@.subrange(0, i as int));
            assert(p.last() == c);
        }
        i = i + 1;
    }
    out.append(".svg");
    assert(name@.subrange(0, n as int) =~= name@);
    out
}

/// The profile shown for a name.
pub fn profile_of(name: &str) -> (r: UserProfile)
    ensures
        r.name@ == name@,
        r.avatar@ == avatar_url_spec(name@),
{
    UserProfile { name: name.to_owned(), avatar: avatar_url(name) }
}

/// Whether a chat body is shown as a picture: it ends in `.gif`.
pub open spec fn is_image_spec(body: Seq<char>) -> bool {
    body.len() >= 4 && body.subrange(body.len() - 4, body.len() as int) == ".gif"@
}

/// Whether a chat body is shown as a picture rather than as text.
pub fn is_image_body(body: &str) -> (r: bool)
    ensures
        r == is_image_spec(body@),
{
    let n = body.unicode_len();
    if n < 4 {
        return false;
    }
    let tail = body.substring_char(n - 4, n);
    crate::envelope::same_text(tail, ".gif")
}

} // verus!
