//! Wire format of the event envelope: a fixed-shape JSON object
//! `{"origin":...,"tags":[...],"message":...}`.
//!
//! The encoder escapes `"` and `\` with a backslash and renders control
//! characters as `\u00` followed by two hex digits; every other character is
//! emitted as itself.  The decoder accepts exactly this shape and returns the
//! envelope it denotes, so decoding an encoded envelope gives the original
//! back ([`lemma_envelope_round_trip`]).

use vstd::prelude::*;
use vstd::string::StrSliceExecFns;
use vstd::string::StringExecFns;

use crate::admine_message::{AdmineMessage, AdmineMessageView};
use crate::errors::CodecError;

verus! {

// ---------------------------------------------------------------------------
// Escaping of a single string
// ---------------------------------------------------------------------------

/// The hexadecimal digit (lower case) for a value below 16.
pub open spec fn hex_digit(n: int) -> char {
    if n == 0 { '0' } else if n == 1 { '1' } else if n == 2 { '2' } else if n == 3 { '3' }
    else if n == 4 { '4' } else if n == 5 { '5' } else if n == 6 { '6' } else if n == 7 { '7' }
    else if n == 8 { '8' } else if n == 9 { '9' } else if n == 10 { 'a' } else if n == 11 { 'b' }
    else if n == 12 { 'c' } else if n == 13 { 'd' } else if n == 14 { 'e' } else { 'f' }
}

/// The value of a hexadecimal digit, upper or lower case; -1 otherwise.
pub open spec fn hex_val(c: char) -> int {
    if '0' <= c && c <= '9' { c as int - '0' as int }
    else if 'a' <= c && c <= 'f' { c as int - 'a' as int + 10 }
    else if 'A' <= c && c <= 'F' { c as int - 'A' as int + 10 }
    else { -1 }
}

/// The character with the given code, for codes below 256.
pub open spec fn code_char(n: int) -> char {
    n as char
}

/// How one character is written inside a quoted string.
pub open spec fn escape_char(c: char) -> Seq<char> {
    if c == '"' { seq!['\\', '"'] }
    else if c == '\\' { seq!['\\', '\\'] }
    else if (c as u32) < 32 {
        seq!['\\', 'u', '0', '0', hex_digit(((c as u32) / 16) as int), hex_digit(((c as u32) % 16) as int)]
    } else { seq![c] }
}

/// How a whole string is written inside quotes, character by character.
pub open spec fn escape_string(s: Seq<char>) -> Seq<char>
    decreases s.len(),
{
    if s.len() == 0 { Seq::empty() } else { escape_char(s[0]) + escape_string(s.skip(1)) }
}

/// Splitting a string splits its escaped form.
pub proof fn lemma_escape_append(a: Seq<char>, b: Seq<char>)
    ensures
        escape_string(a + b) == escape_string(a) + escape_string(b),
    decreases a.len(),
{
    if a.len() == 0 {
        assert(a + b =~= b);
        assert(escape_string(a) + escape_string(b) =~= escape_string(b));
    } else {
        lemma_escape_append(a.skip(1), b);
        assert((a + b).skip(1) =~= a.skip(1) + b);
        assert((a + b)[0] == a[0]);
        assert(escape_char(a[0]) + (escape_string(a.skip(1)) + escape_string(b))
            =~= (escape_char(a[0]) + escape_string(a.skip(1))) + escape_string(b));
    }
}

// ---------------------------------------------------------------------------
// Parsing of a quoted string's content
// ---------------------------------------------------------------------------

/// Reads escaped content up to and including the closing quote; yields the
/// denoted string and what follows the closing quote.  Raw control
/// characters, stray backslashes and a missing closing quote are refused.
pub open spec fn parse_string(s: Seq<char>) -> Option<(Seq<char>, Seq<char>)>
    decreases s.len(),
{
    if s.len() == 0 {
        None
    } else if s[0] == '"' {
        Some((Seq::empty(), s.skip(1)))
    } else if s[0] == '\\' {
        if s.len() < 2 {
            None
        } else if s[1] == '"' || s[1] == '\\' {
            match parse_string(s.skip(2)) {
                Some((v, r)) => Some((seq![s[1]] + v, r)),
                None => None,
            }
        } else if s[1] == 'u' {
            if s.len() < 6 {
                None
            } else if s[2] == '0' && s[3] == '0' && hex_val(s[4]) >= 0 && hex_val(s[5]) >= 0 {
                match parse_string(s.skip(6)) {
                    Some((v, r)) => Some((seq![code_char(hex_val(s[4]) * 16 + hex_val(s[5]))] + v, r)),
                    None => None,
                }
            } else {
                None
            }
        } else {
            None
        }
    } else if (s[0] as u32) < 32 {
        None
    } else {
        match parse_string(s.skip(1)) {
            Some((v, r)) => Some((seq![s[0]] + v, r)),
            None => None,
        }
    }
}

/// Parsing consumes at least the closing quote: the rest is strictly shorter.
pub proof fn lemma_parse_string_shrinks(s: Seq<char>)
    requires
        parse_string(s) is Some,
    ensures
        parse_string(s)->Some_0.1.len() < s.len(),
    decreases s.len(),
{
    if s[0] == '"' {
    } else if s[0] == '\\' {
        if s[1] == '"' || s[1] == '\\' {
            lemma_parse_string_shrinks(s.skip(2));
        } else {
            lemma_parse_string_shrinks(s.skip(6));
        }
    } else {
        lemma_parse_string_shrinks(s.skip(1));
    }
}

/// A character comes back unchanged from its escaped form: parsing
/// `escape_char(c)` followed by anything that parses yields `c` in front.
proof fn lemma_parse_escape_char(c: char, t: Seq<char>)
    requires
        parse_string(t) is Some,
    ensures
        parse_string(escape_char(c) + t) == Some((seq![c] + parse_string(t)->Some_0.0, parse_string(t)->Some_0.1)),
{
    let e = escape_char(c);
    let s = e + t;
    if c == '"' {
        assert(s[0] == '\\' && s[1] == '"');
        assert(s.skip(2) =~= t);
    } else if c == '\\' {
        assert(s[0] == '\\' && s[1] == '\\');
        assert(s.skip(2) =~= t);
    } else if (c as u32) < 32 {
        let n = c as u32;
        assert(s[0] == '\\' && s[1] == 'u' && s[2] == '0' && s[3] == '0');
        assert(s[4] == hex_digit((n / 16) as int) && s[5] == hex_digit((n % 16) as int));
        assert(0 <= n < 32);
        assert(0 <= ((n / 16) as int) && ((n / 16) as int) < 16);
        assert(0 <= ((n % 16) as int) && ((n % 16) as int) < 16);
        assert(hex_val(hex_digit((n / 16) as int)) == (n / 16) as int);
        assert(hex_val(hex_digit((n % 16) as int)) == (n % 16) as int);
        assert(s.skip(6) =~= t);
        assert(hex_val(s[4]) * 16 + hex_val(s[5]) == n as int);
        assert(code_char(n as int) == c) by {
            vstd::utf8::char_u32_cast(c, c as u32);
            assert(n as char == c);
            assert((n as int) as char == c);
        };
    } else {
        assert(s[0] == c);
        assert(s[0] != '"' && s[0] != '\\' && (s[0] as int) >= 32);
        assert(s.skip(1) =~= t);
    }
}

/// Round trip for one quoted string: the escaped form of `x`, a closing
/// quote, and any tail parse back to `x` and that tail.
pub proof fn lemma_parse_escaped(x: Seq<char>, rest: Seq<char>)
    ensures
        parse_string(escape_string(x) + seq!['"'] + rest) == Some((x, rest)),
    decreases x.len(),
{
    if x.len() == 0 {
        let s = escape_string(x) + seq!['"'] + rest;
        assert(s =~= seq!['"'] + rest);
        assert(s[0] == '"');
        assert(s.skip(1) =~= rest);
        assert(parse_string(s) == Some((Seq::<char>::empty(), rest)));
        assert(x =~= Seq::<char>::empty());
    } else {
        let c = x[0];
        let x1 = x.skip(1);
        lemma_parse_escaped(x1, rest);
        let t = escape_string(x1) + seq!['"'] + rest;
        lemma_parse_escape_char(c, t);
        assert(escape_string(x) + seq!['"'] + rest =~= escape_char(c) + t);
        assert(seq![c] + x1 =~= x);
    }
}

// ---------------------------------------------------------------------------
// The tag list
// ---------------------------------------------------------------------------

/// How the tags are written between the brackets: each quoted, separated by
/// commas, nothing for an empty list.
pub open spec fn encode_tags(tags: Seq<Seq<char>>) -> Seq<char>
    decreases tags.len(),
{
    if tags.len() == 0 {
        Seq::empty()
    } else if tags.len() == 1 {
        seq!['"'] + escape_string(tags[0]) + seq!['"']
    } else {
        seq!['"'] + escape_string(tags[0]) + seq!['"'] + seq![','] + encode_tags(tags.skip(1))
    }
}

/// Reads one or more quoted tags separated by commas, up to and including the
/// closing bracket; yields the tags and what follows the bracket.
pub open spec fn parse_tags_item(s: Seq<char>) -> Option<(Seq<Seq<char>>, Seq<char>)>
    decreases s.len(),
{
    if s.len() == 0 || s[0] != '"' {
        None
    } else {
        match parse_string(s.skip(1)) {
            Some((t, r)) => {
                if r.len() == 0 {
                    None
                } else if r[0] == ']' {
                    Some((seq![t], r.skip(1)))
                } else if r[0] == ',' && r.len() <= s.len() {
                    match parse_tags_item(r.skip(1)) {
                        Some((ts, r2)) => Some((seq![t] + ts, r2)),
                        None => None,
                    }
                } else {
                    None
                }
            },
            None => None,
        }
    }
}

/// Reads the whole tag list after the opening bracket: either a closing
/// bracket at once, or one or more quoted tags.
pub open spec fn parse_tags(s: Seq<char>) -> Option<(Seq<Seq<char>>, Seq<char>)> {
    if s.len() == 0 {
        None
    } else if s[0] == ']' {
        Some((Seq::empty(), s.skip(1)))
    } else {
        parse_tags_item(s)
    }
}

/// Round trip for a non-empty tag list.
proof fn lemma_parse_tags_item(tags: Seq<Seq<char>>, rest: Seq<char>)
    requires
        tags.len() >= 1,
    ensures
        parse_tags_item(encode_tags(tags) + seq![']'] + rest) == Some((tags, rest)),
    decreases tags.len(),
{
    let t0 = tags[0];
    if tags.len() == 1 {
        let s = encode_tags(tags) + seq![']'] + rest;
        assert(s[0] == '"');
        assert(s.skip(1) =~= escape_string(t0) + seq!['"'] + (seq![']'] + rest));
        lemma_parse_escaped(t0, seq![']'] + rest);
        let r = (seq![']'] + rest);
        assert(r[0] == ']');
        assert(r.skip(1) =~= rest);
        assert(seq![t0] =~= tags);
    } else {
        let s = encode_tags(tags) + seq![']'] + rest;
        let tail = encode_tags(tags.skip(1)) + seq![']'] + rest;
        lemma_parse_tags_item(tags.skip(1), rest);
        assert(s[0] == '"');
        assert(s.skip(1) =~= escape_string(t0) + seq!['"'] + (seq![','] + tail));
        lemma_parse_escaped(t0, seq![','] + tail);
        let r = seq![','] + tail;
        assert(r[0] == ',');
        assert(r[0] != ']');
        assert(r.len() <= s.len()) by {
            lemma_parse_string_shrinks(s.skip(1));
        };
        assert(r.skip(1) =~= tail);
        assert(seq![t0] + tags.skip(1) =~= tags);
    }
}

/// Round trip for the tag list, empty or not.
pub proof fn lemma_parse_tags(tags: Seq<Seq<char>>, rest: Seq<char>)
    ensures
        parse_tags(encode_tags(tags) + seq![']'] + rest) == Some((tags, rest)),
{
    let s = encode_tags(tags) + seq![']'] + rest;
    if tags.len() == 0 {
        assert(s =~= seq![']'] + rest);
        assert(s[0] == ']');
        assert(s.skip(1) =~= rest);
        assert(tags =~= Seq::<Seq<char>>::empty());
    } else {
        assert(s[0] == '"');
        assert(s[0] != ']');
        lemma_parse_tags_item(tags, rest);
    }
}

// ---------------------------------------------------------------------------
// The whole envelope
// ---------------------------------------------------------------------------

/// What stands before the origin, its opening quote included.
pub open spec fn json_origin_prefix() -> Seq<char> {
    "{\"origin\":\""@
}

/// What stands between the origin and the tag list, the opening bracket included.
pub open spec fn json_tags_sep() -> Seq<char> {
    ",\"tags\":["@
}

/// What stands between the tag list and the message, its opening quote included.
pub open spec fn json_message_sep() -> Seq<char> {
    ",\"message\":\""@
}

/// The wire form of an envelope.
pub open spec fn encode_envelope(v: AdmineMessageView) -> Seq<char> {
    json_origin_prefix() + escape_string(v.origin) + seq!['"']
        + json_tags_sep() + encode_tags(v.tags) + seq![']']
        + json_message_sep() + escape_string(v.message) + seq!['"', '}']
}

/// What follows a required literal piece, or nothing if it is absent.
pub open spec fn strip_prefix(s: Seq<char>, p: Seq<char>) -> Option<Seq<char>> {
    if p.is_prefix_of(s) { Some(s.skip(p.len() as int)) } else { None }
}

/// The envelope a wire string denotes, if it follows the format exactly.
pub open spec fn decode_envelope(s: Seq<char>) -> Option<AdmineMessageView> {
    match strip_prefix(s, json_origin_prefix()) {
        Some(s1) => match parse_string(s1) {
            Some((origin, s2)) => match strip_prefix(s2, json_tags_sep()) {
                Some(s3) => match parse_tags(s3) {
                    Some((tags, s4)) => match strip_prefix(s4, json_message_sep()) {
                        Some(s5) => match parse_string(s5) {
                            Some((message, s6)) => if s6 =~= seq!['}'] {
                                Some(AdmineMessageView { origin, tags, message })
                            } else {
                                None
                            },
                            None => None,
                        },
                        None => None,
                    },
                    None => None,
                },
                None => None,
            },
            None => None,
        },
        None => None,
    }
}

/// Stripping a piece that was just prepended gives back the rest.
proof fn lemma_strip_prepended(p: Seq<char>, rest: Seq<char>)
    ensures
        strip_prefix(p + rest, p) == Some(rest),
{
    let s = p + rest;
    assert(s.subrange(0, p.len() as int) =~= p);
    assert(p.is_prefix_of(s));
    assert(s.skip(p.len() as int) =~= rest);
}

/// Decoding an encoded envelope yields the envelope itself: the wire format
/// loses nothing, whatever the origin, tags and message hold.
#[verifier::rlimit(60)]
pub proof fn lemma_envelope_round_trip(v: AdmineMessageView)
    ensures
        decode_envelope(encode_envelope(v)) == Some(v),
{
    let s = encode_envelope(v);
    let r1 = escape_string(v.origin) + seq!['"']
        + json_tags_sep() + encode_tags(v.tags) + seq![']']
        + json_message_sep() + escape_string(v.message) + seq!['"', '}'];
    assert(s =~= json_origin_prefix() + r1);
    lemma_strip_prepended(json_origin_prefix(), r1);

    let r2 = json_tags_sep() + encode_tags(v.tags) + seq![']']
        + json_message_sep() + escape_string(v.message) + seq!['"', '}'];
    assert(r1 =~= escape_string(v.origin) + seq!['"'] + r2);
    lemma_parse_escaped(v.origin, r2);

    let r3 = encode_tags(v.tags) + seq![']']
        + json_message_sep() + escape_string(v.message) + seq!['"', '}'];
    assert(r2 =~= json_tags_sep() + r3);
    lemma_strip_prepended(json_tags_sep(), r3);

    let r4 = json_message_sep() + escape_string(v.message) + seq!['"', '}'];
    assert(r3 =~= encode_tags(v.tags) + seq![']'] + r4);
    lemma_parse_tags(v.tags, r4);

    let r5 = escape_string(v.message) + seq!['"', '}'];
    assert(r4 =~= json_message_sep() + r5);
    lemma_strip_prepended(json_message_sep(), r5);

    assert(r5 =~= escape_string(v.message) + seq!['"'] + seq!['}']);
    lemma_parse_escaped(v.message, seq!['}']);

    assert(AdmineMessageView { origin: v.origin, tags: v.tags, message: v.message } == v);
}

// ---------------------------------------------------------------------------
// The executable encoder
// ---------------------------------------------------------------------------

/// Relies on String::push: appends the one character to the string.
#[verifier::external_body]
fn push_char(s: &mut String, c: char)
    ensures
        final(s)@ == old(s)@.push(c),
{
    s.push(c);
}

/// The characters of a string slice, in order, as a vector.
fn str_to_chars(s: &str) -> (v: Vec<char>)
    ensures
        v@ == s@,
{
    let n = s.unicode_len();
    let mut v: Vec<char> = Vec::new();
    let mut i: usize = 0;
    while i < n
        invariant
            n == s@.len(),
            i <= n,
            v@ == s@.subrange(0, i as int),
        decreases n - i,
    {
        v.push(s.get_char(i));
        assert(v@ =~= s@.subrange(0, i + 1 as int));
        i = i + 1;
    }
    assert(v@ =~= s@);
    v
}

/// The hexadecimal digit character for a value below 16.
fn hex_digit_exec(n: u8) -> (c: char)
    requires
        n < 16,
    ensures
        c == hex_digit(n as int),
{
    if n == 0 { '0' } else if n == 1 { '1' } else if n == 2 { '2' } else if n == 3 { '3' }
    else if n == 4 { '4' } else if n == 5 { '5' } else if n == 6 { '6' } else if n == 7 { '7' }
    else if n == 8 { '8' } else if n == 9 { '9' } else if n == 10 { 'a' } else if n == 11 { 'b' }
    else if n == 12 { 'c' } else if n == 13 { 'd' } else if n == 14 { 'e' } else { 'f' }
}

/// Appends the escaped form of one character.
fn push_escaped(out: &mut String, c: char)
    ensures
        final(out)@ == old(out)@ + escape_char(c),
{
    if c == '"' {
        push_char(out, '\\');
        push_char(out, '"');
        assert(out@ =~= old(out)@ + escape_char(c));
    } else if c == '\\' {
        push_char(out, '\\');
        push_char(out, '\\');
        assert(out@ =~= old(out)@ + escape_char(c));
    } else {
        let u = c as u32;
        if u < 32 {
            push_char(out, '\\');
            push_char(out, 'u');
            push_char(out, '0');
            push_char(out, '0');
            push_char(out, hex_digit_exec((u / 16) as u8));
            push_char(out, hex_digit_exec((u % 16) as u8));
            assert((u / 16) as u8 as int == ((c as u32) / 16) as int);
            assert((u % 16) as u8 as int == ((c as u32) % 16) as int);
            assert(out@ =~= old(out)@ + escape_char(c));
        } else {
            push_char(out, c);
            assert(out@ =~= old(out)@ + escape_char(c));
        }
    }
}

/// Appends the escaped form of a whole string.
fn push_escaped_str(out: &mut String, s: &str)
    ensures
        final(out)@ == old(out)@ + escape_string(s@),
{
    let chars = str_to_chars(s);
    let n = chars.len();
    let mut i: usize = 0;
    while i < n
        invariant
            n == chars.len(),
            chars@ == s@,
            i <= n,
            out@ == old(out)@ + escape_string(s@.subrange(0, i as int)),
        decreases n - i,
    {
        let c = chars[i];
        push_escaped(out, c);
        proof {
            let pre = s@.subrange(0, i as int);
            lemma_escape_append(pre, seq![c]);
            assert(pre + seq![c] =~= s@.subrange(0, i + 1 as int));
            assert(seq![c].skip(1) =~= Seq::<char>::empty());
            assert(escape_string(Seq::<char>::empty()) == Seq::<char>::empty());
            assert(seq![c][0] == c);
            assert(escape_string(seq![c]) == escape_char(c) + escape_string(seq![c].skip(1)));
            assert(escape_string(seq![c]) =~= escape_char(c));
            assert(out@ =~= old(out)@ + escape_string(s@.subrange(0, i + 1 as int)));
        }
        i = i + 1;
    }
    assert(s@.subrange(0, n as int) =~= s@);
}

/// Appends the encoded tag list from position `i` on, commas between entries.
fn push_tags(out: &mut String, tags: &Vec<String>, i: usize)
    requires
        i <= tags.len(),
    ensures
        final(out)@ == old(out)@ + encode_tags(tags.deep_view().skip(i as int)),
    decreases tags.len() - i,
{
    let ghost tv = tags.deep_view();
    if i == tags.len() {
        proof {
            assert(tv.skip(i as int) =~= Seq::<Seq<char>>::empty());
            assert(out@ =~= old(out)@ + encode_tags(tv.skip(i as int)));
        }
    } else {
        push_char(out, '"');
        push_escaped_str(out, tags[i].as_str());
        push_char(out, '"');
        let ghost mid = out@;
        proof {
            assert(tv.skip(i as int)[0] == tv[i as int]);
            assert(tv[i as int] == tags@[i as int]@);
            assert(mid =~= old(out)@ + (seq!['"'] + escape_string(tv[i as int]) + seq!['"']));
        }
        if i + 1 < tags.len() {
            push_char(out, ',');
            push_tags(out, tags, i + 1);
            proof {
                let rest = tv.skip(i as int);
                assert(rest.len() >= 2);
                assert(rest.skip(1) =~= tv.skip(i + 1 as int));
                assert(encode_tags(rest) == seq!['"'] + escape_string(rest[0]) + seq!['"']
                    + seq![','] + encode_tags(rest.skip(1)));
                assert(out@ =~= old(out)@ + encode_tags(rest));
            }
        } else {
            proof {
                let rest = tv.skip(i as int);
                assert(rest.len() == 1);
                assert(encode_tags(rest) == seq!['"'] + escape_string(rest[0]) + seq!['"']);
                assert(out@ =~= old(out)@ + encode_tags(rest));
            }
        }
    }
}

impl AdmineMessage {
    /// The wire form of this envelope.
    pub fn to_json_string(&self) -> (r: String)
        ensures
            r@ == encode_envelope(self@),
    {
        let mut out = String::new();
        out.append("{\"origin\":\"");
        push_escaped_str(&mut out, self.origin().as_str());
        push_char(&mut out, '"');
        out.append(",\"tags\":[");
        push_tags(&mut out, self.tags(), 0);
        push_char(&mut out, ']');
        out.append(",\"message\":\"");
        push_escaped_str(&mut out, self.message().as_str());
        push_char(&mut out, '"');
        push_char(&mut out, '}');
        proof {
            assert(self@.tags.skip(0) =~= self@.tags);
            assert(out@ =~= encode_envelope(self@));
        }
        out
    }
}

// ---------------------------------------------------------------------------
// The executable decoder
// ---------------------------------------------------------------------------

/// A parse result with `p` prepended to the value it carries.
spec fn prepend_parse(p: Seq<char>, r: Option<(Seq<char>, Seq<char>)>) -> Option<(Seq<char>, Seq<char>)> {
    match r {
        Some(vr) => Some((p + vr.0, vr.1)),
        None => None,
    }
}

/// A tag-list parse result with `p` prepended to the list it carries.
spec fn prepend_tags(p: Seq<Seq<char>>, r: Option<(Seq<Seq<char>>, Seq<char>)>) -> Option<(Seq<Seq<char>>, Seq<char>)> {
    match r {
        Some(vr) => Some((p + vr.0, vr.1)),
        None => None,
    }
}

/// The value of a hexadecimal digit character, if it is one.
fn hex_val_exec(c: char) -> (r: Option<u8>)
    ensures
        match r {
            Some(v) => v < 16 && hex_val(c) == v as int,
            None => hex_val(c) < 0,
        },
{
    let u = c as u32;
    if 48 <= u && u <= 57 {
        Some((u - 48) as u8)
    } else if 97 <= u && u <= 102 {
        Some((u - 97 + 10) as u8)
    } else if 65 <= u && u <= 70 {
        Some((u - 65 + 10) as u8)
    } else {
        None
    }
}

/// Reads one quoted string's content starting at `start`, after its opening
/// quote; yields the denoted string and the position after the closing quote.
fn parse_string_exec(s: &Vec<char>, start: usize) -> (r: Option<(String, usize)>)
    requires
        start <= s.len(),
    ensures
        match r {
            Some(vj) => start < vj.1 <= s.len()
                && parse_string(s@.skip(start as int)) == Some((vj.0@, s@.skip(vj.1 as int))),
            None => parse_string(s@.skip(start as int)) is None,
        },
{
    let mut out = String::new();
    let mut i: usize = start;
    loop
        invariant
            start <= i <= s.len(),
            parse_string(s@.skip(start as int)) == prepend_parse(out@, parse_string(s@.skip(i as int))),
        decreases s.len() - i,
    {
        let ghost t = s@.skip(i as int);
        if i >= s.len() {
            proof {
                assert(t =~= Seq::<char>::empty());
            }
            return None;
        }
        assert(t[0] == s@[i as int]);
        let c = s[i];
        if c == '"' {
            proof {
                assert(t.skip(1) =~= s@.skip(i + 1 as int));
                assert(parse_string(t) == Some((Seq::<char>::empty(), s@.skip(i + 1 as int))));
                assert(out@ + Seq::<char>::empty() =~= out@);
            }
            return Some((out, i + 1));
        } else if c == '\\' {
            if s.len() - i < 2 {
                proof {
                    assert(t.len() < 2);
                }
                return None;
            }
            assert(t[1] == s@[i + 1]);
            let c2 = s[i + 1];
            if c2 == '"' || c2 == '\\' {
                let ghost pre = out@;
                push_char(&mut out, c2);
                proof {
                    assert(t.skip(2) =~= s@.skip(i + 2));
                    let inner = parse_string(s@.skip(i + 2));
                    assert(parse_string(t) == prepend_parse(seq![c2], inner));
                    if inner is Some {
                        assert(pre + (seq![c2] + inner->Some_0.0) =~= (pre + seq![c2]) + inner->Some_0.0);
                    }
                    assert(prepend_parse(pre, parse_string(t)) == prepend_parse(out@, inner));
                }
                i = i + 2;
            } else if c2 == 'u' {
                if s.len() - i < 6 {
                    proof {
                        assert(t.len() < 6);
                    }
                    return None;
                }
                assert(t[2] == s@[i + 2] && t[3] == s@[i + 3] && t[4] == s@[i + 4] && t[5] == s@[i + 5]);
                if s[i + 2] == '0' && s[i + 3] == '0' {
                    let h1 = hex_val_exec(s[i + 4]);
                    let h2 = hex_val_exec(s[i + 5]);
                    match (h1, h2) {
                        (Some(v1), Some(v2)) => {
                            let code: u8 = v1 * 16 + v2;
                            let dc: char = code as char;
                            let ghost pre = out@;
                            push_char(&mut out, dc);
                            proof {
                                assert(code as int == hex_val(t[4]) * 16 + hex_val(t[5]));
                                assert(dc == code_char(hex_val(t[4]) * 16 + hex_val(t[5])));
                                assert(t.skip(6) =~= s@.skip(i + 6));
                                let inner = parse_string(s@.skip(i + 6));
                                assert(parse_string(t) == prepend_parse(seq![dc], inner));
                                if inner is Some {
                                    assert(pre + (seq![dc] + inner->Some_0.0) =~= (pre + seq![dc]) + inner->Some_0.0);
                                }
                                assert(prepend_parse(pre, parse_string(t)) == prepend_parse(out@, inner));
                            }
                            i = i + 6;
                        },
                        _ => {
                            proof {
                                assert(hex_val(t[4]) < 0 || hex_val(t[5]) < 0);
                                assert(parse_string(t) is None);
                            }
                            return None;
                        },
                    }
                } else {
                    proof {
                        assert(parse_string(t) is None);
                    }
                    return None;
                }
            } else {
                proof {
                    assert(parse_string(t) is None);
                }
                return None;
            }
        } else {
            let u = c as u32;
            if u < 32 {
                proof {
                    assert((t[0] as u32) < 32);
                    assert(parse_string(t) is None);
                }
                return None;
            }
            let ghost pre = out@;
            push_char(&mut out, c);
            proof {
                assert((t[0] as u32) >= 32);
                assert(t.skip(1) =~= s@.skip(i + 1));
                let inner = parse_string(s@.skip(i + 1));
                assert(parse_string(t) == prepend_parse(seq![c], inner));
                if inner is Some {
                    assert(pre + (seq![c] + inner->Some_0.0) =~= (pre + seq![c]) + inner->Some_0.0);
                }
                assert(prepend_parse(pre, parse_string(t)) == prepend_parse(out@, inner));
            }
            i = i + 1;
        }
    }
}

/// Checks that the fixed piece `lit` stands at `start`; yields the position
/// after it.
fn expect_lit(s: &Vec<char>, start: usize, lit: &str) -> (r: Option<usize>)
    requires
        start <= s.len(),
    ensures
        match r {
            Some(j) => start <= j <= s.len() && j == start + lit@.len()
                && strip_prefix(s@.skip(start as int), lit@) == Some(s@.skip(j as int)),
            None => strip_prefix(s@.skip(start as int), lit@) is None,
        },
{
    let n = lit.unicode_len();
    if n > s.len() - start {
        proof {
            assert(s@.skip(start as int).len() < lit@.len());
            assert(!lit@.is_prefix_of(s@.skip(start as int)));
        }
        return None;
    }
    let mut k: usize = 0;
    while k < n
        invariant
            start + n <= s.len(),
            n == lit@.len(),
            k <= n,
            forall|m: int| 0 <= m < k ==> lit@[m] == s@.skip(start as int)[m],
        decreases n - k,
    {
        if lit.get_char(k) != s[start + k] {
            proof {
                assert(s@.skip(start as int)[k as int] == s@[start + k]);
                assert(!lit@.is_prefix_of(s@.skip(start as int)));
            }
            return None;
        }
        assert(s@.skip(start as int)[k as int] == s@[start + k]);
        k = k + 1;
    }
    proof {
        let rest = s@.skip(start as int);
        assert(lit@ =~= rest.subrange(0, n as int));
        assert(lit@.is_prefix_of(rest));
        assert(rest.skip(n as int) =~= s@.skip(start + n));
    }
    Some(start + n)
}

/// Reads the tag list starting right after the opening bracket; yields the
/// tags and the position after the closing bracket.
fn parse_tags_exec(s: &Vec<char>, start: usize) -> (r: Option<(Vec<String>, usize)>)
    requires
        start <= s.len(),
    ensures
        match r {
            Some(tj) => start < tj.1 <= s.len()
                && parse_tags(s@.skip(start as int)) == Some((tj.0.deep_view(), s@.skip(tj.1 as int))),
            None => parse_tags(s@.skip(start as int)) is None,
        },
{
    if start >= s.len() {
        proof {
            assert(s@.skip(start as int) =~= Seq::<char>::empty());
        }
        return None;
    }
    assert(s@.skip(start as int)[0] == s@[start as int]);
    if s[start] == ']' {
        let empty_tags: Vec<String> = Vec::new();
        proof {
            assert(s@.skip(start as int).skip(1) =~= s@.skip(start + 1));
            assert(empty_tags.deep_view() =~= Seq::<Seq<char>>::empty());
        }
        return Some((empty_tags, start + 1));
    }
    let mut acc: Vec<String> = Vec::new();
    let mut i: usize = start;
    proof {
        assert(acc.deep_view() =~= Seq::<Seq<char>>::empty());
    }
    loop
        invariant
            start <= i <= s.len(),
            s@.skip(start as int).len() > 0,
            s@[start as int] != ']',
            parse_tags_item(s@.skip(start as int)) == prepend_tags(acc.deep_view(), parse_tags_item(s@.skip(i as int))),
        decreases s.len() - i,
    {
        let ghost t = s@.skip(i as int);
        if i >= s.len() {
            proof {
                assert(t =~= Seq::<char>::empty());
                assert(parse_tags_item(t) is None);
            }
            return None;
        }
        assert(t[0] == s@[i as int]);
        if s[i] != '"' {
            proof {
                assert(parse_tags_item(t) is None);
            }
            return None;
        }
        match parse_string_exec(s, i + 1) {
            None => {
                proof {
                    assert(t.skip(1) =~= s@.skip(i + 1));
                    assert(parse_tags_item(t) is None);
                }
                return None;
            },
            Some((tag, j)) => {
                proof {
                    assert(t.skip(1) =~= s@.skip(i + 1));
                }
                if j >= s.len() {
                    proof {
                        assert(s@.skip(j as int) =~= Seq::<char>::empty());
                        assert(parse_tags_item(t) is None);
                    }
                    return None;
                }
                assert(s@.skip(j as int)[0] == s@[j as int]);
                let c = s[j];
                if c == ']' {
                    let ghost pre = acc.deep_view();
                    acc.push(tag);
                    proof {
                        assert(s@.skip(j as int).skip(1) =~= s@.skip(j + 1));
                        assert(parse_tags_item(t) == Some((seq![tag@], s@.skip(j + 1))));
                        assert(acc.deep_view() =~= pre.push(tag@));
                        assert(pre + seq![tag@] =~= acc.deep_view());
                        assert(parse_tags_item(s@.skip(start as int)) == Some((acc.deep_view(), s@.skip(j + 1))));
                    }
                    return Some((acc, j + 1));
                } else if c == ',' {
                    let ghost pre = acc.deep_view();
                    acc.push(tag);
                    proof {
                        let rr = s@.skip(j as int);
                        assert(rr.len() <= t.len()) by {
                            lemma_parse_string_shrinks(t.skip(1));
                        };
                        assert(rr.skip(1) =~= s@.skip(j + 1));
                        let inner = parse_tags_item(s@.skip(j + 1));
                        assert(parse_tags_item(t) == prepend_tags(seq![tag@], inner));
                        assert(acc.deep_view() =~= pre.push(tag@));
                        if inner is Some {
                            assert(pre + (seq![tag@] + inner->Some_0.0) =~= acc.deep_view() + inner->Some_0.0);
                        }
                        assert(prepend_tags(pre, parse_tags_item(t)) == prepend_tags(acc.deep_view(), inner));
                    }
                    i = j + 1;
                } else {
                    proof {
                        assert(parse_tags_item(t) is None);
                    }
                    return None;
                }
            },
        }
    }
}

impl AdmineMessage {
    /// The envelope a wire string denotes, or a codec error if it does not
    /// follow the format.
    #[verifier::rlimit(60)]
    pub fn from_json_string(json_str: &str) -> (r: Result<AdmineMessage, CodecError>)
        ensures
            match r {
                Ok(m) => decode_envelope(json_str@) == Some(m@),
                Err(_) => decode_envelope(json_str@) is None,
            },
    {
        let s = str_to_chars(json_str);
        proof {
            assert(s@.skip(0) =~= s@);
            assert("{\"origin\":\""@ == json_origin_prefix());
            assert(",\"tags\":["@ == json_tags_sep());
            assert(",\"message\":\""@ == json_message_sep());
        }
        let i1 = match expect_lit(&s, 0, "{\"origin\":\"") {
            Some(j) => j,
            None => {
                return Err(CodecError::Malformed);
            },
        };
        let (origin, i2) = match parse_string_exec(&s, i1) {
            Some(vj) => vj,
            None => {
                return Err(CodecError::Malformed);
            },
        };
        let i3 = match expect_lit(&s, i2, ",\"tags\":[") {
            Some(j) => j,
            None => {
                return Err(CodecError::Malformed);
            },
        };
        let (tags, i4) = match parse_tags_exec(&s, i3) {
            Some(tj) => tj,
            None => {
                return Err(CodecError::Malformed);
            },
        };
        let i5 = match expect_lit(&s, i4, ",\"message\":\"") {
            Some(j) => j,
            None => {
                return Err(CodecError::Malformed);
            },
        };
        let (message, i6) = match parse_string_exec(&s, i5) {
            Some(vj) => vj,
            None => {
                return Err(CodecError::Malformed);
            },
        };
        if i6 < s.len() && i6 + 1 == s.len() && s[i6] == '}' {
            let mut m = AdmineMessage::new(tags, message);
            m.set_origin(origin);
            proof {
                assert(s@.skip(i6 as int) =~= seq!['}']);
            }
            Ok(m)
        } else {
            proof {
                if i6 < s.len() {
                    assert(s@.skip(i6 as int)[0] == s@[i6 as int]);
                }
                assert(!(s@.skip(i6 as int) =~= seq!['}']));
            }
            Err(CodecError::Malformed)
        }
    }
}

} // verus!
