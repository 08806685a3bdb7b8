//! Byte encodings: UTF-16LE and standard base64, which together make the
//! `-EncodedCommand` argument of PowerShell.

use vstd::prelude::*;
use vstd::utf8::encode_utf8;
use base64::engine::general_purpose;
use base64::Engine;
use crate::text::code_point;

verus! {

/// The base64 digit for a 6-bit value, in the standard alphabet
/// `A`-`Z`, `a`-`z`, `0`-`9`, `+`, `/` of RFC 4648.
pub open spec fn base64_digit(v: int) -> char {
    if v < 26 {
        (65 + v) as char
    } else if v < 52 {
        (97 + (v - 26)) as char
    } else if v < 62 {
        (48 + (v - 52)) as char
    } else if v == 62 {
        '+'
    } else {
        '/'
    }
}

/// The standard base64 encoding of `b` with `=` padding (RFC 4648,
/// section 4): each group of three bytes becomes four digits; a final
/// group of one or two bytes becomes two or three digits and padding.
pub open spec fn base64_standard(b: Seq<u8>) -> Seq<char>
    decreases b.len(),
{
    let x = if b.len() > 0 { b[0] as int } else { 0 };
    let y = if b.len() > 1 { b[1] as int } else { 0 };
    let z = if b.len() > 2 { b[2] as int } else { 0 };
    if b.len() == 0 {
        Seq::empty()
    } else if b.len() == 1 {
        seq![base64_digit(x / 4), base64_digit((x % 4) * 16), '=', '=']
    } else if b.len() == 2 {
        seq![base64_digit(x / 4), base64_digit((x % 4) * 16 + y / 16), base64_digit((y % 16) * 4), '=']
    } else {
        seq![
            base64_digit(x / 4),
            base64_digit((x % 4) * 16 + y / 16),
            base64_digit((y % 16) * 4 + z / 64),
            base64_digit(z % 64),
        ] + base64_standard(b.skip(3))
    }
}

/// Whether `c` can occur in standard base64 text: a digit of the standard
/// alphabet or the padding `=`.
pub open spec fn is_base64_char(c: char) -> bool {
    ||| 'A' <= c <= 'Z'
    ||| 'a' <= c <= 'z'
    ||| '0' <= c <= '9'
    ||| c == '+'
    ||| c == '/'
    ||| c == '='
}

proof fn lemma_base64_digit(v: int)
    requires
        0 <= v < 64,
    ensures
        is_base64_char(base64_digit(v)),
{
}

/// Base64 text is four characters for every three bytes, counting a last,
/// shorter group as a full one.
pub proof fn law_base64_length(b: Seq<u8>)
    ensures
        base64_standard(b).len() == 4 * ((b.len() + 2) / 3),
    decreases b.len(),
{
    if b.len() > 2 {
        law_base64_length(b.skip(3));
    }
}

/// Base64 text holds only digits of the standard alphabet and padding.
pub proof fn law_base64_alphabet(b: Seq<u8>)
    ensures
        forall|i: int|
            0 <= i < base64_standard(b).len() ==> is_base64_char(#[trigger] base64_standard(b)[i]),
    decreases b.len(),
{
    if b.len() > 0 {
        let x = b[0] as int;
        let y = if b.len() > 1 { b[1] as int } else { 0 };
        let z = if b.len() > 2 { b[2] as int } else { 0 };
        lemma_base64_digit(x / 4);
        lemma_base64_digit((x % 4) * 16);
        lemma_base64_digit((x % 4) * 16 + y / 16);
        lemma_base64_digit((y % 16) * 4);
        lemma_base64_digit((y % 16) * 4 + z / 64);
        lemma_base64_digit(z % 64);
        if b.len() > 2 {
            law_base64_alphabet(b.skip(3));
            let e = base64_standard(b);
            let r = base64_standard(b.skip(3));
            assert forall|i: int| 0 <= i < e.len() implies is_base64_char(#[trigger] e[i]) by {
                if i >= 4 {
                    assert(e[i] == r[i - 4]);
                }
            }
        }
    }
}

/// `Engine::encode` of the `base64` crate with the `STANDARD` engine
/// (standard alphabet, with padding). The contract claims that the result
/// is the RFC 4648 encoding of the bytes. The crate panics when the length
/// of the result does not fit in `usize`, which `requires` rules out.
#[verifier::external_body]
fn base64_encode_standard(bytes: &[u8]) -> (s: String)
    requires
        bytes@.len() / 3 * 4 + 4 <= usize::MAX,
    ensures
        s@ == base64_standard(bytes@),
{
    general_purpose::STANDARD.encode(bytes)
}

/// The little-endian bytes of one UTF-16 code unit.
pub open spec fn unit_le_bytes(u: int) -> Seq<u8> {
    seq![(u % 256) as u8, (u / 256) as u8]
}

/// The UTF-16LE encoding of one character: one code unit below U+10000,
/// else a surrogate pair.
pub open spec fn char_utf16le(c: char) -> Seq<u8> {
    let v = c as int;
    if v < 0x10000 {
        unit_le_bytes(v)
    } else {
        unit_le_bytes(0xD800 + (v - 0x10000) / 0x400) + unit_le_bytes(0xDC00 + (v - 0x10000)
            % 0x400)
    }
}

/// The UTF-16LE encoding of `s`.
pub open spec fn utf16le(s: Seq<char>) -> Seq<u8>
    decreases s.len(),
{
    if s.len() == 0 {
        Seq::empty()
    } else {
        utf16le(s.drop_last()) + char_utf16le(s.last())
    }
}

/// The `-EncodedCommand` form of a PowerShell script: base64 of its
/// UTF-16LE encoding.
pub open spec fn powershell_encoded(script: Seq<char>) -> Seq<char> {
    base64_standard(utf16le(script))
}

proof fn lemma_utf16le_len(s: Seq<char>)
    ensures
        utf16le(s).len() <= 4 * s.len(),
    decreases s.len(),
{
    if s.len() > 0 {
        lemma_utf16le_len(s.drop_last());
    }
}

/// The UTF-8 encoding of a text takes at most four bytes per character.
pub proof fn lemma_utf8_len(s: Seq<char>)
    ensures
        encode_utf8(s).len() <= 4 * s.len(),
    decreases s.len(),
{
    if s.len() > 0 {
        lemma_utf8_len(s.drop_first());
    }
}

fn push_unit(bytes: &mut Vec<u8>, u: u32)
    requires
        u < 0x10000,
    ensures
        final(bytes)@ == old(bytes)@ + unit_le_bytes(u as int),
{
    bytes.push((u % 256) as u8);
    bytes.push((u / 256) as u8);
    assert(final(bytes)@ == old(bytes)@ + unit_le_bytes(u as int));
}

/// The UTF-16LE bytes of `text`.
pub fn utf16le_bytes(text: &str) -> (bytes: Vec<u8>)
    ensures
        bytes@ == utf16le(text@),
{
    let chars = crate::text::chars_of(text);
    let mut bytes: Vec<u8> = Vec::new();
    let mut i: usize = 0;
    while i < chars.len()
        invariant
            i <= chars@.len(),
            bytes@ == utf16le(chars@.take(i as int)),
        decreases chars@.len() - i,
    {
        let c = chars[i];
        let v = code_point(c);
        if v < 0x10000 {
            push_unit(&mut bytes, v);
        } else {
            let w = v - 0x10000;
            push_unit(&mut bytes, 0xD800 + w / 0x400);
            push_unit(&mut bytes, 0xDC00 + w % 0x400);
        }
        proof {
            let after = chars@.take(i + 1);
            assert(after.drop_last() == chars@.take(i as int));
            assert(after.last() == c);
        }
        i = i + 1;
    }
    assert(chars@.take(chars@.len() as int) == chars@);
    bytes
}

/// A PowerShell script in the form that `powershell.exe -EncodedCommand`
/// takes: the base64 of its UTF-16LE encoding.
pub fn encode_powershell_command(script: &str) -> (encoded: String)
    requires
        script@.len() <= usize::MAX / 8,
    ensures
        encoded@ == powershell_encoded(script@),
{
    let bytes = utf16le_bytes(script);
    proof {
        lemma_utf16le_len(script@);
    }
    base64_encode_standard(bytes.as_slice())
}

/// The standard base64 encoding of the UTF-8 bytes of `text`.
pub fn base64_of_utf8(text: &str) -> (encoded: String)
    requires
        text@.len() <= usize::MAX / 8,
    ensures
        encoded@ == base64_standard(encode_utf8(text@)),
{
    let bytes = text.as_bytes();
    proof {
        lemma_utf8_len(text@);
    }
    base64_encode_standard(bytes)
}

proof fn lemma_char_range(c: char)
    ensures
        0 <= c as int <= 0x10FFFF,
        !(0xD800 <= c as int <= 0xDFFF),
{
}

proof fn lemma_digit_injective(v: int, w: int)
    requires
        0 <= v < 64,
        0 <= w < 64,
        base64_digit(v) == base64_digit(w),
    ensures
        v == w,
{
}

proof fn lemma_digit_not_padding(v: int)
    requires
        0 <= v < 64,
    ensures
        base64_digit(v) != '=',
{
}

proof fn lemma_group_injective(x: int, y: int, z: int, x2: int, y2: int, z2: int)
    requires
        0 <= x < 256,
        0 <= y < 256,
        0 <= z < 256,
        0 <= x2 < 256,
        0 <= y2 < 256,
        0 <= z2 < 256,
        x / 4 == x2 / 4,
        (x % 4) * 16 + y / 16 == (x2 % 4) * 16 + y2 / 16,
        (y % 16) * 4 + z / 64 == (y2 % 16) * 4 + z2 / 64,
        z % 64 == z2 % 64,
    ensures
        x == x2,
        y == y2,
        z == z2,
{
}

proof fn lemma_base64_nonempty(b: Seq<u8>)
    requires
        b.len() > 0,
    ensures
        base64_standard(b).len() >= 4,
{
    law_base64_length(b);
}

/// Different bytes have different base64 text.
pub proof fn law_base64_is_injective(a: Seq<u8>, b: Seq<u8>)
    requires
        base64_standard(a) == base64_standard(b),
    ensures
        a == b,
    decreases a.len(),
{
    let e = base64_standard(a);
    law_base64_length(a);
    law_base64_length(b);
    if a.len() == 0 {
        if b.len() > 0 {
            lemma_base64_nonempty(b);
        }
        return;
    }
    if b.len() == 0 {
        lemma_base64_nonempty(a);
        return;
    }
    let x = a[0] as int;
    let y = if a.len() > 1 { a[1] as int } else { 0 };
    let z = if a.len() > 2 { a[2] as int } else { 0 };
    let x2 = b[0] as int;
    let y2 = if b.len() > 1 { b[1] as int } else { 0 };
    let z2 = if b.len() > 2 { b[2] as int } else { 0 };
    // the padding tells how many bytes the first group holds
    let na = if a.len() >= 3 { 3int } else { a.len() as int };
    let nb = if b.len() >= 3 { 3int } else { b.len() as int };
    if na >= 2 {
        lemma_digit_not_padding((y % 16) * 4 + z / 64);
    }
    if na >= 3 {
        lemma_digit_not_padding(z % 64);
    }
    if nb >= 2 {
        lemma_digit_not_padding((y2 % 16) * 4 + z2 / 64);
    }
    if nb >= 3 {
        lemma_digit_not_padding(z2 % 64);
    }
    let f = base64_standard(b);
    assert(e[0] == f[0] && e[1] == f[1] && e[2] == f[2] && e[3] == f[3]);
    assert(e[0] == base64_digit(x / 4) && f[0] == base64_digit(x2 / 4));
    assert(e[1] == base64_digit((x % 4) * 16 + y / 16) && f[1] == base64_digit((x2 % 4) * 16 + y2 / 16));
    assert(na == nb);
    lemma_digit_injective(x / 4, x2 / 4);
    lemma_digit_injective((x % 4) * 16 + y / 16, (x2 % 4) * 16 + y2 / 16);
    if na >= 2 {
        lemma_digit_injective((y % 16) * 4 + z / 64, (y2 % 16) * 4 + z2 / 64);
    }
    if na >= 3 {
        lemma_digit_injective(z % 64, z2 % 64);
    }
    lemma_group_injective(x, y, z, x2, y2, z2);
    if na == 3 {
        let ra = base64_standard(a.skip(3));
        let rb = base64_standard(b.skip(3));
        assert(ra == e.skip(4));
        assert(rb == base64_standard(b).skip(4));
        law_base64_is_injective(a.skip(3), b.skip(3));
        assert(a == seq![a[0], a[1], a[2]] + a.skip(3));
        assert(b == seq![b[0], b[1], b[2]] + b.skip(3));
    } else {
        assert(a == b);
    }
}

proof fn lemma_char_utf16le_injective(c: char, d: char)
    requires
        char_utf16le(c) == char_utf16le(d),
    ensures
        c == d,
{
    lemma_char_range(c);
    lemma_char_range(d);
    let e = char_utf16le(c);
    if (c as int) < 0x10000 {
        assert((d as int) < 0x10000);
    } else {
        assert((d as int) >= 0x10000);
        let v = c as int - 0x10000;
        let w = d as int - 0x10000;
        assert(e[0] == char_utf16le(d)[0] && e[1] == char_utf16le(d)[1]);
        assert(e[2] == char_utf16le(d)[2] && e[3] == char_utf16le(d)[3]);
        assert(v / 0x400 == w / 0x400);
        assert(v % 0x400 == w % 0x400);
    }
    assert(c as int == d as int);
}

/// The last code unit of UTF-16LE bytes.
spec fn last_unit(b: Seq<u8>) -> int {
    b[b.len() - 2] as int + 256 * (b[b.len() - 1] as int)
}

proof fn lemma_last_unit(c: char)
    ensures
        char_utf16le(c).len() == if (c as int) < 0x10000 { 2int } else { 4int },
        (c as int) < 0x10000 ==> !(0xDC00 <= last_unit(char_utf16le(c)) <= 0xDFFF),
        (c as int) >= 0x10000 ==> 0xDC00 <= last_unit(char_utf16le(c)) <= 0xDFFF,
{
    lemma_char_range(c);
}

proof fn lemma_utf16le_nonempty(s: Seq<char>)
    requires
        s.len() > 0,
    ensures
        utf16le(s).len() >= 2,
{
    lemma_last_unit(s.last());
}

/// Different texts have different UTF-16LE bytes.
pub proof fn law_utf16le_is_injective(a: Seq<char>, b: Seq<char>)
    requires
        utf16le(a) == utf16le(b),
    ensures
        a == b,
    decreases a.len(),
{
    if a.len() == 0 {
        if b.len() > 0 {
            lemma_utf16le_nonempty(b);
        }
        return;
    }
    if b.len() == 0 {
        lemma_utf16le_nonempty(a);
        return;
    }
    let t = utf16le(a);
    let ea = char_utf16le(a.last());
    let eb = char_utf16le(b.last());
    let pa = utf16le(a.drop_last());
    let pb = utf16le(b.drop_last());
    lemma_last_unit(a.last());
    lemma_last_unit(b.last());
    assert(t == pa + ea);
    assert(t == pb + eb);
    assert(last_unit(t) == last_unit(ea));
    assert(last_unit(t) == last_unit(eb));
    assert(ea.len() == eb.len());
    assert(ea == t.skip(t.len() - ea.len()));
    assert(eb == t.skip(t.len() - eb.len()));
    lemma_char_utf16le_injective(a.last(), b.last());
    assert(pa == t.take(t.len() - ea.len()));
    assert(pb == t.take(t.len() - eb.len()));
    law_utf16le_is_injective(a.drop_last(), b.drop_last());
    assert(a == a.drop_last().push(a.last()));
    assert(b == b.drop_last().push(b.last()));
}

/// The encoded command carries the script exactly: different scripts give
/// different `-EncodedCommand` arguments.
pub proof fn law_powershell_encoding_is_injective(a: Seq<char>, b: Seq<char>)
    requires
        powershell_encoded(a) == powershell_encoded(b),
    ensures
        a == b,
{
    law_base64_is_injective(utf16le(a), utf16le(b));
    law_utf16le_is_injective(a, b);
}

/// Reading UTF-16LE bytes back into characters, two bytes per code unit
/// (low byte first): a high surrogate and the unit after it make one
/// supplementary character, any other unit is one character.
pub open spec fn decode_utf16le(b: Seq<u8>) -> Seq<char>
    decreases b.len(),
{
    if b.len() < 2 {
        Seq::empty()
    } else {
        let u = b[0] as int + 256 * (b[1] as int);
        if 0xD800 <= u <= 0xDBFF && b.len() >= 4 {
            let w = b[2] as int + 256 * (b[3] as int);
            seq![((0x10000 + (u - 0xD800) * 0x400 + (w - 0xDC00)) as u32) as char] + decode_utf16le(
                b.skip(4),
            )
        } else {
            seq![(u as u32) as char] + decode_utf16le(b.skip(2))
        }
    }
}

proof fn lemma_utf16le_append(a: Seq<char>, b: Seq<char>)
    ensures
        utf16le(a + b) == utf16le(a) + utf16le(b),
    decreases b.len(),
{
    if b.len() == 0 {
        assert(a + b == a);
    } else {
        lemma_utf16le_append(a, b.drop_last());
        assert((a + b).drop_last() == a + b.drop_last());
        assert((a + b).last() == b.last());
    }
}

proof fn lemma_decode_char(c: char, rest: Seq<u8>)
    ensures
        decode_utf16le(char_utf16le(c) + rest) == seq![c] + decode_utf16le(rest),
{
    lemma_char_range(c);
    let v = c as int;
    let e = char_utf16le(c);
    let t = e + rest;
    vstd::utf8::char_u32_cast(c, c as u32);
    assert((c as u32) as int == v);
    if v < 0x10000 {
        assert(t[0] as int + 256 * (t[1] as int) == v);
        assert(t.skip(2) == rest);
        assert((v as u32) == (c as u32));
    } else {
        let w = v - 0x10000;
        assert(t[0] as int + 256 * (t[1] as int) == 0xD800 + w / 0x400);
        assert(t[2] as int + 256 * (t[3] as int) == 0xDC00 + w % 0x400);
        assert(0x10000 + (w / 0x400) * 0x400 + w % 0x400 == v);
        assert(t.skip(4) == rest);
    }
}

/// UTF-16LE encoding loses nothing: reading the bytes back as UTF-16LE
/// gives the text.
pub proof fn law_utf16le_decodes(s: Seq<char>)
    ensures
        decode_utf16le(utf16le(s)) == s,
    decreases s.len(),
{
    if s.len() > 0 {
        let rest = s.drop_first();
        assert(s == seq![s[0]] + rest);
        lemma_utf16le_append(seq![s[0]], rest);
        assert(seq![s[0]].drop_last() == Seq::<char>::empty());
        assert(utf16le(Seq::<char>::empty()) == Seq::<u8>::empty());
        assert(seq![s[0]].last() == s[0]);
        assert(utf16le(seq![s[0]]) == Seq::<u8>::empty() + char_utf16le(s[0]));
        assert(Seq::<u8>::empty() + char_utf16le(s[0]) == char_utf16le(s[0]));
        lemma_decode_char(s[0], utf16le(rest));
        law_utf16le_decodes(rest);
    }
}

} // verus!
