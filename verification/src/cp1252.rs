//! Windows-1252 text decoding for the fixed-size name fields of game files.
use vstd::prelude::*;

verus! {

/// The character that a Windows-1252 byte stands for. Bytes `0x80..=0x9F`
/// carry the Windows-1252 extensions; the five unassigned bytes there, and
/// every other byte, stand for the code point of the same value.
pub open spec fn cp1252_char(b: u8) -> char {
    if b == 0x80 { '\u{20AC}' }
    else if b == 0x82 { '\u{201A}' }
    else if b == 0x83 { '\u{0192}' }
    else if b == 0x84 { '\u{201E}' }
    else if b == 0x85 { '\u{2026}' }
    else if b == 0x86 { '\u{2020}' }
    else if b == 0x87 { '\u{2021}' }
    else if b == 0x88 { '\u{02C6}' }
    else if b == 0x89 { '\u{2030}' }
    else if b == 0x8A { '\u{0160}' }
    else if b == 0x8B { '\u{2039}' }
    else if b == 0x8C { '\u{0152}' }
    else if b == 0x8E { '\u{017D}' }
    else if b == 0x91 { '\u{2018}' }
    else if b == 0x92 { '\u{2019}' }
    else if b == 0x93 { '\u{201C}' }
    else if b == 0x94 { '\u{201D}' }
    else if b == 0x95 { '\u{2022}' }
    else if b == 0x96 { '\u{2013}' }
    else if b == 0x97 { '\u{2014}' }
    else if b == 0x98 { '\u{02DC}' }
    else if b == 0x99 { '\u{2122}' }
    else if b == 0x9A { '\u{0161}' }
    else if b == 0x9B { '\u{203A}' }
    else if b == 0x9C { '\u{0153}' }
    else if b == 0x9E { '\u{017E}' }
    else if b == 0x9F { '\u{0178}' }
    else { b as char }
}

/// Number of bytes before the first NUL (the whole sequence if none).
pub open spec fn cstr_len(bytes: Seq<u8>) -> nat
    decreases bytes.len(),
{
    if bytes.len() == 0 {
        0
    } else if bytes[0] == 0 {
        0
    } else {
        1 + cstr_len(bytes.drop_first())
    }
}

/// The text of a NUL-terminated Windows-1252 field: the characters of the
/// bytes before the first NUL.
pub open spec fn decode_cstr_spec(bytes: Seq<u8>) -> Seq<char> {
    bytes.take(cstr_len(bytes) as int).map_values(|b: u8| cp1252_char(b))
}

/// Decode one Windows-1252 byte.
pub fn cp1252_to_char(b: u8) -> (c: char)
    ensures
        c == cp1252_char(b),
{
    if b == 0x80 { '\u{20AC}' }
    else if b == 0x82 { '\u{201A}' }
    else if b == 0x83 { '\u{0192}' }
    else if b == 0x84 { '\u{201E}' }
    else if b == 0x85 { '\u{2026}' }
    else if b == 0x86 { '\u{2020}' }
    else if b == 0x87 { '\u{2021}' }
    else if b == 0x88 { '\u{02C6}' }
    else if b == 0x89 { '\u{2030}' }
    else if b == 0x8A { '\u{0160}' }
    else if b == 0x8B { '\u{2039}' }
    else if b == 0x8C { '\u{0152}' }
    else if b == 0x8E { '\u{017D}' }
    else if b == 0x91 { '\u{2018}' }
    else if b == 0x92 { '\u{2019}' }
    else if b == 0x93 { '\u{201C}' }
    else if b == 0x94 { '\u{201D}' }
    else if b == 0x95 { '\u{2022}' }
    else if b == 0x96 { '\u{2013}' }
    else if b == 0x97 { '\u{2014}' }
    else if b == 0x98 { '\u{02DC}' }
    else if b == 0x99 { '\u{2122}' }
    else if b == 0x9A { '\u{0161}' }
    else if b == 0x9B { '\u{203A}' }
    else if b == 0x9C { '\u{0153}' }
    else if b == 0x9E { '\u{017E}' }
    else if b == 0x9F { '\u{0178}' }
    else { b as char }
}

/// Append one character to a `String` (`String::push`).
#[verifier::external_body]
pub(crate) fn string_push(s: &mut String, c: char)
    ensures
        final(s)@ == old(s)@.push(c),
{
    s.push(c);
}

proof fn lemma_cstr_len_step(bytes: Seq<u8>, i: int)
    requires
        0 <= i < bytes.len(),
        forall|k: int| 0 <= k < i ==> bytes[k] != 0,
    ensures
        cstr_len(bytes) >= i,
        bytes[i] == 0 ==> cstr_len(bytes) == i,
        bytes[i] != 0 ==> cstr_len(bytes) > i,
    decreases i,
{
    if i > 0 {
        assert(bytes[0] != 0);
        let rest = bytes.drop_first();
        assert forall|k: int| 0 <= k < i - 1 implies rest[k] != 0 by {
            assert(rest[k] == bytes[k + 1]);
        }
        lemma_cstr_len_step(rest, i - 1);
    }
}

proof fn lemma_cstr_len_all(bytes: Seq<u8>)
    requires
        forall|k: int| 0 <= k < bytes.len() ==> bytes[k] != 0,
    ensures
        cstr_len(bytes) == bytes.len(),
    decreases bytes.len(),
{
    if bytes.len() > 0 {
        assert(bytes[0] != 0);
        let rest = bytes.drop_first();
        assert forall|k: int| 0 <= k < rest.len() implies rest[k] != 0 by {
            assert(rest[k] == bytes[k + 1]);
        }
        lemma_cstr_len_all(rest);
    }
}

/// Decode a NUL-terminated Windows-1252 byte field to text.
pub fn decode_cstr(bytes: &[u8]) -> (s: String)
    ensures
        s@ == decode_cstr_spec(bytes@),
{
    let mut s = String::new();
    let mut i: usize = 0;
    while i < bytes.len()
        invariant
            i <= bytes@.len(),
            forall|k: int| 0 <= k < i ==> bytes@[k] != 0,
            s@ == bytes@.take(i as int).map_values(|b: u8| cp1252_char(b)),
        decreases bytes.len() - i,
    {
        if bytes[i] == 0 {
            proof {
                lemma_cstr_len_step(bytes@, i as int);
            }
            return s;
        }
        proof {
            lemma_cstr_len_step(bytes@, i as int);
        }
        let c = cp1252_to_char(bytes[i]);
        string_push(&mut s, c);
        i = i + 1;
        assert(s@ =~= bytes@.take(i as int).map_values(|b: u8| cp1252_char(b)));
    }
    proof {
        lemma_cstr_len_all(bytes@);
        assert(bytes@.take(bytes@.len() as int) =~= bytes@);
    }
    s
}

} // verus!
