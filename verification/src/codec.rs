//! Verified wire format for stored and gossiped values.
//!
//! Every domain value is framed as bytes by the functions here before it is
//! persisted in the Message Store or published on a gossip topic, and decoded
//! again on the way in.  Integers are little-endian; strings are a length
//! prefix followed by one 32-bit scalar per character; a message is the
//! concatenation of its fields.

use vstd::prelude::*;

use crate::message::{Message, MessageType, MessageView};

verus! {

// ---------------------------------------------------------------------------
// Little-endian integers
// ---------------------------------------------------------------------------

/// Value of a little-endian byte string.
pub open spec fn le_val(s: Seq<u8>) -> nat
    decreases s.len(),
{
    if s.len() == 0 {
        0
    } else {
        s[0] as nat + 256 * le_val(s.skip(1))
    }
}

/// The eight little-endian bytes of a 64-bit integer.
pub open spec fn enc_u64(n: u64) -> Seq<u8> {
    let n1 = n / 256;
    let n2 = n1 / 256;
    let n3 = n2 / 256;
    let n4 = n3 / 256;
    let n5 = n4 / 256;
    let n6 = n5 / 256;
    let n7 = n6 / 256;
    seq![
        (n % 256) as u8,
        (n1 % 256) as u8,
        (n2 % 256) as u8,
        (n3 % 256) as u8,
        (n4 % 256) as u8,
        (n5 % 256) as u8,
        (n6 % 256) as u8,
        (n7 % 256) as u8,
    ]
}

/// The four little-endian bytes of a 32-bit integer.
pub open spec fn enc_u32(n: u32) -> Seq<u8> {
    let n1 = n / 256;
    let n2 = n1 / 256;
    let n3 = n2 / 256;
    seq![(n % 256) as u8, (n1 % 256) as u8, (n2 % 256) as u8, (n3 % 256) as u8]
}

/// Reads a 64-bit integer off the front of `s`.
pub open spec fn dec_u64_s(s: Seq<u8>) -> Option<(u64, Seq<u8>)> {
    if s.len() >= 8 {
        Some(((le_val(s.take(8)) as u64), s.skip(8)))
    } else {
        None
    }
}

/// Reads a 32-bit integer off the front of `s`.
pub open spec fn dec_u32_s(s: Seq<u8>) -> Option<(u32, Seq<u8>)> {
    if s.len() >= 4 {
        Some(((le_val(s.take(4)) as u32), s.skip(4)))
    } else {
        None
    }
}

proof fn lemma_le_val4(t: Seq<u8>)
    requires
        t.len() == 4,
    ensures
        le_val(t) == t[0] + 256 * (t[1] + 256 * (t[2] + 256 * (t[3] as nat))),
{
    let t1 = t.skip(1);
    let t2 = t1.skip(1);
    let t3 = t2.skip(1);
    let t4 = t3.skip(1);
    assert(t4.len() == 0);
    assert(le_val(t4) == 0);
    assert(le_val(t3) == t3[0] + 256 * le_val(t4));
    assert(le_val(t2) == t2[0] + 256 * le_val(t3));
    assert(le_val(t1) == t1[0] + 256 * le_val(t2));
    assert(le_val(t) == t[0] + 256 * le_val(t1));
    assert(t3[0] == t[3]);
    assert(t2[0] == t[2]);
    assert(t1[0] == t[1]);
}

proof fn lemma_le_val8(t: Seq<u8>)
    requires
        t.len() == 8,
    ensures
        le_val(t) == t[0] + 256 * (t[1] + 256 * (t[2] + 256 * (t[3] + 256 * (t[4] + 256 * (t[5]
            + 256 * (t[6] + 256 * (t[7] as nat))))))),
{
    let t4 = t.skip(4);
    assert(t4.len() == 4);
    lemma_le_val4(t4);
    assert(t4[0] == t[4] && t4[1] == t[5] && t4[2] == t[6] && t4[3] == t[7]);
    let t1 = t.skip(1);
    let t2 = t1.skip(1);
    let t3 = t2.skip(1);
    assert(t3.skip(1) =~= t4);
    assert(le_val(t3) == t3[0] + 256 * le_val(t4));
    assert(le_val(t2) == t2[0] + 256 * le_val(t3));
    assert(le_val(t1) == t1[0] + 256 * le_val(t2));
    assert(le_val(t) == t[0] + 256 * le_val(t1));
    assert(t3[0] == t[3]);
    assert(t2[0] == t[2]);
    assert(t1[0] == t[1]);
}

proof fn lemma_le_val_enc_u64(n: u64)
    ensures
        le_val(enc_u64(n)) == n,
{
    lemma_le_val8(enc_u64(n));
}

proof fn lemma_le_val_enc_u32(n: u32)
    ensures
        le_val(enc_u32(n)) == n,
{
    lemma_le_val4(enc_u32(n));
}

/// Appends the little-endian encoding of `n`.
pub fn push_u64(out: &mut Vec<u8>, n: u64)
    ensures
        final(out)@ == old(out)@ + enc_u64(n),
{
    let n1 = n / 256;
    let n2 = n1 / 256;
    let n3 = n2 / 256;
    let n4 = n3 / 256;
    let n5 = n4 / 256;
    let n6 = n5 / 256;
    let n7 = n6 / 256;
    out.push((n % 256) as u8);
    out.push((n1 % 256) as u8);
    out.push((n2 % 256) as u8);
    out.push((n3 % 256) as u8);
    out.push((n4 % 256) as u8);
    out.push((n5 % 256) as u8);
    out.push((n6 % 256) as u8);
    out.push((n7 % 256) as u8);
    assert(out@ =~= old(out)@ + enc_u64(n));
}

/// Appends the little-endian encoding of `n`.
pub fn push_u32(out: &mut Vec<u8>, n: u32)
    ensures
        final(out)@ == old(out)@ + enc_u32(n),
{
    let n1 = n / 256;
    let n2 = n1 / 256;
    let n3 = n2 / 256;
    out.push((n % 256) as u8);
    out.push((n1 % 256) as u8);
    out.push((n2 % 256) as u8);
    out.push((n3 % 256) as u8);
    assert(out@ =~= old(out)@ + enc_u32(n));
}

/// Reads a 64-bit integer at `pos`.
pub fn dec_u64(bytes: &Vec<u8>, pos: usize) -> (r: Option<(u64, usize)>)
    requires
        pos <= bytes.len(),
    ensures
        (r is Some) == (dec_u64_s(bytes@.skip(pos as int)) is Some),
        r matches Some(t) ==> t.1 == pos + 8 && t.1 <= bytes.len() && dec_u64_s(
            bytes@.skip(pos as int),
        ) == Some((t.0, bytes@.skip(t.1 as int))),
{
    let s = Ghost(bytes@.skip(pos as int));
    if bytes.len() - pos >= 8 {
        let b0 = bytes[pos] as u64;
        let b1 = bytes[pos + 1] as u64;
        let b2 = bytes[pos + 2] as u64;
        let b3 = bytes[pos + 3] as u64;
        let b4 = bytes[pos + 4] as u64;
        let b5 = bytes[pos + 5] as u64;
        let b6 = bytes[pos + 6] as u64;
        let b7 = bytes[pos + 7] as u64;
        let v = b0 + 256 * (b1 + 256 * (b2 + 256 * (b3 + 256 * (b4 + 256 * (b5 + 256 * (b6 + 256
            * b7))))));
        proof {
            lemma_le_val8(s@.take(8));
            assert(s@.take(8)[0] == bytes@[pos as int]);
            assert(s@.take(8)[1] == bytes@[pos + 1]);
            assert(s@.take(8)[2] == bytes@[pos + 2]);
            assert(s@.take(8)[3] == bytes@[pos + 3]);
            assert(s@.take(8)[4] == bytes@[pos + 4]);
            assert(s@.take(8)[5] == bytes@[pos + 5]);
            assert(s@.take(8)[6] == bytes@[pos + 6]);
            assert(s@.take(8)[7] == bytes@[pos + 7]);
            assert(s@.skip(8) =~= bytes@.skip(pos + 8));
        }
        Some((v, pos + 8))
    } else {
        None
    }
}

/// Reads a 32-bit integer at `pos`.
pub fn dec_u32(bytes: &Vec<u8>, pos: usize) -> (r: Option<(u32, usize)>)
    requires
        pos <= bytes.len(),
    ensures
        (r is Some) == (dec_u32_s(bytes@.skip(pos as int)) is Some),
        r matches Some(t) ==> t.1 == pos + 4 && t.1 <= bytes.len() && dec_u32_s(
            bytes@.skip(pos as int),
        ) == Some((t.0, bytes@.skip(t.1 as int))),
{
    let s = Ghost(bytes@.skip(pos as int));
    if bytes.len() - pos >= 4 {
        let b0 = bytes[pos] as u32;
        let b1 = bytes[pos + 1] as u32;
        let b2 = bytes[pos + 2] as u32;
        let b3 = bytes[pos + 3] as u32;
        let v = b0 + 256 * (b1 + 256 * (b2 + 256 * b3));
        proof {
            lemma_le_val4(s@.take(4));
            assert(s@.take(4)[0] == bytes@[pos as int]);
            assert(s@.take(4)[1] == bytes@[pos + 1]);
            assert(s@.take(4)[2] == bytes@[pos + 2]);
            assert(s@.take(4)[3] == bytes@[pos + 3]);
            assert(s@.skip(4) =~= bytes@.skip(pos + 4));
        }
        Some((v, pos + 4))
    } else {
        None
    }
}

/// A little-endian encoding decodes back to the integer it came from.
pub proof fn lemma_dec_u64_of_enc(n: u64, rest: Seq<u8>)
    ensures
        dec_u64_s(enc_u64(n) + rest) == Some((n, rest)),
{
    let t = enc_u64(n) + rest;
    assert(t.take(8) =~= enc_u64(n));
    assert(t.skip(8) =~= rest);
    lemma_le_val_enc_u64(n);
}

/// A little-endian encoding decodes back to the integer it came from.
pub proof fn lemma_dec_u32_of_enc(n: u32, rest: Seq<u8>)
    ensures
        dec_u32_s(enc_u32(n) + rest) == Some((n, rest)),
{
    let t = enc_u32(n) + rest;
    assert(t.take(4) =~= enc_u32(n));
    assert(t.skip(4) =~= rest);
    lemma_le_val_enc_u32(n);
}

// ---------------------------------------------------------------------------
// Characters and strings
// ---------------------------------------------------------------------------

/// Relies on char::from_u32: it returns the character of the given scalar
/// value, and None exactly on surrogates and values past the Unicode maximum.
pub assume_specification [ char::from_u32 ](i: u32) -> (r: Option<char>)
    ensures
        (r is Some) == vstd::utf8::is_scalar(i),
        r matches Some(c) ==> c as u32 == i,
;

/// Relies on String::push appending exactly one character.
pub assume_specification [ String::push ](s: &mut String, c: char)
    ensures
        final(s)@ == old(s)@.push(c),
;

/// A character is framed as its scalar value, little-endian.
pub open spec fn enc_char(c: char) -> Seq<u8> {
    enc_u32(c as u32)
}

/// Characters framed one after the other.
pub open spec fn enc_chars(s: Seq<char>) -> Seq<u8>
    decreases s.len(),
{
    if s.len() == 0 {
        Seq::<u8>::empty()
    } else {
        enc_char(s[0]) + enc_chars(s.skip(1))
    }
}

/// A string is framed as its character count followed by its characters.
pub open spec fn enc_str(s: Seq<char>) -> Seq<u8> {
    enc_u64(s.len() as u64) + enc_chars(s)
}

/// Reads one character off the front of `s`.
pub open spec fn dec_char_s(s: Seq<u8>) -> Option<(char, Seq<u8>)> {
    match dec_u32_s(s) {
        Option::None => Option::None,
        Option::Some((v, r)) => if vstd::utf8::is_scalar(v) {
            Option::Some(((v as char), r))
        } else {
            Option::None
        },
    }
}

/// Reads `n` characters off the front of `s`.
pub open spec fn dec_chars_s(n: nat, s: Seq<u8>) -> Option<(Seq<char>, Seq<u8>)>
    decreases n,
{
    if n == 0 {
        Option::Some((Seq::<char>::empty(), s))
    } else {
        match dec_char_s(s) {
            Option::None => Option::None,
            Option::Some((c, r)) => match dec_chars_s((n - 1) as nat, r) {
                Option::None => Option::None,
                Option::Some(t) => Option::Some((seq![c] + t.0, t.1)),
            },
        }
    }
}

/// Reads a framed string off the front of `s`.
pub open spec fn dec_str_s(s: Seq<u8>) -> Option<(Seq<char>, Seq<u8>)> {
    match dec_u64_s(s) {
        Option::None => Option::None,
        Option::Some((n, r)) => dec_chars_s(n as nat, r),
    }
}

/// Concatenation distributes over character framing.
proof fn lemma_enc_chars_append(a: Seq<char>, b: Seq<char>)
    ensures
        enc_chars(a + b) == enc_chars(a) + enc_chars(b),
    decreases a.len(),
{
    if a.len() == 0 {
        assert(a + b =~= b);
        assert(enc_chars(a) + enc_chars(b) =~= enc_chars(b));
    } else {
        assert((a + b).skip(1) =~= a.skip(1) + b);
        assert((a + b)[0] == a[0]);
        assert((a + b).len() > 0);
        lemma_enc_chars_append(a.skip(1), b);
        assert(enc_chars(a + b) == enc_char(a[0]) + (enc_chars(a.skip(1)) + enc_chars(b)));
        assert(enc_char(a[0]) + (enc_chars(a.skip(1)) + enc_chars(b)) =~= (enc_char(a[0])
            + enc_chars(a.skip(1))) + enc_chars(b));
    }
}

proof fn lemma_enc_chars_singleton(c: char)
    ensures
        enc_chars(seq![c]) == enc_char(c),
{
    assert(seq![c].skip(1) =~= Seq::<char>::empty());
    assert(enc_chars(seq![c]) == enc_char(c) + enc_chars(Seq::<char>::empty()));
    assert(enc_char(c) + Seq::<u8>::empty() =~= enc_char(c));
}

/// Appends the framing of one character.
pub fn push_char(out: &mut Vec<u8>, c: char)
    ensures
        final(out)@ == old(out)@ + enc_char(c),
{
    push_u32(out, c as u32);
}

/// Appends the framed form of `s` (count, then characters).
pub fn push_str(out: &mut Vec<u8>, s: &str)
    ensures
        final(out)@ == old(out)@ + enc_str(s@),
{
    let n = s.unicode_len();
    push_u64(out, n as u64);
    let ghost mid = out@;
    let mut i: usize = 0;
    while i < n
        invariant
            i <= n,
            n == s@.len(),
            out@ == mid + enc_chars(s@.take(i as int)),
        decreases n - i,
    {
        push_char(out, s.get_char(i));
        proof {
            lemma_enc_chars_append(s@.take(i as int), seq![s@[i as int]]);
            lemma_enc_chars_singleton(s@[i as int]);
            assert(s@.take(i + 1) =~= s@.take(i as int) + seq![s@[i as int]]);
            assert(out@ =~= mid + enc_chars(s@.take(i + 1)));
        }
        i = i + 1;
    }
    proof {
        assert(s@.take(n as int) =~= s@);
        assert(out@ =~= old(out)@ + enc_str(s@));
    }
}

/// Reads one framed character at `pos`.
pub fn dec_char(bytes: &Vec<u8>, pos: usize) -> (r: Option<(char, usize)>)
    requires
        pos <= bytes.len(),
    ensures
        (r is Some) == (dec_char_s(bytes@.skip(pos as int)) is Some),
        r matches Some(t) ==> t.1 == pos + 4 && t.1 <= bytes.len() && dec_char_s(
            bytes@.skip(pos as int),
        ) == Some((t.0, bytes@.skip(t.1 as int))),
{
    match dec_u32(bytes, pos) {
        Option::None => Option::None,
        Option::Some((v, p)) => match char::from_u32(v) {
            Option::None => Option::None,
            Option::Some(c) => {
                proof {
                    vstd::utf8::char_u32_cast(c, v);
                }
                Option::Some((c, p))
            },
        },
    }
}

/// No sequence of characters fits in fewer bytes than characters.
proof fn lemma_dec_chars_insufficient(n: nat, s: Seq<u8>)
    requires
        n > s.len(),
    ensures
        dec_chars_s(n, s) is None,
    decreases n,
{
    if s.len() >= 4 {
        match dec_char_s(s) {
            Option::None => {},
            Option::Some((c, r)) => {
                lemma_dec_chars_insufficient((n - 1) as nat, r);
            },
        }
    }
}

/// Reading characters never grows the remaining input.
proof fn lemma_dec_chars_mono(n: nat, s: Seq<u8>)
    ensures
        dec_chars_s(n, s) matches Some(t) ==> t.1.len() <= s.len(),
    decreases n,
{
    if n > 0 {
        match dec_char_s(s) {
            Option::None => {},
            Option::Some((c, r)) => {
                lemma_dec_chars_mono((n - 1) as nat, r);
            },
        }
    }
}

/// A framed string consumes at least its count prefix.
proof fn lemma_dec_str_shrinks(s: Seq<u8>)
    ensures
        dec_str_s(s) matches Some(t) ==> t.1.len() + 8 <= s.len(),
{
    match dec_u64_s(s) {
        Option::None => {},
        Option::Some((n, r)) => {
            lemma_dec_chars_mono(n as nat, r);
        },
    }
}

/// Reads a framed string at `pos`.
pub fn dec_str(bytes: &Vec<u8>, pos: usize) -> (r: Option<(String, usize)>)
    requires
        pos <= bytes.len(),
    ensures
        (r is Some) == (dec_str_s(bytes@.skip(pos as int)) is Some),
        r matches Some(t) ==> pos <= t.1 <= bytes.len() && dec_str_s(bytes@.skip(pos as int))
            == Some((t.0@, bytes@.skip(t.1 as int))),
{
    let head = dec_u64(bytes, pos);
    match head {
        Option::None => Option::None,
        Option::Some((n, p0)) => {
            if n > (bytes.len() as u64) {
                proof {
                    lemma_dec_chars_insufficient(n as nat, bytes@.skip(p0 as int));
                    assert(dec_str_s(bytes@.skip(pos as int)) == dec_chars_s(
                        n as nat,
                        bytes@.skip(p0 as int),
                    ));
                }
                return Option::None;
            }
            let ghost s0 = bytes@.skip(p0 as int);
            let mut acc = String::new();
            let mut i: u64 = 0;
            let mut p: usize = p0;
            proof {
                match dec_chars_s(n as nat, s0) {
                    Option::None => {},
                    Option::Some(t) => {
                        assert(Seq::<char>::empty() + t.0 =~= t.0);
                    },
                }
            }
            while i < n
                invariant
                    i <= n,
                    pos <= bytes.len(),
                    p0 <= p <= bytes.len(),
                    dec_str_s(bytes@.skip(pos as int)) == dec_chars_s(n as nat, s0),
                    dec_chars_s(n as nat, s0) == (match dec_chars_s(
                        (n - i) as nat,
                        bytes@.skip(p as int),
                    ) {
                        Option::None => Option::None,
                        Option::Some(t) => Option::Some((acc@ + t.0, t.1)),
                    }),
                decreases n - i,
            {
                let ghost cur = bytes@.skip(p as int);
                let ghost rem = (n - i) as nat;
                match dec_char(bytes, p) {
                    Option::None => {
                        assert(dec_chars_s(rem, cur) is None);
                        return Option::None;
                    },
                    Option::Some((c, p2)) => {
                        let ghost prev = acc@;
                        acc.push(c);
                        proof {
                            assert(dec_char_s(cur) == Option::Some((c, bytes@.skip(p2 as int))));
                            match dec_chars_s((rem - 1) as nat, bytes@.skip(p2 as int)) {
                                Option::None => {
                                    assert(dec_chars_s(rem, cur) is None);
                                },
                                Option::Some(u) => {
                                    assert(dec_chars_s(rem, cur) == Option::Some(
                                        (seq![c] + u.0, u.1),
                                    ));
                                    assert(prev + (seq![c] + u.0) =~= acc@ + u.0);
                                },
                            }
                        }
                        p = p2;
                        i = i + 1;
                    },
                }
            }
            proof {
                assert(dec_chars_s(0, bytes@.skip(p as int)) == Option::Some(
                    (Seq::<char>::empty(), bytes@.skip(p as int)),
                ));
                assert(acc@ + Seq::<char>::empty() =~= acc@);
            }
            Option::Some((acc, p))
        },
    }
}

/// A framed string decodes back to the character sequence it came from.
pub proof fn lemma_dec_chars_of_enc(s: Seq<char>, rest: Seq<u8>)
    ensures
        dec_chars_s(s.len(), enc_chars(s) + rest) == Some((s, rest)),
    decreases s.len(),
{
    if s.len() == 0 {
        assert(enc_chars(s) + rest =~= rest);
    } else {
        let tail = enc_chars(s.skip(1)) + rest;
        assert(enc_chars(s) + rest =~= enc_char(s[0]) + tail);
        lemma_dec_u32_of_enc(s[0] as u32, tail);
        vstd::utf8::char_is_scalar(s[0]);
        vstd::utf8::char_u32_cast(s[0], s[0] as u32);
        lemma_dec_chars_of_enc(s.skip(1), rest);
        assert(seq![s[0]] + s.skip(1) =~= s);
    }
}

/// A framed string decodes back to the string it came from.
pub proof fn lemma_dec_str_of_enc(s: Seq<char>, rest: Seq<u8>)
    requires
        s.len() <= 0xFFFFFFFFFFFFFFFF,
    ensures
        dec_str_s(enc_str(s) + rest) == Some((s, rest)),
{
    let tail = enc_chars(s) + rest;
    assert(enc_str(s) + rest =~= enc_u64(s.len() as u64) + tail);
    lemma_dec_u64_of_enc(s.len() as u64, tail);
    lemma_dec_chars_of_enc(s, rest);
}

/// Frames one string as bytes for storage.
pub fn encode_string(s: &str) -> (r: Vec<u8>)
    ensures
        r@ == enc_str(s@),
{
    let mut out: Vec<u8> = Vec::new();
    push_str(&mut out, s);
    proof {
        assert(Seq::<u8>::empty() + enc_str(s@) =~= enc_str(s@));
    }
    out
}

/// Reads a string that must fill the whole buffer.
pub open spec fn dec_string_full(s: Seq<u8>) -> Option<Seq<char>> {
    match dec_str_s(s) {
        Option::None => Option::None,
        Option::Some(t) => if t.1.len() == 0 {
            Option::Some(t.0)
        } else {
            Option::None
        },
    }
}

/// Decodes a stored string, requiring the buffer to hold exactly one string.
pub fn decode_string(bytes: &Vec<u8>) -> (r: Option<String>)
    ensures
        (r is Some) == (dec_string_full(bytes@) is Some),
        r matches Some(s) ==> dec_string_full(bytes@) == Some(s@),
{
    proof {
        assert(bytes@.skip(0) =~= bytes@);
    }
    match dec_str(bytes, 0) {
        Option::None => Option::None,
        Option::Some((s, p)) => {
            if p == bytes.len() {
                proof {
                    assert(bytes@.skip(p as int).len() == 0);
                }
                Option::Some(s)
            } else {
                Option::None
            }
        },
    }
}

/// Round trip: a string framed by [`enc_str`] decodes back to itself.
pub proof fn lemma_string_round_trip(s: Seq<char>)
    requires
        s.len() <= 0xFFFFFFFFFFFFFFFF,
    ensures
        dec_string_full(enc_str(s)) == Some(s),
{
    lemma_dec_str_of_enc(s, Seq::<u8>::empty());
    assert(enc_str(s) + Seq::<u8>::empty() =~= enc_str(s));
}

// ---------------------------------------------------------------------------
// Message kind
// ---------------------------------------------------------------------------

/// A message kind is framed as one tag byte.
pub open spec fn enc_type(t: MessageType) -> Seq<u8> {
    match t {
        MessageType::B32Exchange => seq![0u8],
        MessageType::Stem => seq![1u8],
        MessageType::Fluff => seq![2u8],
    }
}

/// Reads a kind tag off the front of `s`.
pub open spec fn dec_type_s(s: Seq<u8>) -> Option<(MessageType, Seq<u8>)> {
    if s.len() >= 1 {
        if s[0] == 0 {
            Option::Some((MessageType::B32Exchange, s.skip(1)))
        } else if s[0] == 1 {
            Option::Some((MessageType::Stem, s.skip(1)))
        } else if s[0] == 2 {
            Option::Some((MessageType::Fluff, s.skip(1)))
        } else {
            Option::None
        }
    } else {
        Option::None
    }
}

/// Appends the tag byte of `t`.
pub fn push_type(out: &mut Vec<u8>, t: MessageType)
    ensures
        final(out)@ == old(out)@ + enc_type(t),
{
    let b: u8 = match t {
        MessageType::B32Exchange => 0,
        MessageType::Stem => 1,
        MessageType::Fluff => 2,
    };
    out.push(b);
    assert(out@ =~= old(out)@ + enc_type(t));
}

/// Reads a kind tag at `pos`.
pub fn dec_type(bytes: &Vec<u8>, pos: usize) -> (r: Option<(MessageType, usize)>)
    requires
        pos <= bytes.len(),
    ensures
        (r is Some) == (dec_type_s(bytes@.skip(pos as int)) is Some),
        r matches Some(t) ==> t.1 == pos + 1 && t.1 <= bytes.len() && dec_type_s(
            bytes@.skip(pos as int),
        ) == Some((t.0, bytes@.skip(t.1 as int))),
{
    if pos < bytes.len() {
        let ghost s = bytes@.skip(pos as int);
        proof {
            assert(s[0] == bytes@[pos as int]);
            assert(s.skip(1) =~= bytes@.skip(pos + 1));
        }
        let b = bytes[pos];
        if b == 0 {
            Option::Some((MessageType::B32Exchange, pos + 1))
        } else if b == 1 {
            Option::Some((MessageType::Stem, pos + 1))
        } else if b == 2 {
            Option::Some((MessageType::Fluff, pos + 1))
        } else {
            Option::None
        }
    } else {
        Option::None
    }
}

/// A framed kind decodes back to the kind it came from.
pub proof fn lemma_dec_type_of_enc(t: MessageType, rest: Seq<u8>)
    ensures
        dec_type_s(enc_type(t) + rest) == Some((t, rest)),
{
    assert((enc_type(t) + rest).skip(1) =~= rest);
}

// ---------------------------------------------------------------------------
// Whole messages
// ---------------------------------------------------------------------------

/// A message is the concatenation of its framed fields.
pub open spec fn enc_message(m: MessageView) -> Seq<u8> {
    enc_str(m.mid) + enc_str(m.data) + enc_u64(m.created) + enc_str(m.from_peer) + enc_str(
        m.to_peer,
    ) + enc_type(m.m_type) + enc_u64(m.fluff_probability_bits) + enc_str(m.pow_problem) + enc_str(
        m.pow_solution,
    )
}

/// Reads one framed message off the front of `s`.
pub open spec fn dec_message_s(s: Seq<u8>) -> Option<(MessageView, Seq<u8>)> {
    match dec_str_s(s) {
        Option::None => Option::None,
        Option::Some((mid, s1)) => match dec_str_s(s1) {
            Option::None => Option::None,
            Option::Some((data, s2)) => match dec_u64_s(s2) {
                Option::None => Option::None,
                Option::Some((created, s3)) => match dec_str_s(s3) {
                    Option::None => Option::None,
                    Option::Some((from_peer, s4)) => match dec_str_s(s4) {
                        Option::None => Option::None,
                        Option::Some((to_peer, s5)) => match dec_type_s(s5) {
                            Option::None => Option::None,
                            Option::Some((m_type, s6)) => match dec_u64_s(s6) {
                                Option::None => Option::None,
                                Option::Some((bits, s7)) => match dec_str_s(s7) {
                                    Option::None => Option::None,
                                    Option::Some((pow_problem, s8)) => match dec_str_s(s8) {
                                        Option::None => Option::None,
                                        Option::Some((pow_solution, s9)) => Option::Some(
                                            (
                                                MessageView {
                                                    mid,
                                                    data,
                                                    created,
                                                    from_peer,
                                                    to_peer,
                                                    m_type,
                                                    fluff_probability_bits: bits,
                                                    pow_problem,
                                                    pow_solution,
                                                },
                                                s9,
                                            ),
                                        ),
                                    },
                                },
                            },
                        },
                    },
                },
            },
        },
    }
}

/// Appends the framed form of a whole message.
pub fn push_message(out: &mut Vec<u8>, m: &Message)
    ensures
        final(out)@ == old(out)@ + enc_message(m@),
{
    push_str(out, m.mid.as_str());
    push_str(out, m.data.as_str());
    push_u64(out, m.created);
    push_str(out, m.from.as_str());
    push_str(out, m.to.as_str());
    push_type(out, m.m_type);
    push_u64(out, m.fluff_probability_bits);
    push_str(out, m.pow_problem.as_str());
    push_str(out, m.pow_solution.as_str());
    assert(out@ =~= old(out)@ + enc_message(m@));
}

/// Frames a message as bytes for storage or gossip.
pub fn encode_message(m: &Message) -> (r: Vec<u8>)
    ensures
        r@ == enc_message(m@),
{
    let mut out: Vec<u8> = Vec::new();
    push_message(&mut out, m);
    proof {
        assert(Seq::<u8>::empty() + enc_message(m@) =~= enc_message(m@));
    }
    out
}

/// Reads one framed message at `pos`.
pub fn decode_message_at(bytes: &Vec<u8>, pos: usize) -> (r: Option<(Message, usize)>)
    requires
        pos <= bytes.len(),
    ensures
        (r is Some) == (dec_message_s(bytes@.skip(pos as int)) is Some),
        r matches Some(t) ==> pos <= t.1 <= bytes.len() && dec_message_s(bytes@.skip(pos as int))
            == Some((t.0@, bytes@.skip(t.1 as int))),
{
    let r1 = match dec_str(bytes, pos) {
        Option::None => {
            return Option::None;
        },
        Option::Some(t) => t,
    };
    let r2 = match dec_str(bytes, r1.1) {
        Option::None => {
            return Option::None;
        },
        Option::Some(t) => t,
    };
    let r3 = match dec_u64(bytes, r2.1) {
        Option::None => {
            return Option::None;
        },
        Option::Some(t) => t,
    };
    let r4 = match dec_str(bytes, r3.1) {
        Option::None => {
            return Option::None;
        },
        Option::Some(t) => t,
    };
    let r5 = match dec_str(bytes, r4.1) {
        Option::None => {
            return Option::None;
        },
        Option::Some(t) => t,
    };
    let r6 = match dec_type(bytes, r5.1) {
        Option::None => {
            return Option::None;
        },
        Option::Some(t) => t,
    };
    let r7 = match dec_u64(bytes, r6.1) {
        Option::None => {
            return Option::None;
        },
        Option::Some(t) => t,
    };
    let r8 = match dec_str(bytes, r7.1) {
        Option::None => {
            return Option::None;
        },
        Option::Some(t) => t,
    };
    let r9 = match dec_str(bytes, r8.1) {
        Option::None => {
            return Option::None;
        },
        Option::Some(t) => t,
    };
    let m = Message {
        mid: r1.0,
        data: r2.0,
        created: r3.0,
        from: r4.0,
        to: r5.0,
        m_type: r6.0,
        fluff_probability_bits: r7.0,
        pow_problem: r8.0,
        pow_solution: r9.0,
    };
    Option::Some((m, r9.1))
}

/// Reads a message that must fill the whole buffer.
pub open spec fn dec_message_full(s: Seq<u8>) -> Option<MessageView> {
    match dec_message_s(s) {
        Option::None => Option::None,
        Option::Some(t) => if t.1.len() == 0 {
            Option::Some(t.0)
        } else {
            Option::None
        },
    }
}

/// Decodes a gossiped or stored message, requiring the buffer to hold
/// exactly one message.
pub fn decode_message(bytes: &Vec<u8>) -> (r: Option<Message>)
    ensures
        (r is Some) == (dec_message_full(bytes@) is Some),
        r matches Some(m) ==> dec_message_full(bytes@) == Some(m@),
{
    proof {
        assert(bytes@.skip(0) =~= bytes@);
    }
    match decode_message_at(bytes, 0) {
        Option::None => Option::None,
        Option::Some((m, p)) => {
            if p == bytes.len() {
                proof {
                    assert(bytes@.skip(p as int).len() == 0);
                }
                Option::Some(m)
            } else {
                Option::None
            }
        },
    }
}

/// Every string field of the view fits the wire format's length prefix.
pub open spec fn bounded_message_view(m: MessageView) -> bool {
    &&& m.mid.len() <= 0xFFFFFFFFFFFFFFFF
    &&& m.data.len() <= 0xFFFFFFFFFFFFFFFF
    &&& m.from_peer.len() <= 0xFFFFFFFFFFFFFFFF
    &&& m.to_peer.len() <= 0xFFFFFFFFFFFFFFFF
    &&& m.pow_problem.len() <= 0xFFFFFFFFFFFFFFFF
    &&& m.pow_solution.len() <= 0xFFFFFFFFFFFFFFFF
}

/// A framed message decodes back to the view it came from.
#[verifier::rlimit(100)]
#[verifier::spinoff_prover]
pub proof fn lemma_dec_message_of_enc(m: MessageView, rest: Seq<u8>)
    requires
        bounded_message_view(m),
    ensures
        dec_message_s(enc_message(m) + rest) == Some((m, rest)),
{
    let a1 = enc_str(m.mid);
    let a2 = enc_str(m.data);
    let a3 = enc_u64(m.created);
    let a4 = enc_str(m.from_peer);
    let a5 = enc_str(m.to_peer);
    let a6 = enc_type(m.m_type);
    let a7 = enc_u64(m.fluff_probability_bits);
    let a8 = enc_str(m.pow_problem);
    let a9 = enc_str(m.pow_solution);
    let t9 = a9 + rest;
    let t8 = a8 + t9;
    let t7 = a7 + t8;
    let t6 = a6 + t7;
    let t5 = a5 + t6;
    let t4 = a4 + t5;
    let t3 = a3 + t4;
    let t2 = a2 + t3;
    let l2 = a1 + a2;
    let l3 = l2 + a3;
    let l4 = l3 + a4;
    let l5 = l4 + a5;
    let l6 = l5 + a6;
    let l7 = l6 + a7;
    let l8 = l7 + a8;
    let l9 = l8 + a9;
    assert(enc_message(m) == l9);
    assert(l9 + rest =~= l8 + t9);
    assert(l8 + t9 =~= l7 + t8);
    assert(l7 + t8 =~= l6 + t7);
    assert(l6 + t7 =~= l5 + t6);
    assert(l5 + t6 =~= l4 + t5);
    assert(l4 + t5 =~= l3 + t4);
    assert(l3 + t4 =~= l2 + t3);
    assert(l2 + t3 =~= a1 + t2);
    assert(enc_message(m) + rest =~= a1 + t2);
    lemma_dec_str_of_enc(m.mid, t2);
    assert(dec_str_s(a1 + t2) == Some((m.mid, t2)));
    lemma_dec_str_of_enc(m.data, t3);
    assert(dec_str_s(t2) == Some((m.data, t3)));
    lemma_dec_u64_of_enc(m.created, t4);
    assert(dec_u64_s(t3) == Some((m.created, t4)));
    lemma_dec_str_of_enc(m.from_peer, t5);
    assert(dec_str_s(t4) == Some((m.from_peer, t5)));
    lemma_dec_str_of_enc(m.to_peer, t6);
    assert(dec_str_s(t5) == Some((m.to_peer, t6)));
    lemma_dec_type_of_enc(m.m_type, t7);
    assert(dec_type_s(t6) == Some((m.m_type, t7)));
    lemma_dec_u64_of_enc(m.fluff_probability_bits, t8);
    assert(dec_u64_s(t7) == Some((m.fluff_probability_bits, t8)));
    lemma_dec_str_of_enc(m.pow_problem, t9);
    assert(dec_str_s(t8) == Some((m.pow_problem, t9)));
    lemma_dec_str_of_enc(m.pow_solution, rest);
    assert(dec_str_s(t9) == Some((m.pow_solution, rest)));
}

/// Round trip: a message framed by [`enc_message`] decodes back to itself.
///
/// This is the serialization law of the relay: every field survives a trip
/// through the wire format.
pub proof fn lemma_message_round_trip(m: MessageView)
    requires
        bounded_message_view(m),
    ensures
        dec_message_full(enc_message(m)) == Some(m),
{
    lemma_dec_message_of_enc(m, Seq::<u8>::empty());
    assert(enc_message(m) + Seq::<u8>::empty() =~= enc_message(m));
}

// ---------------------------------------------------------------------------
// Message lists (the stored shape of the fluff queue and the inbox)
// ---------------------------------------------------------------------------

/// The views of a sequence of messages.
pub open spec fn views_of(s: Seq<Message>) -> Seq<MessageView> {
    Seq::new(s.len(), |i: int| s[i]@)
}

/// Messages framed one after the other.
pub open spec fn enc_msg_seq(vs: Seq<MessageView>) -> Seq<u8>
    decreases vs.len(),
{
    if vs.len() == 0 {
        Seq::<u8>::empty()
    } else {
        enc_message(vs[0]) + enc_msg_seq(vs.skip(1))
    }
}

/// A message list is framed as its count followed by its messages.
pub open spec fn enc_messages(vs: Seq<MessageView>) -> Seq<u8> {
    enc_u64(vs.len() as u64) + enc_msg_seq(vs)
}

/// Reads `n` framed messages off the front of `s`.
pub open spec fn dec_msgs_s(n: nat, s: Seq<u8>) -> Option<(Seq<MessageView>, Seq<u8>)>
    decreases n,
{
    if n == 0 {
        Option::Some((Seq::<MessageView>::empty(), s))
    } else {
        match dec_message_s(s) {
            Option::None => Option::None,
            Option::Some((m, r)) => match dec_msgs_s((n - 1) as nat, r) {
                Option::None => Option::None,
                Option::Some(t) => Option::Some((seq![m] + t.0, t.1)),
            },
        }
    }
}

/// Reads a message list that must fill the whole buffer.
pub open spec fn dec_messages_full(s: Seq<u8>) -> Option<Seq<MessageView>> {
    match dec_u64_s(s) {
        Option::None => Option::None,
        Option::Some((n, r)) => match dec_msgs_s(n as nat, r) {
            Option::None => Option::None,
            Option::Some(t) => if t.1.len() == 0 {
                Option::Some(t.0)
            } else {
                Option::None
            },
        },
    }
}

/// Concatenation distributes over message framing.
proof fn lemma_enc_msg_seq_append(a: Seq<MessageView>, b: Seq<MessageView>)
    ensures
        enc_msg_seq(a + b) == enc_msg_seq(a) + enc_msg_seq(b),
    decreases a.len(),
{
    if a.len() == 0 {
        assert(a + b =~= b);
        assert(enc_msg_seq(a) + enc_msg_seq(b) =~= enc_msg_seq(b));
    } else {
        assert((a + b).skip(1) =~= a.skip(1) + b);
        assert((a + b)[0] == a[0]);
        assert((a + b).len() > 0);
        lemma_enc_msg_seq_append(a.skip(1), b);
        assert(enc_msg_seq(a + b) == enc_message(a[0]) + (enc_msg_seq(a.skip(1)) + enc_msg_seq(b)));
        assert(enc_message(a[0]) + (enc_msg_seq(a.skip(1)) + enc_msg_seq(b)) =~= (enc_message(a[0])
            + enc_msg_seq(a.skip(1))) + enc_msg_seq(b));
    }
}

proof fn lemma_enc_msg_seq_singleton(m: MessageView)
    ensures
        enc_msg_seq(seq![m]) == enc_message(m),
{
    assert(seq![m].skip(1) =~= Seq::<MessageView>::empty());
    assert(enc_msg_seq(seq![m]) == enc_message(m) + enc_msg_seq(Seq::<MessageView>::empty()));
    assert(enc_message(m) + Seq::<u8>::empty() =~= enc_message(m));
}

/// A framed message consumes at least one byte.
proof fn lemma_dec_message_shrinks(s: Seq<u8>)
    ensures
        dec_message_s(s) matches Some(t) ==> t.1.len() < s.len(),
{
    lemma_dec_str_shrinks(s);
    match dec_str_s(s) {
        Option::None => {},
        Option::Some((mid, s1)) => {
            lemma_dec_str_shrinks(s1);
            match dec_str_s(s1) {
                Option::None => {},
                Option::Some((data, s2)) => match dec_u64_s(s2) {
                    Option::None => {},
                    Option::Some((created, s3)) => {
                        lemma_dec_str_shrinks(s3);
                        match dec_str_s(s3) {
                            Option::None => {},
                            Option::Some((from_peer, s4)) => {
                                lemma_dec_str_shrinks(s4);
                                match dec_str_s(s4) {
                                    Option::None => {},
                                    Option::Some((to_peer, s5)) => match dec_type_s(s5) {
                                        Option::None => {},
                                        Option::Some((m_type, s6)) => match dec_u64_s(s6) {
                                            Option::None => {},
                                            Option::Some((bits, s7)) => {
                                                lemma_dec_str_shrinks(s7);
                                                match dec_str_s(s7) {
                                                    Option::None => {},
                                                    Option::Some((pp, s8)) => {
                                                        lemma_dec_str_shrinks(s8);
                                                    },
                                                }
                                            },
                                        },
                                    },
                                }
                            },
                        }
                    },
                },
            }
        },
    }
}

/// No list of messages fits in fewer bytes than messages.
proof fn lemma_dec_msgs_insufficient(n: nat, s: Seq<u8>)
    requires
        n > s.len(),
    ensures
        dec_msgs_s(n, s) is None,
    decreases n,
{
    lemma_dec_message_shrinks(s);
    match dec_message_s(s) {
        Option::None => {},
        Option::Some((m, r)) => {
            lemma_dec_msgs_insufficient((n - 1) as nat, r);
        },
    }
}

/// Frames a message list as bytes for storage.
pub fn encode_messages(msgs: &Vec<Message>) -> (r: Vec<u8>)
    ensures
        r@ == enc_messages(views_of(msgs@)),
{
    let mut out: Vec<u8> = Vec::new();
    let n = msgs.len();
    push_u64(&mut out, n as u64);
    let ghost mid = out@;
    proof {
        assert(Seq::<u8>::empty() + enc_u64(n as u64) =~= enc_u64(n as u64));
        assert(views_of(msgs@).len() == n);
    }
    let mut i: usize = 0;
    while i < n
        invariant
            i <= n,
            n == msgs.len(),
            mid == enc_u64(n as u64),
            out@ == mid + enc_msg_seq(views_of(msgs@).take(i as int)),
        decreases n - i,
    {
        push_message(&mut out, &msgs[i]);
        proof {
            let vs = views_of(msgs@);
            lemma_enc_msg_seq_append(vs.take(i as int), seq![vs[i as int]]);
            lemma_enc_msg_seq_singleton(vs[i as int]);
            assert(vs.take(i + 1) =~= vs.take(i as int) + seq![vs[i as int]]);
            assert(out@ =~= mid + enc_msg_seq(vs.take(i + 1)));
        }
        i = i + 1;
    }
    proof {
        assert(views_of(msgs@).take(n as int) =~= views_of(msgs@));
    }
    out
}

/// Decodes a stored message list, requiring the buffer to hold exactly one
/// list.
pub fn decode_messages(bytes: &Vec<u8>) -> (r: Option<Vec<Message>>)
    ensures
        (r is Some) == (dec_messages_full(bytes@) is Some),
        r matches Some(v) ==> dec_messages_full(bytes@) == Some(views_of(v@)),
{
    proof {
        assert(bytes@.skip(0) =~= bytes@);
    }
    let head = dec_u64(bytes, 0);
    match head {
        Option::None => Option::None,
        Option::Some((n, p0)) => {
            if n > (bytes.len() as u64) {
                proof {
                    lemma_dec_msgs_insufficient(n as nat, bytes@.skip(p0 as int));
                }
                return Option::None;
            }
            let ghost s0 = bytes@.skip(p0 as int);
            let mut acc: Vec<Message> = Vec::new();
            let mut i: u64 = 0;
            let mut p: usize = p0;
            proof {
                match dec_msgs_s(n as nat, s0) {
                    Option::None => {},
                    Option::Some(t) => {
                        assert(views_of(acc@) + t.0 =~= t.0);
                    },
                }
            }
            while i < n
                invariant
                    i <= n,
                    p0 <= p <= bytes.len(),
                    dec_messages_full(bytes@) == (match dec_msgs_s(n as nat, s0) {
                        Option::None => Option::None,
                        Option::Some(t) => if t.1.len() == 0 {
                            Option::Some(t.0)
                        } else {
                            Option::None
                        },
                    }),
                    dec_msgs_s(n as nat, s0) == (match dec_msgs_s(
                        (n - i) as nat,
                        bytes@.skip(p as int),
                    ) {
                        Option::None => Option::None,
                        Option::Some(t) => Option::Some((views_of(acc@) + t.0, t.1)),
                    }),
                decreases n - i,
            {
                let ghost cur = bytes@.skip(p as int);
                let ghost rem = (n - i) as nat;
                match decode_message_at(bytes, p) {
                    Option::None => {
                        assert(dec_msgs_s(rem, cur) is None);
                        return Option::None;
                    },
                    Option::Some((m, p2)) => {
                        let ghost prev = acc@;
                        let ghost mv = m@;
                        acc.push(m);
                        proof {
                            assert(dec_message_s(cur) == Option::Some(
                                (mv, bytes@.skip(p2 as int)),
                            ));
                            assert(views_of(acc@) =~= views_of(prev).push(mv));
                            match dec_msgs_s((rem - 1) as nat, bytes@.skip(p2 as int)) {
                                Option::None => {
                                    assert(dec_msgs_s(rem, cur) is None);
                                },
                                Option::Some(u) => {
                                    assert(dec_msgs_s(rem, cur) == Option::Some(
                                        (seq![mv] + u.0, u.1),
                                    ));
                                    assert(views_of(prev) + (seq![mv] + u.0) =~= views_of(acc@)
                                        + u.0);
                                },
                            }
                        }
                        p = p2;
                        i = i + 1;
                    },
                }
            }
            if p == bytes.len() {
                proof {
                    assert(bytes@.skip(p as int).len() == 0);
                    assert(views_of(acc@) + Seq::<MessageView>::empty() =~= views_of(acc@));
                }
                Option::Some(acc)
            } else {
                proof {
                    assert(bytes@.skip(p as int).len() != 0);
                    assert(views_of(acc@) + Seq::<MessageView>::empty() =~= views_of(acc@));
                }
                Option::None
            }
        },
    }
}

/// All views in the sequence fit the wire format.
pub open spec fn bounded_views(vs: Seq<MessageView>) -> bool {
    forall|i: int| 0 <= i < vs.len() ==> bounded_message_view(#[trigger] vs[i])
}

/// A framed message list decodes back to the views it came from.
#[verifier::rlimit(100)]
#[verifier::spinoff_prover]
proof fn lemma_dec_msgs_of_enc(vs: Seq<MessageView>, rest: Seq<u8>)
    requires
        bounded_views(vs),
    ensures
        dec_msgs_s(vs.len(), enc_msg_seq(vs) + rest) == Some((vs, rest)),
    decreases vs.len(),
{
    if vs.len() == 0 {
        assert(enc_msg_seq(vs) + rest =~= rest);
    } else {
        let whole = enc_msg_seq(vs) + rest;
        let tail = enc_msg_seq(vs.skip(1)) + rest;
        assert(whole =~= enc_message(vs[0]) + tail);
        assert(bounded_message_view(vs[0]));
        lemma_dec_message_of_enc(vs[0], tail);
        assert(dec_message_s(whole) == Some((vs[0], tail)));
        assert(bounded_views(vs.skip(1)));
        lemma_dec_msgs_of_enc(vs.skip(1), rest);
        assert(dec_msgs_s(vs.skip(1).len(), tail) == Some((vs.skip(1), rest)));
        assert(dec_msgs_s(vs.len(), whole) == Some((seq![vs[0]] + vs.skip(1), rest)));
        assert(seq![vs[0]] + vs.skip(1) =~= vs);
    }
}

/// Round trip: a message list framed by [`enc_messages`] decodes back to
/// itself, each message field for field and in order.
pub proof fn lemma_messages_round_trip(vs: Seq<MessageView>)
    requires
        bounded_views(vs),
        vs.len() <= 0xFFFFFFFFFFFFFFFF,
    ensures
        dec_messages_full(enc_messages(vs)) == Some(vs),
{
    let tail = enc_msg_seq(vs);
    assert(enc_messages(vs) =~= enc_u64(vs.len() as u64) + tail);
    lemma_dec_u64_of_enc(vs.len() as u64, tail);
    assert(tail + Seq::<u8>::empty() =~= tail);
    lemma_dec_msgs_of_enc(vs, Seq::<u8>::empty());
}

} // verus!
