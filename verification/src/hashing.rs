//! Fingerprinting: a canonical byte serialization of semantic fields, a
//! BLAKE2b digest over it, and the textual rendering of digest bytes that
//! blocks store as their fingerprint.

use vstd::prelude::*;
use vstd::string::*;
use vstd::utf8::encode_utf8;
use blake2::Digest;

verus! {

/// The digest that BLAKE2b-512 assigns to a byte sequence.
pub uninterp spec fn blake2b_digest(input: Seq<u8>) -> Seq<u8>;

/// Relies on blake2's `Blake2b512` through `Digest::digest`: the 64-byte
/// digest is a function of the input bytes alone.
#[verifier::external_body]
pub(crate) fn blake2b_hash(input: &Vec<u8>) -> (r: Vec<u8>)
    ensures
        r@ == blake2b_digest(input@),
        r@.len() == 64,
{
    let out = blake2::Blake2b512::digest(input.as_slice());
    out.to_vec()
}

/// The character for one hex digit (lower case).
pub open spec fn hex_char(n: u8) -> char {
    if n < 10 {
        ((n + 48) as u8) as char
    } else {
        ((n + 87) as u8) as char
    }
}

/// Two hex characters for one byte, high digit first.
pub open spec fn byte_hex(b: u8) -> Seq<char> {
    seq![hex_char(b / 16), hex_char(b % 16)]
}

/// The hex rendering of a byte sequence.
pub open spec fn bytes_to_hex(s: Seq<u8>) -> Seq<char>
    decreases s.len(),
{
    if s.len() == 0 {
        Seq::empty()
    } else {
        bytes_to_hex(s.drop_last()) + byte_hex(s.last())
    }
}

/// The hex rendering of `s` has two characters per byte.
pub proof fn lemma_bytes_to_hex_len(s: Seq<u8>)
    ensures
        bytes_to_hex(s).len() == 2 * s.len(),
    decreases s.len(),
{
    if s.len() > 0 {
        lemma_bytes_to_hex_len(s.drop_last());
    }
}

/// Distinct digit values render to distinct characters.
proof fn lemma_hex_char_injective(m: u8, n: u8)
    requires
        m < 16,
        n < 16,
        hex_char(m) == hex_char(n),
    ensures
        m == n,
{
}

/// The hex rendering is injective: equal renderings only come from equal
/// byte sequences.
pub proof fn lemma_bytes_to_hex_injective(a: Seq<u8>, b: Seq<u8>)
    requires
        bytes_to_hex(a) == bytes_to_hex(b),
    ensures
        a == b,
    decreases a.len(),
{
    lemma_bytes_to_hex_len(a);
    lemma_bytes_to_hex_len(b);
    if a.len() == 0 {
        assert(a =~= b);
    } else {
        let ha = bytes_to_hex(a);
        let hb = bytes_to_hex(b);
        let x = a.last();
        let y = b.last();
        assert(ha[ha.len() - 2] == hex_char(x / 16) && ha[ha.len() - 1] == hex_char(x % 16));
        assert(hb[hb.len() - 2] == hex_char(y / 16) && hb[hb.len() - 1] == hex_char(y % 16));
        lemma_hex_char_injective(x / 16, y / 16);
        lemma_hex_char_injective(x % 16, y % 16);
        vstd::arithmetic::div_mod::lemma_fundamental_div_mod(x as int, 16);
        vstd::arithmetic::div_mod::lemma_fundamental_div_mod(y as int, 16);
        assert(x == y);
        let pa = bytes_to_hex(a.drop_last());
        let pb = bytes_to_hex(b.drop_last());
        assert(ha == pa + byte_hex(x));
        assert(hb == pb + byte_hex(y));
        assert(pa.len() == pb.len());
        assert forall|i: int| 0 <= i < pa.len() implies pa[i] == pb[i] by {
            assert(pa[i] == ha[i]);
            assert(pb[i] == hb[i]);
        }
        assert(pa =~= pb);
        lemma_bytes_to_hex_injective(a.drop_last(), b.drop_last());
        assert forall|i: int| 0 <= i < a.len() implies a[i] == b[i] by {
            if i < a.len() - 1 {
                assert(a[i] == a.drop_last()[i]);
                assert(b[i] == b.drop_last()[i]);
            }
        }
        assert(a =~= b);
    }
}

fn hex_digit_str(n: u8) -> (d: &'static str)
    requires
        n < 16,
    ensures
        d@ == seq![hex_char(n)],
{
    let d: &'static str = match n {
        0 => {
            proof { reveal_strlit("0"); }
            "0"
        },
        1 => {
            proof { reveal_strlit("1"); }
            "1"
        },
        2 => {
            proof { reveal_strlit("2"); }
            "2"
        },
        3 => {
            proof { reveal_strlit("3"); }
            "3"
        },
        4 => {
            proof { reveal_strlit("4"); }
            "4"
        },
        5 => {
            proof { reveal_strlit("5"); }
            "5"
        },
        6 => {
            proof { reveal_strlit("6"); }
            "6"
        },
        7 => {
            proof { reveal_strlit("7"); }
            "7"
        },
        8 => {
            proof { reveal_strlit("8"); }
            "8"
        },
        9 => {
            proof { reveal_strlit("9"); }
            "9"
        },
        10 => {
            proof { reveal_strlit("a"); }
            "a"
        },
        11 => {
            proof { reveal_strlit("b"); }
            "b"
        },
        12 => {
            proof { reveal_strlit("c"); }
            "c"
        },
        13 => {
            proof { reveal_strlit("d"); }
            "d"
        },
        14 => {
            proof { reveal_strlit("e"); }
            "e"
        },
        _ => {
            proof { reveal_strlit("f"); }
            "f"
        },
    };
    assert(d@ =~= seq![hex_char(n)]);
    d
}

/// Renders a byte fingerprint to the string form that blocks store:
/// two lower-case hex characters per byte, in byte order.
pub fn byte_vector_to_string(arr: &Vec<u8>) -> (r: String)
    ensures
        r@ == bytes_to_hex(arr@),
{
    let mut s = String::new();
    let mut i: usize = 0;
    while i < arr.len()
        invariant
            i <= arr.len(),
            s@ == bytes_to_hex(arr@.subrange(0, i as int)),
        decreases arr.len() - i,
    {
        let b = arr[i];
        let hi = hex_digit_str(b / 16);
        let lo = hex_digit_str(b % 16);
        s.append(hi);
        s.append(lo);
        proof {
            assert(arr@.subrange(0, (i + 1) as int).drop_last() =~= arr@.subrange(0, i as int));
            assert(arr@.subrange(0, (i + 1) as int).last() == b);
            assert(s@ =~= bytes_to_hex(arr@.subrange(0, (i + 1) as int)));
        }
        i += 1;
    }
    proof {
        assert(arr@.subrange(0, arr@.len() as int) =~= arr@);
    }
    s
}

/// Eight little-endian bytes of a 64-bit value.
pub open spec fn u64_bytes(x: u64) -> Seq<u8> {
    seq![
        x as u8,
        (x >> 8) as u8,
        (x >> 16) as u8,
        (x >> 24) as u8,
        (x >> 32) as u8,
        (x >> 40) as u8,
        (x >> 48) as u8,
        (x >> 56) as u8,
    ]
}

/// Sixteen little-endian bytes of a 128-bit value.
pub open spec fn u128_bytes(x: u128) -> Seq<u8> {
    seq![
        x as u8,
        (x >> 8) as u8,
        (x >> 16) as u8,
        (x >> 24) as u8,
        (x >> 32) as u8,
        (x >> 40) as u8,
        (x >> 48) as u8,
        (x >> 56) as u8,
        (x >> 64) as u8,
        (x >> 72) as u8,
        (x >> 80) as u8,
        (x >> 88) as u8,
        (x >> 96) as u8,
        (x >> 104) as u8,
        (x >> 112) as u8,
        (x >> 120) as u8,
    ]
}

/// A string's contribution to a fingerprint input: the byte length of its
/// UTF-8 form, then the UTF-8 bytes themselves.
pub open spec fn str_bytes(s: Seq<char>) -> Seq<u8> {
    u64_bytes(encode_utf8(s).len() as u64) + encode_utf8(s)
}

/// An optional string's contribution: a presence byte, then the string's.
pub open spec fn opt_str_bytes(o: Option<Seq<char>>) -> Seq<u8> {
    match o {
        None => seq![0u8],
        Some(s) => seq![1u8] + str_bytes(s),
    }
}

pub(crate) fn push_u64(v: &mut Vec<u8>, x: u64)
    ensures
        final(v)@ == old(v)@ + u64_bytes(x),
{
    v.push(x as u8);
    v.push((x >> 8) as u8);
    v.push((x >> 16) as u8);
    v.push((x >> 24) as u8);
    v.push((x >> 32) as u8);
    v.push((x >> 40) as u8);
    v.push((x >> 48) as u8);
    v.push((x >> 56) as u8);
    proof {
        assert(v@ =~= old(v)@ + u64_bytes(x));
    }
}

pub(crate) fn push_u128(v: &mut Vec<u8>, x: u128)
    ensures
        final(v)@ == old(v)@ + u128_bytes(x),
{
    v.push(x as u8);
    v.push((x >> 8) as u8);
    v.push((x >> 16) as u8);
    v.push((x >> 24) as u8);
    v.push((x >> 32) as u8);
    v.push((x >> 40) as u8);
    v.push((x >> 48) as u8);
    v.push((x >> 56) as u8);
    v.push((x >> 64) as u8);
    v.push((x >> 72) as u8);
    v.push((x >> 80) as u8);
    v.push((x >> 88) as u8);
    v.push((x >> 96) as u8);
    v.push((x >> 104) as u8);
    v.push((x >> 112) as u8);
    v.push((x >> 120) as u8);
    proof {
        assert(v@ =~= old(v)@ + u128_bytes(x));
    }
}

pub(crate) fn push_bytes(v: &mut Vec<u8>, b: &Vec<u8>)
    ensures
        final(v)@ == old(v)@ + b@,
{
    let mut i: usize = 0;
    while i < b.len()
        invariant
            i <= b.len(),
            v@ == old(v)@ + b@.subrange(0, i as int),
        decreases b.len() - i,
    {
        v.push(b[i]);
        proof {
            assert(v@ =~= old(v)@ + b@.subrange(0, (i + 1) as int));
        }
        i += 1;
    }
    proof {
        assert(b@.subrange(0, b@.len() as int) =~= b@);
    }
}

pub(crate) fn push_str_bytes(v: &mut Vec<u8>, s: &String)
    ensures
        final(v)@ == old(v)@ + str_bytes(s@),
{
    let bytes = s.as_str().as_bytes_vec();
    push_u64(v, bytes.len() as u64);
    push_bytes(v, &bytes);
}

} // verus!
