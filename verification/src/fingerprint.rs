//! Fingerprints of lists of texts.
//!
//! Every text is preceded by its length, so different lists have different
//! forms.
use vstd::prelude::*;
use vstd::utf8::{encode_utf8, encode_utf8_decode_utf8};

use crate::outside::{hex_digest, sha256_hex};
use crate::text::{all_lower_hex, byte_length, to_bytes, views};

verus! {

/// A number in eight bytes, the highest first.
#[verifier::opaque]
pub open spec fn eight_bytes(n: nat) -> Seq<u8> {
    seq![
        ((n / 0x100_0000_0000_0000) % 0x100) as u8,
        ((n / 0x1_0000_0000_0000) % 0x100) as u8,
        ((n / 0x100_0000_0000) % 0x100) as u8,
        ((n / 0x1_0000_0000) % 0x100) as u8,
        ((n / 0x100_0000) % 0x100) as u8,
        ((n / 0x1_0000) % 0x100) as u8,
        ((n / 0x100) % 0x100) as u8,
        (n % 0x100) as u8,
    ]
}

/// A text after its length.
pub open spec fn framed(text: Seq<char>) -> Seq<u8> {
    eight_bytes(byte_length(text)) + encode_utf8(text)
}

/// The texts one after the other, each after its length.
pub open spec fn framed_all(texts: Seq<Seq<char>>) -> Seq<u8>
    decreases texts.len(),
{
    if texts.len() == 0 {
        Seq::empty()
    } else {
        framed(texts[0]) + framed_all(texts.skip(1))
    }
}

/// The fingerprint of a list of texts.
pub open spec fn fingerprint(texts: Seq<Seq<char>>) -> Seq<char> {
    sha256_hex(framed_all(texts))
}

/// Adds a number in eight bytes.
pub fn push_number(out: &mut Vec<u8>, n: u64)
    ensures
        final(out)@ == old(out)@ + eight_bytes(n as nat),
{
    let ghost before = out@;
    proof {
        reveal(eight_bytes);
    }
    out.push((n / 0x100_0000_0000_0000 % 0x100) as u8);
    out.push((n / 0x1_0000_0000_0000 % 0x100) as u8);
    out.push((n / 0x100_0000_0000 % 0x100) as u8);
    out.push((n / 0x1_0000_0000 % 0x100) as u8);
    out.push((n / 0x100_0000 % 0x100) as u8);
    out.push((n / 0x1_0000 % 0x100) as u8);
    out.push((n / 0x100 % 0x100) as u8);
    out.push((n % 0x100) as u8);
    proof {
        assert(out@ =~= before + eight_bytes(n as nat));
    }
}

/// Adds a text after its length.
pub fn push_framed(out: &mut Vec<u8>, text: &str)
    ensures
        final(out)@ == old(out)@ + framed(text@),
{
    let ghost before = out@;
    let mut bytes = to_bytes(text);
    push_number(out, bytes.len() as u64);
    out.append(&mut bytes);
    proof {
        assert(out@ =~= before + framed(text@));
    }
}

/// One more text adds its frame.
pub proof fn framed_all_push(texts: Seq<Seq<char>>, text: Seq<char>)
    ensures
        framed_all(texts.push(text)) == framed_all(texts) + framed(text),
    decreases texts.len(),
{
    if texts.len() == 0 {
        assert(texts.push(text).skip(1) =~= Seq::<Seq<char>>::empty());
        assert(texts.push(text)[0] == text);
        assert(framed_all(Seq::<Seq<char>>::empty()) =~= Seq::<u8>::empty());
        assert(framed_all(texts) =~= Seq::<u8>::empty());
        assert(framed_all(texts.push(text)) =~= framed_all(texts) + framed(text));
    } else {
        assert(texts.push(text).skip(1) =~= texts.skip(1).push(text));
        framed_all_push(texts.skip(1), text);
        assert(texts.push(text)[0] == texts[0]);
        assert(framed_all(texts.push(text)) =~= framed_all(texts) + framed(text));
    }
}

/// The fingerprint of a list of texts: 64 lower-case hexadecimal digits.
pub fn digest_components(components: &Vec<String>) -> (r: String)
    ensures
        r@ == fingerprint(views(components@)),
        r@.len() == 64,
        all_lower_hex(r@),
{
    let ghost all = views(components@);
    let mut bytes: Vec<u8> = Vec::new();
    let mut i: usize = 0;
    proof {
        assert(all.take(0) =~= Seq::<Seq<char>>::empty());
        assert(bytes@ =~= framed_all(all.take(0)));
    }
    while i < components.len()
        invariant
            i <= components.len(),
            all == views(components@),
            bytes@ == framed_all(all.take(i as int)),
        decreases components.len() - i,
    {
        let ghost before = bytes@;
        push_framed(&mut bytes, components[i].as_str());
        proof {
            framed_all_push(all.take(i as int), all[i as int]);
            assert(all.take(i + 1) =~= all.take(i as int).push(all[i as int]));
            assert(bytes@ =~= before + framed(all[i as int]));
        }
        i = i + 1;
    }
    proof {
        assert(all.take(i as int) =~= all);
    }
    hex_digest(&bytes)
}

proof fn same_bytes(a: u64, b: u64)
    by (bit_vector)
    requires
        a / 0x100_0000_0000_0000 % 0x100 == b / 0x100_0000_0000_0000 % 0x100,
        a / 0x1_0000_0000_0000 % 0x100 == b / 0x1_0000_0000_0000 % 0x100,
        a / 0x100_0000_0000 % 0x100 == b / 0x100_0000_0000 % 0x100,
        a / 0x1_0000_0000 % 0x100 == b / 0x1_0000_0000 % 0x100,
        a / 0x100_0000 % 0x100 == b / 0x100_0000 % 0x100,
        a / 0x1_0000 % 0x100 == b / 0x1_0000 % 0x100,
        a / 0x100 % 0x100 == b / 0x100 % 0x100,
        a % 0x100 == b % 0x100,
    ensures
        a == b,
{
}

proof fn eight_bytes_differ(a: nat, b: nat)
    requires
        a <= u64::MAX,
        b <= u64::MAX,
        eight_bytes(a) == eight_bytes(b),
    ensures
        a == b,
{
    reveal(eight_bytes);
    let x = eight_bytes(a);
    let y = eight_bytes(b);
    let u = a as u64;
    let v = b as u64;
    assert(x[0] == y[0]);
    assert(x[1] == y[1]);
    assert(x[2] == y[2]);
    assert(x[3] == y[3]);
    assert(x[4] == y[4]);
    assert(x[5] == y[5]);
    assert(x[6] == y[6]);
    assert(x[7] == y[7]);
    same_bytes(u, v);
}

proof fn eight_bytes_are_eight(n: nat)
    ensures
        eight_bytes(n).len() == 8,
{
    reveal(eight_bytes);
}

/// Different lists of texts have different forms before they are digested, as
/// long as no text is longer than a machine can hold.
pub proof fn framing_is_unambiguous(a: Seq<Seq<char>>, b: Seq<Seq<char>>)
    requires
        framed_all(a) == framed_all(b),
        forall|i: int| 0 <= i < a.len() ==> byte_length(#[trigger] a[i]) <= usize::MAX,
        forall|i: int| 0 <= i < b.len() ==> byte_length(#[trigger] b[i]) <= usize::MAX,
    ensures
        a == b,
    decreases a.len(),
{
    if a.len() > 0 {
        eight_bytes_are_eight(byte_length(a[0]));
    }
    if b.len() > 0 {
        eight_bytes_are_eight(byte_length(b[0]));
    }
    if a.len() == 0 || b.len() == 0 {
        if a.len() > 0 {
            assert(framed_all(a).len() >= 8);
        }
        if b.len() > 0 {
            assert(framed_all(b).len() >= 8);
        }
        assert(a =~= b);
    } else {
        let x = framed_all(a);
        let n = byte_length(a[0]);
        let m = byte_length(b[0]);
        assert(x.take(8) =~= eight_bytes(n));
        assert(framed_all(b).take(8) =~= eight_bytes(m));
        assert(n <= usize::MAX && m <= usize::MAX);
        eight_bytes_differ(n, m);
        assert(x.subrange(8, 8 + n as int) =~= encode_utf8(a[0]));
        assert(framed_all(b).subrange(8, 8 + n as int) =~= encode_utf8(b[0]));
        encode_utf8_decode_utf8(a[0]);
        encode_utf8_decode_utf8(b[0]);
        assert(a[0] == b[0]);
        assert(x.skip(8 + n as int) =~= framed_all(a.skip(1)));
        assert(framed_all(b).skip(8 + n as int) =~= framed_all(b.skip(1)));
        assert forall|i: int| 0 <= i < a.skip(1).len() implies byte_length(#[trigger] a.skip(1)[i])
            <= usize::MAX by {
            assert(a.skip(1)[i] == a[i + 1]);
        }
        assert forall|i: int| 0 <= i < b.skip(1).len() implies byte_length(#[trigger] b.skip(1)[i])
            <= usize::MAX by {
            assert(b.skip(1)[i] == b[i + 1]);
        }
        framing_is_unambiguous(a.skip(1), b.skip(1));
        assert(a =~= seq![a[0]] + a.skip(1));
        assert(b =~= seq![b[0]] + b.skip(1));
    }
}

} // verus!
