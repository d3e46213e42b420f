//! Texts as parts of paths.
use vstd::prelude::*;
use vstd::utf8::{encode_utf8, encode_utf8_decode_utf8};

use crate::text::to_bytes;

verus! {

/// Whether a byte stands for itself.
pub open spec fn plain_byte(b: u8) -> bool {
    ||| 0x41 <= b <= 0x5A
    ||| 0x61 <= b <= 0x7A
    ||| 0x30 <= b <= 0x39
    ||| b == 0x2D
    ||| b == 0x2E
    ||| b == 0x5F
    ||| b == 0x7E
}

/// The upper-case hexadecimal digit of a number below sixteen.
pub open spec fn upper_hex(n: int) -> char {
    if n < 10 {
        (0x30 + n) as char
    } else {
        (0x37 + n) as char
    }
}

/// A byte as it stands in a path: itself, or a percent sign and two digits.
pub open spec fn escaped(b: u8) -> Seq<char> {
    if plain_byte(b) {
        seq![b as char]
    } else {
        seq!['%', upper_hex(b as int / 16), upper_hex(b as int % 16)]
    }
}

/// Bytes as they stand in a path.
pub open spec fn escaped_all(bytes: Seq<u8>) -> Seq<char>
    decreases bytes.len(),
{
    if bytes.len() == 0 {
        Seq::empty()
    } else {
        escaped(bytes[0]) + escaped_all(bytes.skip(1))
    }
}

/// A text as one part of a path.
pub open spec fn path_segment(s: Seq<char>) -> Seq<char> {
    escaped_all(encode_utf8(s))
}

proof fn escaped_all_push(bytes: Seq<u8>, b: u8)
    ensures
        escaped_all(bytes.push(b)) == escaped_all(bytes) + escaped(b),
    decreases bytes.len(),
{
    if bytes.len() == 0 {
        assert(bytes.push(b).skip(1) =~= Seq::<u8>::empty());
        assert(bytes.push(b)[0] == b);
        assert(escaped_all(Seq::<u8>::empty()) =~= Seq::<char>::empty());
        assert(escaped_all(bytes.push(b)) =~= escaped_all(bytes) + escaped(b));
    } else {
        assert(bytes.push(b).skip(1) =~= bytes.skip(1).push(b));
        assert(bytes.push(b)[0] == bytes[0]);
        escaped_all_push(bytes.skip(1), b);
        assert(escaped_all(bytes.push(b)) =~= escaped_all(bytes) + escaped(b));
    }
}

fn upper_hex_char(n: u8) -> (r: char)
    requires
        n < 16,
    ensures
        r == upper_hex(n as int),
{
    if n < 10 {
        (0x30 + n) as char
    } else {
        (0x37 + n) as char
    }
}

/// A text as one part of a path: everything but letters, digits and `-._~` is
/// escaped.
pub fn encode_path_segment(value: &str) -> (r: String)
    ensures
        r@ == path_segment(value@),
{
    let bytes = to_bytes(value);
    let mut out: String = String::new();
    let mut i: usize = 0;
    proof {
        assert(bytes@.take(0) =~= Seq::<u8>::empty());
        assert(out@ =~= escaped_all(bytes@.take(0)));
    }
    while i < bytes.len()
        invariant
            i <= bytes.len(),
            out@ == escaped_all(bytes@.take(i as int)),
        decreases bytes.len() - i,
    {
        let b: u8 = bytes[i];
        let ghost before = out@;
        proof {
            escaped_all_push(bytes@.take(i as int), b);
            assert(bytes@.take(i + 1) =~= bytes@.take(i as int).push(b));
        }
        if (0x41 <= b && b <= 0x5A) || (0x61 <= b && b <= 0x7A) || (0x30 <= b && b <= 0x39) || b
            == 0x2D || b == 0x2E || b == 0x5F || b == 0x7E {
            out.push(b as char);
            proof {
                assert(out@ =~= before + escaped(b));
            }
        } else {
            out.push('%');
            out.push(upper_hex_char(b / 16));
            out.push(upper_hex_char(b % 16));
            proof {
                assert(out@ =~= before + escaped(b));
            }
        }
        i = i + 1;
    }
    proof {
        assert(bytes@.take(i as int) =~= bytes@);
    }
    out
}

proof fn digits_differ(m: int, n: int)
    requires
        0 <= m < 16,
        0 <= n < 16,
        upper_hex(m) == upper_hex(n),
    ensures
        m == n,
{
}

proof fn escapes_differ(a: Seq<u8>, b: Seq<u8>)
    requires
        escaped_all(a) == escaped_all(b),
    ensures
        a == b,
    decreases a.len(),
{
    if a.len() == 0 || b.len() == 0 {
        if a.len() > 0 {
            assert(escaped(a[0]).len() > 0);
        }
        if b.len() > 0 {
            assert(escaped(b[0]).len() > 0);
        }
        assert(a =~= b);
    } else {
        let s = escaped_all(a);
        let x = a[0];
        let y = b[0];
        assert(s[0] == escaped(x)[0]);
        assert(s[0] == escaped(y)[0]);
        assert(plain_byte(x) == plain_byte(y));
        if plain_byte(x) {
            assert(x == y);
        } else {
            assert(s[1] == escaped(x)[1] && s[1] == escaped(y)[1]);
            assert(s[2] == escaped(x)[2] && s[2] == escaped(y)[2]);
            digits_differ(x as int / 16, y as int / 16);
            digits_differ(x as int % 16, y as int % 16);
            assert(x == y);
        }
        let n = escaped(x).len() as int;
        assert(s.skip(n) =~= escaped_all(a.skip(1)));
        assert(s.skip(n) =~= escaped_all(b.skip(1)));
        escapes_differ(a.skip(1), b.skip(1));
        assert(a =~= seq![x] + a.skip(1));
        assert(b =~= seq![y] + b.skip(1));
    }
}

/// Different texts are different parts of a path.
pub proof fn path_segments_differ(a: Seq<char>, b: Seq<char>)
    requires
        path_segment(a) == path_segment(b),
    ensures
        a == b,
{
    escapes_differ(encode_utf8(a), encode_utf8(b));
    encode_utf8_decode_utf8(a);
    encode_utf8_decode_utf8(b);
}

/// A part of a path holds no slash.
pub proof fn path_segment_has_no_slash(s: Seq<char>)
    ensures
        !path_segment(s).contains('/'),
{
    no_slash(encode_utf8(s));
}

proof fn no_slash(bytes: Seq<u8>)
    ensures
        !escaped_all(bytes).contains('/'),
    decreases bytes.len(),
{
    if bytes.len() > 0 {
        no_slash(bytes.skip(1));
        let s = escaped_all(bytes);
        let head = escaped(bytes[0]);
        let tail = escaped_all(bytes.skip(1));
        if s.contains('/') {
            let i = choose|i: int| 0 <= i < s.len() && s[i] == '/';
            if i < head.len() {
                assert(head[i] == '/');
            } else {
                assert(tail[i - head.len()] == '/');
            }
        }
    }
}

} // verus!
