//! Lowercase hexadecimal encoding of byte strings, used by the token codec
//! to render the authentication tag and the state nonce as cookie-safe text.

use vstd::prelude::*;

verus! {

/// True exactly when `c` is a lowercase hexadecimal digit.
pub open spec fn is_hex_digit(c: char) -> bool {
    ('0' <= c && c <= '9') || ('a' <= c && c <= 'f')
}

/// The lowercase hexadecimal digit for a value below sixteen.
pub open spec fn hex_digit_of(n: u8) -> char
    recommends
        n < 16,
{
    if n < 10 {
        (('0' as u8) + n) as char
    } else {
        (('a' as u8) + (n - 10)) as char
    }
}

/// Maps a lowercase hexadecimal digit back to its value.
pub open spec fn hex_digit_value(c: char) -> u8
    recommends
        is_hex_digit(c),
{
    if '0' <= c && c <= '9' {
        ((c as u8) - ('0' as u8)) as u8
    } else {
        (((c as u8) - ('a' as u8)) + 10) as u8
    }
}

/// The hexadecimal rendering of a byte string: two digits per byte,
/// high nibble first.
pub open spec fn hex_of_bytes(s: Seq<u8>) -> Seq<char>
    decreases s.len(),
{
    if s.len() == 0 {
        Seq::<char>::empty()
    } else {
        seq![hex_digit_of(s[0] / 16), hex_digit_of(s[0] % 16)] + hex_of_bytes(s.drop_first())
    }
}

/// The bytes denoted by a sequence of hexadecimal digits of even length.
pub open spec fn bytes_of_hex(s: Seq<char>) -> Seq<u8>
    recommends
        s.len() % 2 == 0,
        forall|i: int| 0 <= i < s.len() ==> is_hex_digit(s[i]),
    decreases s.len(),
{
    if s.len() < 2 {
        Seq::<u8>::empty()
    } else {
        seq![(hex_digit_value(s[0]) * 16 + hex_digit_value(s[1])) as u8] + bytes_of_hex(
            s.skip(2),
        )
    }
}

pub proof fn lemma_hex_digit_roundtrip(n: u8)
    requires
        n < 16,
    ensures
        is_hex_digit(hex_digit_of(n)),
        hex_digit_value(hex_digit_of(n)) == n,
        hex_digit_of(n) != '.',
{
}

pub proof fn lemma_hex_of_bytes_len(s: Seq<u8>)
    ensures
        hex_of_bytes(s).len() == 2 * s.len(),
    decreases s.len(),
{
    if s.len() > 0 {
        lemma_hex_of_bytes_len(s.drop_first());
    }
}

pub proof fn lemma_hex_of_bytes_digits(s: Seq<u8>)
    ensures
        forall|i: int|
            0 <= i < hex_of_bytes(s).len() ==> #[trigger] is_hex_digit(hex_of_bytes(s)[i]),
        forall|i: int| 0 <= i < hex_of_bytes(s).len() ==> hex_of_bytes(s)[i] != '.',
    decreases s.len(),
{
    if s.len() > 0 {
        lemma_hex_digit_roundtrip(s[0] / 16);
        lemma_hex_digit_roundtrip(s[0] % 16);
        lemma_hex_of_bytes_digits(s.drop_first());
        lemma_hex_of_bytes_len(s.drop_first());
    }
    assert forall|i: int| 0 <= i < hex_of_bytes(s).len() implies #[trigger] is_hex_digit(
        hex_of_bytes(s)[i],
    ) by {
        if i >= 2 {
            assert(hex_of_bytes(s)[i] == hex_of_bytes(s.drop_first())[i - 2]);
            assert(is_hex_digit(hex_of_bytes(s.drop_first())[i - 2]));
        }
    }
    assert forall|i: int| 0 <= i < hex_of_bytes(s).len() implies hex_of_bytes(s)[i] != '.' by {
        assert(is_hex_digit(hex_of_bytes(s)[i]));
    }
}

pub proof fn lemma_bytes_of_hex_len(s: Seq<char>)
    requires
        s.len() % 2 == 0,
    ensures
        bytes_of_hex(s).len() == s.len() / 2,
    decreases s.len(),
{
    if s.len() >= 2 {
        lemma_bytes_of_hex_len(s.skip(2));
    }
}

/// Decoding undoes encoding: the digits of a byte string denote that
/// byte string.
pub proof fn lemma_bytes_of_hex_of_bytes(s: Seq<u8>)
    ensures
        bytes_of_hex(hex_of_bytes(s)) == s,
    decreases s.len(),
{
    lemma_hex_of_bytes_len(s);
    if s.len() == 0 {
        assert(bytes_of_hex(hex_of_bytes(s)) =~= s);
    } else {
        let h = hex_of_bytes(s);
        lemma_hex_of_bytes_len(s.drop_first());
        assert(h.skip(2) =~= hex_of_bytes(s.drop_first()));
        lemma_hex_digit_roundtrip(s[0] / 16);
        lemma_hex_digit_roundtrip(s[0] % 16);
        assert(hex_digit_value(h[0]) == s[0] / 16);
        assert(hex_digit_value(h[1]) == s[0] % 16);
        lemma_bytes_of_hex_of_bytes(s.drop_first());
        assert(bytes_of_hex(h) =~= s);
    }
}

/// Encoding undoes decoding: an even-length string of digits is the
/// rendering of the bytes it denotes.
pub proof fn lemma_hex_of_bytes_of_hex(s: Seq<char>)
    requires
        s.len() % 2 == 0,
        forall|i: int| 0 <= i < s.len() ==> is_hex_digit(s[i]),
    ensures
        hex_of_bytes(bytes_of_hex(s)) == s,
    decreases s.len(),
{
    if s.len() == 0 {
        assert(hex_of_bytes(bytes_of_hex(s)) =~= s);
    } else {
        let b = bytes_of_hex(s);
        let v0 = hex_digit_value(s[0]);
        let v1 = hex_digit_value(s[1]);
        assert(v0 < 16 && v1 < 16);
        assert(b[0] == (v0 * 16 + v1) as u8);
        assert(b[0] / 16 == v0 && b[0] % 16 == v1);
        assert(hex_digit_of(v0) == s[0] && hex_digit_of(v1) == s[1]) by {
            lemma_hex_digit_of_value(s[0]);
            lemma_hex_digit_of_value(s[1]);
        }
        lemma_hex_of_bytes_of_hex(s.skip(2));
        assert(b.drop_first() =~= bytes_of_hex(s.skip(2)));
        assert(hex_of_bytes(b) =~= s);
    }
}

proof fn lemma_hex_digit_of_value(c: char)
    requires
        is_hex_digit(c),
    ensures
        hex_digit_value(c) < 16,
        hex_digit_of(hex_digit_value(c)) == c,
{
}

/// Encoding a concatenation is the concatenation of the encodings.
pub proof fn lemma_hex_of_bytes_append(a: Seq<u8>, b: Seq<u8>)
    ensures
        hex_of_bytes(a + b) == hex_of_bytes(a) + hex_of_bytes(b),
    decreases a.len(),
{
    if a.len() == 0 {
        assert(a + b =~= b);
        assert(hex_of_bytes(a) + hex_of_bytes(b) =~= hex_of_bytes(b));
    } else {
        lemma_hex_of_bytes_append(a.drop_first(), b);
        assert((a + b).drop_first() =~= a.drop_first() + b);
        assert(hex_of_bytes(a) + hex_of_bytes(b) =~= seq![
            hex_digit_of(a[0] / 16),
            hex_digit_of(a[0] % 16),
        ] + (hex_of_bytes(a.drop_first()) + hex_of_bytes(b)));
        assert(hex_of_bytes(a + b) =~= seq![
            hex_digit_of((a + b)[0] / 16),
            hex_digit_of((a + b)[0] % 16),
        ] + hex_of_bytes((a + b).drop_first()));
    }
}

/// Renders a byte string in lowercase hexadecimal.
pub fn bytes_to_hex(v: &[u8]) -> (r: Vec<char>)
    ensures
        r@ == hex_of_bytes(v@),
{
    let mut r: Vec<char> = Vec::new();
    let mut i: usize = 0;
    while i < v.len()
        invariant
            i <= v.len(),
            r@ == hex_of_bytes(v@.subrange(0, i as int)),
        decreases v.len() - i,
    {
        let b = v[i];
        let hi = b / 16;
        let lo = b % 16;
        let c_hi = if hi < 10 {
            (('0' as u8) + hi) as char
        } else {
            (('a' as u8) + (hi - 10)) as char
        };
        let c_lo = if lo < 10 {
            (('0' as u8) + lo) as char
        } else {
            (('a' as u8) + (lo - 10)) as char
        };
        r.push(c_hi);
        r.push(c_lo);
        proof {
            let pre = v@.subrange(0, i as int);
            let post = v@.subrange(0, i + 1 as int);
            assert(post =~= pre + seq![v@[i as int]]);
            lemma_hex_of_bytes_append(pre, seq![v@[i as int]]);
            let single = seq![v@[i as int]];
            assert(single.drop_first() =~= Seq::<u8>::empty());
            assert(hex_of_bytes(Seq::<u8>::empty()) =~= Seq::<char>::empty());
            assert(c_hi == hex_digit_of(single[0] / 16));
            assert(c_lo == hex_digit_of(single[0] % 16));
            assert(hex_of_bytes(single) =~= seq![c_hi, c_lo]);
        }
        i = i + 1;
    }
    proof {
        assert(v@.subrange(0, v@.len() as int) =~= v@);
    }
    r
}

/// Decodes the region `[from, to)` of `v` as lowercase hexadecimal.
/// Returns `None` exactly when the region has odd length or holds a
/// character that is not a lowercase hexadecimal digit.
#[verifier::rlimit(50)]
pub fn hex_region_to_bytes(v: &[char], from: usize, to: usize) -> (r: Option<Vec<u8>>)
    requires
        from <= to <= v@.len(),
    ensures
        r is Some <==> ((to - from) % 2 == 0 && forall|i: int|
            from <= i < to ==> is_hex_digit(v@[i])),
        r is Some ==> r->Some_0@ == bytes_of_hex(v@.subrange(from as int, to as int)),
{
    if (to - from) % 2 != 0 {
        return None;
    }
    let mut r: Vec<u8> = Vec::new();
    let mut i: usize = from;
    while i < to
        invariant
            from <= i <= to,
            to <= v@.len(),
            (to - from) % 2 == 0,
            (i - from) % 2 == 0,
            forall|j: int| from <= j < i ==> is_hex_digit(v@[j]),
            r@ == bytes_of_hex(v@.subrange(from as int, i as int)),
        decreases to - i,
    {
        let c0 = v[i];
        let c1 = v[i + 1];
        let d0 = if '0' <= c0 && c0 <= '9' {
            (c0 as u8) - ('0' as u8)
        } else if 'a' <= c0 && c0 <= 'f' {
            ((c0 as u8) - ('a' as u8)) + 10
        } else {
            return None;
        };
        let d1 = if '0' <= c1 && c1 <= '9' {
            (c1 as u8) - ('0' as u8)
        } else if 'a' <= c1 && c1 <= 'f' {
            ((c1 as u8) - ('a' as u8)) + 10
        } else {
            return None;
        };
        r.push(d0 * 16 + d1);
        proof {
            let pre = v@.subrange(from as int, i as int);
            let post = v@.subrange(from as int, i + 2 as int);
            lemma_bytes_of_hex_append_pair(pre, c0, c1);
            assert(post =~= pre + seq![c0, c1]);
        }
        i = i + 2;
    }
    proof {
        assert(v@.subrange(from as int, i as int) =~= v@.subrange(from as int, to as int));
    }
    Some(r)
}

/// Appending one digit pair to an even-length digit string appends one
/// byte to what it denotes.
proof fn lemma_bytes_of_hex_append_pair(s: Seq<char>, c0: char, c1: char)
    requires
        s.len() % 2 == 0,
        forall|i: int| 0 <= i < s.len() ==> is_hex_digit(s[i]),
        is_hex_digit(c0),
        is_hex_digit(c1),
    ensures
        bytes_of_hex(s + seq![c0, c1]) == bytes_of_hex(s) + seq![
            (hex_digit_value(c0) * 16 + hex_digit_value(c1)) as u8,
        ],
    decreases s.len(),
{
    let w = s + seq![c0, c1];
    if s.len() == 0 {
        assert(w =~= seq![c0, c1]);
        assert(w.len() == 2);
        assert(w[0] == c0 && w[1] == c1);
        assert(w.skip(2) =~= Seq::<char>::empty());
        assert(bytes_of_hex(Seq::<char>::empty()) =~= Seq::<u8>::empty());
        assert(s =~= Seq::<char>::empty());
        assert(bytes_of_hex(w) == seq![(hex_digit_value(w[0]) * 16 + hex_digit_value(w[1])) as u8]
            + bytes_of_hex(w.skip(2)));
        assert(bytes_of_hex(w) =~= bytes_of_hex(s) + seq![
            (hex_digit_value(c0) * 16 + hex_digit_value(c1)) as u8,
        ]);
    } else {
        lemma_bytes_of_hex_append_pair(s.skip(2), c0, c1);
        assert(w.skip(2) =~= s.skip(2) + seq![c0, c1]);
        assert(w.len() == s.len() + 2);
        assert(w[0] == s[0] && w[1] == s[1]);
        let head = seq![(hex_digit_value(s[0]) * 16 + hex_digit_value(s[1])) as u8];
        let pair = seq![(hex_digit_value(c0) * 16 + hex_digit_value(c1)) as u8];
        assert(bytes_of_hex(w) == head + bytes_of_hex(w.skip(2)));
        assert(bytes_of_hex(s) == head + bytes_of_hex(s.skip(2)));
        assert(bytes_of_hex(w.skip(2)) == bytes_of_hex(s.skip(2)) + pair);
        assert(head + (bytes_of_hex(s.skip(2)) + pair) =~= (head + bytes_of_hex(s.skip(2)))
            + pair);
        assert(bytes_of_hex(w) =~= bytes_of_hex(s) + pair);
    }
}

} // verus!
