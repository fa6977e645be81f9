//! Character-level helpers shared by the token codec and the wire format:
//! moving between `String` and `Vec<char>`, scanning for a separator, and
//! comparing byte strings.

use vstd::prelude::*;
use vstd::string::*;

verus! {

/// The index of the first occurrence of `c` in `t`, if any.
pub open spec fn find_char(t: Seq<char>, c: char) -> Option<int>
    decreases t.len(),
{
    if t.len() == 0 {
        Option::None
    } else if t[0] == c {
        Option::Some(0)
    } else {
        match find_char(t.drop_first(), c) {
            Option::None => Option::None,
            Option::Some(i) => Option::Some(i + 1),
        }
    }
}

/// What a successful or failed scan says about the sequence.
pub proof fn lemma_find_char_props(t: Seq<char>, c: char)
    ensures
        match find_char(t, c) {
            Option::Some(i) => 0 <= i < t.len() && t[i] == c && (forall|j: int|
                0 <= j < i ==> t[j] != c),
            Option::None => forall|j: int| 0 <= j < t.len() ==> t[j] != c,
        },
    decreases t.len(),
{
    if t.len() > 0 && t[0] != c {
        lemma_find_char_props(t.drop_first(), c);
        match find_char(t.drop_first(), c) {
            Option::Some(i) => {
                assert forall|j: int| 0 <= j < i + 1 implies t[j] != c by {
                    if j > 0 {
                        assert(t[j] == t.drop_first()[j - 1]);
                    }
                }
            },
            Option::None => {
                assert forall|j: int| 0 <= j < t.len() implies t[j] != c by {
                    if j > 0 {
                        assert(t[j] == t.drop_first()[j - 1]);
                    }
                }
            },
        }
    }
}

/// A position that holds `c`, with none of `c` before it, is the first one.
pub proof fn lemma_find_char_is(t: Seq<char>, c: char, i: int)
    requires
        0 <= i < t.len(),
        t[i] == c,
        forall|j: int| 0 <= j < i ==> t[j] != c,
    ensures
        find_char(t, c) == Option::Some(i),
    decreases t.len(),
{
    if i > 0 {
        assert(t[0] != c);
        assert(t.drop_first()[i - 1] == c);
        assert forall|j: int| 0 <= j < i - 1 implies t.drop_first()[j] != c by {
            assert(t.drop_first()[j] == t[j + 1]);
        }
        lemma_find_char_is(t.drop_first(), c, i - 1);
    }
}

/// A sequence without `c` has no first occurrence of it.
pub proof fn lemma_find_char_none(t: Seq<char>, c: char)
    requires
        forall|j: int| 0 <= j < t.len() ==> t[j] != c,
    ensures
        find_char(t, c) is None,
    decreases t.len(),
{
    if t.len() > 0 {
        assert forall|j: int| 0 <= j < t.drop_first().len() implies t.drop_first()[j] != c by {
            assert(t.drop_first()[j] == t[j + 1]);
        }
        lemma_find_char_none(t.drop_first(), c);
    }
}

/// The characters of `s`, in order.
pub fn chars_of_str(s: &str) -> (r: Vec<char>)
    ensures
        r@ == s@,
{
    let n = s.unicode_len();
    let mut r: Vec<char> = Vec::new();
    let mut i: usize = 0;
    while i < n
        invariant
            i <= n,
            n == s@.len(),
            r@ == s@.subrange(0, i as int),
        decreases n - i,
    {
        r.push(s.get_char(i));
        proof {
            assert(s@.subrange(0, i + 1 as int) =~= s@.subrange(0, i as int).push(
                s@[i as int],
            ));
        }
        i = i + 1;
    }
    proof {
        assert(s@.subrange(0, n as int) =~= s@);
    }
    r
}

/// Relies on `String`'s `FromIterator<char>` impl: collecting an iterator
/// of characters yields the string of exactly those characters, in order.
#[verifier::external_body]
pub fn string_from_chars(v: &Vec<char>) -> (r: String)
    ensures
        r@ == v@,
{
    v.iter().collect()
}

/// The index of the first `c` in `v`, if any.
pub fn find_char_at(v: &Vec<char>, c: char) -> (r: Option<usize>)
    ensures
        match r {
            Option::Some(i) => find_char(v@, c) == Option::Some(i as int),
            Option::None => find_char(v@, c) is None,
        },
{
    let n = v.len();
    let mut i: usize = 0;
    while i < n
        invariant
            i <= n,
            n == v@.len(),
            forall|j: int| 0 <= j < i ==> v@[j] != c,
        decreases n - i,
    {
        if v[i] == c {
            proof {
                lemma_find_char_is(v@, c, i as int);
            }
            return Some(i);
        }
        i = i + 1;
    }
    proof {
        lemma_find_char_none(v@, c);
    }
    None
}

/// Whether two byte strings hold the same bytes.
pub fn bytes_eq(a: &Vec<u8>, b: &Vec<u8>) -> (r: bool)
    ensures
        r == (a@ == b@),
{
    if a.len() != b.len() {
        proof {
            assert(a@ != b@);
        }
        return false;
    }
    let n = a.len();
    let mut i: usize = 0;
    while i < n
        invariant
            i <= n,
            n == a@.len() == b@.len(),
            forall|j: int| 0 <= j < i ==> a@[j] == b@[j],
        decreases n - i,
    {
        if a[i] != b[i] {
            proof {
                assert(a@[i as int] != b@[i as int]);
            }
            return false;
        }
        i = i + 1;
    }
    proof {
        assert(a@ =~= b@);
    }
    true
}

/// Appends every character of `w` to `v`.
pub fn push_all(v: &mut Vec<char>, w: &Vec<char>)
    ensures
        final(v)@ == old(v)@ + w@,
{
    let n = w.len();
    let mut i: usize = 0;
    while i < n
        invariant
            i <= n,
            n == w@.len(),
            v@ == old(v)@ + w@.subrange(0, i as int),
        decreases n - i,
    {
        v.push(w[i]);
        proof {
            assert(old(v)@ + w@.subrange(0, i + 1 as int) =~= (old(v)@ + w@.subrange(
                0,
                i as int,
            )).push(w@[i as int]));
        }
        i = i + 1;
    }
    proof {
        assert(old(v)@ + w@.subrange(0, n as int) =~= old(v)@ + w@);
    }
}


/// Whether the characters of `v` equal those of `w`.
pub fn chars_eq(v: &Vec<char>, w: &Vec<char>) -> (r: bool)
    ensures
        r == (v@ == w@),
{
    if v.len() != w.len() {
        proof {
            assert(v@ != w@);
        }
        return false;
    }
    let n = v.len();
    let mut i: usize = 0;
    while i < n
        invariant
            i <= n,
            n == v@.len() == w@.len(),
            forall|j: int| 0 <= j < i ==> v@[j] == w@[j],
        decreases n - i,
    {
        if v[i] != w[i] {
            proof {
                assert(v@[i as int] != w@[i as int]);
            }
            return false;
        }
        i = i + 1;
    }
    proof {
        assert(v@ =~= w@);
    }
    true
}

/// Whether two strings hold the same characters.
pub fn str_eq(a: &str, b: &str) -> (r: bool)
    ensures
        r == (a@ == b@),
{
    let va = chars_of_str(a);
    let vb = chars_of_str(b);
    chars_eq(&va, &vb)
}

} // verus!
