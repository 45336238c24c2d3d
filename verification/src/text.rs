//! Byte strings: finding a separator, splitting into fields, trimming white
//! space.
//!
//! No function here copies a byte: a field or a trimmed string is a slice of
//! the string it was cut from.

use vstd::prelude::*;
use vstd::slice::slice_subrange;

verus! {

/// The byte strings that the slices `v` hold, in order.
pub open spec fn fields_of(v: Seq<&[u8]>) -> Seq<Seq<u8>> {
    Seq::new(v.len(), |k: int| v[k]@)
}

/// Index of the first `sep` in `s`, or `s.len()` where `s` holds none.
pub open spec fn find(s: Seq<u8>, sep: u8) -> int
    decreases s.len(),
{
    if s.len() == 0 || s[0] == sep {
        0
    } else {
        1 + find(s.drop_first(), sep)
    }
}

/// The fields of `s` between the occurrences of `sep`. There is always at
/// least one field; `n` separators make `n + 1` fields, empty ones included.
pub open spec fn split(s: Seq<u8>, sep: u8) -> Seq<Seq<u8>>
    decreases s.len(),
{
    let i = find(s, sep);
    if 0 <= i < s.len() {
        seq![s.take(i)] + split(s.skip(i + 1), sep)
    } else {
        seq![s]
    }
}

/// ASCII white space: space, tab, line feed, vertical tab, form feed,
/// carriage return.
pub open spec fn is_space(b: u8) -> bool {
    b == 0x20 || 0x09 <= b <= 0x0d
}

/// `s` without its leading white space.
pub open spec fn trim_start(s: Seq<u8>) -> Seq<u8>
    decreases s.len(),
{
    if s.len() > 0 && is_space(s[0]) {
        trim_start(s.drop_first())
    } else {
        s
    }
}

/// `s` without its trailing white space.
pub open spec fn trim_end(s: Seq<u8>) -> Seq<u8>
    decreases s.len(),
{
    if s.len() > 0 && is_space(s.last()) {
        trim_end(s.drop_last())
    } else {
        s
    }
}

/// `s` without the white space on either side.
pub open spec fn trim(s: Seq<u8>) -> Seq<u8> {
    trim_end(trim_start(s))
}

/// `find` is the one index that has no `sep` before it and either holds a
/// `sep` or is the end of `s`.
pub proof fn lemma_find(s: Seq<u8>, sep: u8)
    ensures
        0 <= find(s, sep) <= s.len(),
        forall|i: int| 0 <= i < find(s, sep) ==> s[i] != sep,
        find(s, sep) < s.len() ==> s[find(s, sep)] == sep,
    decreases s.len(),
{
    if s.len() == 0 || s[0] == sep {
    } else {
        let t = s.drop_first();
        lemma_find(t, sep);
        assert forall|i: int| 0 <= i < find(s, sep) implies s[i] != sep by {
            if i > 0 {
                assert(s[i] == t[i - 1]);
            }
        }
        assert(find(s, sep) < s.len() ==> s[find(s, sep)] == t[find(t, sep)]);
    }
}

/// Any index with no `sep` before it, which holds a `sep` or ends `s`, is
/// `find(s, sep)`.
pub proof fn lemma_find_is(s: Seq<u8>, sep: u8, i: int)
    requires
        0 <= i <= s.len(),
        forall|j: int| 0 <= j < i ==> s[j] != sep,
        i < s.len() ==> s[i] == sep,
    ensures
        find(s, sep) == i,
{
    lemma_find(s, sep);
    let f = find(s, sep);
    if f < i {
        assert(s[f] != sep);
    } else if i < f {
        assert(s[i] != sep);
    }
}

/// The first field of a split is what stands before the first separator.
pub proof fn lemma_split_first(s: Seq<u8>, sep: u8)
    ensures
        split(s, sep).len() >= 1,
        split(s, sep)[0] == s.take(find(s, sep)),
{
    lemma_find(s, sep);
    let i = find(s, sep);
    if 0 <= i < s.len() {
    } else {
        assert(s.take(i) == s);
    }
}

/// Finds the first `sep` in `s`; `s.len()` where there is none.
pub fn find_byte(s: &[u8], sep: u8) -> (r: usize)
    ensures
        r == find(s@, sep),
        r <= s@.len(),
{
    let mut i: usize = 0;
    while i < s.len() && s[i] != sep
        invariant
            i <= s@.len(),
            forall|j: int| 0 <= j < i ==> s@[j] != sep,
        decreases s@.len() - i,
    {
        i += 1;
    }
    proof {
        lemma_find_is(s@, sep, i as int);
    }
    i
}

/// Cuts `s` at every `sep` into the fields of `split`, in order.
pub fn split_fields<'a>(s: &'a [u8], sep: u8) -> (r: Vec<&'a [u8]>)
    ensures
        fields_of(r@) == split(s@, sep),
        r@.len() >= 1,
{
    let n = s.len();
    let mut out: Vec<&'a [u8]> = Vec::new();
    let mut cur: usize = 0;
    proof {
        assert(s@.subrange(0, n as int) == s@);
        assert(fields_of(out@) + split(s@, sep) == split(s@, sep));
    }
    loop
        invariant_except_break
            cur <= n == s@.len(),
            split(s@, sep) == fields_of(out@) + split(s@.subrange(cur as int, n as int), sep),
        ensures
            out@.len() >= 1,
            fields_of(out@) == split(s@, sep),
        decreases n - cur,
    {
        let ghost before = out@;
        let rest = slice_subrange(s, cur, n);
        let j = find_byte(rest, sep);
        if j < rest.len() {
            let field = slice_subrange(rest, 0, j);
            out.push(field);
            proof {
                assert(field@ == rest@.take(j as int));
                assert(rest@.skip(j + 1) == s@.subrange(cur + j + 1, n as int));
                assert(fields_of(out@) == fields_of(before) + seq![field@]);
            }
            cur = cur + j + 1;
        } else {
            out.push(rest);
            proof {
                assert(fields_of(out@) == fields_of(before) + seq![rest@]);
            }
            break ;
        }
    }
    out
}

/// `s` without the white space on either side.
pub fn trim_bytes<'a>(s: &'a [u8]) -> (r: &'a [u8])
    ensures
        r@ == trim(s@),
{
    let n = s.len();
    let mut a: usize = 0;
    proof {
        assert(s@.subrange(0, n as int) == s@);
    }
    while a < n && byte_is_space(s[a])
        invariant
            a <= n == s@.len(),
            trim_start(s@) == trim_start(s@.subrange(a as int, n as int)),
        decreases n - a,
    {
        proof {
            assert(s@.subrange(a as int, n as int).drop_first() == s@.subrange(a + 1, n as int));
        }
        a += 1;
    }
    let mut b: usize = n;
    while a < b && byte_is_space(s[b - 1])
        invariant
            a <= b <= n == s@.len(),
            trim_start(s@) == s@.subrange(a as int, n as int),
            trim_end(s@.subrange(a as int, n as int)) == trim_end(s@.subrange(a as int, b as int)),
        decreases b - a,
    {
        proof {
            assert(s@.subrange(a as int, b as int).drop_last() == s@.subrange(a as int, b - 1));
        }
        b -= 1;
    }
    slice_subrange(s, a, b)
}

/// Tests a byte for ASCII white space.
pub fn byte_is_space(b: u8) -> (r: bool)
    ensures
        r == is_space(b),
{
    b == 0x20 || (0x09 <= b && b <= 0x0d)
}

} // verus!
