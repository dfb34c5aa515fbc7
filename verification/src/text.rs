//! Byte-string helpers shared by the parser, the resolver and the URL
//! builders. Text is modelled as sequences of bytes; the host converts
//! to and from platform strings at the boundary.

use vstd::prelude::*;

verus! {

/// ASCII whitespace: space, horizontal tab, line feed, vertical tab, form
/// feed, carriage return.
pub open spec fn is_ws(b: u8) -> bool {
    b == 32 || b == 9 || b == 10 || b == 11 || b == 12 || b == 13
}

/// Runtime test for [`is_ws`].
pub fn byte_is_ws(b: u8) -> (r: bool)
    ensures
        r == is_ws(b),
{
    b == 32 || b == 9 || b == 10 || b == 11 || b == 12 || b == 13
}

/// Position of the first occurrence of `b` in `s` at or after `from`;
/// `s.len()` when there is none.
pub open spec fn spec_find(s: Seq<u8>, b: u8, from: int) -> int
    decreases s.len() - from,
{
    if from < 0 || from >= s.len() {
        s.len() as int
    } else if s[from] == b {
        from
    } else {
        spec_find(s, b, from + 1)
    }
}

/// [`spec_find`] returns an in-range position, points at `b` when it found
/// one, and nothing before it is `b`.
pub proof fn lemma_find_props(s: Seq<u8>, b: u8, from: int)
    requires
        0 <= from <= s.len(),
    ensures
        from <= spec_find(s, b, from) <= s.len(),
        spec_find(s, b, from) < s.len() ==> s[spec_find(s, b, from)] == b,
        forall|j: int| from <= j < spec_find(s, b, from) ==> s[j] != b,
    decreases s.len() - from,
{
    if from < s.len() && s[from] != b {
        lemma_find_props(s, b, from + 1);
    }
}

/// First occurrence of `b` in `s` at or after `from`, as executable code.
pub fn find_byte(s: &Vec<u8>, b: u8, from: usize) -> (r: usize)
    requires
        from <= s@.len(),
    ensures
        r == spec_find(s@, b, from as int),
{
    let mut i = from;
    while i < s.len()
        invariant
            from <= i <= s@.len(),
            spec_find(s@, b, from as int) == spec_find(s@, b, i as int),
        decreases s@.len() - i,
    {
        if s[i] == b {
            return i;
        }
        i = i + 1;
    }
    i
}

/// Copy of `s[a..c]`.
pub fn subvec(s: &Vec<u8>, a: usize, c: usize) -> (r: Vec<u8>)
    requires
        a <= c <= s@.len(),
    ensures
        r@ == s@.subrange(a as int, c as int),
{
    let mut r: Vec<u8> = Vec::new();
    let mut i = a;
    while i < c
        invariant
            a <= i <= c <= s@.len(),
            r@ == s@.subrange(a as int, i as int),
        decreases c - i,
    {
        r.push(s[i]);
        proof {
            assert(s@.subrange(a as int, i + 1 as int) =~= s@.subrange(a as int, i as int).push(
                s@[i as int],
            ));
        }
        i = i + 1;
    }
    r
}

/// Byte-for-byte equality of two vectors.
pub fn bytes_eq(a: &Vec<u8>, b: &Vec<u8>) -> (r: bool)
    ensures
        r == (a@ == b@),
{
    if a.len() != b.len() {
        return false;
    }
    let mut i: usize = 0;
    while i < a.len()
        invariant
            i <= a@.len(),
            a@.len() == b@.len(),
            forall|j: int| 0 <= j < i ==> a@[j] == b@[j],
        decreases a@.len() - i,
    {
        if a[i] != b[i] {
            return false;
        }
        i = i + 1;
    }
    proof {
        assert(a@ =~= b@);
    }
    true
}

/// `s` without leading whitespace.
pub open spec fn trim_left(s: Seq<u8>) -> Seq<u8>
    decreases s.len(),
{
    if s.len() > 0 && is_ws(s[0]) {
        trim_left(s.drop_first())
    } else {
        s
    }
}

/// `s` without trailing whitespace.
pub open spec fn trim_right(s: Seq<u8>) -> Seq<u8>
    decreases s.len(),
{
    if s.len() > 0 && is_ws(s[s.len() - 1]) {
        trim_right(s.drop_last())
    } else {
        s
    }
}

/// `s` without surrounding whitespace.
pub open spec fn spec_trim(s: Seq<u8>) -> Seq<u8> {
    trim_right(trim_left(s))
}

/// When the first `a` bytes of `s` are whitespace and byte `a` (if any) is
/// not, trimming on the left keeps exactly `s[a..]`.
proof fn lemma_trim_left_at(s: Seq<u8>, a: int)
    requires
        0 <= a <= s.len(),
        forall|j: int| 0 <= j < a ==> is_ws(s[j]),
        a < s.len() ==> !is_ws(s[a]),
    ensures
        trim_left(s) == s.subrange(a, s.len() as int),
    decreases a,
{
    if a == 0 {
        assert(s.subrange(0, s.len() as int) =~= s);
    } else {
        lemma_trim_left_at(s.drop_first(), a - 1);
        assert(s.drop_first().subrange(a - 1, s.drop_first().len() as int) =~= s.subrange(
            a,
            s.len() as int,
        ));
    }
}

/// When the bytes of `s` from `c` on are whitespace and byte `c - 1` (if
/// any) is not, trimming on the right keeps exactly `s[..c]`.
proof fn lemma_trim_right_at(s: Seq<u8>, c: int)
    requires
        0 <= c <= s.len(),
        forall|j: int| c <= j < s.len() ==> is_ws(s[j]),
        c > 0 ==> !is_ws(s[c - 1]),
    ensures
        trim_right(s) == s.subrange(0, c),
    decreases s.len() - c,
{
    if c == s.len() {
        assert(s.subrange(0, c) =~= s);
    } else {
        lemma_trim_right_at(s.drop_last(), c);
        assert(s.drop_last().subrange(0, c) =~= s.subrange(0, c));
    }
}

/// Copy of `s` without surrounding whitespace.
pub fn trim_bytes(s: &Vec<u8>) -> (r: Vec<u8>)
    ensures
        r@ == spec_trim(s@),
{
    let n = s.len();
    let mut a: usize = 0;
    while a < n && byte_is_ws(s[a])
        invariant
            a <= n,
            n == s@.len(),
            forall|j: int| 0 <= j < a ==> is_ws(s@[j]),
        decreases n - a,
    {
        a = a + 1;
    }
    let mut c: usize = n;
    while c > a && byte_is_ws(s[c - 1])
        invariant
            a <= c <= n,
            n == s@.len(),
            forall|j: int| c <= j < n ==> is_ws(s@[j]),
        decreases c,
    {
        c = c - 1;
    }
    proof {
        lemma_trim_left_at(s@, a as int);
        if a == n {
            assert(spec_trim(s@) =~= s@.subrange(a as int, c as int));
        } else {
            // the left-trimmed tail starts with a non-whitespace byte, so
            // the scan from the right cannot have crossed it
            assert(!is_ws(s@[a as int]));
            assert(c > a);
            lemma_trim_right_at(s@.subrange(a as int, n as int), c - a as int);
            assert(s@.subrange(a as int, n as int).subrange(0, c - a as int) =~= s@.subrange(
                a as int,
                c as int,
            ));
        }
    }
    subvec(s, a, c)
}

/// Decimal digits of `n`, most significant first, no sign and no leading
/// zeros (`0` is written as one digit).
pub open spec fn spec_decimal(n: int) -> Seq<u8>
    decreases n,
{
    if n < 10 {
        seq![(n + 48) as u8]
    } else {
        spec_decimal(n / 10) + seq![(n % 10 + 48) as u8]
    }
}

/// Append the decimal digits of `n` to `out`.
pub fn push_decimal(out: &mut Vec<u8>, n: u16)
    ensures
        final(out)@ == old(out)@ + spec_decimal(n as int),
    decreases n,
{
    if n < 10 {
        out.push((n as u8) + 48);
        proof {
            assert(out@ =~= old(out)@ + spec_decimal(n as int));
        }
    } else {
        push_decimal(out, n / 10);
        out.push(((n % 10) as u8) + 48);
        proof {
            assert(out@ =~= old(out)@ + spec_decimal(n as int));
        }
    }
}

} // verus!
