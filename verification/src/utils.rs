//! Small helpers on byte slices and strings.

use vstd::prelude::*;
use vstd::string::StringSliceAdditionalSpecFns;

verus! {

/// Whether `post` extends `pre`: everything once in the log is still
/// there, in place.
pub open spec fn spec_prefix_of<T>(pre: Seq<T>, post: Seq<T>) -> bool {
    &&& post.len() >= pre.len()
    &&& post.take(pre.len() as int) == pre
}

/// Every log extends itself.
pub proof fn lemma_prefix_refl<T>(s: Seq<T>)
    ensures
        spec_prefix_of(s, s),
{
    assert(s.take(s.len() as int) =~= s);
}

/// Extension composes.
pub proof fn lemma_prefix_trans<T>(a: Seq<T>, b: Seq<T>, c: Seq<T>)
    requires
        spec_prefix_of(a, b),
        spec_prefix_of(b, c),
    ensures
        spec_prefix_of(a, c),
{
    assert(c.take(a.len() as int) =~= b.take(a.len() as int));
}

/// Appending extends.
pub proof fn lemma_prefix_push<T>(s: Seq<T>, x: T)
    ensures
        spec_prefix_of(s, s.push(x)),
{
    assert(s.push(x).take(s.len() as int) =~= s);
}

/// An extension keeps every entry of the shorter log in place.
pub proof fn lemma_prefix_index<T>(pre: Seq<T>, post: Seq<T>, i: int)
    requires
        spec_prefix_of(pre, post),
        0 <= i < pre.len(),
    ensures
        post[i] == pre[i],
{
    assert(post.take(pre.len() as int)[i] == post[i]);
}

/// The shape of a log extended by two entries.
pub proof fn lemma_push2_facts<T>(pre: Seq<T>, a: T, b: T)
    ensures
        (pre.push(a).push(b)).len() == pre.len() + 2,
        (pre.push(a).push(b)).take(pre.len() as int) == pre,
        (pre.push(a).push(b))[pre.len() as int] == a,
        (pre.push(a).push(b))[pre.len() as int + 1] == b,
{
    assert((pre.push(a).push(b)).take(pre.len() as int) =~= pre);
}

/// The shape of a log extended by four entries.
pub proof fn lemma_push4_facts<T>(pre: Seq<T>, a: T, b: T, c: T, d: T)
    ensures
        (pre.push(a).push(b).push(c).push(d)).len() == pre.len() + 4,
        (pre.push(a).push(b).push(c).push(d)).take(pre.len() as int) == pre,
        (pre.push(a).push(b).push(c).push(d))[pre.len() as int] == a,
        (pre.push(a).push(b).push(c).push(d))[pre.len() as int + 1] == b,
        (pre.push(a).push(b).push(c).push(d))[pre.len() as int + 2] == c,
        (pre.push(a).push(b).push(c).push(d))[pre.len() as int + 3] == d,
{
    assert((pre.push(a).push(b).push(c).push(d)).take(pre.len() as int) =~= pre);
}

/// A log known to extend another by exactly two entries is that log with
/// its last two entries appended.
pub proof fn lemma_recompose_two<T>(pre: Seq<T>, post: Seq<T>)
    requires
        post.len() == pre.len() + 2,
        post.take(pre.len() as int) == pre,
    ensures
        post == pre.push(post[pre.len() as int]).push(post[pre.len() as int + 1]),
{
    assert(post =~= pre.push(post[pre.len() as int]).push(post[pre.len() as int + 1]));
}

/// Whether the byte pattern `needle` occurs in `haystack` at offset `j`.
pub open spec fn spec_occurs_at(haystack: Seq<u8>, needle: Seq<u8>, j: int) -> bool {
    &&& 0 <= j
    &&& j + needle.len() <= haystack.len()
    &&& haystack.subrange(j, j + needle.len()) == needle
}

/// The offset of the first occurrence of `needle` in `haystack`, if any.
pub open spec fn spec_find(h: Seq<u8>, n: Seq<u8>) -> Option<int>
    decreases h.len(),
{
    if n.len() == 0 {
        Some(0)
    } else if h.len() < n.len() {
        None
    } else if h.subrange(0, n.len() as int) == n {
        Some(0)
    } else {
        match spec_find(h.drop_first(), n) {
            Some(i) => Some(i + 1),
            None => None,
        }
    }
}

/// Where `spec_find` answers, the needle occurs there.
pub proof fn lemma_find_occurs(h: Seq<u8>, n: Seq<u8>)
    ensures
        match spec_find(h, n) {
            Some(i) => spec_occurs_at(h, n, i),
            None => true,
        },
    decreases h.len(),
{
    if n.len() == 0 {
        assert(h.subrange(0, 0) =~= n);
    } else if h.len() >= n.len() && h.subrange(0, n.len() as int) != n {
        lemma_find_occurs(h.drop_first(), n);
        match spec_find(h.drop_first(), n) {
            Some(i) => {
                assert(h.drop_first().subrange(i, i + n.len()) =~= h.subrange(
                    i + 1,
                    i + 1 + n.len(),
                ));
            },
            None => {},
        }
    }
}

/// Finds the first occurrence of `needle` in `haystack`.
pub fn slice_find(haystack: &Vec<u8>, needle: &Vec<u8>) -> (r: Option<usize>)
    requires
        needle@.len() >= 1,
    ensures
        match r {
            Some(i) => spec_find(haystack@, needle@) == Some(i as int),
            None => spec_find(haystack@, needle@) is None,
        },
{
    let ghost h = haystack@;
    let ghost n = needle@;
    proof {
        assert(h.skip(0) =~= h);
    }
    if needle.len() > haystack.len() {
        return None;
    }
    let last = haystack.len() - needle.len();
    let mut i: usize = 0;
    while i <= last
        invariant
            n.len() >= 1,
            h == haystack@,
            n == needle@,
            h.len() <= usize::MAX,
            last == h.len() - n.len(),
            i <= last + 1,
            spec_find(h, n) == match spec_find(h.skip(i as int), n) {
                Some(x) => Some(x + i),
                None => None::<int>,
            },
        decreases last + 1 - i,
    {
        let ghost cur = h.skip(i as int);
        let mut k: usize = 0;
        let mut matches = true;
        while k < needle.len()
            invariant
                n.len() >= 1,
                i + n.len() <= h.len(),
                h.len() <= usize::MAX,
                h == haystack@,
                n == needle@,
                k <= n.len(),
                matches ==> forall|m: int| 0 <= m < k ==> h[i + m] == n[m],
                !matches ==> h.subrange(i as int, i + n.len()) != n,
            ensures
                matches ==> forall|m: int| 0 <= m < n.len() ==> h[i + m] == n[m],
                !matches ==> h.subrange(i as int, i + n.len()) != n,
            decreases n.len() - k,
        {
            if haystack[i + k] != needle[k] {
                matches = false;
                proof {
                    assert(h.subrange(i as int, i + n.len())[k as int] != n[k as int]);
                }
                break ;
            }
            k = k + 1;
        }
        proof {
            assert(cur.len() >= n.len());
            assert(cur.subrange(0, n.len() as int) =~= h.subrange(i as int, i + n.len()));
        }
        if matches {
            proof {
                assert(h.subrange(i as int, i + n.len()) =~= n);
                assert(spec_find(cur, n) == Some(0int));
            }
            return Some(i);
        }
        proof {
            assert(cur.drop_first() =~= h.skip(i + 1));
            assert(spec_find(cur, n) == match spec_find(h.skip(i + 1), n) {
                Some(x) => Some(x + 1),
                None => None::<int>,
            });
        }
        i = i + 1;
    }
    proof {
        assert(h.skip(i as int).len() < n.len());
    }
    None
}

/// Appends a copy of `src` to `dst`.
pub fn append_vec(dst: &mut Vec<u8>, src: &Vec<u8>)
    ensures
        final(dst)@ == old(dst)@ + src@,
{
    let ghost start = dst@;
    let mut i: usize = 0;
    while i < src.len()
        invariant
            i <= src@.len(),
            dst@ == start + src@.take(i as int),
        decreases src@.len() - i,
    {
        dst.push(src[i]);
        proof {
            assert((start + src@.take(i as int)).push(src@[i as int]) =~= start + src@.take(i + 1));
        }
        i = i + 1;
    }
    proof {
        assert(src@.take(src@.len() as int) =~= src@);
    }
}

/// A copy of `v` without its first `n` bytes.
pub fn vec_skip(v: &Vec<u8>, n: usize) -> (r: Vec<u8>)
    requires
        n <= v@.len(),
    ensures
        r@ == v@.skip(n as int),
{
    let mut out: Vec<u8> = Vec::new();
    let len = v.len();
    let mut i: usize = n;
    proof {
        assert(v@.subrange(n as int, n as int) =~= Seq::<u8>::empty());
    }
    while i < v.len()
        invariant
            n <= i <= v@.len(),
            len == v@.len(),
            out@ == v@.subrange(n as int, i as int),
        decreases v@.len() - i,
    {
        out.push(v[i]);
        proof {
            assert(v@.subrange(n as int, i as int).push(v@[i as int]) =~= v@.subrange(
                n as int,
                i + 1,
            ));
        }
        i = i + 1;
    }
    proof {
        assert(v@.subrange(n as int, v@.len() as int) =~= v@.skip(n as int));
    }
    out
}

/// A copy of `v[from..to]`.
pub fn vec_slice(v: &Vec<u8>, from: usize, to: usize) -> (r: Vec<u8>)
    requires
        from <= to <= v@.len(),
    ensures
        r@ == v@.subrange(from as int, to as int),
{
    let mut out: Vec<u8> = Vec::new();
    let len = v.len();
    let mut i: usize = from;
    proof {
        assert(v@.subrange(from as int, from as int) =~= Seq::<u8>::empty());
    }
    while i < to
        invariant
            from <= i <= to <= v@.len(),
            len == v@.len(),
            out@ == v@.subrange(from as int, i as int),
        decreases to - i,
    {
        out.push(v[i]);
        proof {
            assert(v@.subrange(from as int, i as int).push(v@[i as int]) =~= v@.subrange(
                from as int,
                i + 1,
            ));
        }
        i = i + 1;
    }
    out
}

/// Whether two byte vectors hold the same bytes.
pub fn bytes_eq(a: &Vec<u8>, b: &Vec<u8>) -> (r: bool)
    ensures
        r == (a@ == b@),
{
    if a.len() != b.len() {
        return false;
    }
    let mut i: usize = 0;
    while i < a.len()
        invariant
            i <= a@.len(),
            a@.len() == b@.len(),
            forall|j: int| 0 <= j < i ==> a@[j] == b@[j],
        decreases a@.len() - i,
    {
        if a[i] != b[i] {
            return false;
        }
        i = i + 1;
    }
    proof {
        assert(a@ =~= b@);
    }
    true
}

/// Whether a byte is a UTF-8 continuation byte (`0b10xx_xxxx`).
pub fn is_utf8_continuation(x: u8) -> (r: bool)
    ensures
        r == (x & 0xc0 == 0x80),
{
    x & 0xc0 == 0x80
}

/// The byte offset of the last scalar-value boundary at or before `i` in a
/// byte slice assumed to hold UTF-8 text, or `0` when none lies after the
/// start. `i` must lie on a scalar boundary or at the end.
pub fn utf8_str_prev(s: &Vec<u8>, i: usize) -> (r: usize)
    requires
        i <= s@.len(),
    ensures
        r <= i,
        r < i || i == 0,
        r == 0 || !(s@[r as int] & 0xc0 == 0x80),
        forall|j: int| r < j < i ==> s@[j] & 0xc0 == 0x80,
{
    let mut i = i;
    if i > 0 {
        let ghost i0 = i;
        loop
            invariant_except_break
                i >= 1,
                forall|j: int| i <= j < i0 ==> s@[j] & 0xc0 == 0x80,
            invariant
                i <= i0 <= s@.len(),
            ensures
                i < i0,
                i == 0 || !(s@[i as int] & 0xc0 == 0x80),
                forall|j: int| i < j < i0 ==> s@[j] & 0xc0 == 0x80,
            decreases i,
        {
            i = i - 1;
            if !(i > 0 && is_utf8_continuation(s[i])) {
                break ;
            }
        }
    }
    i
}

/// The UTF-8 bytes of a string slice.
pub fn str_to_bytes(s: &str) -> (r: Vec<u8>)
    ensures
        r@ == s.spec_bytes(),
{
    vstd::slice::slice_to_vec(s.as_bytes())
}

/// The largest scalar-boundary offset at or before `i`: the offset of the
/// byte at `i` itself where it starts a scalar (or ends the text), else of
/// the nearest non-continuation byte before it, else 0.
pub open spec fn spec_boundary_at_or_before(s: Seq<u8>, i: int) -> int
    decreases i,
{
    if i <= 0 {
        0
    } else if !(s[i] & 0xc0 == 0x80) {
        i
    } else {
        spec_boundary_at_or_before(s, i - 1)
    }
}

/// UTF-8 text truncated to at most `cap` bytes at a scalar boundary: the
/// whole text where it fits, else the longest prefix of at most `cap`
/// bytes that ends on a boundary.
pub open spec fn spec_truncate(s: Seq<u8>, cap: int) -> Seq<u8> {
    if s.len() <= cap {
        s
    } else {
        s.take(spec_boundary_at_or_before(s, cap))
    }
}

/// Pins `spec_boundary_at_or_before` from the shape `utf8_str_prev`
/// establishes: a boundary at `r` with only continuation bytes after it
/// up to `i`.
proof fn lemma_boundary_pinned(s: Seq<u8>, r: int, i: int)
    requires
        0 <= r <= i < s.len(),
        r == 0 || !(s[r] & 0xc0 == 0x80),
        forall|j: int| r < j <= i ==> s[j] & 0xc0 == 0x80,
    ensures
        spec_boundary_at_or_before(s, i) == r,
    decreases i - r,
{
    if i > r {
        lemma_boundary_pinned(s, r, i - 1);
    }
}

/// Truncates UTF-8 text to at most `cap` bytes, cutting only at a scalar
/// boundary; text that already fits is kept whole.
pub fn truncate_to_boundary(bytes: Vec<u8>, cap: usize) -> (r: Vec<u8>)
    ensures
        r@ == spec_truncate(bytes@, cap as int),
        r@.len() <= cap,
{
    if bytes.len() <= cap {
        proof {
            assert(bytes@.take(bytes@.len() as int) =~= bytes@);
        }
        return bytes;
    }
    let cut = if is_utf8_continuation(bytes[cap]) {
        let prev = utf8_str_prev(&bytes, cap);
        proof {
            lemma_boundary_pinned(bytes@, prev as int, cap as int);
        }
        prev
    } else {
        proof {
            assert(spec_boundary_at_or_before(bytes@, cap as int) == cap);
        }
        cap
    };
    let mut out: Vec<u8> = Vec::new();
    let mut i: usize = 0;
    proof {
        assert(bytes@.take(0) =~= Seq::<u8>::empty());
    }
    while i < cut
        invariant
            i <= cut <= bytes@.len(),
            out@ == bytes@.take(i as int),
        decreases cut - i,
    {
        out.push(bytes[i]);
        proof {
            assert(bytes@.take(i as int).push(bytes@[i as int]) =~= bytes@.take(i + 1));
        }
        i = i + 1;
    }
    out
}

/// Clamps a deserializer's capacity hint to a cautious bound.
pub fn cautious(hint: Option<usize>) -> (r: usize)
    ensures
        r == spec_cautious(hint),
{
    let h = match hint {
        Some(h) => h,
        None => 0,
    };
    if h < 4096 {
        h
    } else {
        4096
    }
}

/// The clamped capacity hint: never more than 4096.
pub open spec fn spec_cautious(hint: Option<usize>) -> usize {
    let h = match hint {
        Some(h) => h,
        None => 0usize,
    };
    if h < 4096 {
        h
    } else {
        4096usize
    }
}

} // verus!
