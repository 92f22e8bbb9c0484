//! Byte-sequence helpers shared by the frame codec: terminator stripping,
//! value-separator splitting and joining, and decimal text.

use vstd::prelude::*;
use vstd::slice::{slice_subrange, slice_to_vec};

verus! {

/// No byte of `s` is zero.
pub open spec fn zero_free(s: Seq<u8>) -> bool {
    forall|i: int| 0 <= i < s.len() ==> #[trigger] s[i] != 0
}

/// No 0x00 0x00 pair starts at an even offset of `s`.
pub open spec fn pair_free(s: Seq<u8>) -> bool {
    forall|j: int|
        0 <= j && j + 1 < s.len() && j % 2 == 0 ==> !(#[trigger] s[j] == 0 && s[j + 1] == 0)
}

/// `s` without its trailing zero bytes.
pub open spec fn strip_trailing_zeros(s: Seq<u8>) -> Seq<u8>
    decreases s.len(),
{
    if s.len() > 0 && s[s.len() - 1] == 0 {
        strip_trailing_zeros(s.drop_last())
    } else {
        s
    }
}

/// `s` without trailing 0x00 0x00 pairs (two-bytes-per-unit encodings).
pub open spec fn strip_trailing_zero_pairs(s: Seq<u8>) -> Seq<u8>
    decreases s.len(),
{
    if s.len() >= 2 && s[s.len() - 1] == 0 && s[s.len() - 2] == 0 {
        strip_trailing_zero_pairs(s.take(s.len() - 2))
    } else {
        s
    }
}

/// Index of the first zero byte of `s`, or -1.
pub open spec fn find_zero(s: Seq<u8>) -> int
    decreases s.len(),
{
    if s.len() == 0 {
        -1
    } else if s[0] == 0 {
        0
    } else {
        let r = find_zero(s.drop_first());
        if r < 0 {
            -1
        } else {
            r + 1
        }
    }
}

/// Even index of the first aligned 0x00 0x00 pair of `s`, or -1.
pub open spec fn find_zero_pair(s: Seq<u8>) -> int
    decreases s.len(),
{
    if s.len() < 2 {
        -1
    } else if s[0] == 0 && s[1] == 0 {
        0
    } else {
        let r = find_zero_pair(s.skip(2));
        if r < 0 {
            -1
        } else {
            r + 2
        }
    }
}

pub proof fn lemma_find_zero_bounds(s: Seq<u8>)
    ensures
        -1 <= find_zero(s) < s.len(),
        find_zero(s) >= 0 ==> s[find_zero(s)] == 0,
    decreases s.len(),
{
    if s.len() == 0 {
    } else if s[0] == 0 {
    } else {
        lemma_find_zero_bounds(s.drop_first());
    }
}

/// `find_zero` returns the first zero: it is `i` exactly when no zero stands
/// before `i` and either `i` is past the end (then -1) or `s[i]` is zero.
pub proof fn lemma_find_zero_is(s: Seq<u8>, i: int)
    requires
        0 <= i <= s.len(),
        forall|j: int| 0 <= j < i ==> #[trigger] s[j] != 0,
        i < s.len() ==> s[i] == 0,
    ensures
        find_zero(s) == if i == s.len() {
            -1int
        } else {
            i
        },
    decreases s.len(),
{
    if s.len() == 0 {
    } else if i == 0 {
        if s.len() > 0 && s[0] != 0 {
            lemma_find_zero_bounds(s.drop_first());
        }
    } else {
        assert(s[0] != 0);
        lemma_find_zero_is(s.drop_first(), i - 1);
    }
}

pub proof fn lemma_find_zero_pair_bounds(s: Seq<u8>)
    ensures
        -1 <= find_zero_pair(s),
        find_zero_pair(s) >= 0 ==> {
            &&& find_zero_pair(s) + 1 < s.len()
            &&& find_zero_pair(s) % 2 == 0
            &&& s[find_zero_pair(s)] == 0
            &&& s[find_zero_pair(s) + 1] == 0
        },
    decreases s.len(),
{
    if s.len() < 2 {
    } else if s[0] == 0 && s[1] == 0 {
    } else {
        lemma_find_zero_pair_bounds(s.skip(2));
    }
}

/// `find_zero_pair` returns the first aligned pair: it is even `i` exactly
/// when no aligned pair stands before `i` and either fewer than two bytes
/// remain at `i` (then -1) or a pair stands at `i`.
pub proof fn lemma_find_zero_pair_is(s: Seq<u8>, i: int)
    requires
        0 <= i,
        i % 2 == 0,
        i <= s.len() + 1,
        forall|j: int|
            0 <= j < i && j + 1 < s.len() && j % 2 == 0 ==> !(#[trigger] s[j] == 0 && s[j + 1]
                == 0),
        i + 1 < s.len() ==> s[i] == 0 && s[i + 1] == 0,
    ensures
        find_zero_pair(s) == if i + 1 < s.len() {
            i
        } else {
            -1int
        },
    decreases s.len(),
{
    if s.len() < 2 {
    } else if i == 0 {
        if !(s[0] == 0 && s[1] == 0) {
            lemma_find_zero_pair_bounds(s.skip(2));
        }
    } else {
        assert(!(s[0] == 0 && s[1] == 0));
        lemma_find_zero_pair_is(s.skip(2), i - 2);
    }
}

/// The values of a multi-valued text body: segments between zero bytes.
pub open spec fn split_on_zero(s: Seq<u8>) -> Seq<Seq<u8>>
    decreases s.len() via split_on_zero_decreases
{
    let i = find_zero(s);
    if i < 0 {
        seq![s]
    } else {
        seq![s.take(i)] + split_on_zero(s.skip(i + 1))
    }
}

#[via_fn]
proof fn split_on_zero_decreases(s: Seq<u8>) {
    lemma_find_zero_bounds(s);
}

pub proof fn lemma_split_on_zero_len(s: Seq<u8>)
    ensures
        split_on_zero(s).len() >= 1,
{
    let i = find_zero(s);
    if i >= 0 {
        lemma_find_zero_bounds(s);
    }
}

/// A multi-valued text body: the values joined with single zero bytes.
pub open spec fn join_on_zero(parts: Seq<Seq<u8>>) -> Seq<u8>
    decreases parts.len(),
{
    if parts.len() == 0 {
        Seq::empty()
    } else if parts.len() == 1 {
        parts[0]
    } else {
        parts[0] + seq![0u8] + join_on_zero(parts.drop_first())
    }
}

/// Splitting a zero-free sequence gives that sequence alone.
pub proof fn lemma_split_zero_free(s: Seq<u8>)
    requires
        zero_free(s),
    ensures
        split_on_zero(s) =~= seq![s],
{
    lemma_find_zero_is(s, s.len() as int);
}

/// Splitting undoes joining, for zero-free values.
pub proof fn lemma_split_join(parts: Seq<Seq<u8>>)
    requires
        parts.len() >= 1,
        forall|k: int| 0 <= k < parts.len() ==> zero_free(#[trigger] parts[k]),
    ensures
        split_on_zero(join_on_zero(parts)) =~= parts,
    decreases parts.len(),
{
    if parts.len() == 1 {
        lemma_split_zero_free(parts[0]);
        assert(split_on_zero(join_on_zero(parts)) =~= seq![parts[0]]);
    } else {
        let p0 = parts[0];
        let rest = parts.drop_first();
        let s = join_on_zero(parts);
        assert(s =~= p0 + seq![0u8] + join_on_zero(rest));
        assert(forall|j: int| 0 <= j < p0.len() ==> #[trigger] s[j] != 0 && s[j] == p0[j]);
        assert(s[p0.len() as int] == 0);
        lemma_find_zero_is(s, p0.len() as int);
        assert(s.take(p0.len() as int) =~= p0);
        assert(s.skip(p0.len() as int + 1) =~= join_on_zero(rest));
        lemma_split_join(rest);
        assert(split_on_zero(s) =~= seq![p0] + rest);
        assert(seq![p0] + rest =~= parts);
    }
}

/// A join of zero-free values, the last of them non-empty, has no trailing
/// zero to strip.
pub proof fn lemma_join_last_nonzero(parts: Seq<Seq<u8>>)
    requires
        parts.len() >= 1,
        forall|k: int| 0 <= k < parts.len() ==> zero_free(#[trigger] parts[k]),
        parts.last().len() > 0,
    ensures
        join_on_zero(parts).len() > 0,
        join_on_zero(parts).last() != 0,
    decreases parts.len(),
{
    if parts.len() == 1 {
        assert(parts[0].last() != 0);
    } else {
        let rest = parts.drop_first();
        lemma_join_last_nonzero(rest);
        assert(join_on_zero(parts).last() == join_on_zero(rest).last());
    }
}

/// What stripping leaves: no longer than the input, with no trailing zero.
pub proof fn lemma_strip_result(s: Seq<u8>)
    ensures
        strip_trailing_zeros(s).len() <= s.len(),
        strip_trailing_zeros(s).len() == 0 || strip_trailing_zeros(s).last() != 0,
    decreases s.len(),
{
    if s.len() > 0 && s[s.len() - 1] == 0 {
        lemma_strip_result(s.drop_last());
    }
}

/// What pair-stripping leaves: no longer than the input, with no trailing
/// zero pair.
pub proof fn lemma_strip_pairs_result(s: Seq<u8>)
    ensures
        strip_trailing_zero_pairs(s).len() <= s.len(),
        ({
            let r = strip_trailing_zero_pairs(s);
            r.len() < 2 || !(r[r.len() - 1] == 0 && r[r.len() - 2] == 0)
        }),
    decreases s.len(),
{
    if s.len() >= 2 && s[s.len() - 1] == 0 && s[s.len() - 2] == 0 {
        lemma_strip_pairs_result(s.take(s.len() - 2));
    }
}

/// Everything before the first zero is non-zero; no zero at all when the
/// search fails.
pub proof fn lemma_find_zero_prefix(s: Seq<u8>)
    ensures
        forall|j: int| 0 <= j < find_zero(s) ==> #[trigger] s[j] != 0,
        find_zero(s) < 0 ==> zero_free(s),
    decreases s.len(),
{
    if s.len() == 0 {
    } else if s[0] == 0 {
    } else {
        lemma_find_zero_bounds(s);
        lemma_find_zero_prefix(s.drop_first());
        assert forall|j: int| 0 <= j < find_zero(s) implies #[trigger] s[j] != 0 by {
            if j >= 1 {
                assert(s[j] == s.drop_first()[j - 1]);
            }
        }
        if find_zero(s) < 0 {
            assert forall|j: int| 0 <= j < s.len() implies #[trigger] s[j] != 0 by {
                if j >= 1 {
                    assert(s[j] == s.drop_first()[j - 1]);
                }
            }
        }
    }
}

/// No aligned zero pair stands before the first one found; none at all when
/// the search fails.
pub proof fn lemma_find_zero_pair_prefix(s: Seq<u8>)
    ensures
        forall|j: int|
            0 <= j < find_zero_pair(s) && j % 2 == 0 && j + 1 < s.len() ==> !(#[trigger] s[j] == 0
                && s[j + 1] == 0),
        find_zero_pair(s) < 0 ==> pair_free(s),
    decreases s.len(),
{
    if s.len() < 2 {
    } else if s[0] == 0 && s[1] == 0 {
    } else {
        lemma_find_zero_pair_prefix(s.skip(2));
        assert forall|j: int|
            0 <= j < find_zero_pair(s) && j % 2 == 0 && j + 1 < s.len() implies !(#[trigger] s[j]
            == 0 && s[j + 1] == 0) by {
            if j >= 2 {
                assert(s[j] == s.skip(2)[j - 2] && s[j + 1] == s.skip(2)[j - 1]);
            }
        }
        if find_zero_pair(s) < 0 {
            assert forall|j: int|
                0 <= j && j + 1 < s.len() && j % 2 == 0 implies !(#[trigger] s[j] == 0 && s[j + 1]
                == 0) by {
                if j >= 2 {
                    assert(s[j] == s.skip(2)[j - 2] && s[j + 1] == s.skip(2)[j - 1]);
                }
            }
        }
    }
}

/// Every value a split yields is zero-free.
pub proof fn lemma_split_parts_zero_free(s: Seq<u8>)
    ensures
        forall|k: int|
            0 <= k < split_on_zero(s).len() ==> zero_free(#[trigger] split_on_zero(s)[k]),
    decreases s.len(),
{
    lemma_find_zero_bounds(s);
    lemma_find_zero_prefix(s);
    let i = find_zero(s);
    if i >= 0 {
        lemma_split_parts_zero_free(s.skip(i + 1));
        assert forall|k: int|
            0 <= k < split_on_zero(s).len() implies zero_free(#[trigger] split_on_zero(s)[k]) by {
            if k == 0 {
                assert(forall|j: int| 0 <= j < i ==> s.take(i)[j] == #[trigger] s[j]);
            } else {
                assert(split_on_zero(s)[k] == split_on_zero(s.skip(i + 1))[k - 1]);
            }
        }
    }
}

/// A split of a sequence with no trailing zero ends in a non-empty value.
pub proof fn lemma_split_last_nonempty(s: Seq<u8>)
    requires
        s.len() > 0,
        s.last() != 0,
    ensures
        split_on_zero(s).last().len() > 0,
    decreases s.len(),
{
    lemma_find_zero_bounds(s);
    let i = find_zero(s);
    if i >= 0 {
        assert(i < s.len() - 1);
        assert(s.skip(i + 1).len() > 0 && s.skip(i + 1).last() != 0);
        lemma_split_last_nonempty(s.skip(i + 1));
        lemma_split_on_zero_len(s.skip(i + 1));
        assert(split_on_zero(s).last() == split_on_zero(s.skip(i + 1)).last());
    }
}

/// Joining undoes splitting.
pub proof fn lemma_join_split(s: Seq<u8>)
    ensures
        join_on_zero(split_on_zero(s)) =~= s,
    decreases s.len(),
{
    lemma_find_zero_bounds(s);
    let i = find_zero(s);
    if i >= 0 {
        lemma_join_split(s.skip(i + 1));
        lemma_split_on_zero_len(s.skip(i + 1));
        let parts = split_on_zero(s);
        assert(parts.len() >= 2);
        assert(parts.drop_first() =~= split_on_zero(s.skip(i + 1)));
        assert(join_on_zero(parts) == s.take(i) + seq![0u8] + join_on_zero(parts.drop_first()));
        assert(s.take(i) + seq![0u8] + s.skip(i + 1) =~= s);
    }
}

/// Stripping is the identity where there is nothing to strip.
pub proof fn lemma_strip_noop(s: Seq<u8>)
    requires
        s.len() == 0 || s.last() != 0,
    ensures
        strip_trailing_zeros(s) == s,
{
}

pub proof fn lemma_strip_pairs_noop(s: Seq<u8>)
    requires
        s.len() < 2 || !(s[s.len() - 1] == 0 && s[s.len() - 2] == 0),
    ensures
        strip_trailing_zero_pairs(s) == s,
{
}

/// The decimal digits of `n`, most significant first, as ASCII bytes.
pub open spec fn dec_digits(n: nat) -> Seq<u8>
    decreases n,
{
    if n < 10 {
        seq![(48 + n) as u8]
    } else {
        dec_digits(n / 10).push((48 + n % 10) as u8)
    }
}

pub proof fn lemma_dec_digits_range(n: nat)
    ensures
        dec_digits(n).len() >= 1,
        forall|i: int| 0 <= i < dec_digits(n).len() ==> 48 <= #[trigger] dec_digits(n)[i] <= 57,
    decreases n,
{
    if n >= 10 {
        lemma_dec_digits_range(n / 10);
    }
}

/// Writes `n` in decimal.
pub fn decimal_digits(n: u32) -> (r: Vec<u8>)
    ensures
        r@ == dec_digits(n as nat),
    decreases n,
{
    if n < 10 {
        let d: u8 = 48 + (n as u8);
        let mut r: Vec<u8> = Vec::new();
        r.push(d);
        proof {
            assert(r@ =~= dec_digits(n as nat));
        }
        r
    } else {
        let mut r = decimal_digits(n / 10);
        r.push(48 + ((n % 10) as u8));
        proof {
            assert(r@ =~= dec_digits(n as nat));
        }
        r
    }
}

/// Copies `s[from..to]` into a fresh vector.
pub fn subrange_to_vec(s: &[u8], from: usize, to: usize) -> (r: Vec<u8>)
    requires
        from <= to <= s@.len(),
    ensures
        r@ == s@.subrange(from as int, to as int),
{
    slice_to_vec(slice_subrange(s, from, to))
}

/// Removes trailing zero bytes.
pub fn strip_trailing_zeros_vec(s: &[u8]) -> (r: Vec<u8>)
    ensures
        r@ == strip_trailing_zeros(s@),
{
    let mut end: usize = s.len();
    proof {
        assert(s@.take(s@.len() as int) =~= s@);
    }
    while end > 0 && s[end - 1] == 0
        invariant
            end <= s@.len(),
            strip_trailing_zeros(s@) == strip_trailing_zeros(s@.take(end as int)),
        decreases end,
    {
        proof {
            assert(s@.take(end as int).drop_last() =~= s@.take(end - 1));
        }
        end = end - 1;
    }
    proof {
        assert(strip_trailing_zeros(s@.take(end as int)) == s@.take(end as int));
    }
    subrange_to_vec(s, 0, end)
}

/// Removes trailing 0x00 0x00 pairs.
pub fn strip_trailing_zero_pairs_vec(s: &[u8]) -> (r: Vec<u8>)
    ensures
        r@ == strip_trailing_zero_pairs(s@),
{
    let mut end: usize = s.len();
    proof {
        assert(s@.take(s@.len() as int) =~= s@);
    }
    while end >= 2 && s[end - 1] == 0 && s[end - 2] == 0
        invariant
            end <= s@.len(),
            strip_trailing_zero_pairs(s@) == strip_trailing_zero_pairs(s@.take(end as int)),
        decreases end,
    {
        proof {
            assert(s@.take(end as int).take(end - 2) =~= s@.take(end - 2));
        }
        end = end - 2;
    }
    proof {
        assert(strip_trailing_zero_pairs(s@.take(end as int)) == s@.take(end as int));
    }
    subrange_to_vec(s, 0, end)
}

/// Finds the first zero byte.
pub fn find_zero_vec(s: &[u8]) -> (r: Option<usize>)
    ensures
        match r {
            Some(i) => find_zero(s@) == i as int,
            None => find_zero(s@) == -1,
        },
{
    let mut i: usize = 0;
    while i < s.len() && s[i] != 0
        invariant
            i <= s@.len(),
            forall|j: int| 0 <= j < i ==> #[trigger] s@[j] != 0,
        decreases s@.len() - i,
    {
        i = i + 1;
    }
    proof {
        lemma_find_zero_is(s@, i as int);
    }
    if i == s.len() {
        None
    } else {
        Some(i)
    }
}

/// Finds the first aligned 0x00 0x00 pair.
pub fn find_zero_pair_vec(s: &[u8]) -> (r: Option<usize>)
    ensures
        match r {
            Some(i) => find_zero_pair(s@) == i as int,
            None => find_zero_pair(s@) == -1,
        },
{
    let mut i: usize = 0;
    while i + 1 < s.len() && !(s[i] == 0 && s[i + 1] == 0)
        invariant
            i <= s@.len() + 1,
            i % 2 == 0,
            forall|j: int|
                0 <= j < i && j + 1 < s@.len() && j % 2 == 0 ==> !(#[trigger] s@[j] == 0 && s@[j
                    + 1] == 0),
        decreases s@.len() - i,
    {
        i = i + 2;
    }
    proof {
        lemma_find_zero_pair_is(s@, i as int);
    }
    if i + 1 < s.len() {
        Some(i)
    } else {
        None
    }
}

/// Splits on zero bytes.
pub fn split_on_zero_vec(s: &[u8]) -> (r: Vec<Vec<u8>>)
    ensures
        r.deep_view() == split_on_zero(s@),
    decreases s@.len(),
{
    proof {
        lemma_find_zero_bounds(s@);
    }
    match find_zero_vec(s) {
        None => {
            let whole = slice_to_vec(s);
            let mut r: Vec<Vec<u8>> = Vec::new();
            r.push(whole);
            proof {
                assert(r.deep_view() =~~= split_on_zero(s@));
            }
            r
        },
        Some(i) => {
            let n = s.len();
            let head = subrange_to_vec(s, 0, i);
            let tail = slice_subrange(s, i + 1, n);
            let rest = split_on_zero_vec(tail);
            let ghost rest_dv = rest.deep_view();
            let mut r: Vec<Vec<u8>> = Vec::new();
            r.push(head);
            let mut rest_mut = rest;
            r.append(&mut rest_mut);
            proof {
                assert(s@.take(i as int) =~= s@.subrange(0, i as int));
                assert(s@.skip(i as int + 1) =~= tail@);
                assert(split_on_zero(s@) == seq![s@.take(i as int)] + rest_dv);
                assert(r.deep_view() =~~= seq![s@.take(i as int)] + rest_dv);
            }
            r
        },
    }
}

/// Joins with single zero bytes.
pub fn join_on_zero_vec(parts: &[Vec<u8>]) -> (r: Vec<u8>)
    ensures
        r@ == join_on_zero(parts.deep_view()),
    decreases parts@.len(),
{
    if parts.len() == 0 {
        Vec::new()
    } else if parts.len() == 1 {
        let p = vec_index_ref(parts, 0);
        let r = slice_to_vec(p.as_slice());
        proof {
            assert(r@ =~= join_on_zero(parts.deep_view()));
        }
        r
    } else {
        let p = vec_index_ref(parts, 0);
        let mut r = slice_to_vec(p.as_slice());
        r.push(0);
        let tail = slice_subrange(parts, 1, parts.len());
        let mut rest = join_on_zero_vec(tail);
        r.append(&mut rest);
        proof {
            assert(tail.deep_view() =~= parts.deep_view().drop_first());
            assert(r@ =~= join_on_zero(parts.deep_view()));
        }
        r
    }
}

/// Reads one element of a slice of vectors.
fn vec_index_ref(parts: &[Vec<u8>], i: usize) -> (r: &Vec<u8>)
    requires
        i < parts@.len(),
    ensures
        r == parts@[i as int],
{
    vstd::slice::slice_index_get(parts, i)
}

} // verus!
