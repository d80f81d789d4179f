//! Unsigned decimal numbers as they stand in the token's payload: canonical
//! emission (no leading zero), and cursor-based reading that accepts exactly
//! the canonical texts whose value fits 64 bits.

use vstd::prelude::*;

verus! {

/// An ASCII decimal digit.
pub open spec fn is_dec_digit(b: u8) -> bool {
    0x30 <= b <= 0x39
}

/// The canonical decimal text of `n`.
pub open spec fn dec_str_of(n: nat) -> Seq<u8>
    decreases n,
{
    if n < 10 {
        seq![(0x30 + n) as u8]
    } else {
        dec_str_of(n / 10).push((0x30 + n % 10) as u8)
    }
}

/// The value of a digit string, most significant first.
pub open spec fn dec_val(s: Seq<u8>) -> int
    decreases s.len(),
{
    if s.len() == 0 {
        0
    } else {
        dec_val(s.drop_last()) * 10 + (s.last() - 0x30)
    }
}

/// Where the digit run starting at `i` ends.
pub open spec fn dec_end(s: Seq<u8>, i: int) -> int
    decreases s.len() - i,
    when 0 <= i <= s.len()
{
    if i >= s.len() || !is_dec_digit(s[i]) {
        i
    } else {
        dec_end(s, i + 1)
    }
}

/// The number read at position `i`: the digit run must be non-empty, carry
/// no leading zero, and fit a `u64`; on success the position after it is
/// returned with the value.
pub open spec fn spec_parse_num_at(s: Seq<u8>, i: int) -> Option<(int, u64)> {
    let e = dec_end(s, i);
    if e == i {
        None
    } else if s[i] == 0x30 && e > i + 1 {
        None
    } else if dec_val(s.subrange(i, e)) <= u64::MAX {
        Some((e, dec_val(s.subrange(i, e)) as u64))
    } else {
        None
    }
}

/// The canonical text of `n`, as bytes.
pub fn format_u64_dec(n: u64) -> (r: Vec<u8>)
    ensures
        r@ == dec_str_of(n as nat),
    decreases n,
{
    if n < 10 {
        let mut v: Vec<u8> = Vec::new();
        v.push(0x30 + n as u8);
        proof {
            assert(v@ =~= dec_str_of(n as nat));
        }
        v
    } else {
        let mut v = format_u64_dec(n / 10);
        v.push(0x30 + (n % 10) as u8);
        proof {
            assert(v@ =~= dec_str_of(n as nat));
        }
        v
    }
}

/// Every byte of a canonical decimal text is a digit.
pub proof fn lemma_dec_str_digits(n: nat)
    ensures
        dec_str_of(n).len() >= 1,
        forall|j: int| 0 <= j < dec_str_of(n).len() ==> is_dec_digit(#[trigger] dec_str_of(n)[j]),
        dec_str_of(n)[0] == 0x30 ==> n == 0,
    decreases n,
{
    if n >= 10 {
        lemma_dec_str_digits(n / 10);
        assert forall|j: int| 0 <= j < dec_str_of(n).len() implies is_dec_digit(
            #[trigger] dec_str_of(n)[j],
        ) by {
            if j < dec_str_of(n / 10).len() {
                assert(dec_str_of(n)[j] == dec_str_of(n / 10)[j]);
            }
        }
    }
}

/// Reading back the canonical text recovers the value.
pub proof fn lemma_dec_val_of_str(n: nat)
    ensures
        dec_val(dec_str_of(n)) == n,
    decreases n,
{
    if n < 10 {
        assert(dec_str_of(n).drop_last() =~= Seq::<u8>::empty());
        assert(dec_val(Seq::<u8>::empty()) == 0);
        assert(dec_str_of(n).last() == (0x30 + n) as u8);
    } else {
        lemma_dec_val_of_str(n / 10);
        assert(dec_str_of(n).drop_last() =~= dec_str_of(n / 10));
        assert(dec_str_of(n).last() == (0x30 + n % 10) as u8);
    }
}

/// A digit run's value never shrinks as it extends.
proof fn lemma_dec_val_nonneg(s: Seq<u8>)
    requires
        forall|j: int| 0 <= j < s.len() ==> is_dec_digit(#[trigger] s[j]),
    ensures
        dec_val(s) >= 0,
    decreases s.len(),
{
    if s.len() > 0 {
        lemma_dec_val_nonneg(s.drop_last());
    }
}

/// The value of the whole digit run dominates the value of any prefix.
proof fn lemma_dec_val_prefix(s: Seq<u8>, i: int)
    requires
        0 <= i <= s.len(),
        forall|j: int| 0 <= j < s.len() ==> is_dec_digit(#[trigger] s[j]),
    ensures
        dec_val(s) >= dec_val(s.take(i)),
    decreases s.len() - i,
{
    if i < s.len() {
        assert(s.take(i + 1).drop_last() =~= s.take(i));
        assert(s.take(i + 1).last() == s[i]);
        assert(forall|j: int| 0 <= j < s.take(i).len() ==> is_dec_digit(#[trigger] s.take(i)[j]));
        lemma_dec_val_nonneg(s.take(i));
        assert(dec_val(s.take(i + 1)) == dec_val(s.take(i)) * 10 + (s[i] - 0x30));
        assert(dec_val(s.take(i + 1)) >= dec_val(s.take(i)));
        lemma_dec_val_prefix(s, i + 1);
        assert(s.take(s.len() as int) =~= s);
    } else {
        assert(s.take(s.len() as int) =~= s);
    }
}

/// Reads the number at position `i` of `s`.
pub fn parse_num_at(s: &[u8], i: usize) -> (r: Option<(usize, u64)>)
    requires
        i <= s@.len(),
    ensures
        match r {
            Some((e, v)) => spec_parse_num_at(s@, i as int) == Some((e as int, v)) && i < e
                <= s@.len(),
            None => spec_parse_num_at(s@, i as int) is None,
        },
{
    let n = s.len();
    if i >= n || !(0x30 <= s[i] && s[i] <= 0x39) {
        return None;
    }
    let mut j: usize = i;
    let mut acc: u64 = 0;
    let ghost e = dec_end(s@, i as int);
    proof {
        lemma_dec_end_bounds(s@, i as int);
    }
    while j < n && 0x30 <= s[j] && s[j] <= 0x39
        invariant
            i <= j <= n,
            n == s@.len(),
            e == dec_end(s@, i as int),
            dec_end(s@, j as int) == e,
            j <= e <= n,
            forall|k: int| i <= k < j ==> is_dec_digit(#[trigger] s@[k]),
            acc == dec_val(s@.subrange(i as int, j as int)),
            acc <= u64::MAX,
        decreases n - j,
    {
        let d = s[j] - 0x30;
        proof {
            lemma_dec_end_step(s@, j as int);
            lemma_dec_end_bounds(s@, j as int);
            lemma_dec_end_bounds(s@, j as int + 1);
            assert(j < e);
        }
        if acc > (u64::MAX - d as u64) / 10 {
            // The run's value has already outgrown 64 bits.
            proof {
                assert(acc * 10 + d > u64::MAX) by (nonlinear_arith)
                    requires
                        acc > (u64::MAX - d as u64) / 10,
                        0 <= d <= 9,
                        acc <= u64::MAX,
                ;
                let run = s@.subrange(i as int, e);
                assert(forall|k: int| 0 <= k < run.len() ==> is_dec_digit(#[trigger] run[k]));
                assert(run.take(j - i + 1) =~= s@.subrange(i as int, j as int + 1));
                assert(run.take(j - i + 1).drop_last() =~= s@.subrange(i as int, j as int));
                lemma_dec_val_prefix(run, j - i + 1);
                assert(dec_val(s@.subrange(i as int, j as int + 1)) == acc * 10 + d);
                assert(acc * 10 + d > u64::MAX);
            }
            return None;
        }
        proof {
            assert(acc * 10 + d <= u64::MAX) by (nonlinear_arith)
                requires
                    acc <= (u64::MAX - d as u64) / 10,
                    0 <= d <= 9,
            ;
        }
        acc = acc * 10 + d as u64;
        proof {
            assert(s@.subrange(i as int, j as int + 1).drop_last() =~= s@.subrange(
                i as int,
                j as int,
            ));
        }
        j += 1;
    }
    proof {
        assert(j == e);
        lemma_dec_end_step(s@, i as int);
        lemma_dec_end_bounds(s@, i as int + 1);
        assert(i < e);
    }
    if s[i] == 0x30 && j > i + 1 {
        return None;
    }
    Some((j, acc))
}

/// The end of a digit run stays within the text and never precedes its
/// start; past the run's first non-digit it is fixed.
proof fn lemma_dec_end_bounds(s: Seq<u8>, i: int)
    requires
        0 <= i <= s.len(),
    ensures
        i <= dec_end(s, i) <= s.len(),
        forall|k: int| i <= k < dec_end(s, i) ==> is_dec_digit(#[trigger] s[k]),
        dec_end(s, i) == s.len() || !is_dec_digit(s[dec_end(s, i)]),
    decreases s.len() - i,
{
    if i < s.len() && is_dec_digit(s[i]) {
        lemma_dec_end_bounds(s, i + 1);
    }
}

/// Within a digit run, the end seen from any position inside it is the same.
proof fn lemma_dec_end_step(s: Seq<u8>, i: int)
    requires
        0 <= i < s.len(),
        is_dec_digit(s[i]),
    ensures
        dec_end(s, i) == dec_end(s, i + 1),
{
}

/// A canonical decimal text embedded before a non-digit reads back as its
/// value: completeness of number reading against number emission.
pub proof fn lemma_parse_num_complete(s: Seq<u8>, i: int, n: u64)
    requires
        0 <= i,
        i + dec_str_of(n as nat).len() <= s.len(),
        s.subrange(i, i + dec_str_of(n as nat).len() as int) == dec_str_of(n as nat),
        i + dec_str_of(n as nat).len() == s.len() || !is_dec_digit(
            s[i + dec_str_of(n as nat).len()],
        ),
    ensures
        spec_parse_num_at(s, i) == Some((i + dec_str_of(n as nat).len(), n)),
{
    let d = dec_str_of(n as nat);
    lemma_dec_str_digits(n as nat);
    lemma_dec_val_of_str(n as nat);
    assert(s.subrange(i, i + d.len()) == d);
    assert forall|k: int| i <= k < i + d.len() implies is_dec_digit(#[trigger] s[k]) by {
        assert(s[k] == s.subrange(i, i + d.len())[k - i]);
        assert(is_dec_digit(d[k - i]));
    }
    lemma_dec_end_is(s, i, i + d.len());
    if s[i] == 0x30 {
        assert(d[0] == 0x30);
        assert(n == 0);
        assert(d.len() == 1);
    }
}

/// When digits fill `s` from `i` up to `e` and a non-digit (or the text's
/// end) follows, the run ends exactly at `e`.
proof fn lemma_dec_end_is(s: Seq<u8>, i: int, e: int)
    requires
        0 <= i <= e <= s.len(),
        forall|k: int| i <= k < e ==> is_dec_digit(#[trigger] s[k]),
        e == s.len() || !is_dec_digit(s[e]),
    ensures
        dec_end(s, i) == e,
    decreases e - i,
{
    if i < e {
        lemma_dec_end_is(s, i + 1, e);
    }
}

} // verus!
