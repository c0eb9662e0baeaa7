use vstd::prelude::*;
use vstd::string::StrSliceExecFns;
use crate::record::ArrivalRecord;

verus! {

pub open spec fn is_digit(c: char) -> bool {
    48 <= (c as u32) && (c as u32) <= 57
}

pub open spec fn digit_value(c: char) -> nat {
    ((c as u32) as int - 48) as nat
}

/// The value of a run of decimal digits read left to right, held at
/// `u64::MAX` once it would pass it.
pub open spec fn saturated_value(digits: Seq<char>) -> nat
    decreases digits.len(),
{
    if digits.len() == 0 {
        0
    } else {
        let v = saturated_value(digits.drop_last()) * 10 + digit_value(digits.last());
        if v > u64::MAX {
            u64::MAX as nat
        } else {
            v
        }
    }
}

/// How many decimal digits the label starts with.
pub open spec fn leading_digits(s: Seq<char>) -> nat
    decreases s.len(),
{
    if s.len() > 0 && is_digit(s[0]) {
        1 + leading_digits(s.drop_first())
    } else {
        0
    }
}

/// The countdown that an arrival label gives: the integer it starts with,
/// or nothing for a label such as "DUE" or "DLY".
pub open spec fn countdown_of(label: Seq<char>) -> Option<nat> {
    if leading_digits(label) == 0 {
        None
    } else {
        Some(saturated_value(label.take(leading_digits(label) as int)))
    }
}

/// Where a label sorts: labels without a countdown come first, as imminent.
pub open spec fn rank_of(label: Seq<char>) -> int {
    match countdown_of(label) {
        None => -1,
        Some(v) => v as int,
    }
}

pub open spec fn rank(r: ArrivalRecord) -> int {
    rank_of(r.eta@)
}

pub open spec fn sorted_by_rank(s: Seq<ArrivalRecord>) -> bool {
    forall|i: int, j: int| 0 <= i < j < s.len() ==> rank(s[i]) <= rank(s[j])
}

/// The records of `s` whose rank is `k`, in the order of `s`.
pub open spec fn with_rank(s: Seq<ArrivalRecord>, k: int) -> Seq<ArrivalRecord>
    decreases s.len(),
{
    if s.len() == 0 {
        Seq::empty()
    } else if rank(s.last()) == k {
        with_rank(s.drop_last(), k).push(s.last())
    } else {
        with_rank(s.drop_last(), k)
    }
}

proof fn lemma_leading_digits(s: Seq<char>, i: int)
    requires
        0 <= i <= s.len(),
        forall|j: int| 0 <= j < i ==> is_digit(#[trigger] s[j]),
        i == s.len() || !is_digit(s[i]),
    ensures
        leading_digits(s) == i,
    decreases i,
{
    if i > 0 {
        let t = s.drop_first();
        assert forall|j: int| 0 <= j < i - 1 implies is_digit(#[trigger] t[j]) by {
            assert(t[j] == s[j + 1]);
        }
        if i - 1 < t.len() {
            assert(t[i - 1] == s[i]);
        }
        lemma_leading_digits(t, i - 1);
    }
}

/// Reads the countdown at the start of an arrival label.
pub fn parse_countdown(label: &str) -> (r: Option<u64>)
    ensures
        match r {
            None => countdown_of(label@) is None,
            Some(v) => countdown_of(label@) == Some(v as nat),
        },
{
    let n = label.unicode_len();
    let mut i: usize = 0;
    let mut v: u64 = 0;
    loop
        invariant
            i <= n,
            n == label@.len(),
            forall|j: int| 0 <= j < i ==> is_digit(#[trigger] label@[j]),
            v == saturated_value(label@.take(i as int)),
        ensures
            i <= n,
            forall|j: int| 0 <= j < i ==> is_digit(#[trigger] label@[j]),
            i == n || !is_digit(label@[i as int]),
            v == saturated_value(label@.take(i as int)),
        decreases n - i,
    {
        if i >= n {
            break;
        }
        let c = label.get_char(i);
        let code = c as u32;
        if code < 48 || code > 57 {
            break;
        }
        let d = (code - 48) as u64;
        proof {
            let t = label@.take(i as int + 1);
            assert(t.drop_last() =~= label@.take(i as int));
            assert(t.last() == c);
        }
        if v > (u64::MAX - d) / 10 {
            assert(v * 10 + d > u64::MAX) by (nonlinear_arith)
                requires
                    v > (u64::MAX - d) / 10,
                    d <= 9,
            ;
            v = u64::MAX;
        } else {
            assert(v * 10 + d <= u64::MAX) by (nonlinear_arith)
                requires
                    v <= (u64::MAX - d) / 10,
                    d <= 9,
            ;
            v = v * 10 + d;
        }
        i += 1;
    }
    proof {
        lemma_leading_digits(label@, i as int);
    }
    if i == 0 {
        None
    } else {
        Some(v)
    }
}

proof fn lemma_with_rank_add(a: Seq<ArrivalRecord>, b: Seq<ArrivalRecord>, k: int)
    ensures
        with_rank(a + b, k) == with_rank(a, k) + with_rank(b, k),
    decreases b.len(),
{
    if b.len() == 0 {
        assert(a + b =~= a);
        assert(with_rank(a, k) + with_rank(b, k) =~= with_rank(a, k));
    } else {
        assert((a + b).drop_last() =~= a + b.drop_last());
        assert((a + b).last() == b.last());
        lemma_with_rank_add(a, b.drop_last(), k);
        if rank(b.last()) == k {
            assert(with_rank(a, k) + with_rank(b.drop_last(), k).push(b.last()) =~= (with_rank(a, k)
                + with_rank(b.drop_last(), k)).push(b.last()));
        }
    }
}

proof fn lemma_with_rank_absent(s: Seq<ArrivalRecord>, k: int)
    requires
        forall|i: int| 0 <= i < s.len() ==> rank(#[trigger] s[i]) != k,
    ensures
        with_rank(s, k) == Seq::<ArrivalRecord>::empty(),
    decreases s.len(),
{
    if s.len() > 0 {
        assert(rank(s[s.len() - 1]) != k);
        assert forall|i: int| 0 <= i < s.drop_last().len() implies rank(
            #[trigger] s.drop_last()[i],
        ) != k by {
            assert(s.drop_last()[i] == s[i]);
        }
        lemma_with_rank_absent(s.drop_last(), k);
    }
}

/// The rank of a record as the executable code holds it: `None` before every
/// countdown.
fn record_rank(r: &ArrivalRecord) -> (k: Option<u64>)
    ensures
        match k {
            None => rank(*r) == -1,
            Some(v) => rank(*r) == v as int,
        },
{
    parse_countdown(r.eta.as_str())
}

fn rank_le(a: Option<u64>, b: Option<u64>) -> (r: bool)
    ensures
        r == (match a {
            None => -1int,
            Some(v) => v as int,
        } <= match b {
            None => -1int,
            Some(v) => v as int,
        }),
{
    match (a, b) {
        (None, _) => true,
        (Some(_), None) => false,
        (Some(x), Some(y)) => x <= y,
    }
}

/// Orders arrivals by countdown, soonest first. Labels without a countdown
/// ("DUE", "DLY") come before all others, and records of equal rank keep
/// their relative order.
pub fn sort_by_countdown(records: Vec<ArrivalRecord>) -> (r: Vec<ArrivalRecord>)
    ensures
        sorted_by_rank(r@),
        forall|k: int| #[trigger] with_rank(r@, k) == with_rank(records@, k),
        r@.len() == records@.len(),
{
    let ghost orig = records@;
    let mut rest = records;
    let mut out: Vec<ArrivalRecord> = Vec::new();
    let ghost mut i: int = 0;
    while rest.len() > 0
        invariant
            0 <= i <= orig.len(),
            rest@ == orig.skip(i),
            sorted_by_rank(out@),
            out@.len() == i,
            forall|k: int| #[trigger] with_rank(out@, k) == with_rank(orig.take(i), k),
        decreases rest.len(),
    {
        let x = rest.remove(0);
        assert(x == orig[i]);
        let kx = record_rank(&x);
        let mut p: usize = 0;
        loop
            invariant
                p <= out.len(),
                forall|j: int| 0 <= j < p ==> rank(#[trigger] out@[j]) <= rank(x),
                match kx {
                    None => rank(x) == -1,
                    Some(v) => rank(x) == v as int,
                },
            ensures
                p <= out.len(),
                forall|j: int| 0 <= j < p ==> rank(#[trigger] out@[j]) <= rank(x),
                p == out.len() || rank(x) < rank(out@[p as int]),
            decreases out.len() - p,
        {
            if p >= out.len() {
                break;
            }
            if !rank_le(record_rank(&out[p]), kx) {
                break;
            }
            p += 1;
        }
        let ghost old_out = out@;
        proof {
            assert forall|j: int| p <= j < old_out.len() implies rank(x) < rank(
                #[trigger] old_out[j],
            ) by {
                assert(rank(x) < rank(old_out[p as int]));
            }
        }
        out.insert(p, x);
        proof {
            let pre = old_out.take(p as int);
            let post = old_out.skip(p as int);
            assert(old_out =~= pre + post);
            assert(out@ =~= pre + seq![x] + post);
            let nxt = orig.take(i + 1);
            assert(nxt.drop_last() =~= orig.take(i));
            assert(nxt.last() == x);
            assert forall|k: int| #[trigger] with_rank(out@, k) == with_rank(nxt, k) by {
                lemma_with_rank_add(pre + seq![x], post, k);
                lemma_with_rank_add(pre, seq![x], k);
                lemma_with_rank_add(pre, post, k);
                assert(seq![x].drop_last() =~= Seq::<ArrivalRecord>::empty());
                assert(seq![x].last() == x);
                assert(with_rank(seq![x].drop_last(), k) =~= Seq::<ArrivalRecord>::empty());
                if k == rank(x) {
                    assert forall|j: int| 0 <= j < post.len() implies rank(#[trigger] post[j])
                        != k by {
                        assert(post[j] == old_out[p + j]);
                    }
                    lemma_with_rank_absent(post, k);
                    assert(with_rank(pre, k) + Seq::<ArrivalRecord>::empty() =~= with_rank(
                        pre,
                        k,
                    ));
                    assert(with_rank(pre, k) + with_rank(seq![x], k) =~= with_rank(pre, k).push(
                        x,
                    ));
                } else {
                    assert(with_rank(pre, k) + with_rank(seq![x], k) =~= with_rank(pre, k));
                }
            }
            assert forall|a: int, b: int| 0 <= a < b < out@.len() implies rank(
                #[trigger] out@[a],
            ) <= rank(#[trigger] out@[b]) by {
                if a < p && b > p {
                    assert(out@[a] == old_out[a]);
                    assert(out@[b] == old_out[b - 1]);
                } else if a < p && b == p {
                    assert(out@[a] == old_out[a]);
                } else if a == p {
                    assert(out@[b] == old_out[b - 1]);
                } else if b < p {
                    assert(out@[a] == old_out[a]);
                    assert(out@[b] == old_out[b]);
                } else {
                    assert(out@[a] == old_out[a - 1]);
                    assert(out@[b] == old_out[b - 1]);
                }
            }
            i = i + 1;
        }
    }
    assert(orig.take(i) =~= orig);
    out
}

} // verus!
