//! The reporter: sort the latency distribution and render the answer with
//! its median, average, minimum and maximum, one `FERRIS_ELF_` line each.

use vstd::prelude::*;
use crate::clock::MAX_GAP_NANOS;
use crate::sampler::SAMPLE_COUNT;

verus! {

use vstd::seq_lib::group_to_multiset_ensures;
use vstd::seq_lib::lemma_multiset_commutative;
use vstd::multiset::group_multiset_axioms;
use vstd::multiset::Multiset;
use vstd::string::StringExecFns;

/// Ascending order.
pub open spec fn sorted_asc(s: Seq<u128>) -> bool {
    forall|a: int, b: int| 0 <= a <= b < s.len() ==> s[a] <= s[b]
}

/// The sum of the samples.
pub open spec fn sample_sum(s: Seq<u128>) -> int
    decreases s.len(),
{
    if s.len() == 0 {
        0
    } else {
        sample_sum(s.drop_last()) + s.last()
    }
}

proof fn lemma_insert_multiset(s: Seq<u128>, k: int, x: u128)
    requires
        0 <= k <= s.len(),
    ensures
        s.insert(k, x).to_multiset() == s.to_multiset().insert(x),
{
    broadcast use group_to_multiset_ensures;
    broadcast use group_multiset_axioms;

    assert(s.insert(k, x) =~= s.take(k) + (seq![x] + s.skip(k)));
    assert(s =~= s.take(k) + s.skip(k));
    lemma_multiset_commutative(s.take(k), seq![x] + s.skip(k));
    lemma_multiset_commutative(seq![x], s.skip(k));
    lemma_multiset_commutative(s.take(k), s.skip(k));
    assert(seq![x] =~= Seq::<u128>::empty().push(x));
    assert(Seq::<u128>::empty().push(x).to_multiset() =~= Multiset::<u128>::empty().insert(x));
    assert(s.insert(k, x).to_multiset() =~= s.to_multiset().insert(x));
}

/// Sort the samples ascending; the result is a permutation of the input.
#[verifier::loop_isolation(false)]
pub fn sort_samples(v: &Vec<u128>) -> (r: Vec<u128>)
    ensures
        sorted_asc(r@),
        r@.to_multiset() == v@.to_multiset(),
        r@.len() == v@.len(),
{
    let mut r: Vec<u128> = Vec::new();
    proof {
        broadcast use group_to_multiset_ensures;

        assert(v@.take(0) =~= Seq::<u128>::empty());
        assert(r@.to_multiset() =~= v@.take(0).to_multiset());
    }
    let mut i: usize = 0;
    while i < v.len()
        invariant
            i <= v@.len(),
            r@.len() == i,
            sorted_asc(r@),
            r@.to_multiset() == v@.take(i as int).to_multiset(),
        decreases v@.len() - i,
    {
        let x = v[i];
        let ghost r_old = r@;
        let mut k: usize = 0;
        while k < r.len() && r[k] <= x
            invariant
                k <= r@.len(),
                r@ == r_old,
                forall|q: int| 0 <= q < k ==> r@[q] <= x,
            decreases r@.len() - k,
        {
            k += 1;
        }
        r.insert(k, x);
        proof {
            broadcast use group_to_multiset_ensures;

            assert(r@ == r_old.insert(k as int, x));
            assert forall|a: int, b: int| 0 <= a <= b < r@.len() implies r@[a] <= r@[b] by {
                assert(r@ =~= r_old.take(k as int) + (seq![x] + r_old.skip(k as int)));
                if k < r_old.len() {
                    assert(r_old[k as int] > x);
                }
            }
            lemma_insert_multiset(r_old, k as int, x);
            assert(v@.take(i + 1) =~= v@.take(i as int).push(x));
            assert(v@.take(i + 1).to_multiset() =~= v@.take(i as int).to_multiset().insert(x));
        }
        i += 1;
    }
    proof {
        assert(v@.take(i as int) =~= v@);
    }
    r
}

/// The summary statistics of the sample distribution, in nanoseconds.
pub struct Stats {
    pub median: u128,
    pub average: u128,
    pub min: u128,
    pub max: u128,
}

proof fn lemma_sum_bounds(s: Seq<u128>, lo: u128, hi: u128)
    requires
        forall|i: int| 0 <= i < s.len() ==> lo <= #[trigger] s[i] <= hi,
    ensures
        s.len() * lo <= sample_sum(s) <= s.len() * hi,
    decreases s.len(),
{
    if s.len() > 0 {
        assert(forall|i: int|
            0 <= i < s.drop_last().len() ==> lo <= #[trigger] s.drop_last()[i] <= hi);
        lemma_sum_bounds(s.drop_last(), lo, hi);
        assert((s.len() - 1) * lo + lo == s.len() * lo) by (nonlinear_arith);
        assert((s.len() - 1) * hi + hi == s.len() * hi) by (nonlinear_arith);
    }
}

/// The summary of a sorted 100-sample distribution: the median is the
/// sample at sorted index 50, the average the sum of all samples divided by
/// 100, the minimum and maximum the first and last samples; median and
/// average both lie between minimum and maximum.
#[verifier::loop_isolation(false)]
pub fn summarize(sorted_samples: &Vec<u128>) -> (st: Stats)
    requires
        sorted_asc(sorted_samples@),
        sorted_samples@.len() == SAMPLE_COUNT,
        forall|i: int|
            0 <= i < sorted_samples@.len() ==> #[trigger] sorted_samples@[i] <= MAX_GAP_NANOS,
    ensures
        st.median == sorted_samples@[50],
        st.min == sorted_samples@[0],
        st.max == sorted_samples@[99],
        st.average == sample_sum(sorted_samples@) / 100,
        st.min <= st.median <= st.max,
        st.min <= st.average <= st.max,
{
    let min = sorted_samples[0];
    let max = sorted_samples[99];
    let median = sorted_samples[50];
    let mut total: u128 = 0;
    let mut i: usize = 0;
    while i < 100
        invariant
            i <= 100,
            total == sample_sum(sorted_samples@.take(i as int)),
            total <= i * MAX_GAP_NANOS,
        decreases 100 - i,
    {
        proof {
            assert(sorted_samples@.take(i + 1).drop_last() =~= sorted_samples@.take(i as int));
            assert(sorted_samples@.take(i + 1).last() == sorted_samples@[i as int]);
        }
        total = total + sorted_samples[i];
        i += 1;
    }
    proof {
        assert(sorted_samples@.take(100) =~= sorted_samples@);
        assert(forall|j: int|
            0 <= j < sorted_samples@.len() ==> min <= #[trigger] sorted_samples@[j] <= max);
        lemma_sum_bounds(sorted_samples@, min, max);
        assert(total / 100 >= min) by (nonlinear_arith)
            requires
                100 * (min as int) <= total,
        ;
        assert(total / 100 <= max) by (nonlinear_arith)
            requires
                total <= 100 * (max as int),
        ;
    }
    let average = total / 100;
    Stats { median, average, min, max }
}

/// The character of one decimal digit.
pub open spec fn digit_char(d: nat) -> char {
    if d == 0 {
        '0'
    } else if d == 1 {
        '1'
    } else if d == 2 {
        '2'
    } else if d == 3 {
        '3'
    } else if d == 4 {
        '4'
    } else if d == 5 {
        '5'
    } else if d == 6 {
        '6'
    } else if d == 7 {
        '7'
    } else if d == 8 {
        '8'
    } else {
        '9'
    }
}

/// The decimal digits of a number, most significant first.
pub open spec fn spec_decimal(n: nat) -> Seq<char>
    decreases n,
{
    if n < 10 {
        seq![digit_char(n)]
    } else {
        spec_decimal(n / 10).push(digit_char(n % 10))
    }
}

fn digit_str(d: u128) -> (r: &'static str)
    requires
        d < 10,
    ensures
        r@ == seq![digit_char(d as nat)],
{
    proof {
        reveal_strlit("0");
        reveal_strlit("1");
        reveal_strlit("2");
        reveal_strlit("3");
        reveal_strlit("4");
        reveal_strlit("5");
        reveal_strlit("6");
        reveal_strlit("7");
        reveal_strlit("8");
        reveal_strlit("9");
    }
    if d == 0 {
        "0"
    } else if d == 1 {
        "1"
    } else if d == 2 {
        "2"
    } else if d == 3 {
        "3"
    } else if d == 4 {
        "4"
    } else if d == 5 {
        "5"
    } else if d == 6 {
        "6"
    } else if d == 7 {
        "7"
    } else if d == 8 {
        "8"
    } else {
        "9"
    }
}

/// The decimal text of a nanosecond count.
pub fn format_nanos(n: u128) -> (s: String)
    ensures
        s@ == spec_decimal(n as nat),
    decreases n,
{
    if n < 10 {
        let s = digit_str(n).to_owned();
        s
    } else {
        let mut s = format_nanos(n / 10);
        s.append(digit_str(n % 10));
        proof {
            assert(s@ =~= spec_decimal((n / 10) as nat).push(digit_char((n % 10) as nat)));
        }
        s
    }
}

/// The rendered report: the answer, then each statistic as an integer count
/// of nanoseconds, one labelled line each.
pub open spec fn report_text(answer: Seq<char>, st: Stats) -> Seq<char> {
    "FERRIS_ELF_ANSWER "@ + answer + "\n"@ + "FERRIS_ELF_MEDIAN "@ + spec_decimal(
        st.median as nat,
    ) + "\n"@ + "FERRIS_ELF_AVERAGE "@ + spec_decimal(st.average as nat) + "\n"@
        + "FERRIS_ELF_MIN "@ + spec_decimal(st.min as nat) + "\n"@ + "FERRIS_ELF_MAX "@
        + spec_decimal(st.max as nat) + "\n"@
}

/// Render the report for an answer and its summary statistics.
pub fn render(answer: &String, st: &Stats) -> (text: String)
    ensures
        text@ == report_text(answer@, *st),
{
    let mut out = "FERRIS_ELF_ANSWER ".to_owned();
    out.append(answer.as_str());
    out.append("\n");
    out.append("FERRIS_ELF_MEDIAN ");
    let median_text = format_nanos(st.median);
    out.append(median_text.as_str());
    out.append("\n");
    out.append("FERRIS_ELF_AVERAGE ");
    let average_text = format_nanos(st.average);
    out.append(average_text.as_str());
    out.append("\n");
    out.append("FERRIS_ELF_MIN ");
    let min_text = format_nanos(st.min);
    out.append(min_text.as_str());
    out.append("\n");
    out.append("FERRIS_ELF_MAX ");
    let max_text = format_nanos(st.max);
    out.append(max_text.as_str());
    out.append("\n");
    proof {
        assert(out@ =~= report_text(answer@, *st));
    }
    out
}

/// Sort the distribution and render the full report: for some ascending
/// permutation of the samples, the text shows the answer, the median (the
/// sorted sample at index 50), the average, the minimum and the maximum.
pub fn report(answer: &String, samples: &Vec<u128>) -> (text: String)
    requires
        samples@.len() == SAMPLE_COUNT,
        forall|i: int| 0 <= i < samples@.len() ==> #[trigger] samples@[i] <= MAX_GAP_NANOS,
    ensures
        exists|perm: Seq<u128>|
            {
                &&& sorted_asc(perm)
                &&& perm.to_multiset() == samples@.to_multiset()
                &&& perm.len() == samples@.len()
                &&& text@ == #[trigger] report_text(
                    answer@,
                    (Stats {
                        median: perm[50],
                        average: (sample_sum(perm) / 100) as u128,
                        min: perm[0],
                        max: perm[99],
                    }),
                )
            },
{
    let sorted_vec = sort_samples(samples);
    proof {
        broadcast use group_to_multiset_ensures;

        assert forall|i: int| 0 <= i < sorted_vec@.len() implies #[trigger] sorted_vec@[i]
            <= MAX_GAP_NANOS by {
            assert(sorted_vec@.contains(sorted_vec@[i]));
            assert(sorted_vec@.to_multiset().count(sorted_vec@[i]) > 0);
            assert(samples@.contains(sorted_vec@[i]));
        }
    }
    let st = summarize(&sorted_vec);
    let text = render(answer, &st);
    proof {
        let perm = sorted_vec@;
        assert(st.average == (sample_sum(perm) / 100) as u128);
        assert(sorted_asc(perm) && perm.to_multiset() == samples@.to_multiset() && perm.len()
            == samples@.len() && text@ == report_text(
            answer@,
            (Stats {
                median: perm[50],
                average: (sample_sum(perm) / 100) as u128,
                min: perm[0],
                max: perm[99],
            }),
        ));
    }
    text
}

} // verus!
