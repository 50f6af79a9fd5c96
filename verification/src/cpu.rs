//! CPU load from `/proc/stat`: the idle and total tick counts and their
//! change between two samples.
use vstd::prelude::*;
use crate::text::{chars_of, lines, split_lines, split_words, words, parse_u64, parse_u64_spec, starts_with, has_prefix};

verus! {

/// The words of `ws` that read as `u64`, as numbers, in order.
pub open spec fn numbers(ws: Seq<Seq<char>>) -> Seq<u64>
    decreases ws.len(),
{
    if ws.len() == 0 {
        seq![]
    } else {
        match parse_u64_spec(ws.last()) {
            Some(v) => numbers(ws.drop_last()).push(v),
            None => numbers(ws.drop_last()),
        }
    }
}

/// The sum of `s`.
pub open spec fn sum(s: Seq<u64>) -> int
    decreases s.len(),
{
    if s.len() == 0 {
        0
    } else {
        sum(s.drop_last()) + s.last()
    }
}

/// The tick counts of the aggregate `cpu` line: the numbers after its first
/// word, when the text starts with a `cpu ` line; none otherwise.
pub open spec fn stat_values(content: Seq<char>) -> Seq<u64> {
    let ls = lines(content);
    if ls.len() > 0 && has_prefix(ls[0], "cpu "@) && words(ls[0]).len() > 0 {
        numbers(words(ls[0]).drop_first())
    } else {
        seq![]
    }
}

/// Idle and total ticks: idle is the fourth value plus the fifth (iowait)
/// when present, total the sum of all values; both 0 with fewer than four values.
pub open spec fn cpu_times_spec(content: Seq<char>) -> (int, int) {
    let v = stat_values(content);
    if v.len() < 4 {
        (0, 0)
    } else {
        (v[3] + (if v.len() > 4 {
            v[4] as int
        } else {
            0
        }), sum(v))
    }
}

proof fn lemma_sum_nonneg(s: Seq<u64>)
    ensures
        sum(s) >= 0,
    decreases s.len(),
{
    if s.len() > 0 {
        lemma_sum_nonneg(s.drop_last());
    }
}

proof fn lemma_sum_bounds(s: Seq<u64>, i: int)
    requires
        0 <= i < s.len(),
    ensures
        0 <= s[i] <= sum(s),
        sum(s) >= 0,
    decreases s.len(),
{
    lemma_sum_nonneg(s.drop_last());
    if i < s.len() - 1 {
        lemma_sum_bounds(s.drop_last(), i);
        assert(s.drop_last()[i] == s[i]);
    }
}

proof fn lemma_two_le_sum(s: Seq<u64>)
    requires
        s.len() > 4,
    ensures
        s[3] + s[4] <= sum(s),
    decreases s.len(),
{
    if s.len() > 5 {
        lemma_two_le_sum(s.drop_last());
        lemma_sum_bounds(s.drop_last(), 0);
    } else {
        lemma_sum_bounds(s.drop_last(), 3);
        assert(s.drop_last()[3] == s[3]);
    }
}

/// Reads the idle and total tick counts out of the text of `/proc/stat`;
/// `None` when the total does not fit in a `u64`.
pub fn read_cpu_times(content: &str) -> (r: Option<(u64, u64)>)
    ensures
        r is None <==> cpu_times_spec(content@).1 > u64::MAX,
        r matches Some(t) ==> t.0 == cpu_times_spec(content@).0 && t.1 == cpu_times_spec(
            content@,
        ).1,
{
    let chars = chars_of(content);
    let ls = split_lines(&chars);
    if ls.len() == 0 || !starts_with(&ls[0], "cpu ") {
        return Some((0, 0));
    }
    let ws = split_words(&ls[0]);
    let ghost wsv = words(ls[0]@);
    if ws.len() == 0 {
        return Some((0, 0));
    }
    let mut values: Vec<u64> = Vec::new();
    let mut i: usize = 1;
    proof {
        assert(wsv.drop_first().take(0) =~= Seq::<Seq<char>>::empty());
    }
    while i < ws.len()
        invariant
            wsv == words(ls[0]@),
            ws.len() == wsv.len(),
            forall|j: int| 0 <= j < ws.len() ==> (#[trigger] ws[j])@ == wsv[j],
            1 <= i <= ws.len(),
            values@ == numbers(wsv.drop_first().take(i - 1)),
        decreases ws.len() - i,
    {
        proof {
            let t = wsv.drop_first().take(i as int);
            assert(t.drop_last() =~= wsv.drop_first().take(i - 1));
            assert(t.last() == ws[i as int]@);
        }
        match parse_u64(&ws[i]) {
            Some(v) => values.push(v),
            None => {},
        }
        i = i + 1;
    }
    proof {
        assert(wsv.drop_first().take(ws.len() - 1) =~= wsv.drop_first());
    }
    let ghost vals = stat_values(content@);
    assert(values@ == vals);
    if values.len() < 4 {
        return Some((0, 0));
    }
    let mut total: u64 = 0;
    let mut k: usize = 0;
    while k < values.len()
        invariant
            values@ == stat_values(content@),
            values.len() >= 4,
            k <= values.len(),
            total == sum(values@.take(k as int)),
        decreases values.len() - k,
    {
        proof {
            assert(values@.take(k + 1).drop_last() =~= values@.take(k as int));
        }
        match total.checked_add(values[k]) {
            Some(t) => {
                total = t;
            },
            None => {
                proof {
                    assert(values@.take(k + 1).last() == values@[k as int]);
                    assert(sum(values@.take(k + 1)) == total + values@[k as int]);
                    lemma_sum_prefix(values@, k + 1);
                    assert(cpu_times_spec(content@).1 == sum(values@));
                }
                return None;
            },
        }
        k = k + 1;
    }
    proof {
        assert(values@.take(values.len() as int) =~= values@);
        lemma_sum_bounds(values@, 3);
        if values.len() > 4 {
            lemma_two_le_sum(values@);
        }
    }
    let idle = values[3] + if values.len() > 4 {
        values[4]
    } else {
        0
    };
    Some((idle, total))
}

proof fn lemma_sum_prefix(s: Seq<u64>, k: int)
    requires
        0 <= k <= s.len(),
    ensures
        sum(s.take(k)) <= sum(s),
    decreases s.len(),
{
    if k < s.len() {
        lemma_sum_prefix(s.drop_last(), k);
        assert(s.drop_last().take(k) =~= s.take(k));
    } else {
        assert(s.take(k) =~= s);
    }
}

/// The change in idle and total ticks between two samples.
pub struct CpuDelta {
    pub idle: u64,
    pub total: u64,
}

/// The tick counts of the previous sample.
pub struct CpuSampler {
    prev_idle: u64,
    prev_total: u64,
}

impl CpuSampler {
    /// A sampler whose first sample is taken at the given tick counts.
    pub fn new(idle: u64, total: u64) -> (s: Self)
        ensures
            s.prev() == (idle, total),
    {
        Self { prev_idle: idle, prev_total: total }
    }

    /// The idle and total ticks of the last sample.
    pub closed spec fn prev(&self) -> (u64, u64) {
        (self.prev_idle, self.prev_total)
    }

    /// Takes a new sample: the ticks since the last one (0 where a counter
    /// went backwards), and the new counts become the last sample.
    pub fn sample(&mut self, idle: u64, total: u64) -> (d: CpuDelta)
        ensures
            d.idle == (if idle >= old(self).prev().0 {
                idle - old(self).prev().0
            } else {
                0
            }),
            d.total == (if total >= old(self).prev().1 {
                total - old(self).prev().1
            } else {
                0
            }),
            final(self).prev() == (idle, total),
    {
        let d_idle = idle.saturating_sub(self.prev_idle);
        let d_total = total.saturating_sub(self.prev_total);
        self.prev_idle = idle;
        self.prev_total = total;
        CpuDelta { idle: d_idle, total: d_total }
    }
}

} // verus!
