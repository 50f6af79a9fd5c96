//! Reading the memory totals out of `/proc/meminfo`.
use vstd::prelude::*;
use crate::text::{chars_of, lines, split_lines, split_words, words, parse_u64, parse_u64_spec, strip_prefix, strip_prefix_spec};

verus! {

/// The number at the start of a `/proc/meminfo` value: its first word read
/// as a `u64`, or 0 when there is none or it is not a number.
pub open spec fn kb_value(s: Seq<char>) -> u64 {
    if words(s).len() > 0 {
        match parse_u64_spec(words(s)[0]) {
            Some(v) => v,
            None => 0,
        }
    } else {
        0
    }
}

/// Reads the number at the start of a `/proc/meminfo` value.
pub fn parse_kb_chars(s: &Vec<char>) -> (v: u64)
    ensures
        v == kb_value(s@),
{
    let ws = split_words(s);
    if ws.len() > 0 {
        match parse_u64(&ws[0]) {
            Some(v) => v,
            None => 0,
        }
    } else {
        0
    }
}

/// Reads the number at the start of a `/proc/meminfo` value, such as
/// `"  16318412 kB"`.
pub fn parse_kb(s: &str) -> (v: u64)
    ensures
        v == kb_value(s@),
{
    let c = chars_of(s);
    parse_kb_chars(&c)
}

/// Memory totals in kB.
pub struct MemTotals {
    pub total_kb: u64,
    pub available_kb: u64,
}

/// What one line does to the totals read so far: `MemTotal:` sets the
/// total, `MemAvailable:` the available memory.
pub open spec fn meminfo_step(line: Seq<char>, total: u64, avail: u64) -> (u64, u64) {
    match strip_prefix_spec(line, "MemTotal:"@) {
        Some(r) => (kb_value(r), avail),
        None => match strip_prefix_spec(line, "MemAvailable:"@) {
            Some(r) => (total, kb_value(r)),
            None => (total, avail),
        },
    }
}

/// The totals after reading `ls` from the given totals, stopping at the
/// first line after which both are non-zero.
pub open spec fn meminfo_scan(ls: Seq<Seq<char>>, total: u64, avail: u64) -> (u64, u64)
    decreases ls.len(),
{
    if ls.len() == 0 {
        (total, avail)
    } else {
        let next = meminfo_step(ls[0], total, avail);
        if next.0 > 0 && next.1 > 0 {
            next
        } else {
            meminfo_scan(ls.drop_first(), next.0, next.1)
        }
    }
}

/// Reads the total and available memory out of the text of `/proc/meminfo`;
/// a figure that no line gives is 0.
pub fn parse_meminfo(content: &str) -> (m: MemTotals)
    ensures
        (m.total_kb, m.available_kb) == meminfo_scan(lines(content@), 0, 0),
{
    let chars = chars_of(content);
    let ls = split_lines(&chars);
    let ghost all = lines(content@);
    let mut total: u64 = 0;
    let mut avail: u64 = 0;
    let mut i: usize = 0;
    proof {
        assert(all.skip(0) =~= all);
    }
    while i < ls.len()
        invariant
            all == lines(content@),
            ls.len() == all.len(),
            forall|j: int| 0 <= j < ls.len() ==> (#[trigger] ls[j])@ == all[j],
            i <= ls.len(),
            meminfo_scan(all, 0, 0) == meminfo_scan(all.skip(i as int), total, avail),
        decreases ls.len() - i,
    {
        let line = &ls[i];
        let ghost t0 = total;
        let ghost a0 = avail;
        proof {
            assert(all.skip(i as int)[0] == line@);
            assert(all.skip(i as int).drop_first() =~= all.skip(i + 1));
        }
        match strip_prefix(line, "MemTotal:") {
            Some(r) => {
                total = parse_kb_chars(&r);
            },
            None => match strip_prefix(line, "MemAvailable:") {
                Some(r) => {
                    avail = parse_kb_chars(&r);
                },
                None => {},
            },
        }
        assert((total, avail) == meminfo_step(line@, t0, a0));
        if total > 0 && avail > 0 {
            assert(all.skip(i as int).len() > 0);
            assert(meminfo_scan(all.skip(i as int), t0, a0) == (total, avail));
            return MemTotals { total_kb: total, available_kb: avail };
        }
        i = i + 1;
    }
    proof {
        assert(all.skip(i as int).len() == 0);
    }
    MemTotals { total_kb: total, available_kb: avail }
}

} // verus!
