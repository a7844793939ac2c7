//! CPU and memory usage: the numbers the bar reads from `/proc/stat` and
//! `/proc/meminfo`.
use vstd::prelude::*;

use crate::text::{
    chars_of, copy_range, lines, lines_of, parse_unsigned, parse_unsigned_chars, split_whitespace,
    split_whitespace_chars, strip_prefix, strip_prefix_chars, string_of, trim, trim_chars,
};

verus! {

/// Aggregate CPU time: `idle` (idle + iowait) and `total`, in jiffies.
#[derive(Clone, Copy)]
pub struct CpuTotals {
    pub idle: u64,
    pub total: u64,
}

// ───────────────────────── specifications ─────────────────────────

/// The words of `ws` that read as `u64`, as numbers, in order.
pub open spec fn numbers(ws: Seq<Seq<char>>) -> Seq<u64>
    decreases ws.len(),
{
    if ws.len() == 0 {
        seq![]
    } else {
        let prev = numbers(ws.drop_last());
        match parse_unsigned(ws.last(), u64::MAX as nat) {
            Some(v) => prev.push(v as u64),
            None => prev,
        }
    }
}

/// The numbers after the label on the first line of `/proc/stat`.
pub open spec fn cpu_fields_spec(stat: Seq<char>) -> Seq<u64> {
    let line = if lines(stat).len() > 0 {
        lines(stat)[0]
    } else {
        seq![]
    };
    let ws = split_whitespace(line);
    if ws.len() > 0 {
        numbers(ws.drop_first())
    } else {
        seq![]
    }
}

pub open spec fn sum(v: Seq<u64>) -> nat
    decreases v.len(),
{
    if v.len() == 0 {
        0
    } else {
        sum(v.drop_last()) + v.last() as nat
    }
}

pub open spec fn field_or_zero(v: Seq<u64>, i: int) -> nat {
    if 0 <= i < v.len() {
        v[i] as nat
    } else {
        0
    }
}

/// The value on the last `/proc/meminfo` line starting with `key`: the
/// first word after the key, if there is such a line and it has a word.
pub open spec fn last_field(ls: Seq<Seq<char>>, key: Seq<char>) -> Option<Seq<char>>
    decreases ls.len(),
{
    if ls.len() == 0 {
        None
    } else {
        match strip_prefix(ls.last(), key) {
            Some(rest) => {
                let ws = split_whitespace(trim(rest));
                if ws.len() > 0 {
                    Some(ws[0])
                } else {
                    None
                }
            },
            None => last_field(ls.drop_last(), key),
        }
    }
}

// ───────────────────────── executable parts ─────────────────────────

/// The numbers after the label on the first line of `/proc/stat`.
pub fn cpu_fields(stat: &str) -> (r: Vec<u64>)
    ensures
        r@ == cpu_fields_spec(stat@),
{
    let ls = lines_of(&chars_of(stat));
    let line: Vec<char> = if ls.len() > 0 {
        assert(ls.deep_view()[0] == ls@[0]@);
        copy_range(&ls[0], 0, ls[0].len())
    } else {
        Vec::new()
    };
    let ghost full_line = if lines(stat@).len() > 0 { lines(stat@)[0] } else { seq![] };
    assert(line@ == full_line) by {
        if ls.len() > 0 {
            assert(ls.deep_view()[0] == ls@[0]@);
        }
    }
    let ws = split_whitespace_chars(&line);
    let ghost wv = ws.deep_view();
    let mut out: Vec<u64> = Vec::new();
    if ws.len() == 0 {
        return out;
    }
    let mut i: usize = 1;
    while i < ws.len()
        invariant
            1 <= i <= ws.len(),
            wv == ws.deep_view(),
            wv == split_whitespace(full_line),
            out@ == numbers(wv.drop_first().take(i - 1)),
        decreases ws.len() - i,
    {
        let ghost tail = wv.drop_first();
        assert(tail.take(i as int).drop_last() == tail.take(i - 1));
        assert(tail.take(i as int).last() == ws@[i as int]@);
        match parse_unsigned_chars(&ws[i], 18446744073709551615) {
            Some(v) => out.push(v),
            None => {},
        }
        i = i + 1;
    }
    assert(wv.drop_first().take(ws.len() - 1) == wv.drop_first());
    out
}

/// Idle and total CPU time from the `/proc/stat` numbers: idle is the sum of
/// the fourth and fifth numbers (0 for a missing one), total the sum of all.
/// `None` when the total does not fit in 64 bits.
pub fn cpu_totals(fields: &Vec<u64>) -> (r: Option<CpuTotals>)
    ensures
        match r {
            Some(t) => sum(fields@) <= u64::MAX && t.total == sum(fields@) && t.idle == field_or_zero(fields@, 3)
                + field_or_zero(fields@, 4),
            None => sum(fields@) > u64::MAX,
        },
{
    let mut total: u64 = 0;
    let mut i: usize = 0;
    while i < fields.len()
        invariant
            0 <= i <= fields.len(),
            total == sum(fields@.take(i as int)),
        decreases fields.len() - i,
    {
        assert(fields@.take(i + 1).drop_last() == fields@.take(i as int));
        match total.checked_add(fields[i]) {
            Some(t) => {
                total = t;
            },
            None => {
                proof {
                    lemma_sum_prefix(fields@, i + 1);
                }
                return None;
            },
        }
        i = i + 1;
    }
    assert(fields@.take(fields.len() as int) == fields@);
    let a: u64 = if fields.len() > 3 { fields[3] } else { 0 };
    let b: u64 = if fields.len() > 4 { fields[4] } else { 0 };
    proof {
        lemma_two_fields_le_sum(fields@);
    }
    Some(CpuTotals { idle: a + b, total })
}

proof fn lemma_sum_prefix(v: Seq<u64>, i: int)
    requires
        0 <= i <= v.len(),
    ensures
        sum(v.take(i)) <= sum(v),
    decreases v.len() - i,
{
    if i < v.len() {
        lemma_sum_prefix(v, i + 1);
        assert(v.take(i + 1).drop_last() == v.take(i));
    } else {
        assert(v.take(i) == v);
    }
}

proof fn lemma_two_fields_le_sum(v: Seq<u64>)
    ensures
        field_or_zero(v, 3) + field_or_zero(v, 4) <= sum(v),
    decreases v.len(),
{
    if v.len() > 0 {
        lemma_two_fields_le_sum(v.drop_last());
        let n = v.len() - 1;
        if n == 4 {
            lemma_sum_prefix(v.drop_last(), 4);
            assert(v.drop_last().take(4).drop_last() == v.drop_last().take(3));
            assert(sum(v.drop_last().take(4)) == sum(v.drop_last().take(3)) + v[3]);
        }
        if n == 3 {
            assert(field_or_zero(v, 4) == 0);
        }
        if n > 4 {
            assert(field_or_zero(v, 3) == field_or_zero(v.drop_last(), 3));
            assert(field_or_zero(v, 4) == field_or_zero(v.drop_last(), 4));
        }
    }
}

/// The CPU time that passed between two samples: `(total, idle)`, each 0
/// when the counter went backwards.
pub fn cpu_deltas(prev: CpuTotals, cur: CpuTotals) -> (r: (u64, u64))
    ensures
        r.0 == (if cur.total >= prev.total { cur.total - prev.total } else { 0 }),
        r.1 == (if cur.idle >= prev.idle { cur.idle - prev.idle } else { 0 }),
{
    (cur.total.saturating_sub(prev.total), cur.idle.saturating_sub(prev.idle))
}

/// The value on the last line of `/proc/meminfo` that starts with `key`.
pub fn mem_field(meminfo: &str, key: &str) -> (r: Option<String>)
    ensures
        match r {
            Some(v) => last_field(lines(meminfo@), key@) == Some(v@),
            None => last_field(lines(meminfo@), key@) is None,
        },
{
    let ls = lines_of(&chars_of(meminfo));
    let k = chars_of(key);
    let ghost lv = ls.deep_view();
    let mut i: usize = ls.len();
    assert(lv.take(ls.len() as int) == lv);
    while i > 0
        invariant
            0 <= i <= ls.len(),
            lv == ls.deep_view(),
            lv == lines(meminfo@),
            k@ == key@,
            last_field(lv, key@) == last_field(lv.take(i as int), key@),
        decreases i,
    {
        assert(lv.take(i as int).last() == ls@[i - 1]@);
        assert(lv.take(i as int).drop_last() == lv.take(i - 1));
        match strip_prefix_chars(&ls[i - 1], &k) {
            Some(rest) => {
                assert(rest.deep_view() == rest@);
                let ws = split_whitespace_chars(&trim_chars(&rest));
                if ws.len() > 0 {
                    assert(ws.deep_view()[0] == ws@[0]@);
                    return Some(string_of(&ws[0]));
                }
                return None;
            },
            None => {},
        }
        i = i - 1;
    }
    None
}

}
