//! What the status bar shows: the battery, CPU and memory indicators,
//! computed from the text the kernel reports under `/sys` and `/proc`.
//!
//! Reading those files and drawing the bar happen outside this library.

use vstd::prelude::*;
use crate::text::{
    chars_of, chars_eq_str, trim, trim_spec, lines, lines_spec, words, words_spec, parse_u64,
    parse_unsigned, push_decimal, decimal, string_from_chars, strip_prefix, strip_prefix_spec,
};

verus! {

/// Battery icons (Nerd Font glyphs).
pub const BATTERY_CHARGING: &'static str = "\u{f0084}";

pub const BATTERY_FULL: &'static str = "\u{f240}";

pub const BATTERY_THREE_QUARTERS: &'static str = "\u{f241}";

pub const BATTERY_HALF: &'static str = "\u{f242}";

pub const BATTERY_QUARTER: &'static str = "\u{f243}";

pub const BATTERY_EMPTY: &'static str = "\u{f244}";

/// The CPU chip icon.
pub const CPU_ICON: &'static str = "\u{f2db}";

/// The memory icon.
pub const RAM_ICON: &'static str = "\u{e266}";

/// The battery icon for a charge (a percentage) and a status as the kernel
/// reports them.
pub open spec fn battery_icon_spec(charge: u32, status: Seq<char>) -> Seq<char> {
    if status == "Charging"@ {
        BATTERY_CHARGING@
    } else if charge >= 90 || status == "Full"@ {
        BATTERY_FULL@
    } else if charge >= 70 {
        BATTERY_THREE_QUARTERS@
    } else if charge >= 50 {
        BATTERY_HALF@
    } else if charge >= 20 {
        BATTERY_QUARTER@
    } else {
        BATTERY_EMPTY@
    }
}

/// The battery icon for `charge` (0-100) and `status` (`Charging`, `Full`,
/// ...): the charging icon while charging, else by charge level.
pub fn battery_icon(charge: u32, status: &str) -> (r: &'static str)
    ensures
        r@ == battery_icon_spec(charge, status@),
{
    if crate::text::str_eq(status, "Charging") {
        BATTERY_CHARGING
    } else if charge >= 90 || crate::text::str_eq(status, "Full") {
        BATTERY_FULL
    } else if charge >= 70 {
        BATTERY_THREE_QUARTERS
    } else if charge >= 50 {
        BATTERY_HALF
    } else if charge >= 20 {
        BATTERY_QUARTER
    } else {
        BATTERY_EMPTY
    }
}

/// The battery icons by level: charging always shows the charging glyph;
/// otherwise 90% or more (or a full battery) is full, 70-89% three
/// quarters, 50-69% half, 20-49% a quarter, and below 20% empty.
pub proof fn lemma_battery_icon_levels(charge: u32, status: Seq<char>)
    ensures
        status == "Charging"@ ==> battery_icon_spec(charge, status) == seq!['\u{f0084}'],
        status != "Charging"@ && (charge >= 90 || status == "Full"@) ==> battery_icon_spec(
            charge,
            status,
        ) == seq!['\u{f240}'],
        status != "Charging"@ && status != "Full"@ && 70 <= charge < 90 ==> battery_icon_spec(
            charge,
            status,
        ) == seq!['\u{f241}'],
        status != "Charging"@ && status != "Full"@ && 50 <= charge < 70 ==> battery_icon_spec(
            charge,
            status,
        ) == seq!['\u{f242}'],
        status != "Charging"@ && status != "Full"@ && 20 <= charge < 50 ==> battery_icon_spec(
            charge,
            status,
        ) == seq!['\u{f243}'],
        status != "Charging"@ && status != "Full"@ && charge < 20 ==> battery_icon_spec(
            charge,
            status,
        ) == seq!['\u{f244}'],
{
    reveal_strlit("\u{f0084}");
    reveal_strlit("\u{f240}");
    reveal_strlit("\u{f241}");
    reveal_strlit("\u{f242}");
    reveal_strlit("\u{f243}");
    reveal_strlit("\u{f244}");
}

/// Between two samples the CPU usage is the busy share of the time that
/// passed: 100 minus the idle share, rounded down, in percent; the first
/// sample, and a sample in which no time passed, read 0.
pub proof fn lemma_busy_percent_share(previous: Option<(u64, u64)>, idle: u64, total: u64)
    ensures
        previous is None ==> busy_percent(previous, idle, total) == 0,
        previous matches Some((pi, pt)) ==> (total <= pt ==> busy_percent(previous, idle, total)
            == 0),
        previous matches Some((pi, pt)) ==> (total > pt && idle >= pi && (idle - pi) * 100 / (
        total - pt) <= 100 ==> busy_percent(previous, idle, total) == 100 - (idle - pi) * 100 / (
        total - pt)),
        previous matches Some((pi, pt)) ==> (total > pt && idle <= pi ==> busy_percent(
            previous,
            idle,
            total,
        ) == 100),
{
}

/// An icon, a space, a number and a percent sign: `"{icon} {n}%"`.
pub open spec fn percent_label(icon: Seq<char>, n: nat) -> Seq<char> {
    icon + seq![' '] + decimal(n) + seq!['%']
}

/// The label `"{icon} {n}%"`.
pub fn icon_percent(icon: &str, n: u64) -> (r: String)
    ensures
        r@ == percent_label(icon@, n as nat),
{
    let mut out = chars_of(icon);
    out.push(' ');
    push_decimal(&mut out, n);
    out.push('%');
    assert(out@ =~= percent_label(icon@, n as nat));
    string_from_chars(out.as_slice())
}

/// What a `u32` parse of `s` gives, as a number.
pub open spec fn parse_u32_spec(s: Seq<char>) -> Option<nat> {
    parse_unsigned(s, 10, u32::MAX as nat)
}

/// The battery label for the contents of the `status` and `capacity` files
/// of a power supply: `None` when the capacity is no number.
pub open spec fn battery_label(status: Seq<char>, capacity: Seq<char>) -> Option<Seq<char>> {
    match parse_u32_spec(trim_spec(capacity)) {
        Some(c) => Some(percent_label(battery_icon_spec(c as u32, trim_spec(status)), c)),
        None => None,
    }
}

/// The battery indicator from the contents of a power supply's `status` and
/// `capacity` files. `capacity` is always present and already a 0-100
/// percentage, whichever units the battery reports in.
pub fn battery_status_text(status: &str, capacity: &str) -> (r: Option<String>)
    ensures
        match r {
            Some(t) => battery_label(status@, capacity@) == Some(t@),
            None => battery_label(status@, capacity@) is None,
        },
{
    let st = trim(chars_of(status).as_slice());
    let cap = trim(chars_of(capacity).as_slice());
    let charge: u32 = match crate::text::parse_u32_radix(cap.as_slice(), 10) {
        Some(c) => c,
        None => {
            return None;
        },
    };
    let st_string = string_from_chars(st.as_slice());
    let icon = battery_icon(charge, st_string.as_str());
    Some(icon_percent(icon, charge as u64))
}

/// The numbers among `words`, in order: what `filter_map` of a `u64` parse
/// keeps.
pub open spec fn parsed_numbers(words: Seq<Seq<char>>) -> Seq<u64>
    decreases words.len(),
{
    if words.len() == 0 {
        seq![]
    } else {
        let p = parsed_numbers(words.drop_last());
        match parse_unsigned(words.last(), 10, u64::MAX as nat) {
            Some(v) => p.push(v as u64),
            None => p,
        }
    }
}

/// The counters of the aggregate `cpu` line, the first line of
/// `/proc/stat`: `None` unless that line starts with `cpu` and holds at
/// least four numbers.
pub open spec fn cpu_fields_spec(stat: Seq<char>) -> Option<Seq<u64>> {
    let ls = lines_spec(stat);
    if ls.len() == 0 {
        None
    } else {
        let ws = words_spec(ls[0]);
        if ws.len() == 0 || ws[0] != "cpu"@ {
            None
        } else {
            let values = parsed_numbers(ws.drop_first());
            if values.len() < 4 {
                None
            } else {
                Some(values)
            }
        }
    }
}

/// The counters of the aggregate `cpu` line of `/proc/stat` (user, nice,
/// system, idle, iowait, ...); words that are no number are skipped.
pub fn cpu_fields(stat: &str) -> (r: Option<Vec<u64>>)
    ensures
        match r {
            Some(v) => cpu_fields_spec(stat@) == Some(v@),
            None => cpu_fields_spec(stat@) is None,
        },
{
    let text = chars_of(stat);
    let ls = lines(text.as_slice());
    if ls.len() == 0 {
        return None;
    }
    let ws = words(ls[0].as_slice());
    assert(ls@[0]@ == lines_spec(stat@)[0]);
    if ws.len() == 0 {
        return None;
    }
    assert(ws@[0]@ == words_spec(ls@[0]@)[0]);
    if !chars_eq_str(ws[0].as_slice(), "cpu") {
        return None;
    }
    let ghost rest = words_spec(ls@[0]@).drop_first();
    let mut values: Vec<u64> = Vec::new();
    let mut i: usize = 1;
    assert(rest.take(0) =~= Seq::<Seq<char>>::empty());
    while i < ws.len()
        invariant
            1 <= i <= ws.len(),
            crate::text::seq_views(ws@) == words_spec(ls@[0]@),
            rest == words_spec(ls@[0]@).drop_first(),
            values@ == parsed_numbers(rest.take(i - 1)),
        decreases ws.len() - i,
    {
        assert(rest.take(i as int).drop_last() =~= rest.take(i - 1));
        assert(rest.take(i as int).last() == ws@[i as int]@);
        match parse_u64(ws[i].as_slice()) {
            Some(v) => {
                values.push(v);
            },
            None => {},
        }
        i = i + 1;
    }
    assert(rest.take(ws.len() - 1) =~= rest);
    if values.len() < 4 {
        return None;
    }
    Some(values)
}

/// The sum of `s`.
pub open spec fn seq_sum(s: Seq<u64>) -> nat
    decreases s.len(),
{
    if s.len() == 0 {
        0
    } else {
        seq_sum(s.drop_last()) + s.last() as nat
    }
}

/// Two different elements add up to no more than the whole sum.
proof fn lemma_two_le_sum(s: Seq<u64>, i: int, j: int)
    requires
        0 <= i < j < s.len(),
    ensures
        s[i] + s[j] <= seq_sum(s),
    decreases s.len(),
{
    if j < s.len() - 1 {
        lemma_two_le_sum(s.drop_last(), i, j);
    } else {
        lemma_one_le_sum(s.drop_last(), i);
    }
}

/// An element is no more than the whole sum.
proof fn lemma_one_le_sum(s: Seq<u64>, i: int)
    requires
        0 <= i < s.len(),
    ensures
        s[i] <= seq_sum(s),
    decreases s.len(),
{
    if i < s.len() - 1 {
        lemma_one_le_sum(s.drop_last(), i);
    }
}

/// The idle time among the counters: idle plus iowait (when present).
pub open spec fn idle_ticks(values: Seq<u64>) -> nat {
    values[3] as nat + (if values.len() > 4 {
        values[4] as nat
    } else {
        0
    })
}

/// `(idle_ticks, total_ticks)` of the counters of the `cpu` line. CPU usage
/// is no instantaneous value, only counters of time spent per state since
/// boot, so a percentage takes two samples.
pub fn cpu_ticks(values: &[u64]) -> (r: (u64, u64))
    requires
        values.len() >= 4,
        seq_sum(values@) <= u64::MAX,
    ensures
        r.0 == idle_ticks(values@),
        r.0 == values@[3] + (if values.len() > 4 {
            values@[4] as int
        } else {
            0
        }),
        r.1 == seq_sum(values@),
{
    proof {
        if values.len() > 4 {
            lemma_two_le_sum(values@, 3, 4);
        } else {
            lemma_one_le_sum(values@, 3);
        }
    }
    let idle: u64 = values[3] + if values.len() > 4 {
        values[4]
    } else {
        0
    };
    let mut total: u64 = 0;
    let mut i: usize = 0;
    assert(values@.take(0) =~= Seq::<u64>::empty());
    while i < values.len()
        invariant
            i <= values.len(),
            seq_sum(values@) <= u64::MAX,
            total == seq_sum(values@.take(i as int)),
        decreases values.len() - i,
    {
        assert(values@.take(i + 1).drop_last() =~= values@.take(i as int));
        proof {
            lemma_sum_prefix_le(values@, i + 1);
        }
        total = total + values[i];
        i = i + 1;
    }
    assert(values@.take(values.len() as int) =~= values@);
    (idle, total)
}

/// The sum of a prefix is no more than the whole sum.
proof fn lemma_sum_prefix_le(s: Seq<u64>, k: int)
    requires
        0 <= k <= s.len(),
    ensures
        seq_sum(s.take(k)) <= seq_sum(s),
    decreases s.len() - k,
{
    if k < s.len() {
        lemma_sum_prefix_le(s, k + 1);
        assert(s.take(k + 1).drop_last() =~= s.take(k));
    } else {
        assert(s.take(k) =~= s);
    }
}

/// The idle time is the idle counter plus the iowait counter (when there is
/// one); the counters after iowait (irq, softirq, steal, guest, ...) count
/// as busy time: two lines that agree on their first five counters have the
/// same idle time, whatever follows.
pub proof fn lemma_idle_is_idle_plus_iowait(values: Seq<u64>, other: Seq<u64>)
    requires
        values.len() >= 4,
    ensures
        values.len() == 4 ==> idle_ticks(values) == values[3],
        values.len() > 4 ==> idle_ticks(values) == values[3] + values[4],
        other.len() >= 5 && values.len() >= 5 && other.take(5) == values.take(5) ==> idle_ticks(other)
            == idle_ticks(values),
{
    if other.len() >= 5 && values.len() >= 5 && other.take(5) == values.take(5) {
        assert(other[3] == other.take(5)[3]);
        assert(values[3] == values.take(5)[3]);
        assert(other[4] == other.take(5)[4]);
        assert(values[4] == values.take(5)[4]);
    }
}

/// The total time is the sum of every counter, idle ones included, so the
/// idle time never exceeds it.
pub proof fn lemma_idle_within_total(values: Seq<u64>)
    requires
        values.len() >= 4,
    ensures
        idle_ticks(values) <= seq_sum(values),
        seq_sum(values.push(0)) == seq_sum(values),
{
    if values.len() > 4 {
        lemma_two_le_sum(values, 3, 4);
    } else {
        lemma_one_le_sum(values, 3);
    }
    assert(values.push(0).drop_last() =~= values);
}

/// `a - b`, or 0 when `b` is larger.
pub open spec fn sat_sub(a: nat, b: nat) -> nat {
    if a >= b {
        (a - b) as nat
    } else {
        0
    }
}

/// The share of busy time since the previous sample, in percent: 0 on the
/// first sample, or when no time has passed.
pub open spec fn busy_percent(previous: Option<(u64, u64)>, idle: u64, total: u64) -> nat {
    match previous {
        Some((prev_idle, prev_total)) => {
            let idle_delta = sat_sub(idle as nat, prev_idle as nat);
            let total_delta = sat_sub(total as nat, prev_total as nat);
            if total_delta == 0 {
                0
            } else {
                sat_sub(100, idle_delta * 100 / total_delta)
            }
        },
        None => 0,
    }
}

/// The CPU usage in percent from the previous `(idle, total)` sample and the
/// current one; the caller then keeps `(idle, total)` as the previous sample.
pub fn cpu_busy_percent(previous: Option<(u64, u64)>, idle: u64, total: u64) -> (r: u64)
    requires
        previous matches Some((prev_idle, _)) ==> sat_sub(idle as nat, prev_idle as nat) * 100
            <= u64::MAX,
    ensures
        r == busy_percent(previous, idle, total),
        r <= 100,
{
    match previous {
        Some((prev_idle, prev_total)) => {
            let idle_delta = idle.saturating_sub(prev_idle);
            let total_delta = total.saturating_sub(prev_total);
            match (idle_delta * 100).checked_div(total_delta) {
                Some(idle_pct) => 100u64.saturating_sub(idle_pct),
                None => 0,
            }
        },
        None => 0,
    }
}

/// The number that the first word of `rest` spells: `None` when there is no
/// word at all, `Some(None)` when the word is no `u64`.
pub open spec fn first_word_number(rest: Seq<char>) -> Option<Option<u64>> {
    let ws = words_spec(rest);
    if ws.len() == 0 {
        None
    } else {
        match parse_unsigned(ws[0], 10, u64::MAX as nat) {
            Some(v) => Some(Some(v as u64)),
            None => Some(None),
        }
    }
}

/// Reading `/proc/meminfo` line by line for `MemTotal:` and
/// `MemAvailable:`, from the values `total` and `available` found so far:
/// `None` when such a line holds no word; the scan stops once both are known.
pub open spec fn meminfo_scan(lines: Seq<Seq<char>>, total: Option<u64>, available: Option<u64>) -> Option<
    (Option<u64>, Option<u64>),
>
    decreases lines.len(),
{
    if lines.len() == 0 {
        Some((total, available))
    } else {
        let line = lines[0];
        let next: Option<(Option<u64>, Option<u64>)> = match strip_prefix_spec(line, "MemTotal:"@) {
            Some(v) => match first_word_number(v) {
                Some(n) => Some((n, available)),
                None => None,
            },
            None => match strip_prefix_spec(line, "MemAvailable:"@) {
                Some(v) => match first_word_number(v) {
                    Some(n) => Some((total, n)),
                    None => None,
                },
                None => Some((total, available)),
            },
        };
        match next {
            None => None,
            Some((t, a)) => if t is Some && a is Some {
                Some((t, a))
            } else {
                meminfo_scan(lines.drop_first(), t, a)
            },
        }
    }
}

/// `(total, available)` memory from the text of `/proc/meminfo`, when both
/// are found and the total is not zero.
pub open spec fn meminfo_totals_spec(meminfo: Seq<char>) -> Option<(u64, u64)> {
    match meminfo_scan(lines_spec(meminfo), None, None) {
        Some((Some(t), Some(a))) => if t == 0 {
            None
        } else {
            Some((t, a))
        },
        _ => None,
    }
}

/// The number that the first word of `rest` spells, as [`first_word_number`].
fn first_number(rest: &[char]) -> (r: Option<Option<u64>>)
    ensures
        r == first_word_number(rest@),
{
    let ws = words(rest);
    if ws.len() == 0 {
        return None;
    }
    assert(ws@[0]@ == words_spec(rest@)[0]);
    Some(parse_u64(ws[0].as_slice()))
}

/// `(total, available)` memory, in kB, from the text of `/proc/meminfo`.
pub fn meminfo_totals(meminfo: &str) -> (r: Option<(u64, u64)>)
    ensures
        r == meminfo_totals_spec(meminfo@),
{
    let text = chars_of(meminfo);
    let ls = lines(text.as_slice());
    let ghost all = lines_spec(meminfo@);
    let mut total: Option<u64> = None;
    let mut available: Option<u64> = None;
    let mut i: usize = 0;
    assert(all.skip(0) =~= all);
    while i < ls.len() && !(total.is_some() && available.is_some())
        invariant
            i <= ls.len(),
            all == lines_spec(meminfo@),
            crate::text::seq_views(ls@) == all,
            !(total is Some && available is Some) ==> meminfo_scan(all.skip(i as int), total, available)
                == meminfo_scan(all, None, None),
            (total is Some && available is Some) ==> meminfo_scan(all, None, None) == Some(
                (total, available),
            ),
        decreases ls.len() - i,
    {
        let line = ls[i].as_slice();
        assert(all.skip(i as int)[0] == line@);
        assert(all.skip(i as int).drop_first() =~= all.skip(i + 1));
        match strip_prefix(line, "MemTotal:") {
            Some(v) => {
                match first_number(v.as_slice()) {
                    Some(n) => {
                        total = n;
                    },
                    None => {
                        return None;
                    },
                }
            },
            None => {
                match strip_prefix(line, "MemAvailable:") {
                    Some(v) => {
                        match first_number(v.as_slice()) {
                            Some(n) => {
                                available = n;
                            },
                            None => {
                                return None;
                            },
                        }
                    },
                    None => {},
                }
            },
        }
        i = i + 1;
    }
    let t = match total {
        Some(t) => t,
        None => {
            return None;
        },
    };
    let a = match available {
        Some(a) => a,
        None => {
            return None;
        },
    };
    if t == 0 {
        return None;
    }
    Some((t, a))
}

/// The share of memory in use, in percent.
pub fn ram_used_percent(total: u64, available: u64) -> (r: u64)
    requires
        total > 0,
        available <= total,
        (total - available) * 100 <= u64::MAX,
    ensures
        r == (total - available) * 100 / (total as int),
        r <= 100,
{
    let used = total - available;
    assert(used * 100 / (total as int) <= 100) by (nonlinear_arith)
        requires
            used <= total,
            total > 0,
    ;
    used * 100 / total
}

} // verus!
