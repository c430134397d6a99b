//! The bot's counters and the text of its status reports.

use vstd::prelude::*;

use std::time::{Duration, Instant};

use crate::text::{
    chars_of, decimal, decimal_string, is_digit, lines, parse_int_gen, split_lines, split_words, string_of,
    words,
};

verus! {

/// A point in time of the monotonic clock (`std::time::Instant`).
#[verifier::external_type_specification]
#[verifier::external_body]
pub struct ExInstant(Instant);

/// `Instant::now`. Nothing is stated of the time it reads.
#[verifier::external_body]
pub(crate) fn now() -> Instant {
    Instant::now()
}

/// `Instant::elapsed`. Nothing is stated of the time it measures.
#[verifier::external_body]
fn elapsed_since(t: &Instant) -> Duration {
    t.elapsed()
}

/// The bot's identity and the counts of the downloads it has handled.
#[derive(Debug)]
pub struct BotStats {
    boot_time: Instant,
    bot_username: String,
    bot_id: i64,
    processed_total: u64,
    processed_ok: u64,
    processed_fail: u64,
}

impl BotStats {
    pub closed spec fn total(&self) -> u64 {
        self.processed_total
    }

    pub closed spec fn ok(&self) -> u64 {
        self.processed_ok
    }

    pub closed spec fn fail(&self) -> u64 {
        self.processed_fail
    }

    pub closed spec fn username(&self) -> Seq<char> {
        self.bot_username@
    }

    pub closed spec fn id(&self) -> i64 {
        self.bot_id
    }

    /// Counters that start at zero, for the bot with this name and id.
    pub fn new(bot_username: String, bot_id: i64) -> (r: BotStats)
        ensures
            r.total() == 0 && r.ok() == 0 && r.fail() == 0,
            r.username() == bot_username@,
            r.id() == bot_id,
    {
        BotStats {
            boot_time: now(),
            bot_username,
            bot_id,
            processed_total: 0,
            processed_ok: 0,
            processed_fail: 0,
        }
    }

    /// The time since the counters were made.
    pub fn uptime(&self) -> Duration {
        elapsed_since(&self.boot_time)
    }

    /// Counts a download that succeeded (the counters wrap around, as atomic
    /// additions do).
    pub fn record_success(&mut self)
        ensures
            final(self).total() == old(self).total().wrapping_add(1),
            final(self).ok() == old(self).ok().wrapping_add(1),
            final(self).fail() == old(self).fail(),
            final(self).username() == old(self).username(),
            final(self).id() == old(self).id(),
    {
        self.processed_total = self.processed_total.wrapping_add(1);
        self.processed_ok = self.processed_ok.wrapping_add(1);
    }

    /// Counts a download that failed (the counters wrap around, as atomic
    /// additions do).
    pub fn record_failure(&mut self)
        ensures
            final(self).total() == old(self).total().wrapping_add(1),
            final(self).fail() == old(self).fail().wrapping_add(1),
            final(self).ok() == old(self).ok(),
            final(self).username() == old(self).username(),
            final(self).id() == old(self).id(),
    {
        self.processed_total = self.processed_total.wrapping_add(1);
        self.processed_fail = self.processed_fail.wrapping_add(1);
    }

    /// The bot's user name.
    pub fn bot_username(&self) -> (r: &str)
        ensures
            r@ == self.username(),
    {
        self.bot_username.as_str()
    }

    /// The bot's user id.
    pub fn bot_id(&self) -> (r: i64)
        ensures
            r == self.id(),
    {
        self.bot_id
    }

    /// Downloads handled.
    pub fn processed_total(&self) -> (r: u64)
        ensures
            r == self.total(),
    {
        self.processed_total
    }

    /// Downloads that succeeded.
    pub fn processed_ok(&self) -> (r: u64)
        ensures
            r == self.ok(),
    {
        self.processed_ok
    }

    /// Downloads that failed.
    pub fn processed_fail(&self) -> (r: u64)
        ensures
            r == self.fail(),
    {
        self.processed_fail
    }

    /// The total counts every success and every failure (modulo 2^64).
    pub open spec fn consistent(&self) -> bool {
        self.total() as int == (self.ok() as int + self.fail() as int) % 0x1_0000_0000_0000_0000
    }
}

/// Fresh counters are consistent, and recording a success or a failure keeps
/// them so: the total is always the successes plus the failures.
pub proof fn law_counts_add_up(before: BotStats, after_ok: BotStats, after_fail: BotStats)
    requires
        before.consistent(),
        after_ok.total() == before.total().wrapping_add(1),
        after_ok.ok() == before.ok().wrapping_add(1),
        after_ok.fail() == before.fail(),
        after_fail.total() == before.total().wrapping_add(1),
        after_fail.fail() == before.fail().wrapping_add(1),
        after_fail.ok() == before.ok(),
    ensures
        after_ok.consistent(),
        after_fail.consistent(),
{
    let m = 0x1_0000_0000_0000_0000int;
    let t = before.total() as int;
    let o = before.ok() as int;
    let f = before.fail() as int;
    assert(after_ok.total() as int == (t + 1) % m);
    assert(after_ok.ok() as int == (o + 1) % m);
    assert(after_fail.fail() as int == (f + 1) % m);
    assert(((o + 1) % m + f) % m == (t + 1) % m) by (nonlinear_arith)
        requires
            t == (o + f) % m,
            m == 0x1_0000_0000_0000_0000int,
            0 <= o < m,
            0 <= f < m,
    {
        vstd::arithmetic::div_mod::lemma_add_mod_noop(o + 1, f, m);
        vstd::arithmetic::div_mod::lemma_add_mod_noop(o + f, 1, m);
        vstd::arithmetic::div_mod::lemma_mod_self_0(m);
    }
    assert((o + (f + 1) % m) % m == (t + 1) % m) by (nonlinear_arith)
        requires
            t == (o + f) % m,
            m == 0x1_0000_0000_0000_0000int,
            0 <= o < m,
            0 <= f < m,
    {
        vstd::arithmetic::div_mod::lemma_add_mod_noop(o, f + 1, m);
        vstd::arithmetic::div_mod::lemma_add_mod_noop(o + f, 1, m);
    }
}

/// How many of the outcomes are successes.
pub open spec fn successes(kinds: Seq<bool>) -> nat
    decreases kinds.len(),
{
    if kinds.len() == 0 {
        0
    } else {
        successes(kinds.drop_last()) + if kinds.last() { 1nat } else { 0nat }
    }
}

/// `after` is `before` with one outcome counted, as `record_success` (for a
/// success) or `record_failure` (for a failure) leaves it.
pub open spec fn recorded(before: BotStats, after: BotStats, success: bool) -> bool {
    &&& after.total() == before.total().wrapping_add(1)
    &&& if success {
        after.ok() == before.ok().wrapping_add(1) && after.fail() == before.fail()
    } else {
        after.fail() == before.fail().wrapping_add(1) && after.ok() == before.ok()
    }
}

/// Step `k` of a run of counters: the outcome `kinds[k]` turns `states[k]`
/// into `states[k + 1]`.
pub open spec fn recorded_at(states: Seq<BotStats>, kinds: Seq<bool>, k: int) -> bool {
    recorded(states[k], states[k + 1], kinds[k])
}

proof fn lemma_counts_prefix(states: Seq<BotStats>, kinds: Seq<bool>, k: int)
    requires
        states.len() == kinds.len() + 1,
        states[0].total() == 0 && states[0].ok() == 0 && states[0].fail() == 0,
        forall|j: int| 0 <= j < kinds.len() ==> #[trigger] recorded_at(states, kinds, j),
        kinds.len() <= u64::MAX,
        0 <= k <= kinds.len(),
    ensures
        states[k].total() == k,
        states[k].ok() == successes(kinds.take(k)),
        states[k].fail() == k - successes(kinds.take(k)),
        successes(kinds.take(k)) <= k,
    decreases k,
{
    if k == 0 {
        assert(kinds.take(0) =~= Seq::<bool>::empty());
    } else {
        lemma_counts_prefix(states, kinds, k - 1);
        assert(recorded_at(states, kinds, k - 1));
        assert(kinds.take(k).drop_last() =~= kinds.take(k - 1));
        assert(kinds.take(k).last() == kinds[k - 1]);
    }
}

/// Counters that start at zero and then count fewer than 2^64 outcomes, one
/// call of `record_success` or `record_failure` each, count exactly: the
/// total is the number of outcomes, `ok` the successes, `fail` the failures,
/// and the total is `ok` plus `fail` with no wrap-around.
pub proof fn law_counts_exact(states: Seq<BotStats>, kinds: Seq<bool>)
    requires
        states.len() == kinds.len() + 1,
        states[0].total() == 0 && states[0].ok() == 0 && states[0].fail() == 0,
        forall|k: int| 0 <= k < kinds.len() ==> #[trigger] recorded_at(states, kinds, k),
        kinds.len() <= u64::MAX,
    ensures
        states.last().total() == kinds.len(),
        states.last().ok() == successes(kinds),
        states.last().fail() == kinds.len() - successes(kinds),
        states.last().total() as int == states.last().ok() as int + states.last().fail() as int,
{
    lemma_counts_prefix(states, kinds, kinds.len() as int);
    assert(kinds.take(kinds.len() as int) =~= kinds);
}

} // verus!

verus! {

/// An ASCII letter.
pub open spec fn is_alpha(c: char) -> bool {
    ('a' <= c <= 'z') || ('A' <= c <= 'Z')
}

/// The first pass over a Go duration: every `.` and the digits right after it
/// are dropped.
pub open spec fn frac_scan(s: Seq<char>) -> (Seq<char>, bool)
    decreases s.len(),
{
    if s.len() == 0 {
        (Seq::empty(), false)
    } else {
        let (out, skip) = frac_scan(s.drop_last());
        let c = s.last();
        if skip && is_digit(c) {
            (out, true)
        } else if c == '.' {
            (out, true)
        } else {
            (out.push(c), false)
        }
    }
}

/// The second pass: a space goes before each digit that follows a unit.
pub open spec fn unit_scan(s: Seq<char>) -> (Seq<char>, bool)
    decreases s.len(),
{
    if s.len() == 0 {
        (Seq::empty(), false)
    } else {
        let (out, prev) = unit_scan(s.drop_last());
        let c = s.last();
        if is_alpha(c) && !prev {
            (out.push(c), true)
        } else if is_digit(c) && prev {
            (out.push(' ').push(c), false)
        } else {
            (out.push(c), prev)
        }
    }
}

/// A Go duration such as `1h2m3.45s` written as `1h 2m 3s`.
pub open spec fn clean_go_duration_spec(s: Seq<char>) -> Seq<char> {
    unit_scan(frac_scan(s).0).0
}

/// The first pass leaves no `.`.
proof fn lemma_frac_scan_no_dot(s: Seq<char>)
    ensures
        !frac_scan(s).0.contains('.'),
    decreases s.len(),
{
    if s.len() > 0 {
        lemma_frac_scan_no_dot(s.drop_last());
        let (out, skip) = frac_scan(s.drop_last());
        let c = s.last();
        if !(skip && is_digit(c)) && c != '.' {
            assert forall|k: int| 0 <= k < out.push(c).len() implies out.push(c)[k] != '.' by {
                if k < out.len() {
                    assert(out.contains(out[k]));
                }
            }
        }
    }
}

/// The second pass adds only spaces.
proof fn lemma_unit_scan_keeps_no_dot(s: Seq<char>)
    requires
        !s.contains('.'),
    ensures
        !unit_scan(s).0.contains('.'),
    decreases s.len(),
{
    if s.len() > 0 {
        assert(!s.drop_last().contains('.')) by {
            if s.drop_last().contains('.') {
                let k = choose|k: int| 0 <= k < s.drop_last().len() && s.drop_last()[k] == '.';
                assert(s[k] == '.');
            }
        }
        lemma_unit_scan_keeps_no_dot(s.drop_last());
        let (out, prev) = unit_scan(s.drop_last());
        let c = s.last();
        assert(c != '.') by {
            assert(s.contains(s[s.len() - 1]));
        }
        let r = unit_scan(s).0;
        assert forall|k: int| 0 <= k < r.len() implies r[k] != '.' by {
            if k < out.len() {
                assert(r[k] == out[k]);
                assert(out.contains(out[k]));
            }
        }
    }
}

/// A cleaned duration holds no `.`: fractions of a unit are dropped.
pub proof fn law_clean_duration_no_fraction(s: Seq<char>)
    ensures
        !clean_go_duration_spec(s).contains('.'),
{
    lemma_frac_scan_no_dot(s);
    lemma_unit_scan_keeps_no_dot(frac_scan(s).0);
}

/// Shortens a Go duration for display (see `clean_go_duration_spec`).
pub fn clean_go_duration(dur: &str) -> (r: String)
    ensures
        r@ == clean_go_duration_spec(dur@),
{
    let cs = chars_of(dur);
    let mut mid: Vec<char> = Vec::new();
    let mut skip = false;
    let mut i: usize = 0;
    while i < cs.len()
        invariant
            cs@ == dur@,
            i <= cs@.len(),
            (mid@, skip) == frac_scan(cs@.take(i as int)),
        decreases cs@.len() - i,
    {
        assert(cs@.take(i + 1).drop_last() =~= cs@.take(i as int));
        let c = cs[i];
        if skip && '0' <= c && c <= '9' {
        } else if c == '.' {
            skip = true;
        } else {
            mid.push(c);
            skip = false;
        }
        i = i + 1;
    }
    assert(cs@.take(cs@.len() as int) =~= cs@);
    let mut out: Vec<char> = Vec::new();
    let mut prev = false;
    let mut j: usize = 0;
    while j < mid.len()
        invariant
            j <= mid@.len(),
            (out@, prev) == unit_scan(mid@.take(j as int)),
        decreases mid@.len() - j,
    {
        assert(mid@.take(j + 1).drop_last() =~= mid@.take(j as int));
        let c = mid[j];
        let alpha = ('a' <= c && c <= 'z') || ('A' <= c && c <= 'Z');
        if alpha && !prev {
            prev = true;
        } else if '0' <= c && c <= '9' && prev {
            out.push(' ');
            prev = false;
        }
        out.push(c);
        j = j + 1;
    }
    assert(mid@.take(mid@.len() as int) =~= mid@);
    string_of(&out)
}

/// The numbers among some words, in order (words that are not `u64` are
/// skipped).
pub open spec fn u64_words(ws: Seq<Seq<char>>) -> Seq<u64>
    decreases ws.len(),
{
    if ws.len() == 0 {
        Seq::empty()
    } else {
        let r = u64_words(ws.drop_last());
        match parse_int_gen(ws.last(), false, 0, u64::MAX as int) {
            Some(v) => r.push(v as u64),
            None => r,
        }
    }
}

/// The sum of some counters, wrapping around at 2^64.
pub open spec fn wrapping_sum(vs: Seq<u64>) -> u64
    decreases vs.len(),
{
    if vs.len() == 0 {
        0
    } else {
        wrapping_sum(vs.drop_last()).wrapping_add(vs.last())
    }
}

/// The CPU tick counters of the first line of `/proc/stat`: the numbers after
/// its first word; at least five are needed.
pub open spec fn cpu_values(stat: Seq<char>) -> Option<Seq<u64>> {
    if lines(stat).len() == 0 {
        None
    } else {
        let ws = words(lines(stat)[0]);
        let vs = if ws.len() > 0 { u64_words(ws.skip(1)) } else { Seq::empty() };
        if vs.len() < 5 {
            None
        } else {
            Some(vs)
        }
    }
}

fn parse_u64(s: &str) -> (r: Option<u64>)
    ensures
        r == (match parse_int_gen(s@, false, 0, u64::MAX as int) {
            Some(v) => Some(v as u64),
            None => None::<u64>,
        }),
{
    crate::text::parse_uint(s, 0xffff_ffff_ffff_ffff)
}

/// The total and idle CPU ticks in `/proc/stat`: the wrapping sum of the
/// counters of its first line, and the fourth of them.
pub fn parse_cpu_ticks(stat: &str) -> (r: Option<(u64, u64)>)
    ensures
        match cpu_values(stat@) {
            None => r is None,
            Some(vs) => r == Some((wrapping_sum(vs), vs[3])),
        },
{
    let ls = split_lines(stat);
    if ls.len() == 0 {
        return None;
    }
    let ws = split_words(ls[0].as_str());
    let mut vals: Vec<u64> = Vec::new();
    let mut i: usize = 1;
    let ghost rest = if ws.deep_view().len() > 0 { ws.deep_view().skip(1) } else { Seq::empty() };
    if ws.len() == 0 {
        assert(vals@ =~= u64_words(rest));
    } else {
        while i < ws.len()
            invariant
                ws@.len() > 0,
                rest == ws.deep_view().skip(1),
                1 <= i <= ws@.len(),
                vals@ == u64_words(rest.take(i - 1)),
            decreases ws@.len() - i,
        {
            assert(rest.take(i as int).drop_last() =~= rest.take(i - 1));
            assert(rest.take(i as int).last() == ws@[i as int]@);
            if let Some(v) = parse_u64(ws[i].as_str()) {
                vals.push(v);
            }
            i = i + 1;
        }
        assert(rest.take(ws@.len() - 1) =~= rest);
    }
    if vals.len() < 5 {
        return None;
    }
    let mut total: u64 = 0;
    let mut k: usize = 0;
    while k < vals.len()
        invariant
            k <= vals@.len(),
            total == wrapping_sum(vals@.take(k as int)),
        decreases vals@.len() - k,
    {
        assert(vals@.take(k + 1).drop_last() =~= vals@.take(k as int));
        total = total.wrapping_add(vals[k]);
        k = k + 1;
    }
    assert(vals@.take(vals@.len() as int) =~= vals@);
    Some((total, vals[3]))
}

} // verus!

verus! {

/// The last position of `c` in `s`.
pub open spec fn last_index_of(s: Seq<char>, c: char) -> Option<int> {
    if s.contains(c) {
        Some(choose|i: int| 0 <= i < s.len() && s[i] == c && forall|j: int| i < j < s.len() ==> s[j] != c)
    } else {
        None
    }
}

/// The CPU ticks of this process in `/proc/self/stat`: the wrapping sum of
/// the 12th and 13th words after the last `)` (user and system time).
pub open spec fn self_ticks_spec(stat: Seq<char>) -> Option<u64> {
    match last_index_of(stat, ')') {
        None => None,
        Some(k) => {
            let ws = words(stat.skip(k + 1));
            if ws.len() <= 12 {
                None
            } else {
                match (parse_int_gen(ws[11], false, 0, u64::MAX as int), parse_int_gen(ws[12], false, 0, u64::MAX as int)) {
                    (Some(u), Some(s)) => Some((u as u64).wrapping_add(s as u64)),
                    _ => None,
                }
            }
        },
    }
}

/// Reads this process's CPU ticks from `/proc/self/stat` (see
/// `self_ticks_spec`).
pub fn parse_self_stat_ticks(stat: &str) -> (r: Option<u64>)
    ensures
        r == self_ticks_spec(stat@),
{
    let cs = chars_of(stat);
    let mut i: usize = cs.len();
    while i > 0 && cs[i - 1] != ')'
        invariant
            cs@ == stat@,
            i <= cs@.len(),
            forall|j: int| i <= j < cs@.len() ==> cs@[j] != ')',
        decreases i,
    {
        i = i - 1;
    }
    if i == 0 {
        proof {
            if stat@.contains(')') {
                let k = choose|k: int| 0 <= k < stat@.len() && stat@[k] == ')';
            }
        }
        return None;
    }
    let k = i - 1;
    proof {
        assert(stat@.contains(')')) by {
            assert(stat@[k as int] == ')');
        }
        let c = choose|c: int| 0 <= c < stat@.len() && stat@[c] == ')' && forall|j: int| c < j < stat@.len() ==> stat@[j] != ')';
        if c < k {
        } else if c > k {
            assert(cs@[c] == ')');
        }
    }
    let rest = crate::text::substring(&cs, k + 1, cs.len());
    assert(cs@.subrange(k + 1, cs@.len() as int) =~= stat@.skip(k + 1));
    let ws = split_words(rest.as_str());
    if ws.len() <= 12 {
        return None;
    }
    let u = parse_u64(ws[11].as_str());
    let s = parse_u64(ws[12].as_str());
    match (u, s) {
        (Some(a), Some(b)) => Some(a.wrapping_add(b)),
        _ => None,
    }
}

/// The value of the first `/proc` line that starts with `key`: its first
/// word after the key, as a number.
pub open spec fn proc_val_spec(ls: Seq<Seq<char>>, key: Seq<char>) -> Option<u64>
    decreases ls.len(),
{
    if ls.len() == 0 {
        None
    } else if key.is_prefix_of(ls[0]) {
        let ws = words(ls[0].skip(key.len() as int));
        if ws.len() == 0 {
            None
        } else {
            match parse_int_gen(ws[0], false, 0, u64::MAX as int) {
                Some(v) => Some(v as u64),
                None => None,
            }
        }
    } else {
        proc_val_spec(ls.drop_first(), key)
    }
}

fn starts_with_chars(line: &Vec<char>, key: &Vec<char>) -> (r: bool)
    ensures
        r == key@.is_prefix_of(line@),
{
    if key.len() > line.len() {
        return false;
    }
    let mut i: usize = 0;
    while i < key.len()
        invariant
            key@.len() <= line@.len(),
            i <= key@.len(),
            forall|j: int| 0 <= j < i ==> line@[j] == key@[j],
        decreases key@.len() - i,
    {
        if line[i] != key[i] {
            proof {
                if key@.is_prefix_of(line@) {
                    assert(line@.subrange(0, key@.len() as int)[i as int] == line@[i as int]);
                }
            }
            return false;
        }
        i = i + 1;
    }
    assert(line@.subrange(0, key@.len() as int) =~= key@);
    true
}

/// Reads a value such as `VmRSS:` from a `/proc` file (see
/// `proc_val_spec`).
pub fn parse_proc_val(content: &str, key: &str) -> (r: Option<u64>)
    ensures
        r == proc_val_spec(lines(content@), key@),
{
    let ls = split_lines(content);
    let kc = chars_of(key);
    let mut i: usize = 0;
    assert(ls.deep_view().skip(0) =~= ls.deep_view());
    while i < ls.len()
        invariant
            ls.deep_view() == lines(content@),
            kc@ == key@,
            i <= ls@.len(),
            proc_val_spec(lines(content@), key@) == proc_val_spec(ls.deep_view().skip(i as int), key@),
        decreases ls@.len() - i,
    {
        assert(ls.deep_view().skip(i as int)[0] == ls@[i as int]@);
        assert(ls.deep_view().skip(i as int).drop_first() =~= ls.deep_view().skip(i + 1));
        let lc = chars_of(ls[i].as_str());
        if starts_with_chars(&lc, &kc) {
            let rest = crate::text::substring(&lc, kc.len(), lc.len());
            assert(lc@.subrange(kc@.len() as int, lc@.len() as int) =~= lc@.skip(kc@.len() as int));
            let ws = split_words(rest.as_str());
            if ws.len() == 0 {
                return None;
            }
            return parse_u64(ws[0].as_str());
        }
        i = i + 1;
    }
    None
}

/// An uptime in whole days, hours and minutes: days only when there is at
/// least one, hours always.
pub open spec fn uptime_text_spec(secs: u64) -> Seq<char> {
    let days = secs / 86400;
    let hours = (secs % 86400) / 3600;
    let mins = (secs % 3600) / 60;
    if days > 0 {
        decimal(days as nat) + " days "@ + decimal(hours as nat) + " hours "@ + decimal(mins as nat) + " mins"@
    } else if hours > 0 {
        decimal(hours as nat) + " hours "@ + decimal(mins as nat) + " mins"@
    } else {
        "0 hours "@ + decimal(mins as nat) + " mins"@
    }
}

/// Writes an uptime given in seconds (see `uptime_text_spec`).
pub fn uptime_text(secs: u64) -> (r: String)
    ensures
        r@ == uptime_text_spec(secs),
{
    let days = secs / 86400;
    let hours = (secs % 86400) / 3600;
    let mins = (secs % 3600) / 60;
    let mut s = String::new();
    if days > 0 {
        let d = decimal_string(days);
        s.append(d.as_str());
        s.append(" days ");
        let h = decimal_string(hours);
        s.append(h.as_str());
        s.append(" hours ");
    } else if hours > 0 {
        let h = decimal_string(hours);
        s.append(h.as_str());
        s.append(" hours ");
    } else {
        s.append("0 hours ");
    }
    let m = decimal_string(mins);
    s.append(m.as_str());
    s.append(" mins");
    s
}

} // verus!
