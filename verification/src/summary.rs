//! The summary strip, payoff-accelerator labels, the payments summary and
//! the chart's year buckets: the counting and text that surround the money
//! arithmetic.

use vstd::prelude::*;
use crate::text::{push_str, push_decimal, decimal};
use crate::dates::{Date, valid_date, date_lt, months_between, months_between_spec};
use crate::schedule::{RowInfo, RowKind, key_in, contains_key};
use crate::view::{format_years_saved, years_saved_spec, format_money_whole, money_whole_text};

verus! {

/// Number of rows of `rows` that satisfy `p`.
pub open spec fn count_rows(rows: Seq<RowInfo>, p: spec_fn(RowInfo) -> bool) -> nat
    decreases rows.len(),
{
    if rows.len() == 0 {
        0
    } else {
        count_rows(rows.drop_last(), p) + if p(rows.last()) { 1nat } else { 0nat }
    }
}

proof fn lemma_count_step(rows: Seq<RowInfo>, p: spec_fn(RowInfo) -> bool, i: int)
    requires
        0 <= i < rows.len(),
    ensures
        count_rows(rows.subrange(0, i + 1), p) == count_rows(rows.subrange(0, i), p) + if p(rows[i]) { 1nat } else { 0nat },
{
    let s = rows.subrange(0, i + 1);
    assert(s.drop_last() =~= rows.subrange(0, i));
    assert(s.last() == rows[i]);
}

proof fn lemma_count_le(rows: Seq<RowInfo>, p: spec_fn(RowInfo) -> bool)
    ensures
        count_rows(rows, p) <= rows.len(),
    decreases rows.len(),
{
    if rows.len() > 0 {
        lemma_count_le(rows.drop_last(), p);
    }
}

/// Rows whose pay key is marked paid.
pub open spec fn is_paid_row(paid: Seq<String>) -> spec_fn(RowInfo) -> bool {
    |r: RowInfo| key_in(paid, r.pay_key@)
}

/// Installments of the schedule.
pub open spec fn is_scheduled_row() -> spec_fn(RowInfo) -> bool {
    |r: RowInfo| r.kind == RowKind::Scheduled
}

/// Rows due in `year`.
pub open spec fn in_year(year: int) -> spec_fn(RowInfo) -> bool {
    |r: RowInfo| r.due.year == year
}

/// Rows due in `year` whose pay key is marked paid.
pub open spec fn paid_in_year(paid: Seq<String>, year: int) -> spec_fn(RowInfo) -> bool {
    |r: RowInfo| r.due.year == year && key_in(paid, r.pay_key@)
}

/// How many rows are marked paid.
pub fn count_paid(rows: &[RowInfo], paid: &[String]) -> (r: usize)
    ensures
        r == count_rows(rows@, is_paid_row(paid@)),
{
    let ghost p = is_paid_row(paid@);
    let mut n: usize = 0;
    let mut i: usize = 0;
    assert(rows@.subrange(0, 0) =~= Seq::<RowInfo>::empty());
    while i < rows.len()
        invariant
            i <= rows@.len(),
            p == is_paid_row(paid@),
            n == count_rows(rows@.subrange(0, i as int), p),
        decreases rows@.len() - i,
    {
        proof {
            lemma_count_step(rows@, p, i as int);
            lemma_count_le(rows@.subrange(0, i as int), p);
        }
        if contains_key(paid, rows[i].pay_key.as_str()) {
            n = n + 1;
        }
        i = i + 1;
    }
    assert(rows@.subrange(0, rows@.len() as int) =~= rows@);
    n
}

/// How many installments the schedule has.
pub fn count_scheduled(rows: &[RowInfo]) -> (r: usize)
    ensures
        r == count_rows(rows@, is_scheduled_row()),
{
    let ghost p = is_scheduled_row();
    let mut n: usize = 0;
    let mut i: usize = 0;
    assert(rows@.subrange(0, 0) =~= Seq::<RowInfo>::empty());
    while i < rows.len()
        invariant
            i <= rows@.len(),
            p == is_scheduled_row(),
            n == count_rows(rows@.subrange(0, i as int), p),
        decreases rows@.len() - i,
    {
        proof {
            lemma_count_step(rows@, p, i as int);
            lemma_count_le(rows@.subrange(0, i as int), p);
        }
        if rows[i].kind == RowKind::Scheduled {
            n = n + 1;
        }
        i = i + 1;
    }
    assert(rows@.subrange(0, rows@.len() as int) =~= rows@);
    n
}

/// Rows due in `year`, and how many of them are marked paid.
pub fn year_counts(rows: &[RowInfo], paid: &[String], year: i32) -> (r: (usize, usize))
    ensures
        r.0 == count_rows(rows@, in_year(year as int)),
        r.1 == count_rows(rows@, paid_in_year(paid@, year as int)),
        r.1 <= r.0,
{
    let ghost p = in_year(year as int);
    let ghost q = paid_in_year(paid@, year as int);
    let mut all: usize = 0;
    let mut done: usize = 0;
    let mut i: usize = 0;
    assert(rows@.subrange(0, 0) =~= Seq::<RowInfo>::empty());
    while i < rows.len()
        invariant
            i <= rows@.len(),
            p == in_year(year as int),
            q == paid_in_year(paid@, year as int),
            all == count_rows(rows@.subrange(0, i as int), p),
            done == count_rows(rows@.subrange(0, i as int), q),
            done <= all,
        decreases rows@.len() - i,
    {
        proof {
            lemma_count_step(rows@, p, i as int);
            lemma_count_step(rows@, q, i as int);
            lemma_count_le(rows@.subrange(0, i as int), p);
            lemma_count_le(rows@.subrange(0, i as int), q);
        }
        if rows[i].due.year == year {
            all = all + 1;
            if contains_key(paid, rows[i].pay_key.as_str()) {
                done = done + 1;
            }
        }
        i = i + 1;
    }
    assert(rows@.subrange(0, rows@.len() as int) =~= rows@);
    (all, done)
}

/// Length of the run of paid rows at the start of the schedule: the balance
/// after the last of them is what is left to pay.
pub fn paid_prefix_len(rows: &[RowInfo], paid: &[String]) -> (r: usize)
    ensures
        r <= rows@.len(),
        forall|j: int| 0 <= j < r ==> key_in(paid@, (#[trigger] rows@[j]).pay_key@),
        r < rows@.len() ==> !key_in(paid@, rows@[r as int].pay_key@),
{
    let mut i: usize = 0;
    while i < rows.len()
        invariant
            i <= rows@.len(),
            forall|j: int| 0 <= j < i ==> key_in(paid@, (#[trigger] rows@[j]).pay_key@),
        decreases rows@.len() - i,
    {
        if !contains_key(paid, rows[i].pay_key.as_str()) {
            return i;
        }
        i = i + 1;
    }
    i
}

/// Due date of the last installment that still has a payment (`active[i]`
/// says whether row `i` does).
pub open spec fn last_active_spec(rows: Seq<RowInfo>, active: Seq<bool>) -> Option<Date>
    decreases rows.len(),
{
    if rows.len() == 0 {
        None
    } else {
        let i = rows.len() - 1;
        if rows[i].kind == RowKind::Scheduled && active[i] {
            Some(rows[i].due)
        } else {
            last_active_spec(rows.drop_last(), active)
        }
    }
}

pub fn last_active_due(rows: &[RowInfo], active: &[bool]) -> (r: Option<Date>)
    requires
        active@.len() == rows@.len(),
    ensures
        r == last_active_spec(rows@, active@),
        r matches Some(d) ==> exists|i: int| 0 <= i < rows@.len() && rows@[i].due == d,
{
    let mut i: usize = rows.len();
    assert(rows@.subrange(0, rows@.len() as int) =~= rows@);
    while i > 0
        invariant
            i <= rows@.len(),
            active@.len() == rows@.len(),
            last_active_spec(rows@, active@) == last_active_spec(rows@.subrange(0, i as int), active@),
        decreases i,
    {
        let ghost s = rows@.subrange(0, i as int);
        assert(s.drop_last() =~= rows@.subrange(0, i - 1));
        assert(s[i - 1] == rows@[i - 1]);
        if rows[i - 1].kind == RowKind::Scheduled && active[i - 1] {
            return Some(rows[i - 1].due);
        }
        i = i - 1;
    }
    assert(rows@.subrange(0, 0) =~= Seq::<RowInfo>::empty());
    None
}

/// Months an accelerated schedule ends before the baseline (never negative).
pub open spec fn months_saved_spec(base_end: Option<Date>, accel_end: Option<Date>) -> int {
    match (base_end, accel_end) {
        (Some(b), Some(a)) => if date_lt(a, b) {
            let m = months_between_spec(a, b);
            if m < 0 { 0 } else { m }
        } else {
            0
        },
        _ => 0,
    }
}

pub fn months_saved(base_end: Option<Date>, accel_end: Option<Date>) -> (r: i32)
    requires
        base_end matches Some(b) ==> valid_date(b),
        accel_end matches Some(a) ==> valid_date(a),
    ensures
        r == months_saved_spec(base_end, accel_end),
{
    match (base_end, accel_end) {
        (Some(b), Some(a)) => {
            if a.lt(&b) {
                let m = months_between(a, b);
                if m < 0 { 0 } else { m }
            } else {
                0
            }
        },
        _ => 0,
    }
}

/// "`n` Paid".
pub fn paid_label(n: usize) -> (r: String)
    requires
        n <= i64::MAX,
    ensures
        r@ == decimal(n as int) + " Paid"@,
{
    let mut out = String::new();
    push_decimal(&mut out, n as i64);
    push_str(&mut out, " Paid");
    out
}

/// Label of the time an accelerated payoff saves.
pub fn saved_label(base_end: Option<Date>, accel_end: Option<Date>) -> (r: String)
    requires
        base_end matches Some(b) ==> valid_date(b),
        accel_end matches Some(a) ==> valid_date(a),
    ensures
        r@ == years_saved_spec(months_saved_spec(base_end, accel_end)),
{
    format_years_saved(months_saved(base_end, accel_end))
}

/// The payments summary's hint: "`n` scheduled · `p`% paid".
pub fn summary_hint(scheduled: usize, pct_paid: u32) -> (r: String)
    requires
        scheduled <= i64::MAX,
    ensures
        r@ == decimal(scheduled as int) + " scheduled · "@ + decimal(pct_paid as int) + "% paid"@,
{
    let mut out = String::new();
    push_decimal(&mut out, scheduled as i64);
    push_str(&mut out, " scheduled · ");
    push_decimal(&mut out, pct_paid as i64);
    push_str(&mut out, "% paid");
    out
}

/// One figure of the summary strip.
pub struct YearStat {
    pub label: String,
    pub value: String,
    pub sub: String,
    pub class: String,
}

/// Money texts of the summary strip, rendered by the caller.
pub struct YearStatTexts {
    /// Share of the original principal paid, in whole percent.
    pub pct_paid: u32,
    pub total_paid_principal: String,
    pub original_principal: String,
    pub paid_principal: String,
    pub scheduled_principal: String,
    pub paid_interest: String,
    pub scheduled_interest: String,
}

/// The note on extras after the year's remaining count.
pub open spec fn extra_note(extra_count: int) -> Seq<char> {
    if extra_count > 0 { " · "@ + decimal(extra_count) + " extra"@ } else { Seq::empty() }
}

/// Whether `v` is the stat with the given texts.
pub open spec fn stat_is(v: YearStat, label: Seq<char>, value: Seq<char>, sub: Seq<char>, class: Seq<char>) -> bool {
    v.label@ == label && v.value@ == value && v.sub@ == sub && v.class@ == class
}

/// The four figures of the summary strip for `year`: overall share paid,
/// the year's progress, and the year's principal and interest.
pub open spec fn year_stats_ok(r: Seq<YearStat>, rows: Seq<RowInfo>, paid: Seq<String>, extra_count: int, year: int, t: YearStatTexts) -> bool {
    let all = count_rows(rows, in_year(year));
    let done = count_rows(rows, paid_in_year(paid, year));
    &&& r.len() == 4
    &&& stat_is(r[0], "Total % paid"@, decimal(t.pct_paid as int) + "%"@,
            t.total_paid_principal@ + " of "@ + t.original_principal@ + " principal"@, "stat highlight"@)
    &&& stat_is(r[1], decimal(year) + " progress"@, decimal(done as int) + " / "@ + decimal(all as int),
            decimal(all - done) + " remaining"@ + extra_note(extra_count), "stat next-up"@)
    &&& stat_is(r[2], decimal(year) + " principal"@, t.paid_principal@, "of "@ + t.scheduled_principal@ + " scheduled"@, "stat quiet"@)
    &&& stat_is(r[3], decimal(year) + " interest"@, t.paid_interest@, "of "@ + t.scheduled_interest@ + " scheduled"@, "stat quiet"@)
}

fn labelled(year: i32, suffix: &str) -> (r: String)
    ensures
        r@ == decimal(year as int) + suffix@,
{
    let mut out = String::new();
    push_decimal(&mut out, year as i64);
    push_str(&mut out, suffix);
    out
}

fn joined(a: &str, b: &str, c: &str) -> (r: String)
    ensures
        r@ == a@ + b@ + c@,
{
    let mut out = String::new();
    push_str(&mut out, a);
    push_str(&mut out, b);
    push_str(&mut out, c);
    out
}

/// The summary strip for `year`.
pub fn year_stats(rows: &[RowInfo], paid: &[String], extra_count: usize, year: i32, t: &YearStatTexts) -> (r: Vec<YearStat>)
    requires
        rows@.len() <= i64::MAX,
        extra_count <= i64::MAX,
    ensures
        year_stats_ok(r@, rows@, paid@, extra_count as int, year as int, *t),
{
    let (all, done) = year_counts(rows, paid, year);
    proof {
        lemma_count_le(rows@, in_year(year as int));
    }
    let mut out: Vec<YearStat> = Vec::new();

    let mut pct = String::new();
    push_decimal(&mut pct, t.pct_paid as i64);
    push_str(&mut pct, "%");
    let mut sub0 = String::new();
    push_str(&mut sub0, t.total_paid_principal.as_str());
    push_str(&mut sub0, " of ");
    push_str(&mut sub0, t.original_principal.as_str());
    push_str(&mut sub0, " principal");
    out.push(YearStat { label: String::from_str("Total % paid"), value: pct, sub: sub0, class: String::from_str("stat highlight") });

    let mut value1 = String::new();
    push_decimal(&mut value1, done as i64);
    push_str(&mut value1, " / ");
    push_decimal(&mut value1, all as i64);
    let mut sub1 = String::new();
    push_decimal(&mut sub1, (all - done) as i64);
    push_str(&mut sub1, " remaining");
    if extra_count > 0 {
        push_str(&mut sub1, " · ");
        push_decimal(&mut sub1, extra_count as i64);
        push_str(&mut sub1, " extra");
    }
    assert(sub1@ =~= decimal(all - done) + " remaining"@ + extra_note(extra_count as int));
    out.push(YearStat { label: labelled(year, " progress"), value: value1, sub: sub1, class: String::from_str("stat next-up") });

    out.push(YearStat {
        label: labelled(year, " principal"),
        value: t.paid_principal.clone(),
        sub: joined("of ", t.scheduled_principal.as_str(), " scheduled"),
        class: String::from_str("stat quiet"),
    });
    out.push(YearStat {
        label: labelled(year, " interest"),
        value: t.paid_interest.clone(),
        sub: joined("of ", t.scheduled_interest.as_str(), " scheduled"),
        class: String::from_str("stat quiet"),
    });
    out
}

/// Texts of the payments summary.
pub struct YearSummary {
    pub monthly_payment: String,
    pub total_interest: String,
    pub balance_after: String,
    pub hint: String,
}

/// Texts of the payoff accelerator card.
pub struct PayoffAccelerator {
    pub remaining: String,
    pub paid_label: String,
    pub extra_label: String,
    pub saved_label: String,
    pub interest_label: String,
    pub show_interest: bool,
    pub paid_width: String,
    pub extra_width: String,
    pub bar_aria: String,
}

/// How often `a` occurs in `s`.
pub open spec fn occ(s: Seq<i64>, a: i64) -> nat
    decreases s.len(),
{
    if s.len() == 0 {
        0
    } else {
        occ(s.drop_last(), a) + if s.last() == a { 1nat } else { 0nat }
    }
}

proof fn lemma_occ_step(s: Seq<i64>, a: i64, k: int)
    requires
        0 <= k < s.len(),
    ensures
        occ(s.subrange(0, k + 1), a) == occ(s.subrange(0, k), a) + if s[k] == a { 1nat } else { 0nat },
{
    let p = s.subrange(0, k + 1);
    assert(p.drop_last() =~= s.subrange(0, k));
    assert(p.last() == s[k]);
}

proof fn lemma_occ_le(s: Seq<i64>, a: i64)
    ensures
        occ(s, a) <= s.len(),
    decreases s.len(),
{
    if s.len() > 0 {
        lemma_occ_le(s.drop_last(), a);
    }
}

proof fn lemma_occ_absent(s: Seq<i64>, a: i64)
    requires
        !s.contains(a),
    ensures
        occ(s, a) == 0,
    decreases s.len(),
{
    if s.len() > 0 {
        assert(!s.drop_last().contains(a)) by {
            if s.drop_last().contains(a) {
                let j = choose|j: int| 0 <= j < s.drop_last().len() && s.drop_last()[j] == a;
                assert(s[j] == a);
            }
        }
        assert(s.last() == s[s.len() - 1]);
        lemma_occ_absent(s.drop_last(), a);
    }
}

/// An amount that occurs at least as often as any other.
pub open spec fn is_mode(s: Seq<i64>, m: i64) -> bool {
    s.contains(m) && forall|x: i64| #[trigger] occ(s, x) <= occ(s, m)
}

fn occurrences(s: &[i64], a: i64) -> (r: usize)
    ensures
        r == occ(s@, a),
{
    let mut n: usize = 0;
    let mut k: usize = 0;
    assert(s@.subrange(0, 0) =~= Seq::<i64>::empty());
    while k < s.len()
        invariant
            k <= s@.len(),
            n == occ(s@.subrange(0, k as int), a),
        decreases s@.len() - k,
    {
        proof {
            lemma_occ_step(s@, a, k as int);
            lemma_occ_le(s@.subrange(0, k as int), a);
        }
        if s[k] == a {
            n = n + 1;
        }
        k = k + 1;
    }
    assert(s@.subrange(0, s@.len() as int) =~= s@);
    n
}

/// A most frequent amount and its count (`amounts` must not be empty).
pub fn most_common_amount(amounts: &[i64]) -> (r: (i64, usize))
    requires
        amounts@.len() > 0,
    ensures
        is_mode(amounts@, r.0),
        r.1 == occ(amounts@, r.0),
{
    let mut best: i64 = amounts[0];
    let mut best_n: usize = occurrences(amounts, best);
    let mut i: usize = 1;
    while i < amounts.len()
        invariant
            1 <= i <= amounts@.len(),
            amounts@.contains(best),
            best_n == occ(amounts@, best),
            forall|j: int| 0 <= j < i ==> occ(amounts@, #[trigger] amounts@[j]) <= best_n,
        decreases amounts@.len() - i,
    {
        let n = occurrences(amounts, amounts[i]);
        if n > best_n {
            best = amounts[i];
            best_n = n;
        }
        i = i + 1;
    }
    assert forall|x: i64| #[trigger] occ(amounts@, x) <= occ(amounts@, best) by {
        if amounts@.contains(x) {
            let j = choose|j: int| 0 <= j < amounts@.len() && amounts@[j] == x;
            assert(occ(amounts@, amounts@[j]) <= best_n);
        } else {
            lemma_occ_absent(amounts@, x);
        }
    }
    (best, best_n)
}

/// Whole-dollar text of an integer amount.
pub open spec fn whole_dollars(a: i64) -> Seq<char> {
    money_whole_text(a < 0, (if a < 0 { -a } else { a as int }) as u64)
}

fn whole_dollars_text(a: i64) -> (r: String)
    ensures
        r@ == whole_dollars(a),
{
    let w: u64 = if a < 0 { (0i128 - a as i128) as u64 } else { a as u64 };
    format_money_whole(a < 0, w)
}

/// The extras label of the payoff card. `regular` holds the rounded amounts
/// of the extras that do not recast, `regular_sum` the text of their total,
/// `recast_total` the text of the recasts' total; `mode` is a most frequent
/// regular amount.
pub open spec fn extra_label_spec(extras_count: int, regular: Seq<i64>, regular_sum: Seq<char>, recast_count: int,
    recast_total: Seq<char>, mode: i64) -> Seq<char> {
    if extras_count == 0 {
        "No extras"@
    } else if regular.len() == 0 {
        "+"@ + recast_total + if recast_count == 1 { " Recast"@ } else { " Recasts"@ }
    } else {
        let bit = if occ(regular, mode) >= 2 {
            "+"@ + whole_dollars(mode) + "/mo Extra"@
        } else {
            "+"@ + regular_sum + " Extra"@
        };
        if recast_count == 0 { bit } else { bit + " · "@ + recast_total + " Recast"@ }
    }
}

pub fn format_extra_label(extras_count: usize, regular: &[i64], regular_sum: &str, recast_count: usize, recast_total: &str) -> (r: String)
    requires
        regular@.len() + recast_count == extras_count,
    ensures
        regular@.len() == 0 ==> r@ == extra_label_spec(extras_count as int, regular@, regular_sum@, recast_count as int, recast_total@, 0),
        regular@.len() > 0 ==> exists|m: i64| is_mode(regular@, m)
            && r@ == extra_label_spec(extras_count as int, regular@, regular_sum@, recast_count as int, recast_total@, m),
{
    if extras_count == 0 {
        return String::from_str("No extras");
    }
    if regular.len() == 0 {
        let mut out = String::from_str("+");
        push_str(&mut out, recast_total);
        if recast_count == 1 {
            push_str(&mut out, " Recast");
        } else {
            push_str(&mut out, " Recasts");
        }
        return out;
    }
    let (mode, n) = most_common_amount(regular);
    let mut out = String::from_str("+");
    if n >= 2 {
        let amt = whole_dollars_text(mode);
        push_str(&mut out, amt.as_str());
        push_str(&mut out, "/mo Extra");
    } else {
        push_str(&mut out, regular_sum);
        push_str(&mut out, " Extra");
    }
    if recast_count != 0 {
        push_str(&mut out, " · ");
        push_str(&mut out, recast_total);
        push_str(&mut out, " Recast");
    }
    assert(out@ =~= extra_label_spec(extras_count as int, regular@, regular_sum@, recast_count as int, recast_total@, mode));
    out
}

/// Indices of the installments due in `year`, in schedule order.
pub open spec fn year_rows(rows: Seq<RowInfo>, year: int) -> Seq<usize>
    decreases rows.len(),
{
    if rows.len() == 0 {
        Seq::empty()
    } else {
        let i = rows.len() - 1;
        year_rows(rows.drop_last(), year) + if rows[i].kind == RowKind::Scheduled && rows[i].due.year == year {
            seq![i as usize]
        } else {
            Seq::empty()
        }
    }
}

proof fn lemma_year_rows_step(rows: Seq<RowInfo>, year: int, i: int)
    requires
        0 <= i < rows.len(),
    ensures
        year_rows(rows.subrange(0, i + 1), year) == year_rows(rows.subrange(0, i), year)
            + if rows[i].kind == RowKind::Scheduled && rows[i].due.year == year { seq![i as usize] } else { Seq::<usize>::empty() },
{
    let p = rows.subrange(0, i + 1);
    assert(p.drop_last() =~= rows.subrange(0, i));
    assert(p[i] == rows[i]);
}

proof fn lemma_year_rows_empty(rows: Seq<RowInfo>, year: int)
    requires
        forall|j: int| 0 <= j < rows.len() ==> !((#[trigger] rows[j]).kind == RowKind::Scheduled && rows[j].due.year == year),
    ensures
        year_rows(rows, year).len() == 0,
    decreases rows.len(),
{
    if rows.len() > 0 {
        let d = rows.drop_last();
        assert forall|j: int| 0 <= j < d.len() implies !((#[trigger] d[j]).kind == RowKind::Scheduled && d[j].due.year == year) by {
            assert(d[j] == rows[j]);
        }
        lemma_year_rows_empty(d, year);
    }
}

/// Installments due in one year, for the yearly chart.
pub struct YearBucket {
    pub year: i32,
    pub rows: Vec<usize>,
}

/// The yearly buckets of a schedule: one per year that has installments,
/// in increasing year order, each listing that year's installments in order.
pub open spec fn buckets_ok(b: Seq<YearBucket>, rows: Seq<RowInfo>) -> bool {
    &&& forall|a: int, c: int| 0 <= a < c < b.len() ==> (#[trigger] b[a]).year < (#[trigger] b[c]).year
    &&& forall|k: int| 0 <= k < b.len() ==> (#[trigger] b[k]).rows@ == year_rows(rows, b[k].year as int) && b[k].rows@.len() > 0
    &&& forall|i: int| 0 <= i < rows.len() && (#[trigger] rows[i]).kind == RowKind::Scheduled
            ==> exists|k: int| 0 <= k < b.len() && (#[trigger] b[k]).year == rows[i].due.year
}

/// Group the installments by due year, years ascending.
pub fn chart_year_buckets(rows: &[RowInfo]) -> (r: Vec<YearBucket>)
    ensures
        buckets_ok(r@, rows@),
{
    let mut groups: Vec<YearBucket> = Vec::new();
    let mut i: usize = 0;
    assert(rows@.subrange(0, 0) =~= Seq::<RowInfo>::empty());
    while i < rows.len()
        invariant
            i <= rows@.len(),
            buckets_ok(groups@, rows@.subrange(0, i as int)),
        decreases rows@.len() - i,
    {
        let ghost pre = rows@.subrange(0, i as int);
        let ghost post = rows@.subrange(0, i + 1);
        let ghost old_g = groups@;
        proof {
            assert forall|y: int| year_rows(post, y) == year_rows(pre, y)
                + if rows@[i as int].kind == RowKind::Scheduled && rows@[i as int].due.year == y { seq![i as usize] } else { Seq::<usize>::empty() } by {
                lemma_year_rows_step(rows@, y, i as int);
            }
            assert forall|j: int| 0 <= j < pre.len() implies #[trigger] post[j] == pre[j] by {}
            assert(post[i as int] == rows@[i as int]);
        }
        if rows[i].kind == RowKind::Scheduled {
            let y = rows[i].due.year;
            let mut k: usize = 0;
            while k < groups.len() && groups[k].year < y
                invariant
                    k <= groups@.len(),
                    forall|a: int| 0 <= a < k ==> (#[trigger] groups@[a]).year < y,
                decreases groups@.len() - k,
            {
                k = k + 1;
            }
            if k < groups.len() && groups[k].year == y {
                let mut b = groups.remove(k);
                b.rows.push(i);
                groups.insert(k, b);
                proof {
                    assert(groups@ =~= old_g.update(k as int, groups@[k as int]));
                    assert(groups@[k as int].year == y);
                    assert(groups@[k as int].rows@ == old_g[k as int].rows@.push(i));
                    assert forall|a: int, c: int| 0 <= a < c < groups@.len() implies (#[trigger] groups@[a]).year < (#[trigger] groups@[c]).year by {
                        assert(old_g[a].year < old_g[c].year);
                    }
                    assert forall|q: int| 0 <= q < groups@.len() implies (#[trigger] groups@[q]).rows@ == year_rows(post, groups@[q].year as int)
                        && groups@[q].rows@.len() > 0 by {
                        if q != k {
                            assert(groups@[q] == old_g[q]);
                            assert(old_g[q].year != y) by {
                                if q < k { assert(old_g[q].year < old_g[k as int].year); } else { assert(old_g[k as int].year < old_g[q].year); }
                            }
                        }
                    }
                    assert forall|j: int| 0 <= j < post.len() && (#[trigger] post[j]).kind == RowKind::Scheduled
                        implies exists|q: int| 0 <= q < groups@.len() && (#[trigger] groups@[q]).year == post[j].due.year by {
                        if j < i {
                            assert(pre[j] == post[j]);
                            let q = choose|q: int| 0 <= q < old_g.len() && (#[trigger] old_g[q]).year == pre[j].due.year;
                            assert(groups@[q].year == old_g[q].year);
                        } else {
                            assert(groups@[k as int].year == post[j].due.year);
                        }
                    }
                }
            } else {
                let mut v: Vec<usize> = Vec::new();
                v.push(i);
                groups.insert(k, YearBucket { year: y, rows: v });
                proof {
                    assert forall|a: int| 0 <= a < old_g.len() implies (#[trigger] old_g[a]).year != y by {
                        if a >= k {
                            if a > k { assert(old_g[k as int].year < old_g[a].year); }
                        }
                    }
                    assert forall|j: int| 0 <= j < pre.len() implies !((#[trigger] pre[j]).kind == RowKind::Scheduled && pre[j].due.year == y) by {
                        if pre[j].kind == RowKind::Scheduled && pre[j].due.year == y {
                            let q = choose|q: int| 0 <= q < old_g.len() && (#[trigger] old_g[q]).year == pre[j].due.year;
                            assert(old_g[q].year != y);
                        }
                    }
                    lemma_year_rows_empty(pre, y as int);
                    assert(year_rows(post, y as int) =~= seq![i as usize]);
                    assert forall|a: int| 0 <= a < groups@.len() implies #[trigger] groups@[a] == if a < k { old_g[a] } else if a == k { groups@[k as int] } else { old_g[a - 1] } by {}
                    assert forall|a: int, c: int| 0 <= a < c < groups@.len() implies (#[trigger] groups@[a]).year < (#[trigger] groups@[c]).year by {
                        if a < k && c < k {
                            assert(old_g[a].year < old_g[c].year);
                        } else if a < k && c > k {
                            assert(old_g[a].year < old_g[c - 1].year || a == c - 1);
                        } else if a > k {
                            assert(old_g[a - 1].year < old_g[c - 1].year);
                        } else if a == k {
                            assert(old_g[c - 1].year >= y);
                        }
                    }
                    assert forall|q: int| 0 <= q < groups@.len() implies (#[trigger] groups@[q]).rows@ == year_rows(post, groups@[q].year as int)
                        && groups@[q].rows@.len() > 0 by {
                        if q < k {
                            assert(groups@[q] == old_g[q]);
                        } else if q > k {
                            assert(groups@[q] == old_g[q - 1]);
                        }
                    }
                    assert forall|j: int| 0 <= j < post.len() && (#[trigger] post[j]).kind == RowKind::Scheduled
                        implies exists|q: int| 0 <= q < groups@.len() && (#[trigger] groups@[q]).year == post[j].due.year by {
                        if j < i {
                            assert(pre[j] == post[j]);
                            let q = choose|q: int| 0 <= q < old_g.len() && (#[trigger] old_g[q]).year == pre[j].due.year;
                            if q < k {
                                assert(groups@[q].year == old_g[q].year);
                            } else {
                                assert(groups@[q + 1].year == old_g[q].year);
                            }
                        } else {
                            assert(groups@[k as int].year == post[j].due.year);
                        }
                    }
                }
            }
        } else {
            proof {
                assert forall|q: int| 0 <= q < groups@.len() implies (#[trigger] groups@[q]).rows@ == year_rows(post, groups@[q].year as int)
                    && groups@[q].rows@.len() > 0 by {}
                assert forall|j: int| 0 <= j < post.len() && (#[trigger] post[j]).kind == RowKind::Scheduled
                    implies exists|q: int| 0 <= q < groups@.len() && (#[trigger] groups@[q]).year == post[j].due.year by {
                    assert(j < i);
                    assert(pre[j] == post[j]);
                }
            }
        }
        i = i + 1;
    }
    assert(rows@.subrange(0, rows@.len() as int) =~= rows@);
    groups
}

/// The chart's caption: bucket count, then principal and interest totals.
pub open spec fn chart_hint_spec(yearly: bool, n: int, principal: Seq<char>, interest: Seq<char>) -> Seq<char> {
    decimal(n) + if yearly { " years · "@ } else { " payments · "@ } + principal + " principal · "@ + interest + " interest"@
}

pub fn chart_hint(yearly: bool, n: usize, principal: &str, interest: &str) -> (r: String)
    requires
        n <= i64::MAX,
    ensures
        r@ == chart_hint_spec(yearly, n as int, principal@, interest@),
{
    let mut out = String::new();
    push_decimal(&mut out, n as i64);
    if yearly {
        push_str(&mut out, " years · ");
    } else {
        push_str(&mut out, " payments · ");
    }
    push_str(&mut out, principal);
    push_str(&mut out, " principal · ");
    push_str(&mut out, interest);
    push_str(&mut out, " interest");
    out
}

/// The chart grain a request asks for: yearly only when it says so exactly.
pub fn chart_grain(raw: &str) -> (r: &'static str)
    ensures
        r@ == if raw@ == "yearly"@ { "yearly"@ } else { "monthly"@ },
{
    if crate::text::str_eq(raw, "yearly") { "yearly" } else { "monthly" }
}

/// One chart grain: its caption and its buckets as JSON.
pub struct ChartView {
    pub hint: String,
    pub buckets_json: String,
}

/// Both chart grains, so the breakdown toggle can switch without a network round-trip.
pub struct ChartPair {
    pub grain: String,
    pub monthly: ChartView,
    pub yearly: ChartView,
}

} // verus!
