//! Amortization schedule rows: the calendar side (due dates, kinds, pay keys).

use vstd::prelude::*;
use crate::dates::{Date, valid_date, date_lt, date_le, add_months, add_months_spec, month_index, year_in_range};
use crate::text::{str_eq, push_str, push_decimal, decimal};
use crate::dates::{ymd_text, format_ymd, parse_ymd, chrono_ymd};

verus! {

/// A regular monthly installment, or an extra (possibly recasting) payment.
#[derive(Clone, Copy, Debug, PartialEq, Eq, Structural)]
pub enum RowKind {
    Scheduled,
    Extra,
}

/// The non-monetary part of a schedule row.
#[derive(Clone, Debug)]
pub struct RowInfo {
    pub kind: RowKind,
    pub label: String,
    pub id: Option<String>,
    pub due: Date,
    pub pay_key: String,
    pub recast: bool,
}

/// Whether `key` is one of `keys`: set membership, so repeated keys change nothing.
pub open spec fn key_in(keys: Seq<String>, key: Seq<char>) -> bool {
    exists|i: int| 0 <= i < keys.len() && keys[i]@ == key
}

/// Whether `key` is one of `keys` (the paid set).
pub fn contains_key(keys: &[String], key: &str) -> (r: bool)
    ensures
        r == key_in(keys@, key@),
{
    let mut i: usize = 0;
    while i < keys.len()
        invariant
            i <= keys@.len(),
            forall|j: int| 0 <= j < i ==> keys@[j]@ != key@,
        decreases keys@.len() - i,
    {
        if str_eq(keys[i].as_str(), key) {
            return true;
        }
        i = i + 1;
    }
    false
}

/// Text stored under `key`, as a map built from the entries in order holds
/// it: a later entry for a key replaces an earlier one, so the last entry
/// with that key wins.
pub open spec fn lookup_last(entries: Seq<(String, String)>, key: Seq<char>) -> Option<Seq<char>>
    decreases entries.len(),
{
    if entries.len() == 0 {
        None
    } else if entries.last().0@ == key {
        Some(entries.last().1@)
    } else {
        lookup_last(entries.drop_last(), key)
    }
}

/// Note lookup by pay key; the last entry for the key wins.
pub fn lookup_note<'a>(entries: &'a [(String, String)], key: &str) -> (r: Option<&'a String>)
    ensures
        match r {
            Some(s) => lookup_last(entries@, key@) == Some(s@),
            None => lookup_last(entries@, key@) is None,
        },
{
    let mut i: usize = entries.len();
    assert(entries@.subrange(0, entries@.len() as int) =~= entries@);
    while i > 0
        invariant
            i <= entries@.len(),
            lookup_last(entries@, key@) == lookup_last(entries@.subrange(0, i as int), key@),
        decreases i,
    {
        let ghost pre = entries@.subrange(0, i as int);
        assert(pre.drop_last() =~= entries@.subrange(0, i - 1));
        assert(pre.last() == entries@[i - 1]);
        if str_eq(entries[i - 1].0.as_str(), key) {
            return Some(&entries[i - 1].1);
        }
        i = i - 1;
    }
    None
}

/// An extra payment as the schedule merges it (its amount stays with the caller).
#[derive(Clone, Debug)]
pub struct ExtraInput {
    pub id: String,
    pub date: Date,
    pub recast: bool,
    /// When false, the row is shown but balance / payment / interest are unchanged.
    pub applied: bool,
    /// Whether the amount is above zero; other extras are left out of the schedule.
    pub positive: bool,
    /// Position of the stored extra this input came from.
    pub source: usize,
}

/// One step of the schedule: installment `n` (1-based) or extra number `extra`.
#[derive(Clone, Copy, Debug, PartialEq, Eq, Structural)]
pub struct Event {
    pub kind: RowKind,
    pub n: Option<i32>,
    pub extra: Option<usize>,
    pub due: Date,
    pub recast: bool,
    pub applied: bool,
}

/// Installments come before extras that fall on the same day.
pub open spec fn kind_order(k: RowKind) -> int {
    match k {
        RowKind::Scheduled => 0,
        RowKind::Extra => 1,
    }
}

/// Position of an event among those of its kind.
pub open spec fn ev_pos(e: Event) -> int {
    match e.kind {
        RowKind::Scheduled => match e.n {
            Some(v) => v as int,
            None => 0,
        },
        RowKind::Extra => match e.extra {
            Some(k) => k as int,
            None => 0,
        },
    }
}

/// Schedule order: by due date, installments first on a shared day, then by position.
pub open spec fn ev_before(a: Event, b: Event) -> bool {
    ||| date_lt(a.due, b.due)
    ||| (a.due == b.due && kind_order(a.kind) < kind_order(b.kind))
    ||| (a.due == b.due && kind_order(a.kind) == kind_order(b.kind) && ev_pos(a) < ev_pos(b))
}

pub open spec fn events_sorted(v: Seq<Event>) -> bool {
    forall|i: int, j: int| 0 <= i < j < v.len() ==> ev_before(#[trigger] v[i], #[trigger] v[j])
}

/// Installment `i`, due `i - 1` months after the first payment.
pub open spec fn scheduled_event(start: Date, i: int) -> Event {
    Event {
        kind: RowKind::Scheduled,
        n: Some(i as i32),
        extra: None,
        due: add_months_spec(start, i - 1),
        recast: false,
        applied: true,
    }
}

/// The event of extra number `k`.
pub open spec fn extra_event(extras: Seq<ExtraInput>, k: int) -> Event {
    Event {
        kind: RowKind::Extra,
        n: None,
        extra: Some(k as usize),
        due: extras[k].date,
        recast: extras[k].recast,
        applied: extras[k].applied,
    }
}

/// An event the schedule of `months` installments and these extras contains.
pub open spec fn is_schedule_event(e: Event, start: Date, months: int, extras: Seq<ExtraInput>) -> bool {
    ||| (exists|i: int| 1 <= i <= months && e == scheduled_event(start, i))
    ||| (exists|k: int| 0 <= k < extras.len() && extras[k].positive && e == extra_event(extras, k))
}

/// Number of extras with a positive amount.
pub open spec fn count_positive(extras: Seq<ExtraInput>) -> nat
    decreases extras.len(),
{
    if extras.len() == 0 {
        0
    } else {
        count_positive(extras.drop_last()) + if extras.last().positive {
            1nat
        } else {
            0nat
        }
    }
}

fn event_before(a: &Event, b: &Event) -> (r: bool)
    ensures
        r == ev_before(*a, *b),
{
    let ka: u8 = match a.kind { RowKind::Scheduled => 0, RowKind::Extra => 1 };
    let kb: u8 = match b.kind { RowKind::Scheduled => 0, RowKind::Extra => 1 };
    let pa: i128 = match a.kind {
        RowKind::Scheduled => match a.n { Some(v) => v as i128, None => 0 },
        RowKind::Extra => match a.extra { Some(k) => k as i128, None => 0 },
    };
    let pb: i128 = match b.kind {
        RowKind::Scheduled => match b.n { Some(v) => v as i128, None => 0 },
        RowKind::Extra => match b.extra { Some(k) => k as i128, None => 0 },
    };
    let same_day = a.due == b.due;
    a.due.lt(&b.due) || (same_day && ka < kb) || (same_day && ka == kb && pa < pb)
}

/// Inserts `e` at its place in a sorted event list.
fn insert_sorted(out: &mut Vec<Event>, e: Event)
    requires
        events_sorted(old(out)@),
        forall|j: int| 0 <= j < old(out)@.len() ==> !((#[trigger] old(out)@[j]).due == e.due
            && kind_order(old(out)@[j].kind) == kind_order(e.kind) && ev_pos(old(out)@[j]) >= ev_pos(e)),
    ensures
        events_sorted(final(out)@),
        final(out)@.len() == old(out)@.len() + 1,
        forall|x: Event| final(out)@.contains(x) <==> (x == e || old(out)@.contains(x)),
{
    let ghost before = out@;
    let mut p = out.len();
    while p > 0 && event_before(&e, &out[p - 1])
        invariant
            out@ == before,
            p <= out@.len(),
            forall|j: int| p <= j < out@.len() ==> ev_before(e, #[trigger] out@[j]),
        decreases p,
    {
        p = p - 1;
    }
    proof {
        if p > 0 {
            let x = out@[p - 1];
            assert(ev_before(x, e));
            assert forall|j: int| 0 <= j < p implies ev_before(#[trigger] out@[j], e) by {
                if j < p - 1 {
                    assert(ev_before(out@[j], out@[p - 1]));
                }
            }
        }
        before.insert_ensures(p as int, e);
    }
    out.insert(p, e);
    proof {
        let v = out@;
        assert forall|i: int, j: int| 0 <= i < j < v.len() implies ev_before(#[trigger] v[i], #[trigger] v[j]) by {
            if j < p {
                assert(v[i] == before[i] && v[j] == before[j]);
            } else if j == p {
                assert(v[i] == before[i]);
            } else if i < p {
                assert(v[i] == before[i] && v[j] == before[j - 1]);
                assert(ev_before(before[i], e));
            } else if i == p {
                assert(v[j] == before[j - 1]);
            } else {
                assert(v[i] == before[i - 1] && v[j] == before[j - 1]);
            }
        }
        assert forall|x: Event| v.contains(x) <==> (x == e || before.contains(x)) by {
            if v.contains(x) {
                let k = choose|k: int| 0 <= k < v.len() && v[k] == x;
                if k < p {
                    assert(before[k] == x);
                } else if k > p {
                    assert(before[k - 1] == x);
                }
            }
            if x == e {
                assert(v[p as int] == x);
            }
            if before.contains(x) {
                let k = choose|k: int| 0 <= k < before.len() && before[k] == x;
                if k < p {
                    assert(v[k] == x);
                } else {
                    assert(v[k + 1] == x);
                }
            }
        }
    }
}

/// The schedule's events: one installment per month of the term, then the
/// extras with a positive amount, all in schedule order.
pub fn schedule_events(years: i32, start: Date, extras: &[ExtraInput]) -> (r: Vec<Event>)
    requires
        valid_date(start),
        0 <= years,
        years * 12 <= i32::MAX,
        year_in_range((month_index(start) + years * 12) / 12),
        forall|k: int| 0 <= k < extras@.len() ==> valid_date(#[trigger] extras@[k].date),
    ensures
        r@.len() == years * 12 + count_positive(extras@),
        events_sorted(r@),
        forall|i: int| 0 <= i < r@.len() ==> is_schedule_event(#[trigger] r@[i], start, years * 12, extras@),
{
    let n: i32 = years * 12;
    let mut out: Vec<Event> = Vec::new();
    let mut i: i32 = 1;
    while i <= n
        invariant
            n == years * 12,
            valid_date(start),
            year_in_range((month_index(start) + years * 12) / 12),
            1 <= i <= n + 1,
            out@.len() == i - 1,
            events_sorted(out@),
            forall|j: int| 0 <= j < out@.len() ==> (#[trigger] out@[j]).kind == RowKind::Scheduled
                && ev_pos(out@[j]) < i && is_schedule_event(out@[j], start, n as int, extras@),
        decreases n + 1 - i,
    {
        assert(month_index(start) / 12 == start.year);
        assert((month_index(start) + (i - 1)) / 12 >= start.year) by (nonlinear_arith)
            requires month_index(start) / 12 == start.year, i >= 1;
        assert((month_index(start) + (i - 1)) / 12 <= (month_index(start) + years * 12) / 12) by (nonlinear_arith)
            requires i - 1 <= years * 12;
        let due = add_months(start, i - 1);
        let e = Event { kind: RowKind::Scheduled, n: Some(i), extra: None, due, recast: false, applied: true };
        assert(e == scheduled_event(start, i as int));
        insert_sorted(&mut out, e);
        proof {
            assert forall|j: int| 0 <= j < out@.len() implies (#[trigger] out@[j]).kind == RowKind::Scheduled
                && ev_pos(out@[j]) < i + 1 && is_schedule_event(out@[j], start, n as int, extras@) by {
                assert(out@.contains(out@[j]));
            }
        }
        i = i + 1;
    }
    let mut k: usize = 0;
    while k < extras.len()
        invariant
            n == years * 12,
            k <= extras@.len(),
            out@.len() == n + count_positive(extras@.subrange(0, k as int)),
            events_sorted(out@),
            forall|j: int| 0 <= j < out@.len() ==> ((#[trigger] out@[j]).kind == RowKind::Extra ==> ev_pos(out@[j]) < k)
                && is_schedule_event(out@[j], start, n as int, extras@),
        decreases extras@.len() - k,
    {
        let ex = &extras[k];
        proof {
            let p = extras@.subrange(0, k + 1);
            assert(p.drop_last() =~= extras@.subrange(0, k as int));
        }
        if ex.positive {
            let e = Event { kind: RowKind::Extra, n: None, extra: Some(k), due: ex.date, recast: ex.recast, applied: ex.applied };
            assert(e == extra_event(extras@, k as int));
            insert_sorted(&mut out, e);
            proof {
                assert forall|j: int| 0 <= j < out@.len() implies ((#[trigger] out@[j]).kind == RowKind::Extra ==> ev_pos(out@[j]) < k + 1)
                    && is_schedule_event(out@[j], start, n as int, extras@) by {
                    assert(out@.contains(out@[j]));
                }
            }
        }
        k = k + 1;
    }
    assert(extras@.subrange(0, extras@.len() as int) =~= extras@);
    out
}

/// Pay key of an extra payment.
pub open spec fn extra_key(id: Seq<char>) -> Seq<char> {
    "extra:"@ + id
}

pub fn extra_pay_key(id: &str) -> (r: String)
    ensures
        r@ == extra_key(id@),
{
    let mut out = String::from_str("extra:");
    push_str(&mut out, id);
    out
}

/// Display data of an event's row.
pub open spec fn row_info_spec(e: Event, extras: Seq<ExtraInput>, info: RowInfo) -> bool {
    &&& info.kind == e.kind
    &&& info.due == e.due
    &&& match e.kind {
        RowKind::Scheduled => {
            &&& !info.recast
            &&& info.label@ == decimal(ev_pos(e))
            &&& info.id is None
            &&& info.pay_key@ == ymd_text(e.due)
        },
        RowKind::Extra => {
            let id = extras[ev_pos(e)].id@;
            &&& info.recast == e.recast
            &&& info.label@ == (if e.recast { "Recast"@ } else { "Extra"@ })
            &&& info.id matches Some(s) && s@ == id
            &&& info.pay_key@ == extra_key(id)
        },
    }
}

/// Label, id and pay key of a schedule event's row.
pub fn row_info(e: &Event, extras: &[ExtraInput]) -> (r: RowInfo)
    requires
        valid_date(e.due),
        e.kind == RowKind::Scheduled ==> e.n is Some,
        e.kind == RowKind::Extra ==> (e.extra matches Some(k) && k < extras@.len()),
    ensures
        row_info_spec(*e, extras@, r),
{
    match e.kind {
        RowKind::Scheduled => {
            let n = match e.n { Some(v) => v, None => 0 };
            let mut label = String::new();
            push_decimal(&mut label, n as i64);
            assert(label@ =~= decimal(ev_pos(*e)));
            RowInfo {
                kind: RowKind::Scheduled,
                label,
                id: None,
                due: e.due,
                pay_key: format_ymd(e.due),
                recast: false,
            }
        },
        RowKind::Extra => {
            let k = match e.extra { Some(k) => k, None => 0 };
            let id = extras[k].id.clone();
            let label = if e.recast { String::from_str("Recast") } else { String::from_str("Extra") };
            let pay_key = extra_pay_key(id.as_str());
            RowInfo {
                kind: RowKind::Extra,
                label,
                id: Some(id),
                due: e.due,
                pay_key,
                recast: e.recast,
            }
        },
    }
}

/// A stored extra payment, apart from its amount.
#[derive(Clone, Debug)]
pub struct ExtraRecord {
    pub id: String,
    pub date: String,
    pub recast: bool,
    /// Whether the amount is above zero.
    pub positive: bool,
}

/// Schedule inputs of the stored extras whose date parses; an extra applies
/// only once its pay key is marked paid.
pub open spec fn extras_inputs_spec(extras: Seq<ExtraRecord>, paid: Seq<String>) -> Seq<(Seq<char>, Date, bool, bool, bool, int)>
    decreases extras.len(),
{
    if extras.len() == 0 {
        Seq::empty()
    } else {
        let k = extras.len() - 1;
        let ex = extras.last();
        extras_inputs_spec(extras.drop_last(), paid) + match chrono_ymd(ex.date@) {
            Some((y, m, d)) => seq![(ex.id@, Date { year: y, month: m, day: d }, ex.recast,
                key_in(paid, extra_key(ex.id@)), ex.positive, k)],
            None => Seq::empty(),
        }
    }
}

pub open spec fn input_view(e: ExtraInput) -> (Seq<char>, Date, bool, bool, bool, int) {
    (e.id@, e.date, e.recast, e.applied, e.positive, e.source as int)
}

/// Map extras into schedule inputs. Only paid extras affect balance / payment / interest.
pub fn extras_as_inputs(extras: &[ExtraRecord], paid: &[String]) -> (r: Vec<ExtraInput>)
    ensures
        r@.map_values(|e: ExtraInput| input_view(e)) == extras_inputs_spec(extras@, paid@),
        forall|i: int| 0 <= i < r@.len() ==> valid_date(#[trigger] r@[i].date),
{
    let mut out: Vec<ExtraInput> = Vec::new();
    let mut k: usize = 0;
    while k < extras.len()
        invariant
            k <= extras@.len(),
            out@.map_values(|e: ExtraInput| input_view(e)) == extras_inputs_spec(extras@.subrange(0, k as int), paid@),
            forall|i: int| 0 <= i < out@.len() ==> valid_date(#[trigger] out@[i].date),
        decreases extras@.len() - k,
    {
        let ex = &extras[k];
        proof {
            let p = extras@.subrange(0, k + 1);
            assert(p.drop_last() =~= extras@.subrange(0, k as int));
            assert(p.last() == extras@[k as int]);
        }
        let ghost before = out@;
        match parse_ymd(ex.date.as_str()) {
            Ok(date) => {
                let key = extra_pay_key(ex.id.as_str());
                let applied = contains_key(paid, key.as_str());
                out.push(ExtraInput {
                    id: ex.id.clone(),
                    date,
                    recast: ex.recast,
                    applied,
                    positive: ex.positive,
                    source: k,
                });
                assert(out@.map_values(|e: ExtraInput| input_view(e)) =~= before.map_values(|e: ExtraInput| input_view(e)).push(input_view(out@.last())));
            },
            Err(_) => {},
        }
        k = k + 1;
        assert(out@.map_values(|e: ExtraInput| input_view(e)) =~= extras_inputs_spec(extras@.subrange(0, k as int), paid@));
    }
    assert(extras@.subrange(0, extras@.len() as int) =~= extras@);
    out
}

/// Pay keys of unpaid installments due on or before `today`, in order.
pub open spec fn due_unpaid_spec(rows: Seq<RowInfo>, paid: Seq<String>, today: Date) -> Seq<Seq<char>>
    decreases rows.len(),
{
    if rows.len() == 0 {
        Seq::empty()
    } else {
        let r = rows.last();
        due_unpaid_spec(rows.drop_last(), paid, today) + if r.kind == RowKind::Scheduled && date_le(r.due, today)
            && !key_in(paid, r.pay_key@) {
            seq![r.pay_key@]
        } else {
            Seq::empty()
        }
    }
}

/// Installments to mark paid automatically on a profile that asks for it.
pub fn due_unpaid_keys(rows: &[RowInfo], paid: &[String], today: Date) -> (r: Vec<String>)
    ensures
        r@.map_values(|s: String| s@) == due_unpaid_spec(rows@, paid@, today),
{
    let mut out: Vec<String> = Vec::new();
    let mut i: usize = 0;
    while i < rows.len()
        invariant
            i <= rows@.len(),
            out@.map_values(|s: String| s@) == due_unpaid_spec(rows@.subrange(0, i as int), paid@, today),
        decreases rows@.len() - i,
    {
        let r = &rows[i];
        proof {
            let p = rows@.subrange(0, i + 1);
            assert(p.drop_last() =~= rows@.subrange(0, i as int));
            assert(p.last() == rows@[i as int]);
        }
        let ghost before = out@;
        if r.kind == RowKind::Scheduled && r.due.le(&today) && !contains_key(paid, r.pay_key.as_str()) {
            out.push(r.pay_key.clone());
            assert(out@.map_values(|s: String| s@) =~= before.map_values(|s: String| s@).push(r.pay_key@));
        }
        i = i + 1;
        assert(out@.map_values(|s: String| s@) =~= due_unpaid_spec(rows@.subrange(0, i as int), paid@, today));
    }
    assert(rows@.subrange(0, rows@.len() as int) =~= rows@);
    out
}

/// Whether a payment counts as due by `today`: due on or before it, or due
/// later in the same month.
pub open spec fn due_by_month(due: Date, today: Date) -> bool {
    date_le(due, today) || (due.year == today.year && due.month == today.month)
}

/// Pay keys of all rows (installments and extras) due by the end of the
/// current month, in order.
pub open spec fn due_by_month_spec(rows: Seq<RowInfo>, today: Date) -> Seq<Seq<char>>
    decreases rows.len(),
{
    if rows.len() == 0 {
        Seq::empty()
    } else {
        let r = rows.last();
        due_by_month_spec(rows.drop_last(), today) + if due_by_month(r.due, today) {
            seq![r.pay_key@]
        } else {
            Seq::empty()
        }
    }
}

/// The rows that "mark all due" records as paid.
pub fn due_by_month_keys(rows: &[RowInfo], today: Date) -> (r: Vec<String>)
    ensures
        r@.map_values(|s: String| s@) == due_by_month_spec(rows@, today),
{
    let mut out: Vec<String> = Vec::new();
    let mut i: usize = 0;
    while i < rows.len()
        invariant
            i <= rows@.len(),
            out@.map_values(|s: String| s@) == due_by_month_spec(rows@.subrange(0, i as int), today),
        decreases rows@.len() - i,
    {
        let r = &rows[i];
        proof {
            let p = rows@.subrange(0, i + 1);
            assert(p.drop_last() =~= rows@.subrange(0, i as int));
            assert(p.last() == rows@[i as int]);
        }
        let ghost before = out@;
        if r.due.le(&today) || (r.due.year == today.year && r.due.month == today.month) {
            out.push(r.pay_key.clone());
            assert(out@.map_values(|s: String| s@) =~= before.map_values(|s: String| s@).push(r.pay_key@));
        }
        i = i + 1;
        assert(out@.map_values(|s: String| s@) =~= due_by_month_spec(rows@.subrange(0, i as int), today));
    }
    assert(rows@.subrange(0, rows@.len() as int) =~= rows@);
    out
}

/// Auto-marking only ever records installments that are due by `today` and
/// not yet paid.
pub proof fn law_auto_marked_keys_are_due_and_unpaid(rows: Seq<RowInfo>, paid: Seq<String>, today: Date, j: int)
    requires
        0 <= j < due_unpaid_spec(rows, paid, today).len(),
    ensures
        exists|i: int|
            0 <= i < rows.len() && #[trigger] rows[i].pay_key@ == due_unpaid_spec(rows, paid, today)[j]
                && rows[i].kind == RowKind::Scheduled && date_le(rows[i].due, today) && !key_in(paid, rows[i].pay_key@),
    decreases rows.len(),
{
    let pre = due_unpaid_spec(rows.drop_last(), paid, today);
    if j < pre.len() {
        law_auto_marked_keys_are_due_and_unpaid(rows.drop_last(), paid, today, j);
        let i = choose|i: int|
            0 <= i < rows.drop_last().len() && #[trigger] rows.drop_last()[i].pay_key@ == pre[j]
                && rows.drop_last()[i].kind == RowKind::Scheduled && date_le(rows.drop_last()[i].due, today)
                && !key_in(paid, rows.drop_last()[i].pay_key@);
        assert(rows.drop_last()[i] == rows[i]);
        assert(due_unpaid_spec(rows, paid, today)[j] == pre[j]);
    } else {
        let i = rows.len() - 1;
        assert(rows[i] == rows.last());
        assert(due_unpaid_spec(rows, paid, today)[j] == rows.last().pay_key@);
    }
}

/// "Mark all due" only ever records rows due by the end of the current month.
pub proof fn law_marked_due_keys_are_due(rows: Seq<RowInfo>, today: Date, j: int)
    requires
        0 <= j < due_by_month_spec(rows, today).len(),
    ensures
        exists|i: int|
            0 <= i < rows.len() && #[trigger] rows[i].pay_key@ == due_by_month_spec(rows, today)[j]
                && due_by_month(rows[i].due, today),
    decreases rows.len(),
{
    let pre = due_by_month_spec(rows.drop_last(), today);
    if j < pre.len() {
        law_marked_due_keys_are_due(rows.drop_last(), today, j);
        let i = choose|i: int|
            0 <= i < rows.drop_last().len() && #[trigger] rows.drop_last()[i].pay_key@ == pre[j]
                && due_by_month(rows.drop_last()[i].due, today);
        assert(rows.drop_last()[i] == rows[i]);
        assert(due_by_month_spec(rows, today)[j] == pre[j]);
    } else {
        let i = rows.len() - 1;
        assert(rows[i] == rows.last());
        assert(due_by_month_spec(rows, today)[j] == rows.last().pay_key@);
    }
}

/// Whether `d` falls on or before `t` in the calendar.
pub open spec fn on_or_before(d: Date, t: Date) -> bool {
    d.year < t.year || (d.year == t.year && (d.month < t.month || (d.month == t.month && d.day <= t.day)))
}

/// Every schedule input comes from one stored extra and keeps its id and
/// recast flag, and it is applied exactly when that extra's pay key
/// `extra:` + id has been marked paid, whether or not it recasts.
pub proof fn law_extra_applies_exactly_when_paid(extras: Seq<ExtraRecord>, paid: Seq<String>, i: int)
    requires
        0 <= i < extras_inputs_spec(extras, paid).len(),
    ensures
        ({
            let e = extras_inputs_spec(extras, paid)[i];
            &&& 0 <= e.5 < extras.len()
            &&& e.0 == extras[e.5].id@
            &&& e.2 == extras[e.5].recast
            &&& e.4 == extras[e.5].positive
            &&& (e.3 <==> exists|p: int| 0 <= p < paid.len() && #[trigger] paid[p]@ == "extra:"@ + extras[e.5].id@)
        }),
    decreases extras.len(),
{
    reveal_strlit("extra:");
    let pre = extras_inputs_spec(extras.drop_last(), paid);
    if i < pre.len() {
        law_extra_applies_exactly_when_paid(extras.drop_last(), paid, i);
        assert(extras_inputs_spec(extras, paid)[i] == pre[i]);
        let k = pre[i].5;
        assert(extras.drop_last()[k] == extras[k]);
    } else {
        let k = extras.len() - 1;
        assert(extras[k] == extras.last());
        assert(extras_inputs_spec(extras, paid)[i].5 == k);
    }
}

/// Auto-marking misses nothing: every installment due on or before `today`
/// whose pay key is not marked paid is among the keys it records.
pub proof fn law_auto_mark_takes_every_due_unpaid_installment(rows: Seq<RowInfo>, paid: Seq<String>, today: Date, i: int)
    requires
        0 <= i < rows.len(),
        rows[i].kind == RowKind::Scheduled,
        on_or_before(rows[i].due, today),
        forall|p: int| 0 <= p < paid.len() ==> #[trigger] paid[p]@ != rows[i].pay_key@,
    ensures
        exists|j: int| 0 <= j < due_unpaid_spec(rows, paid, today).len()
            && #[trigger] due_unpaid_spec(rows, paid, today)[j] == rows[i].pay_key@,
    decreases rows.len(),
{
    let pre = due_unpaid_spec(rows.drop_last(), paid, today);
    let all = due_unpaid_spec(rows, paid, today);
    if i < rows.len() - 1 {
        assert(rows.drop_last()[i] == rows[i]);
        law_auto_mark_takes_every_due_unpaid_installment(rows.drop_last(), paid, today, i);
        let j = choose|j: int| 0 <= j < pre.len() && #[trigger] pre[j] == rows[i].pay_key@;
        assert(all[j] == pre[j]);
    } else {
        assert(rows.last() == rows[i]);
        assert(date_le(rows[i].due, today));
        assert(!key_in(paid, rows[i].pay_key@));
        assert(all[pre.len() as int] == rows[i].pay_key@);
    }
}

/// "Mark all due" misses nothing: every row due on or before `today`, or
/// later in today's month, is among the keys it records.
pub proof fn law_mark_due_takes_every_row_due_this_month(rows: Seq<RowInfo>, today: Date, i: int)
    requires
        0 <= i < rows.len(),
        on_or_before(rows[i].due, today) || (rows[i].due.year == today.year && rows[i].due.month == today.month),
    ensures
        exists|j: int| 0 <= j < due_by_month_spec(rows, today).len()
            && #[trigger] due_by_month_spec(rows, today)[j] == rows[i].pay_key@,
    decreases rows.len(),
{
    let pre = due_by_month_spec(rows.drop_last(), today);
    let all = due_by_month_spec(rows, today);
    if i < rows.len() - 1 {
        assert(rows.drop_last()[i] == rows[i]);
        law_mark_due_takes_every_row_due_this_month(rows.drop_last(), today, i);
        let j = choose|j: int| 0 <= j < pre.len() && #[trigger] pre[j] == rows[i].pay_key@;
        assert(all[j] == pre[j]);
    } else {
        assert(rows.last() == rows[i]);
        assert(all[pre.len() as int] == rows[i].pay_key@);
    }
}

/// The pay key of an extra payment never equals the pay key of an
/// installment, so marking one paid never marks the other.
pub proof fn law_extra_keys_differ_from_installments(id: Seq<char>, due: Date)
    ensures
        extra_key(id) != ymd_text(due),
{
    reveal_strlit("extra:");
    let k = extra_key(id);
    let t = ymd_text(due);
    assert(k[0] == 'e');
    let y = due.year as int;
    if 0 <= y <= 9999 {
        assert(t[0] == crate::text::digit_char(y / 1000));
    } else {
        assert(t[0] == '-' || t[0] == '+');
    }
    assert(k[0] != t[0]);
}

} // verus!
