//! Dashboard assembly: payment chips, the calendar, the payments table and
//! summary counts. Money amounts arrive already rendered by the caller.

use vstd::prelude::*;
use crate::text::{trim, trim_str, push_char, push_str, push_decimal, decimal, to_owned_string};
use crate::dates::{Date, valid_date, date_lt, payment_status, payment_status_spec, fmt_date, fmt_date_spec, month_name, month_name_str, months_between, months_between_spec};
use crate::schedule::{RowInfo, RowKind, key_in, contains_key, lookup_last, lookup_note};
use crate::view::{PaymentFilter, status_label, status_label_spec};
use crate::export::{row_matches_filter, row_matches_filter_spec};
use crate::sharing::hex_lower_spec;

verus! {

/// How `serde_json` writes one character inside a string literal: `"` and
/// `\` behind a backslash; backspace, tab, line feed, form feed and carriage
/// return as `\b \t \n \f \r`; the other characters below U+0020 as
/// `\u00` and two lower-case hex digits; everything else as it is.
pub open spec fn json_char(c: char) -> Seq<char> {
    if c == '"' {
        seq!['\\', '"']
    } else if c == '\\' {
        seq!['\\', '\\']
    } else if c == '\u{8}' {
        seq!['\\', 'b']
    } else if c == '\t' {
        seq!['\\', 't']
    } else if c == '\n' {
        seq!['\\', 'n']
    } else if c == '\u{c}' {
        seq!['\\', 'f']
    } else if c == '\r' {
        seq!['\\', 'r']
    } else if (c as int) < 0x20 {
        seq!['\\', 'u', '0', '0', hex_lower_spec(c as int / 16), hex_lower_spec(c as int % 16)]
    } else {
        seq![c]
    }
}

/// The escaped characters of a string.
pub open spec fn json_escape(s: Seq<char>) -> Seq<char>
    decreases s.len(),
{
    if s.len() == 0 {
        Seq::empty()
    } else {
        json_escape(s.drop_last()) + json_char(s.last())
    }
}

/// The JSON text `serde_json` writes for a string value: the escaped
/// characters between double quotes.
pub open spec fn json_string_text(s: Seq<char>) -> Seq<char> {
    seq!['"'] + json_escape(s) + seq!['"']
}

/// `serde_json::to_string` of a string value. It serializes into a `Vec`, and
/// the only failures on the way are the writer's, which appending to a `Vec`
/// never has; so the result is always the escaped, quoted text.
#[verifier::external_body]
pub(crate) fn to_json_string(s: &str) -> (r: Option<String>)
    ensures
        r is Some,
        r matches Some(t) ==> t@ == json_string_text(s@),
{
    match serde_json::to_string(s) {
        Ok(t) => Some(t),
        Err(_) => None,
    }
}

/// JSON literal of a note for the page script.
pub fn note_json(note: &str) -> (r: String)
    ensures
        r@ == json_string_text(note@),
{
    match to_json_string(note) {
        Some(t) => t,
        None => String::from_str("\"\""),
    }
}

/// Note attached to a pay key, or empty.
pub open spec fn note_of(notes: Seq<(String, String)>, key: Seq<char>) -> Seq<char> {
    match lookup_last(notes, key) {
        Some(n) => n,
        None => Seq::empty(),
    }
}

/// A saved note reads back as saved: once the text that saving keeps (the
/// trimmed note) is the latest entry stored under a pay key, that key shows
/// a note and the note is exactly that text.
pub proof fn law_saved_note_reads_back(note: Seq<char>, stored: (String, String), others: Seq<(String, String)>)
    requires
        0 < trim(note).len() <= 500,
        stored.1@ == trim(note),
    ensures
        note_of(others + seq![stored], stored.0@) == trim(note),
        trim(note_of(others + seq![stored], stored.0@)).len() > 0,
{
    let all = others + seq![stored];
    assert(all.last() == stored);
    crate::text::lemma_trim_idempotent(note);
}

/// Whether a pay key carries a note, and its JSON literal.
pub fn note_fields(notes: &[(String, String)], pay_key: &str) -> (r: (bool, String))
    ensures
        r.0 == (trim(note_of(notes@, pay_key@)).len() > 0),
        r.1@ == json_string_text(note_of(notes@, pay_key@)),
{
    let note: &str = match lookup_note(notes, pay_key) {
        Some(n) => n.as_str(),
        None => "",
    };
    proof {
        reveal_strlit("");
        assert(""@ =~= Seq::<char>::empty());
        assert(note@ == note_of(notes@, pay_key@));
    }
    let has_note = trim_str(note).unicode_len() > 0;
    (has_note, note_json(note))
}

/// A payment in the calendar.
pub struct PaymentChip {
    pub pay_key: String,
    pub amount: String,
    pub status: String,
    pub status_text: String,
    pub is_extra: bool,
    pub aria: String,
}

/// Status text of a chip: extras name their kind before the status.
pub open spec fn chip_status_text_spec(row: RowInfo, status: Seq<char>) -> Seq<char> {
    if row.kind == RowKind::Extra {
        let kind = if row.recast { "Recast"@ } else { "Extra"@ };
        if status == "paid"@ {
            kind + " · Paid"@
        } else {
            kind + " · "@ + status_label_spec(status)
        }
    } else {
        status_label_spec(status)
    }
}

/// Calendar chip of a row whose amount text is `amount`.
pub fn chip_for(row: &RowInfo, amount: String, paid: &[String], today: Date) -> (r: PaymentChip)
    ensures
        r.pay_key@ == row.pay_key@,
        r.amount@ == amount@,
        r.status@ == payment_status_spec(row.due, key_in(paid@, row.pay_key@), today),
        r.status_text@ == chip_status_text_spec(*row, r.status@),
        r.is_extra == (row.kind == RowKind::Extra),
        r.aria@ == (if r.status@ == "paid"@ { "Mark unpaid"@ } else { "Mark paid"@ }),
{
    let is_paid = contains_key(paid, row.pay_key.as_str());
    let status_str = payment_status(row.due, is_paid, today);
    let is_paid_status = crate::text::str_eq(status_str, "paid");
    let status_text = if row.kind == RowKind::Extra {
        let mut t = if row.recast { String::from_str("Recast") } else { String::from_str("Extra") };
        if is_paid_status {
            push_str(&mut t, " · Paid");
        } else {
            push_str(&mut t, " · ");
            push_str(&mut t, status_label(status_str));
        }
        t
    } else {
        String::from_str(status_label(status_str))
    };
    let aria = if is_paid_status { String::from_str("Mark unpaid") } else { String::from_str("Mark paid") };
    PaymentChip {
        pay_key: row.pay_key.clone(),
        amount,
        status: String::from_str(status_str),
        status_text,
        is_extra: row.kind == RowKind::Extra,
        aria,
    }
}

/// One month of the calendar.
pub struct MonthCell {
    pub name: String,
    pub is_current: bool,
    pub is_empty: bool,
    pub chips: Vec<PaymentChip>,
}

/// Rows shown in a calendar month: due that month of `view_year`, and either
/// an extra or a row whose amount is shown.
pub open spec fn in_month(row: RowInfo, shown: bool, view_year: int, month: int) -> bool {
    row.due.year == view_year && row.due.month == month && (shown || row.kind == RowKind::Extra)
}

/// Indices of the rows of one calendar month, in schedule order.
pub open spec fn month_rows(rows: Seq<RowInfo>, shown: Seq<bool>, view_year: int, month: int) -> Seq<int>
    decreases rows.len(),
{
    if rows.len() == 0 {
        Seq::empty()
    } else {
        let i = rows.len() - 1;
        month_rows(rows.drop_last(), shown, view_year, month) + if in_month(rows[i], shown[i], view_year, month) {
            seq![i]
        } else {
            Seq::empty()
        }
    }
}

proof fn lemma_month_rows_prefix(rows: Seq<RowInfo>, shown: Seq<bool>, view_year: int, month: int, i: int)
    requires
        0 <= i < rows.len(),
    ensures
        month_rows(rows.subrange(0, i + 1), shown, view_year, month) == month_rows(rows.subrange(0, i), shown, view_year, month)
            + if in_month(rows[i], shown[i], view_year, month) { seq![i] } else { Seq::empty() },
{
    let p = rows.subrange(0, i + 1);
    assert(p.drop_last() =~= rows.subrange(0, i));
    assert(p[i] == rows[i]);
}

/// The twelve months of `view_year` with their chips. `amounts[i]` is the
/// amount text of row `i`; `shown[i]` whether its amount is shown at all.
pub fn calendar_months(rows: &[RowInfo], amounts: &[String], shown: &[bool], paid: &[String], view_year: i32, today: Date) -> (r: Vec<MonthCell>)
    requires
        amounts@.len() == rows@.len(),
        shown@.len() == rows@.len(),
    ensures
        r@.len() == 12,
        forall|m: int| 1 <= m <= 12 ==> {
            let cell = #[trigger] r@[m - 1];
            let idx = month_rows(rows@, shown@, view_year as int, m);
            &&& cell.name@ == month_name(m)
            &&& cell.is_current == (today.year == view_year && today.month == m)
            &&& cell.chips@.len() == idx.len()
            &&& cell.is_empty == (idx.len() == 0)
            &&& forall|j: int| 0 <= j < idx.len() ==> {
                let c = #[trigger] cell.chips@[j];
                let row = rows@[idx[j]];
                &&& c.pay_key@ == row.pay_key@
                &&& c.amount@ == amounts@[idx[j]]@
                &&& c.status@ == payment_status_spec(row.due, key_in(paid@, row.pay_key@), today)
                &&& c.status_text@ == chip_status_text_spec(row, c.status@)
            }
        },
{
    let mut out: Vec<MonthCell> = Vec::new();
    let mut month: u32 = 1;
    while month <= 12
        invariant
            amounts@.len() == rows@.len(),
            shown@.len() == rows@.len(),
            1 <= month <= 13,
            out@.len() == month - 1,
            forall|m: int| 1 <= m < month ==> {
                let cell = #[trigger] out@[m - 1];
                let idx = month_rows(rows@, shown@, view_year as int, m);
                &&& cell.name@ == month_name(m)
                &&& cell.is_current == (today.year == view_year && today.month == m)
                &&& cell.chips@.len() == idx.len()
                &&& cell.is_empty == (idx.len() == 0)
                &&& forall|j: int| 0 <= j < idx.len() ==> {
                    let c = #[trigger] cell.chips@[j];
                    let row = rows@[idx[j]];
                    &&& c.pay_key@ == row.pay_key@
                    &&& c.amount@ == amounts@[idx[j]]@
                    &&& c.status@ == payment_status_spec(row.due, key_in(paid@, row.pay_key@), today)
                    &&& c.status_text@ == chip_status_text_spec(row, c.status@)
                }
            },
        decreases 13 - month,
    {
        let mut chips: Vec<PaymentChip> = Vec::new();
        let ghost mut idx: Seq<int> = Seq::empty();
        let mut i: usize = 0;
        assert(rows@.subrange(0, 0) =~= Seq::<RowInfo>::empty());
        while i < rows.len()
            invariant
                amounts@.len() == rows@.len(),
                shown@.len() == rows@.len(),
                1 <= month <= 12,
                i <= rows@.len(),
                idx == month_rows(rows@.subrange(0, i as int), shown@, view_year as int, month as int),
                chips@.len() == idx.len(),
                forall|j: int| 0 <= j < idx.len() ==> 0 <= #[trigger] idx[j] < i,
                forall|j: int| 0 <= j < idx.len() ==> {
                    let c = #[trigger] chips@[j];
                    let row = rows@[idx[j]];
                    &&& c.pay_key@ == row.pay_key@
                    &&& c.amount@ == amounts@[idx[j]]@
                    &&& c.status@ == payment_status_spec(row.due, key_in(paid@, row.pay_key@), today)
                    &&& c.status_text@ == chip_status_text_spec(row, c.status@)
                },
            decreases rows@.len() - i,
        {
            let row = &rows[i];
            proof {
                lemma_month_rows_prefix(rows@, shown@, view_year as int, month as int, i as int);
            }
            if row.due.year == view_year && row.due.month == month && (shown[i] || row.kind == RowKind::Extra) {
                let chip = chip_for(row, amounts[i].clone(), paid, today);
                chips.push(chip);
                proof {
                    idx = idx.push(i as int);
                }
            }
            i = i + 1;
        }
        assert(rows@.subrange(0, rows@.len() as int) =~= rows@);
        let is_empty = chips.len() == 0;
        out.push(MonthCell {
            name: String::from_str(month_name_str(month)),
            is_current: today.year == view_year && today.month == month,
            is_empty,
            chips,
        });
        month = month + 1;
    }
    out
}

/// Indices of the rows a filter keeps, in order.
pub open spec fn selected_rows(rows: Seq<RowInfo>, paid: Seq<String>, filter: PaymentFilter, today: Date) -> Seq<usize>
    decreases rows.len(),
{
    if rows.len() == 0 {
        Seq::empty()
    } else {
        let i = rows.len() - 1;
        selected_rows(rows.drop_last(), paid, filter, today) + if row_matches_filter_spec(rows[i], paid, filter, today) {
            seq![i as usize]
        } else {
            Seq::empty()
        }
    }
}

/// Consecutive selected rows grouped by due year.
pub open spec fn group_by_year(rows: Seq<RowInfo>, sel: Seq<usize>) -> Seq<(i32, Seq<usize>)>
    decreases sel.len(),
{
    if sel.len() == 0 {
        Seq::empty()
    } else {
        let g = group_by_year(rows, sel.drop_last());
        let i = sel.last();
        let y = rows[i as int].due.year;
        if g.len() > 0 && g.last().0 == y {
            g.update(g.len() - 1, (y, g.last().1.push(i)))
        } else {
            g.push((y, seq![i]))
        }
    }
}

/// Rows of one year in the payments table.
pub struct YearGroup {
    pub year: i32,
    pub rows: Vec<usize>,
}

pub open spec fn group_view(g: YearGroup) -> (i32, Seq<usize>) {
    (g.year, g.rows@)
}

/// The payments table's year groups for a filter.
pub fn payment_groups(rows: &[RowInfo], paid: &[String], filter: PaymentFilter, today: Date) -> (r: Vec<YearGroup>)
    ensures
        r@.map_values(|g: YearGroup| group_view(g)) == group_by_year(rows@, selected_rows(rows@, paid@, filter, today)),
        forall|k: int, j: int| 0 <= k < r@.len() && 0 <= j < r@[k].rows@.len() ==> #[trigger] r@[k].rows@[j] < rows@.len(),
{
    let mut groups: Vec<YearGroup> = Vec::new();
    let ghost mut sel: Seq<usize> = Seq::empty();
    let mut i: usize = 0;
    assert(rows@.subrange(0, 0) =~= Seq::<RowInfo>::empty());
    while i < rows.len()
        invariant
            i <= rows@.len(),
            sel == selected_rows(rows@.subrange(0, i as int), paid@, filter, today),
            groups@.map_values(|g: YearGroup| group_view(g)) == group_by_year(rows@, sel),
            forall|k: int, j: int| 0 <= k < groups@.len() && 0 <= j < groups@[k].rows@.len() ==> #[trigger] groups@[k].rows@[j] < i,
        decreases rows@.len() - i,
    {
        proof {
            let p = rows@.subrange(0, i + 1);
            assert(p.drop_last() =~= rows@.subrange(0, i as int));
            assert(p[i as int] == rows@[i as int]);
        }
        let row = &rows[i];
        if row_matches_filter(row, paid, filter, today) {
            let y = row.due.year;
            let n = groups.len();
            let ghost old_groups = groups@;
            let ghost old_sel = sel;
            proof {
                sel = sel.push(i);
                assert(sel.drop_last() =~= old_sel);
                assert(rows@[i as int] == *row);
            }
            if n > 0 && groups[n - 1].year == y {
                let mut last = groups.pop().unwrap();
                last.rows.push(i);
                groups.push(last);
                assert(groups@.map_values(|g: YearGroup| group_view(g)) =~= old_groups.map_values(|g: YearGroup| group_view(g)).update(n - 1, (y, old_groups[n - 1].rows@.push(i))));
                assert forall|k: int, j: int| 0 <= k < groups@.len() && 0 <= j < groups@[k].rows@.len() implies #[trigger] groups@[k].rows@[j] < i + 1 by {
                    if k < n - 1 {
                        assert(groups@[k] == old_groups[k]);
                    } else if j < old_groups[n - 1].rows@.len() {
                        assert(groups@[k].rows@[j] == old_groups[n - 1].rows@[j]);
                    }
                }
            } else {
                let mut v: Vec<usize> = Vec::new();
                v.push(i);
                groups.push(YearGroup { year: y, rows: v });
                assert(groups@.map_values(|g: YearGroup| group_view(g)) =~= old_groups.map_values(|g: YearGroup| group_view(g)).push((y, seq![i])));
                assert forall|k: int, j: int| 0 <= k < groups@.len() && 0 <= j < groups@[k].rows@.len() implies #[trigger] groups@[k].rows@[j] < i + 1 by {
                    if k < n {
                        assert(groups@[k] == old_groups[k]);
                    }
                }
            }
        }
        i = i + 1;
    }
    assert(rows@.subrange(0, rows@.len() as int) =~= rows@);
    groups
}

/// Rows of the groups, in table order.
pub open spec fn flatten_groups(groups: Seq<(i32, Seq<usize>)>) -> Seq<usize>
    decreases groups.len(),
{
    if groups.len() == 0 {
        Seq::empty()
    } else {
        flatten_groups(groups.drop_last()) + groups.last().1
    }
}

pub open spec fn in_today_month(row: RowInfo, today: Date) -> bool {
    row.due.year == today.year && row.due.month == today.month
}

/// First listed row due in today's month (installments only, if asked).
pub open spec fn first_in_month(rows: Seq<RowInfo>, sel: Seq<usize>, today: Date, installments_only: bool) -> Option<usize>
    decreases sel.len(),
{
    if sel.len() == 0 {
        None
    } else if in_today_month(rows[sel[0] as int], today) && (!installments_only || rows[sel[0] as int].kind == RowKind::Scheduled) {
        Some(sel[0])
    } else {
        first_in_month(rows, sel.drop_first(), today, installments_only)
    }
}

/// The row highlighted as this month's: the first installment due this
/// month, else the first row of any kind due this month.
pub open spec fn current_row(rows: Seq<RowInfo>, sel: Seq<usize>, today: Date) -> Option<usize> {
    match first_in_month(rows, sel, today, true) {
        Some(i) => Some(i),
        None => first_in_month(rows, sel, today, false),
    }
}

/// Whether row `i` is due in today's month (and is an installment, if asked).
spec fn month_hit(rows: Seq<RowInfo>, i: usize, today: Date, installments_only: bool) -> bool {
    rows[i as int].due.year == today.year && rows[i as int].due.month == today.month
        && (!installments_only || rows[i as int].kind == RowKind::Scheduled)
}

proof fn lemma_first_in_month_found(rows: Seq<RowInfo>, sel: Seq<usize>, today: Date, only: bool, j: int)
    requires
        0 <= j < sel.len(),
        month_hit(rows, sel[j], today, only),
        forall|t: int| 0 <= t < j ==> !month_hit(rows, #[trigger] sel[t], today, only),
    ensures
        first_in_month(rows, sel, today, only) == Some(sel[j]),
    decreases j,
{
    if j > 0 {
        assert(!month_hit(rows, sel[0], today, only));
        let rest = sel.drop_first();
        assert forall|t: int| 0 <= t < j - 1 implies !month_hit(rows, #[trigger] rest[t], today, only) by {
            assert(rest[t] == sel[t + 1]);
        }
        assert(rest[j - 1] == sel[j]);
        lemma_first_in_month_found(rows, rest, today, only, j - 1);
    }
}

proof fn lemma_first_in_month_none(rows: Seq<RowInfo>, sel: Seq<usize>, today: Date, only: bool)
    requires
        forall|t: int| 0 <= t < sel.len() ==> !month_hit(rows, #[trigger] sel[t], today, only),
    ensures
        first_in_month(rows, sel, today, only) is None,
    decreases sel.len(),
{
    if sel.len() > 0 {
        assert(!month_hit(rows, sel[0], today, only));
        let rest = sel.drop_first();
        assert forall|t: int| 0 <= t < rest.len() implies !month_hit(rows, #[trigger] rest[t], today, only) by {
            assert(rest[t] == sel[t + 1]);
        }
        lemma_first_in_month_none(rows, rest, today, only);
    }
}

/// The row highlighted as this month's: when a listed installment is due in
/// today's month, it is the first such installment in table order (an extra
/// due earlier in the month does not take its place); when none is, it is
/// the first listed row of any kind due this month; when no listed row is
/// due this month, nothing is highlighted.
pub proof fn law_this_month_highlights_installment_first(rows: Seq<RowInfo>, sel: Seq<usize>, today: Date, j: int)
    requires
        0 <= j < sel.len(),
    ensures
        (rows[sel[j] as int].kind == RowKind::Scheduled && rows[sel[j] as int].due.year == today.year
            && rows[sel[j] as int].due.month == today.month
            && (forall|t: int| 0 <= t < j ==> !(rows[#[trigger] sel[t] as int].kind == RowKind::Scheduled
                && rows[sel[t] as int].due.year == today.year && rows[sel[t] as int].due.month == today.month)))
            ==> current_row(rows, sel, today) == Some(sel[j]),
        ((forall|t: int| 0 <= t < sel.len() ==> !(rows[#[trigger] sel[t] as int].kind == RowKind::Scheduled
                && rows[sel[t] as int].due.year == today.year && rows[sel[t] as int].due.month == today.month))
            && rows[sel[j] as int].due.year == today.year && rows[sel[j] as int].due.month == today.month
            && (forall|t: int| 0 <= t < j ==> !(rows[#[trigger] sel[t] as int].due.year == today.year
                && rows[sel[t] as int].due.month == today.month)))
            ==> current_row(rows, sel, today) == Some(sel[j]),
        (forall|t: int| 0 <= t < sel.len() ==> !(rows[#[trigger] sel[t] as int].due.year == today.year
                && rows[sel[t] as int].due.month == today.month))
            ==> current_row(rows, sel, today) is None,
{
    if rows[sel[j] as int].kind == RowKind::Scheduled && rows[sel[j] as int].due.year == today.year
        && rows[sel[j] as int].due.month == today.month
        && (forall|t: int| 0 <= t < j ==> !(rows[#[trigger] sel[t] as int].kind == RowKind::Scheduled
            && rows[sel[t] as int].due.year == today.year && rows[sel[t] as int].due.month == today.month)) {
        assert forall|t: int| 0 <= t < j implies !month_hit(rows, #[trigger] sel[t], today, true) by {}
        lemma_first_in_month_found(rows, sel, today, true, j);
    }
    if forall|t: int| 0 <= t < sel.len() ==> !(rows[#[trigger] sel[t] as int].kind == RowKind::Scheduled
        && rows[sel[t] as int].due.year == today.year && rows[sel[t] as int].due.month == today.month) {
        assert forall|t: int| 0 <= t < sel.len() implies !month_hit(rows, #[trigger] sel[t], today, true) by {}
        lemma_first_in_month_none(rows, sel, today, true);
        if rows[sel[j] as int].due.year == today.year && rows[sel[j] as int].due.month == today.month
            && (forall|t: int| 0 <= t < j ==> !(rows[#[trigger] sel[t] as int].due.year == today.year
                && rows[sel[t] as int].due.month == today.month)) {
            assert forall|t: int| 0 <= t < j implies !month_hit(rows, #[trigger] sel[t], today, false) by {}
            lemma_first_in_month_found(rows, sel, today, false, j);
        }
    }
    if forall|t: int| 0 <= t < sel.len() ==> !(rows[#[trigger] sel[t] as int].due.year == today.year
        && rows[sel[t] as int].due.month == today.month) {
        assert forall|t: int| 0 <= t < sel.len() implies !month_hit(rows, #[trigger] sel[t], today, true) by {}
        assert forall|t: int| 0 <= t < sel.len() implies !month_hit(rows, #[trigger] sel[t], today, false) by {}
        lemma_first_in_month_none(rows, sel, today, true);
        lemma_first_in_month_none(rows, sel, today, false);
    }
}

/// A calendar chip names an extra's kind first: "Recast · " for a recast,
/// "Extra · " for a plain extra; an installment's chip shows its status alone.
pub proof fn law_chip_names_recasts(row: RowInfo, status: Seq<char>)
    ensures
        row.kind == RowKind::Extra && row.recast ==> ({
            let t = chip_status_text_spec(row, status);
            t.len() >= 9 && t.subrange(0, 9) == "Recast · "@
        }),
        row.kind == RowKind::Extra && !row.recast ==> ({
            let t = chip_status_text_spec(row, status);
            t.len() >= 8 && t.subrange(0, 8) == "Extra · "@
        }),
        row.kind == RowKind::Scheduled ==> {
            let t = chip_status_text_spec(row, status);
            t == "Paid"@ || t == "Due this month"@ || t == "Past due"@ || t == "Upcoming"@
        },
{
    reveal_strlit("Recast · ");
    reveal_strlit("Extra · ");
    reveal_strlit("Recast");
    reveal_strlit("Extra");
    reveal_strlit(" · Paid");
    reveal_strlit(" · ");
    reveal_strlit("paid");
    let t = chip_status_text_spec(row, status);
    if row.kind == RowKind::Extra {
        let kind = if row.recast { "Recast"@ } else { "Extra"@ };
        if status == "paid"@ {
            assert(t == kind + " · Paid"@);
        } else {
            assert(t == kind + " · "@ + status_label_spec(status));
        }
        if row.recast {
            assert(t.subrange(0, 9) =~= "Recast · "@);
        } else {
            assert(t.subrange(0, 8) =~= "Extra · "@);
        }
    }
}

fn find_first_in_month(rows: &[RowInfo], sel: &[usize], today: Date, installments_only: bool) -> (r: Option<usize>)
    requires
        forall|j: int| 0 <= j < sel@.len() ==> #[trigger] sel@[j] < rows@.len(),
    ensures
        r == first_in_month(rows@, sel@, today, installments_only),
        r matches Some(i) ==> i < rows@.len(),
{
    let mut j: usize = 0;
    assert(sel@.subrange(0, sel@.len() as int) =~= sel@);
    while j < sel.len()
        invariant
            j <= sel@.len(),
            forall|t: int| 0 <= t < sel@.len() ==> #[trigger] sel@[t] < rows@.len(),
            first_in_month(rows@, sel@, today, installments_only) == first_in_month(rows@, sel@.subrange(j as int, sel@.len() as int), today, installments_only),
        decreases sel@.len() - j,
    {
        let ghost rest = sel@.subrange(j as int, sel@.len() as int);
        assert(rest.drop_first() =~= sel@.subrange(j + 1, sel@.len() as int));
        assert(rest[0] == sel@[j as int]);
        let row = &rows[sel[j]];
        if row.due.year == today.year && row.due.month == today.month && (!installments_only || row.kind == RowKind::Scheduled) {
            return Some(sel[j]);
        }
        j = j + 1;
    }
    None
}

/// Amount texts of one row.
pub struct RowAmounts {
    pub payment: String,
    pub principal: String,
    pub interest: String,
    pub balance: String,
    pub balance_short: String,
    /// Whether the payment rounds to nothing.
    pub zeroed: bool,
}

/// Amount texts of a year's totals.
pub struct YearTotals {
    pub payment: String,
    pub principal: String,
    pub interest: String,
}

/// The view of an optional owned string.
pub open spec fn opt_sview(o: Option<String>) -> Option<Seq<char>> {
    match o {
        Some(s) => Some(s@),
        None => None,
    }
}

/// A line of the payments table: a year header or a payment row.
pub struct PaymentRowView {
    pub is_year_header: bool,
    pub year_label: String,
    pub is_current_year: bool,
    pub is_current_month: bool,
    pub label_html: String,
    pub due: String,
    pub payment: String,
    pub principal: String,
    pub interest: String,
    pub balance: String,
    pub balance_short: String,
    pub pay_key: String,
    pub paid: bool,
    pub is_extra: bool,
    pub extra_id: String,
    pub zeroed: bool,
    pub has_note: bool,
    pub note_json: String,
}

/// A year header line.
pub open spec fn header_ok(v: PaymentRowView, year: i32, t: YearTotals, today: Date) -> bool {
    &&& v.is_year_header
    &&& v.year_label@ == decimal(year as int)
    &&& v.is_current_year == (year == today.year)
    &&& !v.is_current_month
    &&& v.label_html@.len() == 0 && v.due@.len() == 0
    &&& v.payment@ == t.payment@ && v.principal@ == t.principal@ && v.interest@ == t.interest@
    &&& v.balance@.len() == 0 && v.balance_short@.len() == 0 && v.pay_key@.len() == 0
    &&& !v.paid && !v.is_extra && v.extra_id@.len() == 0 && !v.zeroed && !v.has_note
    &&& v.note_json@ == "\"\""@
}

/// Label cell of a payment row.
pub open spec fn label_html_spec(row: RowInfo) -> Seq<char> {
    if row.kind == RowKind::Extra {
        if row.recast {
            "<span class=\"type-pill\">Recast</span>"@
        } else {
            "<span class=\"type-pill\">Extra</span>"@
        }
    } else {
        row.label@
    }
}

/// A payment row line.
pub open spec fn row_ok(v: PaymentRowView, row: RowInfo, a: RowAmounts, paid: Seq<String>, notes: Seq<(String, String)>, today: Date, current: Option<Seq<char>>) -> bool {
    &&& !v.is_year_header
    &&& v.year_label@.len() == 0
    &&& v.is_current_year == (row.due.year == today.year)
    &&& v.is_current_month == (current == Some(row.pay_key@))
    &&& v.label_html@ == label_html_spec(row)
    &&& v.due@ == fmt_date_spec(row.due)
    &&& v.payment@ == a.payment@ && v.principal@ == a.principal@ && v.interest@ == a.interest@
    &&& v.balance@ == a.balance@ && v.balance_short@ == a.balance_short@
    &&& v.pay_key@ == row.pay_key@
    &&& v.paid == key_in(paid, row.pay_key@)
    &&& v.is_extra == (row.kind == RowKind::Extra)
    &&& v.extra_id@ == (match row.id { Some(s) => s@, None => Seq::empty() })
    &&& v.zeroed == a.zeroed
    &&& v.has_note == (trim(note_of(notes, row.pay_key@)).len() > 0)
    &&& v.note_json@ == json_string_text(note_of(notes, row.pay_key@))
}

fn year_header(year: i32, t: &YearTotals, today: Date) -> (v: PaymentRowView)
    ensures
        header_ok(v, year, *t, today),
{
    let mut label = String::new();
    push_decimal(&mut label, year as i64);
    assert(label@ =~= decimal(year as int));
    PaymentRowView {
        is_year_header: true,
        year_label: label,
        is_current_year: year == today.year,
        is_current_month: false,
        label_html: String::new(),
        due: String::new(),
        payment: t.payment.clone(),
        principal: t.principal.clone(),
        interest: t.interest.clone(),
        balance: String::new(),
        balance_short: String::new(),
        pay_key: String::new(),
        paid: false,
        is_extra: false,
        extra_id: String::new(),
        zeroed: false,
        has_note: false,
        note_json: String::from_str("\"\""),
    }
}

fn payment_row(row: &RowInfo, a: &RowAmounts, paid: &[String], notes: &[(String, String)], today: Date, current: &Option<String>) -> (v: PaymentRowView)
    requires
        valid_date(row.due),
    ensures
        row_ok(v, *row, *a, paid@, notes@, today, opt_sview(*current)),
{
    let label_html = if row.kind == RowKind::Extra {
        if row.recast {
            String::from_str("<span class=\"type-pill\">Recast</span>")
        } else {
            String::from_str("<span class=\"type-pill\">Extra</span>")
        }
    } else {
        row.label.clone()
    };
    let is_current_month = match current {
        Some(k) => crate::text::str_eq(k.as_str(), row.pay_key.as_str()),
        None => false,
    };
    let (has_note, note_json) = note_fields(notes, row.pay_key.as_str());
    PaymentRowView {
        is_year_header: false,
        year_label: String::new(),
        is_current_year: row.due.year == today.year,
        is_current_month,
        label_html,
        due: fmt_date(row.due),
        payment: a.payment.clone(),
        principal: a.principal.clone(),
        interest: a.interest.clone(),
        balance: a.balance.clone(),
        balance_short: a.balance_short.clone(),
        pay_key: row.pay_key.clone(),
        paid: contains_key(paid, row.pay_key.as_str()),
        is_extra: row.kind == RowKind::Extra,
        extra_id: match &row.id {
            Some(s) => s.clone(),
            None => String::new(),
        },
        zeroed: a.zeroed,
        has_note,
        note_json,
    }
}

/// Table positions: each group's header, then its rows (`(is_header, group, row)`).
pub open spec fn table_layout(groups: Seq<(i32, Seq<usize>)>) -> Seq<(bool, int, int)>
    decreases groups.len(),
{
    if groups.len() == 0 {
        Seq::empty()
    } else {
        let k = groups.len() - 1;
        table_layout(groups.drop_last()) + seq![(true, k, 0)] + Seq::new(groups.last().1.len(), |j: int| (false, k, j))
    }
}

/// Whether every table line matches its layout position.
pub open spec fn table_ok(out: Seq<PaymentRowView>, lay: Seq<(bool, int, int)>, rows: Seq<RowInfo>, amounts: Seq<RowAmounts>,
    groups: Seq<(i32, Seq<usize>)>, totals: Seq<YearTotals>, paid: Seq<String>, notes: Seq<(String, String)>, today: Date,
    current: Option<Seq<char>>) -> bool {
    &&& out.len() == lay.len()
    &&& forall|p: int| 0 <= p < lay.len() ==> {
        let (h, k, j) = #[trigger] lay[p];
        if h {
            header_ok(out[p], groups[k].0, totals[k], today)
        } else {
            let i = groups[k].1[j] as int;
            row_ok(out[p], rows[i], amounts[i], paid, notes, today, current)
        }
    }
}

/// The payments table: a header per year group (with its totals) followed by
/// the group's rows. This month's row is the first installment due this
/// month, else the first row due this month, among the listed rows.
pub fn payments_table(rows: &[RowInfo], amounts: &[RowAmounts], groups: &[YearGroup], totals: &[YearTotals], paid: &[String],
    notes: &[(String, String)], today: Date) -> (r: Vec<PaymentRowView>)
    requires
        amounts@.len() == rows@.len(),
        totals@.len() == groups@.len(),
        forall|i: int| 0 <= i < rows@.len() ==> valid_date(#[trigger] rows@[i].due),
        forall|k: int, j: int| 0 <= k < groups@.len() && 0 <= j < groups@[k].rows@.len() ==> #[trigger] groups@[k].rows@[j] < rows@.len(),
    ensures
        ({
            let gs = groups@.map_values(|g: YearGroup| group_view(g));
            let cur = match current_row(rows@, flatten_groups(gs), today) {
                Some(i) => Some(rows@[i as int].pay_key@),
                None => None,
            };
            table_ok(r@, table_layout(gs), rows@, amounts@, gs, totals@, paid@, notes@, today, cur)
        }),
{
    let ghost gs = groups@.map_values(|g: YearGroup| group_view(g));
    // Listed rows in table order.
    let mut sel: Vec<usize> = Vec::new();
    let mut k: usize = 0;
    while k < groups.len()
        invariant
            k <= groups@.len(),
            gs == groups@.map_values(|g: YearGroup| group_view(g)),
            sel@ == flatten_groups(gs.subrange(0, k as int)),
            forall|k2: int, j: int| 0 <= k2 < groups@.len() && 0 <= j < groups@[k2].rows@.len() ==> #[trigger] groups@[k2].rows@[j] < rows@.len(),
            forall|t: int| 0 <= t < sel@.len() ==> #[trigger] sel@[t] < rows@.len(),
        decreases groups@.len() - k,
    {
        let ghost before = sel@;
        let g = &groups[k];
        let mut j: usize = 0;
        while j < g.rows.len()
            invariant
                j <= g.rows@.len(),
                sel@ == before + g.rows@.subrange(0, j as int),
                forall|j2: int| 0 <= j2 < g.rows@.len() ==> #[trigger] g.rows@[j2] < rows@.len(),
                forall|t: int| 0 <= t < before.len() ==> #[trigger] before[t] < rows@.len(),
                forall|t: int| 0 <= t < sel@.len() ==> #[trigger] sel@[t] < rows@.len(),
            decreases g.rows@.len() - j,
        {
            sel.push(g.rows[j]);
            j = j + 1;
            assert(sel@ =~= before + g.rows@.subrange(0, j as int));
        }
        proof {
            let p = gs.subrange(0, k + 1);
            assert(p.drop_last() =~= gs.subrange(0, k as int));
            assert(g.rows@.subrange(0, g.rows@.len() as int) =~= g.rows@);
        }
        k = k + 1;
    }
    assert(gs.subrange(0, groups@.len() as int) =~= gs);
    let cur_idx = match find_first_in_month(rows, sel.as_slice(), today, true) {
        Some(i) => Some(i),
        None => find_first_in_month(rows, sel.as_slice(), today, false),
    };
    let current: Option<String> = match cur_idx {
        Some(i) => Some(rows[i].pay_key.clone()),
        None => None,
    };
    let ghost cur = opt_sview(current);
    let mut out: Vec<PaymentRowView> = Vec::new();
    let mut k: usize = 0;
    while k < groups.len()
        invariant
            k <= groups@.len(),
            amounts@.len() == rows@.len(),
            totals@.len() == groups@.len(),
            gs == groups@.map_values(|g: YearGroup| group_view(g)),
            cur == opt_sview(current),
            forall|i: int| 0 <= i < rows@.len() ==> valid_date(#[trigger] rows@[i].due),
            forall|k2: int, j: int| 0 <= k2 < groups@.len() && 0 <= j < groups@[k2].rows@.len() ==> #[trigger] groups@[k2].rows@[j] < rows@.len(),
            table_ok(out@, table_layout(gs.subrange(0, k as int)), rows@, amounts@, gs, totals@, paid@, notes@, today, cur),
        decreases groups@.len() - k,
    {
        let g = &groups[k];
        let ghost lay0 = table_layout(gs.subrange(0, k as int));
        let ghost out0 = out@;
        out.push(year_header(g.year, &totals[k], today));
        let mut j: usize = 0;
        while j < g.rows.len()
            invariant
                j <= g.rows@.len(),
                k < groups@.len(),
                amounts@.len() == rows@.len(),
                *g == groups@[k as int],
                gs == groups@.map_values(|g: YearGroup| group_view(g)),
                cur == opt_sview(current),
                forall|i: int| 0 <= i < rows@.len() ==> valid_date(#[trigger] rows@[i].due),
                forall|j2: int| 0 <= j2 < g.rows@.len() ==> #[trigger] g.rows@[j2] < rows@.len(),
                out@.len() == out0.len() + 1 + j,
                out0.len() == lay0.len(),
                forall|p: int| 0 <= p < out0.len() ==> out@[p] == out0[p],
                header_ok(out@[out0.len() as int], g.year, totals@[k as int], today),
                forall|j2: int| 0 <= j2 < j ==> row_ok(#[trigger] out@[out0.len() + 1 + j2], rows@[g.rows@[j2] as int],
                    amounts@[g.rows@[j2] as int], paid@, notes@, today, cur),
            decreases g.rows@.len() - j,
        {
            let i = g.rows[j];
            out.push(payment_row(&rows[i], &amounts[i], paid, notes, today, &current));
            j = j + 1;
        }
        proof {
            let p = gs.subrange(0, k + 1);
            assert(p.drop_last() =~= gs.subrange(0, k as int));
            assert(p.last() == gs[k as int]);
            assert(gs[k as int] == group_view(groups@[k as int]));
            let lay1 = table_layout(p);
            assert(lay1 == lay0 + seq![(true, k as int, 0int)] + Seq::new(g.rows@.len(), |j: int| (false, k as int, j)));
            assert forall|q: int| 0 <= q < lay1.len() implies {
                let (h, k3, j3) = #[trigger] lay1[q];
                if h {
                    header_ok(out@[q], gs[k3].0, totals@[k3], today)
                } else {
                    let i = gs[k3].1[j3] as int;
                    row_ok(out@[q], rows@[i], amounts@[i], paid@, notes@, today, cur)
                }
            } by {
                if q < lay0.len() {
                    assert(lay1[q] == lay0[q]);
                    assert(out@[q] == out0[q]);
                } else if q == lay0.len() {
                    assert(lay1[q] == (true, k as int, 0int));
                } else {
                    let j3 = q - lay0.len() - 1;
                    assert(lay1[q] == (false, k as int, j3));
                    assert(out@[out0.len() + 1 + j3] == out@[q]);
                }
            }
        }
        k = k + 1;
    }
    assert(gs.subrange(0, groups@.len() as int) =~= gs);
    out
}

/// Grouping the listed rows by year keeps every row, in order; neighbouring
/// groups are different years, each group holds rows of its own year, and no
/// group is empty.
pub proof fn law_year_groups_partition(rows: Seq<RowInfo>, sel: Seq<usize>)
    ensures
        flatten_groups(group_by_year(rows, sel)) == sel,
        forall|k: int| 0 <= k < group_by_year(rows, sel).len() - 1
            ==> (#[trigger] group_by_year(rows, sel)[k]).0 != group_by_year(rows, sel)[k + 1].0,
        forall|k: int, j: int| 0 <= k < group_by_year(rows, sel).len() && 0 <= j < group_by_year(rows, sel)[k].1.len()
            ==> rows[(#[trigger] group_by_year(rows, sel)[k].1[j]) as int].due.year == group_by_year(rows, sel)[k].0,
        forall|k: int| 0 <= k < group_by_year(rows, sel).len() ==> (#[trigger] group_by_year(rows, sel)[k]).1.len() > 0,
    decreases sel.len(),
{
    if sel.len() > 0 {
        let p = sel.drop_last();
        law_year_groups_partition(rows, p);
        let g = group_by_year(rows, p);
        let i = sel.last();
        let y = rows[i as int].due.year;
        let h = group_by_year(rows, sel);
        if g.len() > 0 && g.last().0 == y {
            assert(h == g.update(g.len() - 1, (y, g.last().1.push(i))));
            assert(h.drop_last() =~= g.drop_last());
            assert(flatten_groups(g) == flatten_groups(g.drop_last()) + g.last().1);
            assert(flatten_groups(h) == flatten_groups(h.drop_last()) + h.last().1);
            assert(flatten_groups(h) =~= flatten_groups(g).push(i));
            assert forall|k: int| 0 <= k < h.len() - 1 implies (#[trigger] h[k]).0 != h[k + 1].0 by {
                assert(h[k] == g[k]);
                if k + 1 < g.len() - 1 {
                    assert(h[k + 1] == g[k + 1]);
                }
            }
            assert forall|k: int, j: int| 0 <= k < h.len() && 0 <= j < h[k].1.len()
                implies rows[(#[trigger] h[k].1[j]) as int].due.year == h[k].0 by {
                if k < h.len() - 1 {
                    assert(h[k] == g[k]);
                } else if j < g.last().1.len() {
                    assert(h[k].1[j] == g[k].1[j]);
                }
            }
        } else {
            assert(h == g.push((y, seq![i])));
            assert(h.drop_last() =~= g);
            assert(flatten_groups(h) =~= flatten_groups(g).push(i));
            assert forall|k: int| 0 <= k < h.len() - 1 implies (#[trigger] h[k]).0 != h[k + 1].0 by {
                assert(h[k] == g[k]);
                if k + 1 < g.len() {
                    assert(h[k + 1] == g[k + 1]);
                }
            }
            assert forall|k: int, j: int| 0 <= k < h.len() && 0 <= j < h[k].1.len()
                implies rows[(#[trigger] h[k].1[j]) as int].due.year == h[k].0 by {
                if k < g.len() {
                    assert(h[k] == g[k]);
                }
            }
        }
        assert(p.push(i) =~= sel);
    }
}

/// A row is listed under a filter exactly when it matches the filter; in
/// particular every row is listed under exactly one of the paid and unpaid
/// filters.
pub proof fn law_filter_selects_matching_rows(rows: Seq<RowInfo>, paid: Seq<String>, filter: PaymentFilter, today: Date, i: int)
    requires
        0 <= i < rows.len(),
        rows.len() <= usize::MAX,
    ensures
        selected_rows(rows, paid, filter, today).contains(i as usize) == row_matches_filter_spec(rows[i], paid, filter, today),
        row_matches_filter_spec(rows[i], paid, PaymentFilter::Paid, today) != row_matches_filter_spec(rows[i], paid, PaymentFilter::Unpaid, today),
    decreases rows.len(),
{
    let n = rows.len() - 1;
    let s = selected_rows(rows, paid, filter, today);
    let p = rows.drop_last();
    let sp = selected_rows(p, paid, filter, today);
    lemma_selected_below(p, paid, filter, today);
    if i < n {
        law_filter_selects_matching_rows(p, paid, filter, today, i);
        assert(p[i] == rows[i]);
        if sp.contains(i as usize) {
            let j = choose|j: int| 0 <= j < sp.len() && sp[j] == i as usize;
            assert(s[j] == i as usize);
        }
        if s.contains(i as usize) {
            let j = choose|j: int| 0 <= j < s.len() && s[j] == i as usize;
            if j >= sp.len() {
                assert(s[j] == n as usize);
            } else {
                assert(sp[j] == i as usize);
            }
        }
    } else {
        if row_matches_filter_spec(rows[i], paid, filter, today) {
            assert(s[sp.len() as int] == i as usize);
        } else {
            assert(s =~= sp);
            if sp.contains(i as usize) {
                let j = choose|j: int| 0 <= j < sp.len() && sp[j] == i as usize;
                assert(sp[j] < p.len());
            }
        }
    }
}

proof fn lemma_selected_below(rows: Seq<RowInfo>, paid: Seq<String>, filter: PaymentFilter, today: Date)
    requires
        rows.len() <= usize::MAX,
    ensures
        forall|j: int| 0 <= j < selected_rows(rows, paid, filter, today).len()
            ==> (#[trigger] selected_rows(rows, paid, filter, today)[j]) < rows.len(),
    decreases rows.len(),
{
    if rows.len() > 0 {
        let p = rows.drop_last();
        lemma_selected_below(p, paid, filter, today);
        let sp = selected_rows(p, paid, filter, today);
        let s = selected_rows(rows, paid, filter, today);
        let n = rows.len() - 1;
        assert forall|j: int| 0 <= j < s.len() implies (#[trigger] s[j]) < rows.len() by {
            if j < sp.len() {
                assert(s[j] == sp[j]);
            } else {
                assert(s[j] == n as usize);
            }
        }
    }
}

} // verus!
