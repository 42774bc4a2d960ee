//! Dashboard vocabulary: tabs, payment filters, status labels and amount text.

use vstd::prelude::*;
use crate::text::{str_eq, push_char, push_str, push_digits, digits, decimal, push_decimal, digit_char};

verus! {

/// Dashboard tabs.
#[derive(Clone, Copy, Debug, PartialEq, Eq, Structural)]
pub enum TabId {
    Summary,
    Calendar,
    Payments,
    Improvements,
    Chart,
}

pub open spec fn tab_name(t: TabId) -> Seq<char> {
    match t {
        TabId::Summary => "summary"@,
        TabId::Calendar => "calendar"@,
        TabId::Payments => "payments"@,
        TabId::Improvements => "improvements"@,
        TabId::Chart => "chart"@,
    }
}

pub open spec fn tab_label(t: TabId) -> Seq<char> {
    match t {
        TabId::Summary => "Summary"@,
        TabId::Calendar => "Calendar"@,
        TabId::Payments => "Payments"@,
        TabId::Improvements => "Improvements"@,
        TabId::Chart => "Breakdown"@,
    }
}

/// The tab whose name is exactly `s`.
pub open spec fn tab_from(s: Seq<char>) -> Option<TabId> {
    if s == "summary"@ {
        Some(TabId::Summary)
    } else if s == "calendar"@ {
        Some(TabId::Calendar)
    } else if s == "payments"@ {
        Some(TabId::Payments)
    } else if s == "improvements"@ {
        Some(TabId::Improvements)
    } else if s == "chart"@ {
        Some(TabId::Chart)
    } else {
        None
    }
}

impl TabId {
    pub fn as_str(self) -> (r: &'static str)
        ensures
            r@ == tab_name(self),
    {
        match self {
            TabId::Summary => "summary",
            TabId::Calendar => "calendar",
            TabId::Payments => "payments",
            TabId::Improvements => "improvements",
            TabId::Chart => "chart",
        }
    }

    pub fn label(self) -> (r: &'static str)
        ensures
            r@ == tab_label(self),
    {
        match self {
            TabId::Summary => "Summary",
            TabId::Calendar => "Calendar",
            TabId::Payments => "Payments",
            TabId::Improvements => "Improvements",
            TabId::Chart => "Breakdown",
        }
    }

    pub fn try_parse(s: &str) -> (r: Option<TabId>)
        ensures
            r == tab_from(s@),
    {
        if str_eq(s, "summary") {
            Some(TabId::Summary)
        } else if str_eq(s, "calendar") {
            Some(TabId::Calendar)
        } else if str_eq(s, "payments") {
            Some(TabId::Payments)
        } else if str_eq(s, "improvements") {
            Some(TabId::Improvements)
        } else if str_eq(s, "chart") {
            Some(TabId::Chart)
        } else {
            None
        }
    }

    /// Unknown names fall back to the calendar.
    pub fn parse(s: &str) -> (r: TabId)
        ensures
            r == match tab_from(s@) {
                Some(t) => t,
                None => TabId::Calendar,
            },
    {
        match TabId::try_parse(s) {
            Some(t) => t,
            None => TabId::Calendar,
        }
    }
}

/// The tabs in the order the dashboard shows them.
pub open spec fn all_tabs() -> Seq<TabId> {
    seq![TabId::Summary, TabId::Calendar, TabId::Payments, TabId::Improvements, TabId::Chart]
}

/// The `i`-th tab of [`all_tabs`].
pub fn tab_at(i: usize) -> (r: TabId)
    requires
        i < 5,
    ensures
        r == all_tabs()[i as int],
{
    match i {
        0 => TabId::Summary,
        1 => TabId::Calendar,
        2 => TabId::Payments,
        3 => TabId::Improvements,
        _ => TabId::Chart,
    }
}

/// Payment-table filters.
#[derive(Clone, Copy, Debug, PartialEq, Eq, Structural)]
pub enum PaymentFilter {
    All,
    Unpaid,
    Paid,
    Year,
    Extra,
}

pub open spec fn filter_name(f: PaymentFilter) -> Seq<char> {
    match f {
        PaymentFilter::All => "all"@,
        PaymentFilter::Unpaid => "unpaid"@,
        PaymentFilter::Paid => "paid"@,
        PaymentFilter::Year => "year"@,
        PaymentFilter::Extra => "extra"@,
    }
}

/// The filter named by `s`; anything else shows all rows.
pub open spec fn filter_from(s: Seq<char>) -> PaymentFilter {
    if s == "unpaid"@ {
        PaymentFilter::Unpaid
    } else if s == "paid"@ {
        PaymentFilter::Paid
    } else if s == "year"@ {
        PaymentFilter::Year
    } else if s == "extra"@ {
        PaymentFilter::Extra
    } else {
        PaymentFilter::All
    }
}

impl PaymentFilter {
    pub fn parse(s: &str) -> (r: PaymentFilter)
        ensures
            r == filter_from(s@),
    {
        if str_eq(s, "unpaid") {
            PaymentFilter::Unpaid
        } else if str_eq(s, "paid") {
            PaymentFilter::Paid
        } else if str_eq(s, "year") {
            PaymentFilter::Year
        } else if str_eq(s, "extra") {
            PaymentFilter::Extra
        } else {
            PaymentFilter::All
        }
    }

    pub fn as_str(self) -> (r: &'static str)
        ensures
            r@ == filter_name(self),
    {
        match self {
            PaymentFilter::All => "all",
            PaymentFilter::Unpaid => "unpaid",
            PaymentFilter::Paid => "paid",
            PaymentFilter::Year => "year",
            PaymentFilter::Extra => "extra",
        }
    }
}

/// Human label of a payment status.
pub open spec fn status_label_spec(status: Seq<char>) -> Seq<char> {
    if status == "paid"@ {
        "Paid"@
    } else if status == "due"@ {
        "Due this month"@
    } else if status == "missed"@ {
        "Past due"@
    } else {
        "Upcoming"@
    }
}

pub fn status_label(status: &str) -> (r: &'static str)
    ensures
        r@ == status_label_spec(status@),
{
    if str_eq(status, "paid") {
        "Paid"
    } else if str_eq(status, "due") {
        "Due this month"
    } else if str_eq(status, "missed") {
        "Past due"
    } else {
        "Upcoming"
    }
}

/// Tenths digit of `r / 12` rounded to one decimal, ties to even (as `{:.1}` formats it).
pub open spec fn twelfths_tenths(r: int) -> int {
    if r == 1 { 1 } else if r == 2 { 2 } else if r == 3 { 2 } else if r == 4 { 3 }
    else if r == 5 { 4 } else if r == 6 { 5 } else if r == 7 { 6 } else if r == 8 { 7 }
    else if r == 9 { 8 } else if r == 10 { 8 } else { 9 }
}

/// Label for the months an accelerated payoff saves: months below a year,
/// whole years, or years with one decimal.
pub open spec fn years_saved_spec(months: int) -> Seq<char> {
    if months <= 0 {
        "0 Yrs Saved"@
    } else if months < 12 {
        decimal(months) + " Mo Saved"@
    } else if months % 12 == 0 {
        decimal(months / 12) + " Yrs Saved"@
    } else {
        decimal(months / 12) + seq!['.', digit_char(twelfths_tenths(months % 12))] + " Yrs Saved"@
    }
}

pub fn format_years_saved(months: i32) -> (r: String)
    ensures
        r@ == years_saved_spec(months as int),
{
    if months <= 0 {
        return String::from_str("0 Yrs Saved");
    }
    let mut out = String::new();
    if months < 12 {
        push_decimal(&mut out, months as i64);
        push_str(&mut out, " Mo Saved");
        return out;
    }
    push_decimal(&mut out, (months / 12) as i64);
    let r = months % 12;
    if r != 0 {
        let t: u8 = if r == 1 { 1 } else if r == 2 { 2 } else if r == 3 { 2 } else if r == 4 { 3 }
            else if r == 5 { 4 } else if r == 6 { 5 } else if r == 7 { 6 } else if r == 8 { 7 }
            else if r == 9 { 8 } else if r == 10 { 8 } else { 9 };
        push_char(&mut out, '.');
        push_char(&mut out, (t + 48) as char);
    }
    push_str(&mut out, " Yrs Saved");
    out
}

/// Copy shown when a profile has no loan yet, or there is no profile.
pub struct EmptyState {
    pub title: String,
    pub copy: String,
    pub button_label: String,
    pub action: String,
}

pub fn empty_state(has_profile: bool) -> (r: EmptyState)
    ensures
        has_profile ==> r.title@ == "Add loan details"@ && r.action@ == "edit"@ && r.button_label@
            == "Edit profile"@ && r.copy@
            == "Edit this profile with your loan amount, rate, and first payment date."@,
        !has_profile ==> r.title@ == "No mortgage yet"@ && r.action@ == "create"@
            && r.button_label@ == "New profile"@ && r.copy@
            == "Create a profile with your loan details to see the schedule and calendar."@,
{
    if has_profile {
        EmptyState {
            title: String::from_str("Add loan details"),
            copy: String::from_str(
                "Edit this profile with your loan amount, rate, and first payment date.",
            ),
            button_label: String::from_str("Edit profile"),
            action: String::from_str("edit"),
        }
    } else {
        EmptyState {
            title: String::from_str("No mortgage yet"),
            copy: String::from_str(
                "Create a profile with your loan details to see the schedule and calendar.",
            ),
            button_label: String::from_str("New profile"),
            action: String::from_str("create"),
        }
    }
}

/// Digits with a comma before every group of three counted from the right
/// (the first `i` characters of the result's source).
pub open spec fn grouped_prefix(ds: Seq<char>, i: int) -> Seq<char>
    decreases i,
{
    if i <= 0 {
        Seq::empty()
    } else {
        let sep = if i - 1 > 0 && (ds.len() - (i - 1)) % 3 == 0 {
            seq![',']
        } else {
            Seq::empty()
        };
        grouped_prefix(ds, i - 1) + sep + seq![ds[i - 1]]
    }
}

pub open spec fn grouped(ds: Seq<char>) -> Seq<char> {
    grouped_prefix(ds, ds.len() as int)
}

/// Appends `n` with thousands separators.
pub fn push_grouped(out: &mut String, n: u64)
    ensures
        final(out)@ == old(out)@ + grouped(digits(n as nat)),
{
    let mut ds = String::new();
    push_digits(&mut ds, n);
    let s = ds.as_str();
    let len = s.unicode_len();
    let ghost start = out@;
    let mut i: usize = 0;
    while i < len
        invariant
            len == s@.len(),
            s@ == digits(n as nat),
            i <= len,
            out@ == start + grouped_prefix(s@, i as int),
        decreases len - i,
    {
        if i > 0 && (len - i) % 3 == 0 {
            push_char(out, ',');
        }
        push_char(out, s.get_char(i));
        i = i + 1;
        assert(out@ =~= start + grouped_prefix(s@, i as int));
    }
}

/// Dollar amount: optional minus, grouped whole dollars, two-digit cents.
pub open spec fn money_text(neg: bool, whole: u64, cents: int) -> Seq<char> {
    let c = if cents < 0 { 0 } else if cents > 99 { 99 } else { cents };
    let body = seq!['$'] + grouped(digits(whole as nat)) + seq!['.', digit_char(c / 10), digit_char(c % 10)];
    if neg {
        seq!['-'] + body
    } else {
        body
    }
}

/// Render a dollar amount from its sign, whole dollars and rounded cents (cents clamp to 0..=99).
pub fn format_money(neg: bool, whole: u64, cents: i64) -> (r: String)
    ensures
        r@ == money_text(neg, whole, cents as int),
{
    let mut out = String::new();
    if neg {
        push_char(&mut out, '-');
    }
    push_char(&mut out, '$');
    push_grouped(&mut out, whole);
    let c: u8 = if cents < 0 {
        0
    } else if cents > 99 {
        99
    } else {
        cents as u8
    };
    push_char(&mut out, '.');
    push_char(&mut out, (c / 10 + 48) as char);
    push_char(&mut out, (c % 10 + 48) as char);
    assert(out@ =~= money_text(neg, whole, cents as int));
    out
}

/// Whole-dollar amount: optional minus and grouped dollars.
pub open spec fn money_whole_text(neg: bool, whole: u64) -> Seq<char> {
    let body = seq!['$'] + grouped(digits(whole as nat));
    if neg {
        seq!['-'] + body
    } else {
        body
    }
}

pub fn format_money_whole(neg: bool, whole: u64) -> (r: String)
    ensures
        r@ == money_whole_text(neg, whole),
{
    let mut out = String::new();
    if neg {
        push_char(&mut out, '-');
    }
    push_char(&mut out, '$');
    push_grouped(&mut out, whole);
    assert(out@ =~= money_whole_text(neg, whole));
    out
}

/// Every tab reads back from its own name.
pub proof fn law_tab_name_round_trip(t: TabId)
    ensures
        tab_from(tab_name(t)) == Some(t),
{
    reveal_strlit("summary");
    reveal_strlit("calendar");
    reveal_strlit("payments");
    reveal_strlit("improvements");
    reveal_strlit("chart");
    let (s, c, p, i, h) = ("summary"@, "calendar"@, "payments"@, "improvements"@, "chart"@);
    assert(c[0] != s[0]);
    assert(p[0] != s[0] && p[0] != c[0]);
    assert(i[0] != s[0] && i[0] != c[0] && i[0] != p[0]);
    assert(h[0] != s[0] && h.len() != c.len() && h[0] != p[0] && h[0] != i[0]);
}

/// Every payment filter reads back from its own name.
pub proof fn law_filter_name_round_trip(f: PaymentFilter)
    ensures
        filter_from(filter_name(f)) == f,
{
    reveal_strlit("all");
    reveal_strlit("unpaid");
    reveal_strlit("paid");
    reveal_strlit("year");
    reveal_strlit("extra");
    let (a, u, p, y, e) = ("all"@, "unpaid"@, "paid"@, "year"@, "extra"@);
    assert(a[0] != u[0] && a[0] != p[0] && a[0] != y[0] && a[0] != e[0]);
    assert(p[0] != u[0]);
    assert(y[0] != u[0] && y[0] != p[0]);
    assert(e[0] != u[0] && e[0] != p[0] && e[0] != y[0]);
}

} // verus!
