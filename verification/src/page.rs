//! The dashboard page: what a request chooses, the profile switcher, home
//! improvements and payment notes.

use vstd::prelude::*;
use crate::text::{trim, trim_str, str_eq, to_owned_string};
use crate::dates::{Date, valid_date, MAX_YEAR, format_ymd, ymd_text, fmt_date, fmt_date_spec, parse_ymd, chrono_ymd};
use crate::view::{TabId, PaymentFilter, filter_from, EmptyState};
use crate::settings::{flag_is, tab_or_calendar};
use crate::error::{AppError, bad_request, is_bad_request};
use crate::dashboard::{json_string_text, note_json, MonthCell, PaymentRowView};
use crate::summary::{YearStat, YearSummary, PayoffAccelerator, ChartPair};

verus! {

/// Query of the dashboard page.
pub struct IndexQuery {
    pub tab: Option<String>,
    pub year: Option<i32>,
    pub filter: Option<String>,
    pub grain: Option<String>,
    pub scope: Option<String>,
    /// `pro=1` renders the page as for a paid user.
    pub pro: Option<String>,
}

/// What the page needs of a stored profile.
pub struct ProfileRef {
    pub id: String,
    /// Key of the profile's owner.
    pub user_id: String,
    pub name: String,
}

/// A profile in the switcher.
pub struct ProfileOption {
    pub id: String,
    pub name: String,
    pub selected: bool,
    pub is_shared: bool,
}

pub open spec fn opt_view(o: Option<&str>) -> Option<Seq<char>> {
    match o {
        Some(s) => Some(s@),
        None => None,
    }
}

/// The switcher entries: the active profile is selected, profiles owned by
/// someone else are shared.
pub fn profile_options(profiles: &[ProfileRef], active_id: Option<&str>, user_key: &str) -> (r: Vec<ProfileOption>)
    ensures
        r@.len() == profiles@.len(),
        forall|i: int| 0 <= i < r@.len() ==> {
            let o = #[trigger] r@[i];
            let p = profiles@[i];
            &&& o.id@ == p.id@
            &&& o.name@ == p.name@
            &&& o.selected == (opt_view(active_id) == Some(p.id@))
            &&& o.is_shared == (p.user_id@ != user_key@)
        },
{
    let mut out: Vec<ProfileOption> = Vec::new();
    let mut i: usize = 0;
    while i < profiles.len()
        invariant
            i <= profiles@.len(),
            out@.len() == i,
            forall|j: int| 0 <= j < i ==> {
                let o = #[trigger] out@[j];
                let p = profiles@[j];
                &&& o.id@ == p.id@
                &&& o.name@ == p.name@
                &&& o.selected == (opt_view(active_id) == Some(p.id@))
                &&& o.is_shared == (p.user_id@ != user_key@)
            },
        decreases profiles@.len() - i,
    {
        let p = &profiles[i];
        let selected = match active_id {
            Some(a) => str_eq(a, p.id.as_str()),
            None => false,
        };
        out.push(ProfileOption {
            id: p.id.clone(),
            name: p.name.clone(),
            selected,
            is_shared: !str_eq(p.user_id.as_str(), user_key),
        });
        i = i + 1;
    }
    out
}

/// How many of the profiles `user_key` owns.
pub open spec fn owned(profiles: Seq<ProfileRef>, user_key: Seq<char>) -> nat
    decreases profiles.len(),
{
    if profiles.len() == 0 {
        0
    } else {
        owned(profiles.drop_last(), user_key) + if profiles.last().user_id@ == user_key { 1nat } else { 0nat }
    }
}

proof fn lemma_owned_step(profiles: Seq<ProfileRef>, user_key: Seq<char>, i: int)
    requires
        0 <= i < profiles.len(),
    ensures
        owned(profiles.subrange(0, i + 1), user_key) == owned(profiles.subrange(0, i), user_key)
            + if profiles[i].user_id@ == user_key { 1nat } else { 0nat },
{
    let p = profiles.subrange(0, i + 1);
    assert(p.drop_last() =~= profiles.subrange(0, i));
    assert(p.last() == profiles[i]);
}

proof fn lemma_owned_le(profiles: Seq<ProfileRef>, user_key: Seq<char>)
    ensures
        owned(profiles, user_key) <= profiles.len(),
    decreases profiles.len(),
{
    if profiles.len() > 0 {
        lemma_owned_le(profiles.drop_last(), user_key);
    }
}

pub fn owned_count(profiles: &[ProfileRef], user_key: &str) -> (r: usize)
    ensures
        r == owned(profiles@, user_key@),
{
    let mut n: usize = 0;
    let mut i: usize = 0;
    assert(profiles@.subrange(0, 0) =~= Seq::<ProfileRef>::empty());
    while i < profiles.len()
        invariant
            i <= profiles@.len(),
            n == owned(profiles@.subrange(0, i as int), user_key@),
        decreases profiles@.len() - i,
    {
        proof {
            lemma_owned_step(profiles@, user_key@, i as int);
            lemma_owned_le(profiles@.subrange(0, i as int), user_key@);
        }
        if str_eq(profiles[i].user_id.as_str(), user_key) {
            n = n + 1;
        }
        i = i + 1;
    }
    assert(profiles@.subrange(0, profiles@.len() as int) =~= profiles@);
    n
}

/// The first day of the month after `today` (today itself past the last
/// supported year).
pub open spec fn default_start_spec(today: Date) -> Date {
    let (y, m) = if today.month == 12 { (today.year + 1, 1) } else { (today.year as int, today.month + 1) };
    if y <= MAX_YEAR { Date { year: y as i32, month: m as u32, day: 1 } } else { today }
}

pub fn default_start(today: Date) -> (r: Date)
    requires
        valid_date(today),
    ensures
        r == default_start_spec(today),
        valid_date(r),
{
    let (y, m) = if today.month == 12 {
        if today.year == MAX_YEAR {
            return today;
        }
        (today.year + 1, 1u32)
    } else {
        (today.year, today.month + 1)
    };
    match Date::from_ymd(y, m, 1) {
        Some(d) => d,
        None => today,
    }
}

/// What a dashboard request shows.
pub struct PageChoices {
    pub view_year: i32,
    pub filter: PaymentFilter,
    pub grain: String,
    pub tab: TabId,
    pub is_owner: bool,
    /// Paid access, or its preview through `pro=1`.
    pub is_paid: bool,
    pub can_create_profile: bool,
    pub default_start: String,
}

/// The request's choices: the year, filter and grain asked for (or their
/// defaults), the tab asked for or the user's default, ownership of the
/// active profile, and whether another profile may be created (paid users,
/// or anyone who owns none yet).
pub fn page_choices(
    q: &IndexQuery,
    default_tab: &str,
    user_paid: bool,
    active_owner: Option<&str>,
    profiles: &[ProfileRef],
    user_key: &str,
    today: Date,
) -> (r: PageChoices)
    requires
        valid_date(today),
    ensures
        r.view_year == match q.year { Some(y) => y, None => today.year },
        r.filter == filter_from(match q.filter { Some(f) => f@, None => "all"@ }),
        r.grain@ == match q.grain { Some(g) => g@, None => "monthly"@ },
        r.tab == tab_or_calendar(match q.tab { Some(t) => t@, None => default_tab@ }),
        r.is_owner == match active_owner { Some(o) => o@ == user_key@, None => true },
        r.is_paid == (user_paid || flag_is(q.pro, "1"@)),
        r.can_create_profile == (r.is_paid || owned(profiles@, user_key@) == 0),
        r.default_start@ == ymd_text(default_start_spec(today)),
{
    let view_year = match q.year {
        Some(y) => y,
        None => today.year,
    };
    let filter = match &q.filter {
        Some(f) => PaymentFilter::parse(f.as_str()),
        None => PaymentFilter::parse("all"),
    };
    let grain = match &q.grain {
        Some(g) => g.clone(),
        None => String::from_str("monthly"),
    };
    let tab = match &q.tab {
        Some(t) => TabId::parse(t.as_str()),
        None => TabId::parse(default_tab),
    };
    let is_owner = match active_owner {
        Some(o) => str_eq(o, user_key),
        None => true,
    };
    let pro = match &q.pro {
        Some(p) => str_eq(p.as_str(), "1"),
        None => false,
    };
    let is_paid = user_paid || pro;
    let can_create_profile = is_paid || owned_count(profiles, user_key) == 0;
    PageChoices {
        view_year,
        filter,
        grain,
        tab,
        is_owner,
        is_paid,
        can_create_profile,
        default_start: format_ymd(default_start(today)),
    }
}

/// A profile name as stored: trimmed, and not empty.
pub fn profile_name(name: &str) -> (r: Result<String, AppError>)
    ensures
        match r {
            Ok(n) => trim(name@).len() > 0 && n@ == trim(name@),
            Err(e) => trim(name@).len() == 0 && is_bad_request(e, "Enter a profile name."@),
        },
{
    let n = trim_str(name);
    if n.unicode_len() == 0 {
        return Err(bad_request("Enter a profile name."));
    }
    Ok(to_owned_string(n))
}

/// Free accounts may own one profile; paid accounts any number.
pub fn check_can_create_profile(is_paid: bool, owned: usize) -> (r: Result<(), AppError>)
    ensures
        match r {
            Ok(_) => is_paid || owned == 0,
            Err(e) => !is_paid && owned >= 1 && is_bad_request(e, "Creating more than one profile is a pro feature."@),
        },
{
    if !is_paid && owned >= 1 {
        return Err(bad_request("Creating more than one profile is a pro feature."));
    }
    Ok(())
}

/// The longest base a copied profile's name keeps, so that with its suffix
/// it stays within sixty characters.
pub const COPY_NAME_BASE: usize = 53;

/// The name of a copy: the trimmed name, cut to its first fifty-three
/// characters, then " (copy)".
pub open spec fn copy_name_spec(name: Seq<char>) -> Seq<char> {
    let base = trim(name);
    let n = if base.len() < COPY_NAME_BASE { base.len() as int } else { COPY_NAME_BASE as int };
    base.subrange(0, n) + " (copy)"@
}

pub fn copy_name(name: &str) -> (r: String)
    ensures
        r@ == copy_name_spec(name@),
{
    let base = trim_str(name);
    let len = base.unicode_len();
    let n = if len < COPY_NAME_BASE { len } else { COPY_NAME_BASE };
    let mut out = String::new();
    let mut i: usize = 0;
    while i < n
        invariant
            i <= n,
            n <= base@.len(),
            out@ == base@.subrange(0, i as int),
        decreases n - i,
    {
        let c = base.get_char(i);
        crate::text::push_char(&mut out, c);
        i = i + 1;
        assert(out@ =~= base@.subrange(0, i as int));
    }
    crate::text::push_str(&mut out, " (copy)");
    out
}

/// A copy's name never exceeds sixty characters and always ends with " (copy)".
pub proof fn law_copy_name_fits(name: Seq<char>)
    ensures
        copy_name_spec(name).len() <= 60,
        copy_name_spec(name).len() >= 7,
        copy_name_spec(name).subrange(copy_name_spec(name).len() - 7, copy_name_spec(name).len() as int) == " (copy)"@,
{
    reveal_strlit(" (copy)");
    let base = trim(name);
    let n = if base.len() < COPY_NAME_BASE { base.len() as int } else { COPY_NAME_BASE as int };
    let head = base.subrange(0, n);
    let c = copy_name_spec(name);
    assert(c == head + " (copy)"@);
    assert(c.subrange(head.len() as int, c.len() as int) =~= " (copy)"@);
}

/// A home improvement in the list.
pub struct ImprovementRowView {
    pub id: String,
    pub date: String,
    pub date_raw: String,
    pub amount: String,
    pub amount_raw: String,
    pub note: String,
    pub has_note: bool,
    pub note_json: String,
    pub has_detail: bool,
    pub detail_json: String,
}

/// The list's date text: the readable form of a `YYYY-MM-DD` date, else the
/// stored text as it is.
pub open spec fn improvement_date_text(raw: Seq<char>) -> Seq<char> {
    match chrono_ymd(raw) {
        Some((y, m, d)) => fmt_date_spec(Date { year: y, month: m, day: d }),
        None => raw,
    }
}

/// One improvement of the list; `amount` and `amount_raw` are its money text
/// and its two-decimal text.
pub fn improvement_row(id: &str, date: &str, amount: String, amount_raw: String, note: &str, detail: &str) -> (r: ImprovementRowView)
    ensures
        r.id@ == id@,
        r.date@ == improvement_date_text(date@),
        r.date_raw@ == date@,
        r.amount@ == amount@,
        r.amount_raw@ == amount_raw@,
        r.note@ == trim(note@),
        r.has_note == (trim(note@).len() > 0),
        r.note_json@ == json_string_text(trim(note@)),
        r.has_detail == (trim(detail@).len() > 0),
        r.detail_json@ == json_string_text(trim(detail@)),
{
    let date_text = match parse_ymd(date) {
        Ok(d) => fmt_date(d),
        Err(_) => to_owned_string(date),
    };
    let n = trim_str(note);
    let dt = trim_str(detail);
    ImprovementRowView {
        id: to_owned_string(id),
        date: date_text,
        date_raw: to_owned_string(date),
        amount,
        amount_raw,
        note: to_owned_string(n),
        has_note: n.unicode_len() > 0,
        note_json: note_json(n),
        has_detail: dt.unicode_len() > 0,
        detail_json: note_json(dt),
    }
}

/// Improvement notes and details are stored trimmed, at most 200 and 1000
/// characters.
pub fn validate_improvement_text(note: &str, detail: &str) -> (r: Result<(String, String), AppError>)
    ensures
        match r {
            Ok((n, d)) => n@ == trim(note@) && d@ == trim(detail@) && trim(note@).len() <= 200
                && trim(detail@).len() <= 1000,
            Err(e) => if trim(note@).len() > 200 {
                is_bad_request(e, "Improvement notes are limited to 200 characters."@)
            } else {
                trim(detail@).len() > 1000 && is_bad_request(e, "Improvement details are limited to 1000 characters."@)
            },
        },
{
    let n = trim_str(note);
    let d = trim_str(detail);
    if n.unicode_len() > 200 {
        return Err(bad_request("Improvement notes are limited to 200 characters."));
    }
    if d.unicode_len() > 1000 {
        return Err(bad_request("Improvement details are limited to 1000 characters."));
    }
    Ok((to_owned_string(n), to_owned_string(d)))
}

/// What saving a payment note does: a note of over 500 characters (after
/// trimming) is refused, an empty one deletes the note, any other is stored
/// trimmed.
pub fn note_update(note: &str) -> (r: Result<Option<String>, AppError>)
    ensures
        match r {
            Ok(Some(t)) => t@ == trim(note@) && 0 < trim(note@).len() <= 500,
            Ok(None) => trim(note@).len() == 0,
            Err(e) => trim(note@).len() > 500 && is_bad_request(e, "Notes are limited to 500 characters."@),
        },
{
    let t = trim_str(note);
    let n = t.unicode_len();
    if n > 500 {
        return Err(bad_request("Notes are limited to 500 characters."));
    }
    if n == 0 {
        Ok(None)
    } else {
        Ok(Some(to_owned_string(t)))
    }
}

/// A stored payment note.
pub struct PaymentNote {
    pub pay_key: String,
    pub note: String,
}

/// Notes as `(pay key, note)` pairs for lookups.
pub fn note_pairs(notes: &[PaymentNote]) -> (r: Vec<(String, String)>)
    ensures
        r@.len() == notes@.len(),
        forall|i: int| 0 <= i < r@.len() ==> (#[trigger] r@[i]).0@ == notes@[i].pay_key@ && r@[i].1@ == notes@[i].note@,
{
    let mut out: Vec<(String, String)> = Vec::new();
    let mut i: usize = 0;
    while i < notes.len()
        invariant
            i <= notes@.len(),
            out@.len() == i,
            forall|j: int| 0 <= j < i ==> (#[trigger] out@[j]).0@ == notes@[j].pay_key@ && out@[j].1@ == notes@[j].note@,
        decreases notes@.len() - i,
    {
        out.push((notes[i].pay_key.clone(), notes[i].note.clone()));
        i = i + 1;
    }
    out
}

/// Everything the dashboard shows of the active profile.
pub struct DashboardView {
    pub profile_id: String,
    pub profile_version: i64,
    pub profile_principal: String,
    pub profile_rate: String,
    pub profile_term: String,
    pub accelerator: PayoffAccelerator,
    pub year_stats: Vec<YearStat>,
    pub view_year: i32,
    pub months: Vec<MonthCell>,
    pub payment_rows: Vec<PaymentRowView>,
    pub payment_filter: String,
    pub summary: YearSummary,
    pub chart: ChartPair,
    pub active_tab: String,
    pub loan_principal: String,
    pub loan_rate: String,
    pub loan_term: String,
    pub loan_start: String,
    pub profile_name: String,
    pub extra_date_default: String,
    pub improvements: Vec<ImprovementRowView>,
    pub improvements_total: String,
}

/// Rename form.
pub struct RenameForm {
    pub name: String,
}

/// Profile switch form, with the view to return to.
pub struct SwitchForm {
    pub profile_id: String,
    pub tab: Option<String>,
    pub year: Option<i32>,
    pub filter: Option<String>,
    pub grain: Option<String>,
    pub scope: Option<String>,
}

/// Paid toggle of one payment.
pub struct ToggleForm {
    pub pay_key: String,
    pub paid: bool,
    pub year: Option<i32>,
    pub filter: Option<String>,
    pub grain: Option<String>,
    pub tab: Option<String>,
}

/// Removal of all unpaid extras.
pub struct RemoveUnpaidExtrasForm {
    pub filter: Option<String>,
}

/// Note form of one payment.
pub struct NoteForm {
    pub pay_key: String,
    pub note: String,
    pub year: Option<i32>,
    pub filter: Option<String>,
    pub grain: Option<String>,
}

/// Rename request of the JSON API.
pub struct RenameBody {
    pub name: String,
}

/// Payment listing query of the JSON API.
pub struct PaymentsQuery {
    pub year: Option<i32>,
    pub limit: Option<usize>,
}

/// Paid toggle of the JSON API.
pub struct SetPaidBody {
    pub pay_key: String,
    pub paid: bool,
}

/// Note request of the JSON API.
pub struct NoteBody {
    pub pay_key: String,
    pub note: String,
}

/// Query of the OAuth consent page.
pub struct ConsentQuery {
    pub client_id: Option<String>,
    pub scope: Option<String>,
}

/// The client name and scopes the consent page shows.
pub fn consent_fields(q: &ConsentQuery) -> (r: (String, String))
    ensures
        r.0@ == match q.client_id { Some(c) => c@, None => "MCP client"@ },
        r.1@ == match q.scope { Some(s) => s@, None => Seq::empty() },
{
    let client = match &q.client_id {
        Some(c) => c.clone(),
        None => String::from_str("MCP client"),
    };
    let scopes = match &q.scope {
        Some(s) => s.clone(),
        None => String::new(),
    };
    (client, scopes)
}

/// What marking a payment paid or unpaid writes.
#[derive(Clone, Copy, Debug, PartialEq, Eq, Structural)]
pub enum PaidChange {
    /// Already in the requested state: nothing to write.
    Unchanged,
    /// Record the pay key as paid.
    Insert,
    /// Remove the pay key's paid record.
    Delete,
}

pub fn paid_change(currently_paid: bool, paid: bool) -> (r: PaidChange)
    ensures
        currently_paid == paid ==> r == PaidChange::Unchanged,
        !currently_paid && paid ==> r == PaidChange::Insert,
        currently_paid && !paid ==> r == PaidChange::Delete,
{
    if currently_paid == paid {
        PaidChange::Unchanged
    } else if paid {
        PaidChange::Insert
    } else {
        PaidChange::Delete
    }
}

/// What the page refreshes after a payment is marked paid or unpaid.
#[derive(Clone, Copy, Debug, PartialEq, Eq, Structural)]
pub enum ToggleRefresh {
    /// Re-render the payments tab; the chart is stale when an extra changed.
    Payments { invalidate_chart: bool },
    /// Re-render the calendar; the chart is stale.
    Calendar,
    /// Re-render nothing; the other tabs are marked stale.
    StaleOnly,
}

/// The payments tab always refreshes (its totals change); an extra or recast
/// changes the amortization, so the calendar refreshes too when it is shown.
pub fn toggle_refresh(tab: Option<&str>, pay_key: &str) -> (r: ToggleRefresh)
    ensures
        ({
            let t = match tab { Some(t) => t@, None => "calendar"@ };
            let is_extra = pay_key@.len() >= 6 && pay_key@.subrange(0, 6) == "extra:"@;
            if t == "payments"@ {
                r == ToggleRefresh::Payments { invalidate_chart: is_extra }
            } else if is_extra {
                r == ToggleRefresh::Calendar
            } else {
                r == ToggleRefresh::StaleOnly
            }
        }),
{
    proof {
        reveal_strlit("extra:");
    }
    let is_extra = crate::text::starts_with(pay_key, "extra:");
    let on_payments = match tab {
        Some(t) => str_eq(t, "payments"),
        None => str_eq("calendar", "payments"),
    };
    if on_payments {
        ToggleRefresh::Payments { invalidate_chart: is_extra }
    } else if is_extra {
        ToggleRefresh::Calendar
    } else {
        ToggleRefresh::StaleOnly
    }
}

} // verus!
