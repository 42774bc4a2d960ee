//! Data of the HTML pages and partials, and the choices that fill them.

use vstd::prelude::*;
use crate::text::{to_owned_string, str_eq};
use crate::next::{opt_view, safe_next, safe_next_spec, share_token_spec, pct_encode};
use crate::auth::{auth_next_fields, AuthNextFields};
use crate::view::EmptyState;
use crate::dashboard::MonthCell;
use crate::summary::{YearStat, YearSummary, PayoffAccelerator, ChartPair};
use crate::page::{ProfileOption, DashboardView, ImprovementRowView};
use crate::dashboard::PaymentRowView;
use crate::users::{Instant, UserRole, role_from, parse_paid_until, paid_until_spec, paid_until_active, paid_until_active_spec};
use crate::error::{AppError, bad_request, is_bad_request};
use crate::dashboard::{to_json_string, json_string_text};
use crate::text::push_str;

verus! {

/// A page or partial to be rendered as `text/html`.
pub struct HtmlTemplate<T>(pub T);

/// The dashboard page.
pub struct IndexTemplate {
    pub csrf_token: String,
    pub app_name: String,
    pub profiles: Vec<ProfileOption>,
    pub has_profiles: bool,
    pub is_owner: bool,
    pub can_create_profile: bool,
    pub empty: EmptyState,
    pub dashboard: Option<DashboardView>,
    pub default_start: String,
    pub error: String,
    pub user_email: String,
    pub avatar_src: String,
    pub is_admin: bool,
    pub is_paid: bool,
}

/// The profile switcher bar.
pub struct ProfileBarTemplate {
    pub profiles: Vec<ProfileOption>,
    pub has_profiles: bool,
    pub is_owner: bool,
    pub can_create_profile: bool,
    pub dashboard: Option<DashboardView>,
}

/// The summary tab.
pub struct SummaryTemplate {
    pub accelerator: PayoffAccelerator,
    pub year_stats: Vec<YearStat>,
}

/// The calendar tab.
pub struct CalendarTemplate {
    pub profile_id: String,
    pub view_year: i32,
    pub months: Vec<MonthCell>,
    pub payment_filter: String,
    pub grain: String,
}

/// The payments tab.
pub struct PaymentsTemplate {
    pub profile_id: String,
    pub payment_rows: Vec<PaymentRowView>,
    pub payments_year_expand: String,
    pub payment_filter: String,
    pub summary: YearSummary,
    pub extra_date_default: String,
    pub view_year: i32,
    pub grain: String,
    pub is_paid: bool,
}

/// The home improvements tab.
pub struct ImprovementsTemplate {
    pub profile_id: String,
    pub extra_date_default: String,
    pub improvements: Vec<ImprovementRowView>,
    pub improvements_total: String,
}

/// The breakdown chart tab.
pub struct ChartTemplate {
    pub profile_id: String,
    pub chart: ChartPair,
}

/// The whole dashboard partial.
pub struct DashboardTemplate {
    pub empty: EmptyState,
    pub dashboard: Option<DashboardView>,
    pub is_paid: bool,
}

/// An inline error message.
pub struct ErrorPartial {
    pub message: String,
}

/// The signed-out landing page.
pub struct LandingTemplate {
    pub csrf_token: String,
    pub app_name: String,
}

/// The sign-in page.
pub struct LoginTemplate {
    pub csrf_token: String,
    pub app_name: String,
    pub error: String,
    pub email: String,
    pub next: String,
    pub next_query: String,
    pub share_invite: bool,
    /// Whether forms post to the edge authentication service.
    pub auth_edge: bool,
}

/// The sign-up page.
pub struct RegisterTemplate {
    pub csrf_token: String,
    pub app_name: String,
    pub error: String,
    pub email: String,
    pub next: String,
    pub next_query: String,
    pub share_invite: bool,
    pub auth_edge: bool,
}

/// The forgot-password page.
pub struct ForgotPasswordTemplate {
    pub csrf_token: String,
    pub app_name: String,
    pub error: String,
    pub email: String,
    pub sent: bool,
    pub sent_message: String,
    pub auth_edge: bool,
}

/// The reset-password page.
pub struct ResetPasswordTemplate {
    pub csrf_token: String,
    pub app_name: String,
    pub error: String,
    pub token: String,
    pub token_valid: bool,
    pub auth_edge: bool,
}

/// An inline authentication error.
pub struct AuthErrorPartial {
    pub message: String,
}

/// A user in the admin list.
pub struct AdminUserView {
    pub id: String,
    pub email: String,
    pub is_admin: bool,
    /// True when `paid_until` is set and still in the future.
    pub has_paid_entitlement: bool,
    pub paid_until_label: String,
    pub paid_until_iso: String,
    pub is_self: bool,
}

/// The admin user list.
pub struct AdminUsersTemplate {
    pub csrf_token: String,
    pub app_name: String,
    pub users: Vec<AdminUserView>,
}

/// The calendar tab of a dashboard.
pub fn calendar_from_dashboard(d: DashboardView) -> (r: CalendarTemplate)
    ensures
        r.profile_id == d.profile_id,
        r.view_year == d.view_year,
        r.months == d.months,
        r.payment_filter == d.payment_filter,
        r.grain == d.chart.grain,
{
    CalendarTemplate {
        profile_id: d.profile_id,
        view_year: d.view_year,
        months: d.months,
        payment_filter: d.payment_filter,
        grain: d.chart.grain,
    }
}

/// The payments tab of a dashboard.
pub fn payments_from_dashboard(d: DashboardView, payments_year_expand: String, is_paid: bool) -> (r: PaymentsTemplate)
    ensures
        r.profile_id == d.profile_id,
        r.payment_rows == d.payment_rows,
        r.payments_year_expand == payments_year_expand,
        r.payment_filter == d.payment_filter,
        r.summary == d.summary,
        r.extra_date_default == d.extra_date_default,
        r.view_year == d.view_year,
        r.grain == d.chart.grain,
        r.is_paid == is_paid,
{
    PaymentsTemplate {
        profile_id: d.profile_id,
        payment_rows: d.payment_rows,
        payments_year_expand,
        payment_filter: d.payment_filter,
        summary: d.summary,
        extra_date_default: d.extra_date_default,
        view_year: d.view_year,
        grain: d.chart.grain,
        is_paid,
    }
}

/// The home improvements tab of a dashboard.
pub fn improvements_from_dashboard(d: DashboardView) -> (r: ImprovementsTemplate)
    ensures
        r.profile_id == d.profile_id,
        r.extra_date_default == d.extra_date_default,
        r.improvements == d.improvements,
        r.improvements_total == d.improvements_total,
{
    ImprovementsTemplate {
        profile_id: d.profile_id,
        extra_date_default: d.extra_date_default,
        improvements: d.improvements,
        improvements_total: d.improvements_total,
    }
}

/// The summary tab of a dashboard.
pub fn summary_from_dashboard(d: DashboardView) -> (r: SummaryTemplate)
    ensures
        r.accelerator == d.accelerator,
        r.year_stats == d.year_stats,
{
    SummaryTemplate { accelerator: d.accelerator, year_stats: d.year_stats }
}

/// The sign-in/up target kept from a `next` parameter (empty when unsafe or absent).
pub open spec fn next_target(next: Option<Seq<char>>) -> Seq<char> {
    match safe_next_spec(next) {
        Some(t) => t,
        None => Seq::empty(),
    }
}

/// The target as a query value (empty for no target).
pub open spec fn next_query_text(t: Seq<char>) -> Seq<char> {
    if t.len() == 0 { Seq::empty() } else { pct_encode(vstd::utf8::encode_utf8(t)) }
}

/// The sign-in page for a `next` parameter.
pub fn login_template(csrf_token: String, app_name: String, error: String, email: String, next: Option<&str>, auth_edge: bool) -> (r: LoginTemplate)
    ensures
        r.csrf_token == csrf_token && r.app_name == app_name && r.error == error && r.email == email,
        r.next@ == next_target(opt_view(next)),
        r.next_query@ == next_query_text(r.next@),
        r.share_invite == (share_token_spec(r.next@) is Some),
        r.auth_edge == auth_edge,
{
    let f = auth_next_fields(next);
    LoginTemplate { csrf_token, app_name, error, email, next: f.next, next_query: f.next_query, share_invite: f.share_invite, auth_edge }
}

/// The sign-up page for a `next` parameter.
pub fn register_template(csrf_token: String, app_name: String, error: String, email: String, next: Option<&str>, auth_edge: bool) -> (r: RegisterTemplate)
    ensures
        r.csrf_token == csrf_token && r.app_name == app_name && r.error == error && r.email == email,
        r.next@ == next_target(opt_view(next)),
        r.next_query@ == next_query_text(r.next@),
        r.share_invite == (share_token_spec(r.next@) is Some),
        r.auth_edge == auth_edge,
{
    let f = auth_next_fields(next);
    RegisterTemplate { csrf_token, app_name, error, email, next: f.next, next_query: f.next_query, share_invite: f.share_invite, auth_edge }
}

/// Where a signed-in visitor of the sign-in or sign-up page goes: back to an
/// OAuth authorization when one is pending, else to the safe target, else home.
pub fn signed_in_destination(oauth: Option<String>, next: Option<&str>) -> (r: String)
    ensures
        r@ == match oauth {
            Some(o) => o@,
            None => if next_target(opt_view(next)).len() == 0 { "/"@ } else { next_target(opt_view(next)) },
        },
{
    match oauth {
        Some(o) => o,
        None => {
            let f = auth_next_fields(next);
            if f.next.as_str().unicode_len() == 0 { String::from_str("/") } else { f.next }
        },
    }
}

/// Where a successful sign-in goes when no share invite was accepted: the
/// safe target, else home.
pub fn auth_success_destination(next: &str) -> (r: String)
    ensures
        r@ == match safe_next_spec(Some(next@)) {
            Some(t) => t,
            None => "/"@,
        },
{
    match safe_next(Some(next)) {
        Some(t) => to_owned_string(t),
        None => String::from_str("/"),
    }
}

/// The page an authentication error is shown on.
pub enum AuthErrorPage {
    /// Inline message for HTMX requests.
    Partial(AuthErrorPartial),
    Login(LoginTemplate),
    Register(RegisterTemplate),
}

/// An authentication error: inline for HTMX requests, else the sign-in or
/// sign-up page again with the message, the entered email and the target.
pub fn auth_error_page(app_name: &str, htmx: bool, csrf_token: String, message: String, email: &str, is_login: bool, next: &str) -> (r: AuthErrorPage)
    ensures
        htmx ==> (r matches AuthErrorPage::Partial(p) && p.message == message),
        !htmx && is_login ==> (r matches AuthErrorPage::Login(t) && t.csrf_token == csrf_token && t.app_name@ == app_name@
            && t.error == message && t.email@ == email@ && t.next@ == next_target(Some(next@))
            && t.next_query@ == next_query_text(t.next@) && t.share_invite == (share_token_spec(t.next@) is Some) && !t.auth_edge),
        !htmx && !is_login ==> (r matches AuthErrorPage::Register(t) && t.csrf_token == csrf_token && t.app_name@ == app_name@
            && t.error == message && t.email@ == email@ && t.next@ == next_target(Some(next@))
            && t.next_query@ == next_query_text(t.next@) && t.share_invite == (share_token_spec(t.next@) is Some) && !t.auth_edge),
{
    if htmx {
        AuthErrorPage::Partial(AuthErrorPartial { message })
    } else if is_login {
        AuthErrorPage::Login(login_template(csrf_token, to_owned_string(app_name), message, to_owned_string(email), Some(next), false))
    } else {
        AuthErrorPage::Register(register_template(csrf_token, to_owned_string(app_name), message, to_owned_string(email), Some(next), false))
    }
}

/// Confirmation shown after a reset request, whether or not the account exists.
pub fn reset_sent_message() -> (r: &'static str)
    ensures
        r@ == "If an account exists for that email, we sent a password reset link. It expires in one hour."@,
{
    "If an account exists for that email, we sent a password reset link. It expires in one hour."
}

/// The forgot-password page; `sent` is the query's flag.
pub fn forgot_page_template(csrf_token: String, app_name: String, sent: Option<&str>, auth_edge: bool) -> (r: ForgotPasswordTemplate)
    ensures
        r.csrf_token == csrf_token && r.app_name == app_name,
        r.error@.len() == 0 && r.email@.len() == 0,
        r.sent == (opt_view(sent) == Some("1"@)),
        r.sent_message@ == "If an account exists for that email, we sent a password reset link. It expires in one hour."@,
        r.auth_edge == auth_edge,
{
    let is_sent = match sent {
        Some(s) => str_eq(s, "1"),
        None => false,
    };
    ForgotPasswordTemplate {
        csrf_token,
        app_name,
        error: String::new(),
        email: String::new(),
        sent: is_sent,
        sent_message: String::from_str(reset_sent_message()),
        auth_edge,
    }
}

/// The reset-password page: a missing token, or one that is not live
/// (`token_valid`), shows why the link cannot be used.
pub fn reset_page_template(csrf_token: String, app_name: String, token: String, token_valid: bool, auth_edge: bool) -> (r: ResetPasswordTemplate)
    ensures
        r.csrf_token == csrf_token && r.app_name == app_name && r.auth_edge == auth_edge,
        token@.len() == 0 ==> r.error@ == "This reset link is missing or invalid."@ && r.token@.len() == 0 && !r.token_valid,
        token@.len() > 0 ==> r.token == token && r.token_valid == token_valid
            && r.error@ == if token_valid { Seq::empty() } else { "This reset link is invalid or has expired."@ },
{
    if token.as_str().unicode_len() == 0 {
        return ResetPasswordTemplate {
            csrf_token,
            app_name,
            error: String::from_str("This reset link is missing or invalid."),
            token: String::new(),
            token_valid: false,
            auth_edge,
        };
    }
    let error = if token_valid { String::new() } else { String::from_str("This reset link is invalid or has expired.") };
    ResetPasswordTemplate { csrf_token, app_name, error, token, token_valid, auth_edge }
}

/// The `HX-Trigger` payload that tells the page to mark its other tabs stale:
/// `{"markPanelsStale":{"invalidateChart":..,"keep":..}}` (object keys in
/// sorted order, as `serde_json` writes a map).
/// `keep_json` is the JSON text of the tab to keep.
pub open spec fn panel_trigger_text(keep_json: Seq<char>, invalidate_chart: bool) -> Seq<char> {
    "{\"markPanelsStale\":{\"invalidateChart\":"@ + if invalidate_chart { "true"@ } else { "false"@ }
        + ",\"keep\":"@ + keep_json + "}}"@
}

/// The payload, with the tab's name as a JSON string.
pub fn panel_trigger_json(keep_tab: &str, invalidate_chart: bool) -> (r: Option<String>)
    ensures
        r matches Some(t) && t@ == panel_trigger_text(json_string_text(keep_tab@), invalidate_chart),
{
    let keep = match to_json_string(keep_tab) {
        Some(k) => k,
        None => return None,
    };
    let mut out = String::from_str("{\"markPanelsStale\":{\"invalidateChart\":");
    if invalidate_chart {
        push_str(&mut out, "true");
    } else {
        push_str(&mut out, "false");
    }
    push_str(&mut out, ",\"keep\":");
    push_str(&mut out, keep.as_str());
    push_str(&mut out, "}}");
    Some(out)
}

/// The invite token to remember while a visitor signs in or up: the one a
/// safe `next` target carries, if any.
pub fn pending_share_token(next: Option<&str>) -> (r: Option<String>)
    ensures
        match r {
            Some(t) => safe_next_spec(opt_view(next)) matches Some(p) && share_token_spec(p) == Some(t@),
            None => safe_next_spec(opt_view(next)) matches Some(p) ==> share_token_spec(p) is None,
        },
{
    let target = match safe_next(next) {
        Some(t) => t,
        None => return None,
    };
    match crate::next::share_token_from_next(target) {
        Some(tok) => Some(to_owned_string(tok)),
        None => None,
    }
}

} // verus!
