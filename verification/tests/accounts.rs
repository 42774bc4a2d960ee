use mortgagetrack::admin::{access_change, admin_user_view, AdminUserListRow};
use mortgagetrack::auth::SettingsQuery;
use mortgagetrack::error::AppError;
use mortgagetrack::identity::{
    identity_from_headers, parse_same_site, require_admin, require_paid_at, session_config, session_user_id, user_key,
    AuthRedirect, AuthzReject, RedirectPlan, SameSitePolicy, hx_redirect_plan,
};
use mortgagetrack::settings::{avatar_src, default_avatar_id, is_valid_avatar, resolved_avatar_id, settings_template};
use mortgagetrack::users::{
    normalize_email, parse_paid_until, paid_until_active, validate_email, validate_password, AuthUser, Instant, UserRole,
};
use mortgagetrack::view::TabId;

const ID: [u8; 16] = [0x11, 0x11, 0x11, 0x11, 0x22, 0x22, 0x33, 0x33, 0x44, 0x44, 0x55, 0x55, 0x55, 0x55, 0x55, 0x55];

fn instant(dt: chrono::DateTime<chrono::Utc>) -> Instant {
    Instant { secs: dt.timestamp(), nanos: dt.timestamp_subsec_nanos() }
}

fn sample_user(role: UserRole, paid_until: Option<Instant>) -> AuthUser {
    AuthUser {
        id: [0u8; 16],
        email: "a@b.com".into(),
        avatar: None,
        default_tab: "calendar".into(),
        payments_year_expand: "current".into(),
        role,
        paid_until,
    }
}

#[test]
fn admin_inherits_paid() {
    let admin = sample_user(UserRole::Admin, None);
    assert!(admin.is_admin());
    assert!(admin.is_paid());
}

#[test]
fn unpaid_when_no_paid_until() {
    let user = sample_user(UserRole::User, None);
    assert!(!user.is_admin());
    assert!(!user.is_paid());
}

#[test]
fn paid_while_before_expiry() {
    let until = instant(chrono::Utc::now() + chrono::Duration::hours(1));
    let user = sample_user(UserRole::User, Some(until));
    assert!(user.is_paid());
}

#[test]
fn unpaid_after_expiry() {
    let until = instant(chrono::Utc::now() - chrono::Duration::seconds(1));
    let user = sample_user(UserRole::User, Some(until));
    assert!(!user.is_paid());
}

#[test]
fn roles_parse_leniently() {
    assert_eq!(UserRole::parse("  ADMIN "), UserRole::Admin);
    assert_eq!(UserRole::parse("owner"), UserRole::User);
    assert_eq!(UserRole::Admin.as_str(), "admin");
    assert_eq!(UserRole::parse(UserRole::User.as_str()), UserRole::User);
}

#[test]
fn paid_until_accepts_rfc3339_and_bare_dates() {
    let t = parse_paid_until(Some("2030-01-02T03:04:05Z")).unwrap();
    assert_eq!(t.secs, 1893553445);
    let offset = parse_paid_until(Some(" 2030-01-02T04:04:05+01:00 ")).unwrap();
    assert_eq!(offset.secs, 1893553445);
    let day_end = parse_paid_until(Some("2030-01-02")).unwrap();
    assert_eq!(day_end.secs, 1893628799);
    assert_eq!(day_end.nanos, 0);
    assert!(parse_paid_until(Some("   ")).is_none());
    assert!(parse_paid_until(Some("soon")).is_none());
    assert!(parse_paid_until(None).is_none());
    let now = Instant { secs: 1893628798, nanos: 0 };
    assert!(paid_until_active(Some(day_end), now));
    assert!(!paid_until_active(Some(day_end), Instant { secs: 1893628799, nanos: 0 }));
}

#[test]
fn email_and_password_rules() {
    assert_eq!(validate_email("  a@b.com ").ok(), Some("a@b.com"));
    assert!(matches!(validate_email("nobody"), Err(AppError::BadRequest(m)) if m == "Enter a valid email address."));
    assert!(matches!(validate_email(&format!("{}@x", "a".repeat(254))), Err(AppError::BadRequest(_))));
    assert!(matches!(validate_password(""), Err(AppError::BadRequest(m)) if m == "Enter a password."));
    assert!(matches!(validate_password("short"), Err(AppError::BadRequest(m)) if m == "Password must be at least 8 characters."));
    assert!(matches!(validate_password(&"x".repeat(129)), Err(AppError::BadRequest(m)) if m == "Password is too long."));
    assert!(validate_password("longenough").is_ok());
    assert_eq!(normalize_email("  Mixed@Case.COM "), "mixed@case.com");
}

#[test]
fn identity_headers_only_when_trusted() {
    assert!(matches!(identity_from_headers(false, Some("11111111-2222-3333-4444-555555555555"), None, None, None), Ok(None)));
    assert!(matches!(identity_from_headers(true, None, None, None, None), Ok(None)));
    assert!(matches!(identity_from_headers(true, Some("  "), None, None, None), Ok(None)));
    assert!(matches!(identity_from_headers(true, Some("not-a-uuid"), None, None, None),
        Err(AppError::Internal(m)) if m == "invalid X-User-Id header"));
    let ident = identity_from_headers(true, Some(" 11111111-2222-3333-4444-555555555555 "), Some(" a@b.com "), Some("Admin"),
        Some("2030-01-02")).ok().unwrap().unwrap();
    assert_eq!(ident.id, ID);
    assert_eq!(ident.email.as_deref(), Some("a@b.com"));
    assert_eq!(ident.role, UserRole::Admin);
    assert_eq!(ident.paid_until.map(|i| i.secs), Some(1893628799));
    let plain = identity_from_headers(true, Some("11111111-2222-3333-4444-555555555555"), None, None, None).ok().unwrap().unwrap();
    assert_eq!(plain.role, UserRole::User);
    assert!(plain.email.is_none());
}

#[test]
fn session_ids_and_user_keys() {
    assert!(matches!(session_user_id(None), Ok(None)));
    assert!(matches!(session_user_id(Some("11111111-2222-3333-4444-555555555555")), Ok(Some(id)) if id == ID));
    assert!(matches!(session_user_id(Some("garbage")), Err(AppError::Internal(m)) if m == "invalid user_id in session"));
    assert_eq!(user_key(&ID), "11111111-2222-3333-4444-555555555555");
}

#[test]
fn gates_and_redirects() {
    let admin = sample_user(UserRole::Admin, None);
    assert!(require_admin(Ok(admin)).is_ok());
    assert!(matches!(require_admin(Ok(sample_user(UserRole::User, None))), Err(AuthzReject::Forbidden)));
    assert!(matches!(require_admin(Err(AuthRedirect::to_login(true))), Err(AuthzReject::Unauthenticated(_))));
    let now = Instant { secs: 100, nanos: 0 };
    let paid = sample_user(UserRole::User, Some(Instant { secs: 200, nanos: 0 }));
    assert!(require_paid_at(Ok(paid), now).is_ok());
    let lapsed = sample_user(UserRole::User, Some(Instant { secs: 50, nanos: 0 }));
    assert!(matches!(require_paid_at(Ok(lapsed), now), Err(AuthzReject::Forbidden)));
    assert!(matches!(AuthRedirect::to_login(true).plan(),
        RedirectPlan::Htmx { status: 401, location } if location == "/login"));
    assert!(matches!(AuthRedirect::to_login(false).plan(), RedirectPlan::SeeOther { location } if location == "/login"));
    assert!(matches!(hx_redirect_plan(true, "/settings?avatar=updated"),
        RedirectPlan::Htmx { status: 200, location } if location == "/settings?avatar=updated"));
    assert!(matches!(hx_redirect_plan(false, "/"), RedirectPlan::SeeOther { location } if location == "/"));
}

#[test]
fn same_site_settings() {
    assert_eq!(parse_same_site(" Strict ", false), SameSitePolicy::Strict);
    assert_eq!(parse_same_site("none", false), SameSitePolicy::Lax);
    assert_eq!(parse_same_site("NONE", true), SameSitePolicy::CrossSite);
    assert_eq!(parse_same_site("whatever", true), SameSitePolicy::Lax);
    let c = session_config(Some("yes"), None);
    assert!(c.secure && c.http_only);
    assert_eq!(c.same_site, SameSitePolicy::Lax);
    let d = session_config(None, Some("none"));
    assert!(!d.secure);
    assert_eq!(d.same_site, SameSitePolicy::Lax);
}

#[test]
fn avatars_resolve_to_selectable_ids() {
    assert!(is_valid_avatar("boat"));
    assert!(!is_valid_avatar("Boat"));
    assert!(!is_valid_avatar(""));
    let mut id = [0u8; 16];
    id[0] = 3;
    id[1] = 1;
    assert_eq!(default_avatar_id(&id), "car");
    id[0] = 15;
    assert_eq!(default_avatar_id(&id), "thimble");
    assert_eq!(resolved_avatar_id(&id, Some("dog")), "dog");
    assert_eq!(resolved_avatar_id(&id, Some("unicorn")), "thimble");
    assert_eq!(avatar_src(&id, None), "/static/avatars/thimble.webp");
    assert_eq!(avatar_src(&id, Some("hat")), "/static/avatars/hat.webp");
}

#[test]
fn settings_page_marks_current_choices() {
    let mut user = sample_user(UserRole::User, None);
    user.avatar = Some("iron".into());
    user.default_tab = "chart".into();
    let q = SettingsQuery { password: None, avatar: Some("updated".into()), tab: Some("error".into()), years: None };
    let page = settings_template(&user, "tok".into(), "MortgageTrack".into(), &q, Vec::new(), true);
    assert_eq!(page.avatar_src, "/static/avatars/iron.webp");
    assert_eq!(page.avatar_options.len(), 8);
    let selected: Vec<&str> = page.avatar_options.iter().filter(|o| o.selected).map(|o| o.id.as_str()).collect();
    assert_eq!(selected, vec!["iron"]);
    let tabs: Vec<(&str, &str, bool)> = page.tab_options.iter().map(|t| (t.id.as_str(), t.label.as_str(), t.selected)).collect();
    assert_eq!(tabs, vec![("summary", "Summary", false), ("calendar", "Calendar", false), ("payments", "Payments", false),
        ("improvements", "Improvements", false), ("chart", "Breakdown", true)]);
    assert!(page.avatar_updated && !page.avatar_error);
    assert!(page.default_tab_error && !page.default_tab_updated);
    assert!(!page.password_updated && !page.year_expand_updated);
    assert!(page.auth_edge && !page.is_admin && !page.is_paid);
    assert_eq!(TabId::parse("nope"), TabId::Calendar);
}

#[test]
fn admin_rows_and_access_changes() {
    let row = AdminUserListRow {
        id: "u1".into(),
        email: "a@b.com".into(),
        role: "admin".into(),
        paid_until: Some("2030-01-02T03:04:05Z".into()),
    };
    let view = admin_user_view(&row, "u1", Instant { secs: 0, nanos: 0 });
    assert!(view.is_admin && view.is_self && view.has_paid_entitlement);
    assert_eq!(view.paid_until_label, "2030-01-02 03:04 UTC");
    assert_eq!(view.paid_until_iso, "2030-01-02T03:04:05+00:00");
    let plain = AdminUserListRow { id: "u2".into(), email: "c@d.com".into(), role: "user".into(), paid_until: None };
    let v2 = admin_user_view(&plain, "u1", Instant { secs: 0, nanos: 0 });
    assert!(!v2.is_admin && !v2.is_self && !v2.has_paid_entitlement);
    assert_eq!(v2.paid_until_label, "");
    assert!(matches!(access_change("  ", "1"), Err(AppError::BadRequest(m)) if m == "user_id is required"));
    assert!(matches!(access_change(" u1 ", " yes "), Ok((id, true)) if id == "u1"));
    assert!(matches!(access_change("u1", "0"), Ok((_, false))));
}
