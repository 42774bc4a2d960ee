use mortgagetrack::dates::{parse_date, Date};
use mortgagetrack::error::{json_error_parts, AppError};
use mortgagetrack::identicon::{color_hex, hue_seed, identicon_digest, identicon_svg};
use mortgagetrack::mail::{app_base_url_from_env, mailer_config, reset_email, MailerConfig};
use mortgagetrack::database::{db_target, is_remote_url, normalize_sqlite_path, rpc_endpoint, DbTarget};
use mortgagetrack::page::{
    consent_fields, default_start, improvement_row, note_pairs, note_update, owned_count, page_choices, profile_options,
    validate_improvement_text, ConsentQuery, IndexQuery, PaymentNote, ProfileRef,
};
use mortgagetrack::rate_limit::{check_attempts, client_ip, email_key, ip_key, plan_bump, LimitedAction, RateAction, RateRow};
use mortgagetrack::schedule::{RowInfo, RowKind};
use mortgagetrack::sharing::{
    check_can_leave, check_invite, check_invite_claimed, generate_token, hash_token, invite_token_hash, next_active_profile,
    share_path, InviteRow, ProfileRole,
};
use mortgagetrack::summary::{
    chart_grain, chart_hint, chart_year_buckets, count_paid, count_scheduled, format_extra_label, last_active_due,
    most_common_amount, months_saved, paid_label, paid_prefix_len, saved_label, summary_hint, year_counts, year_stats,
    YearStatTexts,
};
use mortgagetrack::templates::{
    auth_error_page, auth_success_destination, forgot_page_template, login_template, panel_trigger_json,
    reset_page_template, signed_in_destination, AuthErrorPage,
};
use mortgagetrack::users::Instant;
use mortgagetrack::view::{PaymentFilter, TabId};

fn d(s: &str) -> Date {
    parse_date(s).ok().unwrap()
}

fn sched(due: &str) -> RowInfo {
    RowInfo { kind: RowKind::Scheduled, label: String::new(), id: None, due: d(due), pay_key: due.into(), recast: false }
}

fn extra(id: &str, due: &str) -> RowInfo {
    RowInfo { kind: RowKind::Extra, label: "Extra".into(), id: Some(id.into()), due: d(due), pay_key: format!("extra:{id}"), recast: false }
}

#[test]
fn summary_counts_and_labels() {
    let rows = vec![sched("2025-12-01"), sched("2026-01-01"), extra("x", "2026-01-10"), sched("2026-02-01")];
    let paid = vec!["2025-12-01".to_string(), "2026-01-01".to_string(), "extra:x".to_string()];
    assert_eq!(count_paid(&rows, &paid), 3);
    assert_eq!(count_scheduled(&rows), 3);
    assert_eq!(year_counts(&rows, &paid, 2026), (3, 2));
    assert_eq!(paid_prefix_len(&rows, &paid), 3);
    assert_eq!(paid_prefix_len(&rows, &[]), 0);
    assert_eq!(last_active_due(&rows, &[true, true, true, false]).map(format_date), Some("2026-01-01".into()));
    assert_eq!(last_active_due(&rows, &[false, false, true, false]), None);
    assert_eq!(months_saved(Some(d("2055-12-01")), Some(d("2050-06-01"))), 66);
    assert_eq!(months_saved(Some(d("2050-06-01")), Some(d("2055-12-01"))), 0);
    assert_eq!(months_saved(None, Some(d("2050-06-01"))), 0);
    assert_eq!(saved_label(Some(d("2055-12-01")), Some(d("2050-06-01"))), "5.5 Yrs Saved");
    assert_eq!(paid_label(12), "12 Paid");
    assert_eq!(summary_hint(360, 4), "360 scheduled · 4% paid");
}

fn format_date(x: Date) -> String {
    mortgagetrack::dates::format_ymd(x)
}

#[test]
fn summary_strip_figures() {
    let rows = vec![sched("2025-12-01"), sched("2026-01-01"), sched("2026-02-01")];
    let paid = vec!["2026-01-01".to_string()];
    let t = YearStatTexts {
        pct_paid: 7,
        total_paid_principal: "$1.00".into(),
        original_principal: "$2.00".into(),
        paid_principal: "$3.00".into(),
        scheduled_principal: "$4.00".into(),
        paid_interest: "$5.00".into(),
        scheduled_interest: "$6.00".into(),
    };
    let stats = year_stats(&rows, &paid, 2, 2026, &t);
    let got: Vec<(&str, &str, &str, &str)> =
        stats.iter().map(|s| (s.label.as_str(), s.value.as_str(), s.sub.as_str(), s.class.as_str())).collect();
    assert_eq!(got, vec![
        ("Total % paid", "7%", "$1.00 of $2.00 principal", "stat highlight"),
        ("2026 progress", "1 / 2", "1 remaining · 2 extra", "stat next-up"),
        ("2026 principal", "$3.00", "of $4.00 scheduled", "stat quiet"),
        ("2026 interest", "$5.00", "of $6.00 scheduled", "stat quiet"),
    ]);
    let none = year_stats(&rows, &paid, 0, 2030, &t);
    assert_eq!(none[1].value, "0 / 0");
    assert_eq!(none[1].sub, "0 remaining");
}

#[test]
fn extras_label_variants() {
    assert_eq!(format_extra_label(0, &[], "$0", 0, "$0"), "No extras");
    assert_eq!(format_extra_label(1, &[], "$0", 1, "$5,000"), "+$5,000 Recast");
    assert_eq!(format_extra_label(2, &[], "$0", 2, "$9,000"), "+$9,000 Recasts");
    assert_eq!(format_extra_label(3, &[200, 200, 50], "$450", 0, "$0"), "+$200/mo Extra");
    assert_eq!(format_extra_label(2, &[100, 300], "$400", 0, "$0"), "+$400 Extra");
    assert_eq!(format_extra_label(3, &[100, 300], "$400", 1, "$1,000"), "+$400 Extra · $1,000 Recast");
    assert_eq!(most_common_amount(&[5, 7, 7, 5, 7]), (7, 3));
}

#[test]
fn chart_buckets_by_year() {
    let rows = vec![sched("2027-01-01"), sched("2026-12-01"), extra("x", "2026-11-01"), sched("2027-02-01"), sched("2025-05-01")];
    let buckets = chart_year_buckets(&rows);
    let got: Vec<(i32, Vec<usize>)> = buckets.iter().map(|b| (b.year, b.rows.clone())).collect();
    assert_eq!(got, vec![(2025, vec![4]), (2026, vec![1]), (2027, vec![0, 3])]);
    assert_eq!(chart_hint(true, 3, "$1", "$2"), "3 years · $1 principal · $2 interest");
    assert_eq!(chart_hint(false, 360, "$1", "$2"), "360 payments · $1 principal · $2 interest");
    assert_eq!(chart_grain("yearly"), "yearly");
    assert_eq!(chart_grain("Yearly"), "monthly");
}

#[test]
fn page_choices_follow_query_and_defaults() {
    let profiles = vec![
        ProfileRef { id: "p1".into(), user_id: "me".into(), name: "Home".into() },
        ProfileRef { id: "p2".into(), user_id: "friend".into(), name: "Cabin".into() },
    ];
    let opts = profile_options(&profiles, Some("p2"), "me");
    assert!(!opts[0].selected && !opts[0].is_shared);
    assert!(opts[1].selected && opts[1].is_shared);
    assert_eq!(owned_count(&profiles, "me"), 1);
    let q = IndexQuery { tab: None, year: None, filter: None, grain: None, scope: None, pro: None };
    let c = page_choices(&q, "payments", false, Some("friend"), &profiles, "me", d("2026-12-15"));
    assert_eq!(c.view_year, 2026);
    assert_eq!(c.filter, PaymentFilter::All);
    assert_eq!(c.grain, "monthly");
    assert_eq!(c.tab, TabId::Payments);
    assert!(!c.is_owner && !c.is_paid && !c.can_create_profile);
    assert_eq!(c.default_start, "2027-01-01");
    let q2 = IndexQuery { tab: Some("chart".into()), year: Some(2030), filter: Some("unpaid".into()), grain: Some("yearly".into()),
        scope: None, pro: Some("1".into()) };
    let c2 = page_choices(&q2, "payments", false, None, &[], "me", d("2026-03-31"));
    assert_eq!((c2.view_year, c2.filter, c2.tab), (2030, PaymentFilter::Unpaid, TabId::Chart));
    assert!(c2.is_owner && c2.is_paid && c2.can_create_profile);
    assert_eq!(c2.default_start, "2026-04-01");
    assert_eq!(default_start(d("2026-01-31")), d("2026-02-01"));
}

#[test]
fn improvements_and_notes() {
    let row = improvement_row("i1", "2026-03-05", "$1,000.00".into(), "1000.00".into(), "  new roof ", "");
    assert_eq!(row.date, "Mar 5, 2026");
    assert_eq!(row.note, "new roof");
    assert!(row.has_note && !row.has_detail);
    assert_eq!(row.note_json, "\"new roof\"");
    assert_eq!(row.detail_json, "\"\"");
    let odd = improvement_row("i2", "spring", "$1.00".into(), "1.00".into(), "", "x");
    assert_eq!(odd.date, "spring");
    assert!(matches!(validate_improvement_text(&"n".repeat(201), ""),
        Err(AppError::BadRequest(m)) if m == "Improvement notes are limited to 200 characters."));
    assert!(matches!(validate_improvement_text("ok", &"d".repeat(1001)),
        Err(AppError::BadRequest(m)) if m == "Improvement details are limited to 1000 characters."));
    assert!(matches!(validate_improvement_text(" a ", " b "), Ok((n, dt)) if n == "a" && dt == "b"));
    assert!(matches!(note_update("   "), Ok(None)));
    assert!(matches!(note_update(" hello "), Ok(Some(t)) if t == "hello"));
    assert!(matches!(note_update(&"é".repeat(501)), Err(AppError::BadRequest(m)) if m == "Notes are limited to 500 characters."));
    assert!(note_update(&"é".repeat(500)).is_ok());
    let pairs = note_pairs(&[PaymentNote { pay_key: "k".into(), note: "n".into() }]);
    assert_eq!(pairs, vec![("k".to_string(), "n".to_string())]);
    let (client, scopes) = consent_fields(&ConsentQuery { client_id: None, scope: Some("read".into()) });
    assert_eq!((client.as_str(), scopes.as_str()), ("MCP client", "read"));
}

#[test]
fn auth_pages_keep_safe_targets() {
    let page = login_template("c".into(), "App".into(), String::new(), String::new(), Some(" /share/ab12 "), true);
    assert_eq!(page.next, "/share/ab12");
    assert_eq!(page.next_query, "%2Fshare%2Fab12");
    assert!(page.share_invite && page.auth_edge);
    let bad = login_template("c".into(), "App".into(), String::new(), String::new(), Some("https://evil"), false);
    assert_eq!(bad.next, "");
    assert_eq!(bad.next_query, "");
    assert_eq!(signed_in_destination(None, Some("//evil")), "/");
    assert_eq!(signed_in_destination(None, Some("/settings")), "/settings");
    assert_eq!(signed_in_destination(Some("/api/auth/oauth2/authorize?client_id=1".into()), Some("/settings")),
        "/api/auth/oauth2/authorize?client_id=1");
    assert_eq!(auth_success_destination("/x"), "/x");
    assert_eq!(auth_success_destination("http://x"), "/");
    match auth_error_page("App", false, "c".into(), "Nope".into(), "a@b.com", false, "/share/ff") {
        AuthErrorPage::Register(t) => {
            assert_eq!(t.error, "Nope");
            assert_eq!(t.email, "a@b.com");
            assert!(t.share_invite && !t.auth_edge);
        },
        _ => panic!("expected the sign-up page"),
    }
    assert!(matches!(auth_error_page("App", true, "c".into(), "Nope".into(), "", true, ""), AuthErrorPage::Partial(p) if p.message == "Nope"));
    let forgot = forgot_page_template("c".into(), "App".into(), Some("1"), false);
    assert!(forgot.sent);
    assert!(forgot.sent_message.starts_with("If an account exists"));
    assert!(!forgot_page_template("c".into(), "App".into(), Some("yes"), false).sent);
    let missing = reset_page_template("c".into(), "App".into(), String::new(), true, false);
    assert_eq!(missing.error, "This reset link is missing or invalid.");
    assert!(!missing.token_valid);
    let expired = reset_page_template("c".into(), "App".into(), "tok".into(), false, false);
    assert_eq!(expired.error, "This reset link is invalid or has expired.");
    assert_eq!(panel_trigger_json("calendar", true).as_deref(),
        Some("{\"markPanelsStale\":{\"invalidateChart\":true,\"keep\":\"calendar\"}}"));
}

#[test]
fn json_errors_hide_internal_details() {
    assert_eq!(json_error_parts(&AppError::BadRequest("bad".into())), (400, "bad".to_string()));
    assert_eq!(json_error_parts(&AppError::NotFound("gone".into())), (404, "gone".to_string()));
    assert_eq!(json_error_parts(&AppError::TooManyRequests("slow".into())), (429, "slow".to_string()));
    assert_eq!(json_error_parts(&AppError::Database("secret".into())), (500, "Internal server error".to_string()));
}

#[test]
fn rate_limit_keys_and_windows() {
    assert_eq!(ip_key(LimitedAction::Login, "1.2.3.4"), "mortgagetrack:rl:login:ip:1.2.3.4");
    assert_eq!(email_key(LimitedAction::Reset, " A@B.com "), "mortgagetrack:rl:reset:email:a@b.com");
    assert_eq!(client_ip(Some(" 9.9.9.9 , 1.1.1.1"), Some("2.2.2.2"), Some("3.3.3.3")), "9.9.9.9");
    assert_eq!(client_ip(Some(" ,1.1.1.1"), Some(" 2.2.2.2 "), None), "2.2.2.2");
    assert_eq!(client_ip(None, None, None), "unknown");
    let now = Instant { secs: 1_700_000_000, nanos: 0 };
    match plan_bump(None, now) {
        Ok((RateAction::Insert { expires_at }, 1)) => assert_eq!(expires_at, "2023-11-14T22:28:20Z"),
        _ => panic!("expected a new row"),
    }
    let live = RateRow { count: 4, expires_at: "2023-11-14T22:20:00Z".into() };
    assert!(matches!(plan_bump(Some(&live), now), Ok((RateAction::Increment { next: 5 }, 5))));
    let old = RateRow { count: 40, expires_at: "2023-11-14T22:13:20Z".into() };
    assert!(matches!(plan_bump(Some(&old), now), Ok((RateAction::Reset { .. }, 1))));
    let broken = RateRow { count: 1, expires_at: "yesterday".into() };
    assert!(matches!(plan_bump(Some(&broken), now), Err(AppError::Internal(_))));
    assert!(check_attempts(10).is_ok());
    assert!(matches!(check_attempts(11), Err(AppError::TooManyRequests(m)) if m == "Too many attempts. Try again in a few minutes."));
}

#[test]
fn invites_and_tokens() {
    let t1 = generate_token();
    let t2 = generate_token();
    assert_eq!(t1.len(), 64);
    assert!(t1.chars().all(|c| c.is_ascii_hexdigit() && !c.is_ascii_uppercase()));
    assert_ne!(t1, t2);
    assert_eq!(hash_token("abc"), "ba7816bf8f01cfea414140de5dae2223b00361a396177a9cb410ff61f20015ad");
    assert_eq!(invite_token_hash(" abc ").ok(), Some(hash_token("abc")));
    assert!(matches!(invite_token_hash("  "), Err(AppError::NotFound(m)) if m == "Invite not found"));
    assert!(matches!(invite_token_hash(&"a".repeat(129)), Err(AppError::NotFound(_))));
    assert_eq!(share_path(&t1), format!("/share/{t1}"));
    assert_eq!(mortgagetrack::next::share_token_from_next(&share_path(&t1)), Some(t1.as_str()));
    let link = InviteRow { link_id: "l".into(), profile_id: "p".into(), created_by: "owner".into() };
    assert!(check_invite(Some(&link), "guest").is_ok());
    assert!(matches!(check_invite(Some(&link), "owner"), Err(AppError::BadRequest(m)) if m == "You already own this profile."));
    assert!(matches!(check_invite(None, "guest"), Err(AppError::NotFound(_))));
    assert!(check_invite_claimed(1).is_ok() && check_invite_claimed(0).is_err());
    assert!(check_can_leave(ProfileRole::Editor).is_ok());
    assert!(matches!(check_can_leave(ProfileRole::Owner), Err(AppError::BadRequest(m)) if m == "Owners cannot leave their own profile."));
    assert_eq!(next_active_profile(Some("p1"), "p1", &["p2".to_string()]), Some(Some("p2".to_string())));
    assert_eq!(next_active_profile(Some("p1"), "p1", &[]), Some(None));
    assert_eq!(next_active_profile(Some("p3"), "p1", &[]), None);
}

#[test]
fn mail_settings_and_reset_message() {
    assert!(matches!(mailer_config(None, None, None, None, None, None, None),
        Ok(MailerConfig::Log { from }) if from.address == "noreply@localhost" && from.name.is_none()));
    assert!(matches!(mailer_config(Some("a@x.com"), Some(" Team "), Some(" CF "), None, Some("acct"), Some("tok"), None),
        Ok(MailerConfig::Cloudflare { account_id, api_token, from }) if account_id == "acct" && api_token == "tok"
            && from.name.as_deref() == Some("Team")));
    assert!(matches!(mailer_config(Some("a@x.com"), None, Some("cloudflare"), None, None, Some("t"), None),
        Err(m) if m == "CF_ACCOUNT_ID (or CLOUDFLARE_ACCOUNT_ID) is required when MAIL_PROVIDER=cloudflare"));
    assert!(matches!(mailer_config(Some("a@x.com"), None, Some("cf"), Some("a"), None, None, Some("  ")),
        Err(m) if m == "CF_API_TOKEN (or CLOUDFLARE_API_TOKEN) is required when MAIL_PROVIDER=cloudflare"));
    assert!(matches!(mailer_config(None, None, Some("cf"), Some("a"), None, Some("t"), None),
        Err(m) if m == "MAIL_FROM must be set to an onboarded Cloudflare Email Sending address"));
    assert!(matches!(mailer_config(None, None, Some("Smtp"), None, None, None, None),
        Err(m) if m == "unknown MAIL_PROVIDER=\"smtp\"; use log or cloudflare"));
    assert_eq!(app_base_url_from_env(None), "http://127.0.0.1:3000");
    assert_eq!(app_base_url_from_env(Some(" https://x.com// ")), "https://x.com");
    let m = reset_email("https://x.com/", "Track", "a@b.com", "tok");
    assert_eq!(m.to, "a@b.com");
    assert_eq!(m.subject, "Reset your Track password");
    assert_eq!(m.text, "Reset your Track password using this link (expires in 1 hour):\n\nhttps://x.com/reset-password?token=tok\n\nIf you did not request this, you can ignore this email.");
    assert_eq!(m.html, "<p>Reset your Track password using the link below. It expires in 1 hour.</p><p><a href=\"https://x.com/reset-password?token=tok\">Reset password</a></p><p>If you did not request this, you can ignore this email.</p>");
}

#[test]
fn database_urls() {
    assert!(is_remote_url(" libsql://db.turso.io "));
    assert!(is_remote_url("http://localhost:8080"));
    assert!(!is_remote_url("sqlite:data.db"));
    assert_eq!(normalize_sqlite_path(" sqlite://a.db "), "a.db");
    assert_eq!(normalize_sqlite_path("sqlite:b.db"), "b.db");
    assert_eq!(normalize_sqlite_path("c.db"), "c.db");
    assert!(matches!(db_target(None, None, None, None), Ok(DbTarget::Local { path }) if path == "mortgage.db"));
    assert!(matches!(db_target(Some(" LOCAL "), None, None, Some("sqlite:/tmp/m.db")), Ok(DbTarget::Local { path }) if path == "/tmp/m.db"));
    assert!(matches!(db_target(None, None, None, Some("  ")), Err(m) if m.starts_with("DATABASE_URL is empty")));
    assert!(matches!(db_target(None, None, None, Some("libsql://db.turso.io")),
        Err(m) if m == "Remote Turso/libSQL URLs are no longer supported. Use DATABASE_URL=sqlite:mortgage.db locally, or DB_MODE=sql_rpc with DB_RPC_URL."));
    assert!(matches!(db_target(Some("sql_rpc"), None, Some("s"), None), Err(m) if m == "DB_RPC_URL is required when DB_MODE=sql_rpc"));
    assert!(matches!(db_target(Some("sql_rpc"), Some(" "), Some("s"), None), Err(m) if m == "DB_RPC_URL is empty"));
    assert!(matches!(db_target(Some("SQL_RPC"), Some("https://gw"), None, None), Err(m) if m == "INTERNAL_DB_SECRET is required when DB_MODE=sql_rpc"));
    assert!(matches!(db_target(Some("sql_rpc"), Some("https://gw"), Some(" "), None), Err(m) if m == "INTERNAL_DB_SECRET is empty"));
    assert!(matches!(db_target(Some(" sql_rpc "), Some(" https://gw/ "), Some(" k "), Some("ignored")),
        Ok(DbTarget::SqlRpc { rpc_url, secret }) if rpc_url == "https://gw/" && secret == "k"));
    assert_eq!(rpc_endpoint("https://gw//"), "https://gw/_internal/db");
    assert_eq!(rpc_endpoint("https://gw"), "https://gw/_internal/db");
}

#[test]
fn svg_is_deterministic() {
    let seed = "11111111-1111-1111-1111-111111111111";
    let da = identicon_digest(seed);
    let db = identicon_digest(seed);
    let a = identicon_svg(&da, &color_hex(da[28], da[29], da[30]));
    let b = identicon_svg(&db, &color_hex(db[28], db[29], db[30]));
    assert_eq!(a, b);
    assert!(a.starts_with("<svg"));
    assert!(a.contains("shape-rendering=\"crispEdges\""));
}

#[test]
fn different_seeds_differ() {
    let da = identicon_digest("user-a");
    let db = identicon_digest("user-b");
    let a = identicon_svg(&da, &color_hex(da[28], da[29], da[30]));
    let b = identicon_svg(&db, &color_hex(db[28], db[29], db[30]));
    assert_ne!(a, b);
}

#[test]
fn identicon_cells_follow_digest_parity() {
    let mut digest = vec![1u8; 32];
    digest[0] = 2;
    digest[5] = 4;
    let svg = identicon_svg(&digest, "#123456");
    let expected = [
        "<svg xmlns=\"http://www.w3.org/2000/svg\" viewBox=\"0 0 5 5\" shape-rendering=\"crispEdges\">",
        "<rect width=\"5\" height=\"5\" fill=\"#f0f0f0\"/>",
        "<rect x=\"2\" y=\"0\" width=\"1\" height=\"1\" fill=\"#123456\"/>",
        "<rect x=\"1\" y=\"0\" width=\"1\" height=\"1\" fill=\"#123456\"/>",
        "<rect x=\"3\" y=\"0\" width=\"1\" height=\"1\" fill=\"#123456\"/>",
        "</svg>",
    ]
    .join("");
    assert_eq!(svg, expected);
    assert_eq!(color_hex(255, 10, 0), "#ff0a00");
    digest[28] = 1;
    digest[29] = 2;
    digest[30] = 3;
    digest[31] = 4;
    assert_eq!(hue_seed(&digest), 0x01020304);
}
