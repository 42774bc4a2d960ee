use mortgagetrack::csrf::{csrf_body_allows, csrf_first_step, CsrfStep};
use mortgagetrack::dates::{current_date_override, Date};
use mortgagetrack::error::{require_affected, AppError};
use mortgagetrack::page::{check_can_create_profile, copy_name, paid_change, profile_name, toggle_refresh, PaidChange, ToggleRefresh};
use mortgagetrack::passwords::{hash_password, verify_password};
use mortgagetrack::schedule::{due_by_month_keys, row_info, schedule_events, RowInfo, RowKind};
use mortgagetrack::session::session_live;
use mortgagetrack::settings::avatar_user_id;
use mortgagetrack::sharing::share_signup_location;
use mortgagetrack::templates::pending_share_token;
use mortgagetrack::users::Instant;

fn date(y: i32, m: u32, d: u32) -> Date {
    Date::from_ymd(y, m, d).unwrap()
}

fn row(kind: RowKind, due: Date, key: &str) -> RowInfo {
    RowInfo { kind, label: key.to_string(), id: None, due, pay_key: key.to_string(), recast: false }
}

#[test]
fn password_hash_round_trip() {
    let hash = hash_password("correct horse battery").unwrap();
    assert!(hash.starts_with("$argon2"));
    assert!(matches!(verify_password("correct horse battery", &hash), Ok(true)));
    assert!(matches!(verify_password("wrong password", &hash), Ok(false)));
}

#[test]
fn malformed_password_hash_is_internal_error() {
    match verify_password("anything", "not-a-hash") {
        Err(AppError::Internal(m)) => assert_eq!(m, "Invalid stored password hash"),
        other => panic!("unexpected {other:?}"),
    }
}

#[test]
fn current_date_override_parses_or_explains() {
    assert!(matches!(current_date_override(None), Ok(None)));
    assert!(matches!(current_date_override(Some("   ")), Ok(None)));
    assert_eq!(current_date_override(Some(" 2026-03-15 ")).unwrap(), Some(date(2026, 3, 15)));
    let err = current_date_override(Some("15/03/2026")).unwrap_err();
    assert!(err.starts_with("CURRENT_DATE must be YYYY-MM-DD, got \"15/03/2026\": "), "{err}");
}

#[test]
fn avatar_url_names_a_user() {
    let id = avatar_user_id("67e55044-10b1-426f-9247-bb680e5fe0c8.svg").unwrap();
    assert_eq!(id[0], 0x67);
    assert_eq!(id[15], 0xc8);
    assert_eq!(avatar_user_id("67e55044-10b1-426f-9247-bb680e5fe0c8").unwrap(), id);
    match avatar_user_id("../etc/passwd.svg") {
        Err(AppError::NotFound(m)) => assert_eq!(m, "Avatar not found."),
        other => panic!("unexpected {other:?}"),
    }
}

#[test]
fn csrf_steps() {
    assert_eq!(csrf_first_step("GET", "tok", None), CsrfStep::Allow);
    assert_eq!(csrf_first_step("POST", "tok", Some("tok")), CsrfStep::Allow);
    assert_eq!(csrf_first_step("POST", "tok", Some("other")), CsrfStep::Reject);
    assert_eq!(csrf_first_step("DELETE", "tok", None), CsrfStep::ReadBody);
    let ct = Some("application/x-www-form-urlencoded");
    let good = b"name=x&csrf_token=tok";
    assert!(csrf_body_allows("tok", good, ct));
    let bad = b"name=x&csrf_token=nope";
    assert!(!csrf_body_allows("tok", bad, ct));
    assert!(!csrf_body_allows("tok", good, Some("application/json")));
    assert!(!csrf_body_allows("tok", "csrf_token=%€x".as_bytes(), ct));
}

#[test]
fn toggle_refresh_choices() {
    assert_eq!(toggle_refresh(Some("payments"), "2026-01-01"), ToggleRefresh::Payments { invalidate_chart: false });
    assert_eq!(toggle_refresh(Some("payments"), "extra:abc"), ToggleRefresh::Payments { invalidate_chart: true });
    assert_eq!(toggle_refresh(None, "extra:abc"), ToggleRefresh::Calendar);
    assert_eq!(toggle_refresh(Some("calendar"), "2026-01-01"), ToggleRefresh::StaleOnly);
}

#[test]
fn paid_change_writes_only_differences() {
    assert_eq!(paid_change(true, true), PaidChange::Unchanged);
    assert_eq!(paid_change(false, false), PaidChange::Unchanged);
    assert_eq!(paid_change(false, true), PaidChange::Insert);
    assert_eq!(paid_change(true, false), PaidChange::Delete);
}

#[test]
fn share_links_for_signed_out_visitors() {
    assert_eq!(share_signup_location("abc123"), "/register?next=%2Fshare%2Fabc123");
    let token = "a".repeat(64);
    assert_eq!(pending_share_token(Some(&format!("/share/{token}"))), Some(token));
    assert_eq!(pending_share_token(Some("/settings")), None);
    assert_eq!(pending_share_token(Some("https://evil.example/share/abc")), None);
    assert_eq!(pending_share_token(None), None);
}

#[test]
fn require_affected_counts_rows() {
    assert!(require_affected(1, "Profile not found").is_ok());
    match require_affected(0, "Profile not found") {
        Err(AppError::NotFound(m)) => assert_eq!(m, "Profile not found"),
        other => panic!("unexpected {other:?}"),
    }
}

#[test]
fn mark_due_takes_rows_through_this_month() {
    let today = date(2026, 3, 10);
    let rows = vec![
        row(RowKind::Scheduled, date(2026, 2, 1), "2026-02-01"),
        row(RowKind::Extra, date(2026, 3, 5), "extra:a"),
        row(RowKind::Scheduled, date(2026, 3, 28), "2026-03-28"),
        row(RowKind::Scheduled, date(2026, 4, 1), "2026-04-01"),
    ];
    assert_eq!(due_by_month_keys(&rows, today), vec!["2026-02-01", "extra:a", "2026-03-28"]);
}

#[test]
fn profile_names_are_trimmed_and_required() {
    assert_eq!(profile_name("  Home  ").unwrap(), "Home");
    match profile_name("   ") {
        Err(AppError::BadRequest(m)) => assert_eq!(m, "Enter a profile name."),
        other => panic!("unexpected {other:?}"),
    }
}

#[test]
fn copy_names_stay_within_sixty_characters() {
    assert_eq!(copy_name(" Home "), "Home (copy)");
    let long = "x".repeat(70);
    let copied = copy_name(&long);
    assert_eq!(copied.chars().count(), 60);
    assert!(copied.ends_with(" (copy)"));
    assert_eq!(copy_name("ééé"), "ééé (copy)");
}

#[test]
fn sessions_expire_at_their_expiry_date() {
    let expiry = "2026-01-01T00:00:00Z";
    let before = Instant { secs: 1_767_225_599, nanos: 0 };
    let at = Instant { secs: 1_767_225_600, nanos: 0 };
    assert_eq!(session_live(expiry, before), Ok(true));
    assert_eq!(session_live(expiry, at), Ok(false));
    assert!(session_live("yesterday", at).is_err());
}

#[test]
fn thirty_year_schedule_has_360_installments() {
    let events = schedule_events(30, date(2026, 8, 1), &[]);
    assert_eq!(events.len(), 360);
    let last = row_info(&events[359], &[]);
    assert_eq!(last.pay_key, "2056-07-01");
    assert_eq!(last.label, "360");
}

#[test]
fn error_messages_name_the_kind_of_failure() {
    assert_eq!(AppError::BadRequest("Enter a profile name.".into()).message(), "Enter a profile name.");
    assert_eq!(AppError::NotFound("Profile not found".into()).message(), "Profile not found");
    assert_eq!(AppError::Database("locked".into()).message(), "Database error: locked");
    assert_eq!(AppError::Internal("boom".into()).message(), "Internal error: boom");
    assert_eq!(AppError::Template("bad".into()).message(), "Template error: bad");
}

#[test]
fn free_accounts_own_one_profile() {
    assert!(check_can_create_profile(false, 0).is_ok());
    assert!(check_can_create_profile(true, 3).is_ok());
    match check_can_create_profile(false, 1) {
        Err(AppError::BadRequest(m)) => assert_eq!(m, "Creating more than one profile is a pro feature."),
        other => panic!("unexpected {other:?}"),
    }
}

#[test]
fn saved_note_reads_back() {
    let stored = mortgagetrack::page::note_update("  call the bank  ").unwrap().unwrap();
    assert_eq!(stored, "call the bank");
    let notes = vec![("2026-03-01".to_string(), stored), ("extra:a".to_string(), "x".to_string())];
    assert_eq!(mortgagetrack::dashboard::note_fields(&notes, "2026-03-01"), (true, "\"call the bank\"".to_string()));
    assert_eq!(mortgagetrack::dashboard::note_fields(&notes, "2026-04-01"), (false, "\"\"".to_string()));
    assert!(mortgagetrack::page::note_update("   ").unwrap().is_none());
}

#[test]
fn stored_user_ids_parse_as_uuids() {
    let mut user = mortgagetrack::users::User {
        id: "67e55044-10b1-426f-9247-bb680e5fe0c8".into(),
        email: "a@b.co".into(),
        created_at: "2026-01-01 00:00:00".into(),
        avatar: None,
        default_tab: "calendar".into(),
        payments_year_expand: "current".into(),
        role: "user".into(),
        paid_until: None,
    };
    let id = user.uuid().unwrap();
    assert_eq!(mortgagetrack::identity::user_key(&id), user.id);
    user.id = "not-a-uuid".into();
    match user.uuid() {
        Err(AppError::Internal(m)) => assert_eq!(m, "invalid user id in database"),
        other => panic!("unexpected {other:?}"),
    }
}

#[test]
fn edge_identities_project_onto_user_rows() {
    let until = Instant { secs: 1_767_225_600, nanos: 0 };
    let p = mortgagetrack::identity::user_projection(" a@b.co ", mortgagetrack::users::UserRole::Admin, Some(until)).unwrap();
    assert_eq!(p.email, "a@b.co");
    assert_eq!(p.role, "admin");
    assert_eq!(p.paid_until.as_deref(), Some("2026-01-01T00:00:00+00:00"));
    let mut user = mortgagetrack::users::User {
        id: "67e55044-10b1-426f-9247-bb680e5fe0c8".into(),
        email: "a@b.co".into(),
        created_at: String::new(),
        avatar: None,
        default_tab: "calendar".into(),
        payments_year_expand: "current".into(),
        role: "admin".into(),
        paid_until: Some("2026-01-01T00:00:00+00:00".into()),
    };
    assert!(!mortgagetrack::identity::projection_differs(&user, &p));
    user.role = "user".into();
    assert!(mortgagetrack::identity::projection_differs(&user, &p));
    match mortgagetrack::identity::user_projection("nobody", mortgagetrack::users::UserRole::User, None) {
        Err(AppError::BadRequest(m)) => assert_eq!(m, "Enter a valid email address."),
        _ => panic!("expected a refusal"),
    }
}

#[test]
fn notes_are_written_as_json_strings() {
    assert_eq!(mortgagetrack::dashboard::note_json("a\"b\\c\n\t\u{1}é"), "\"a\\\"b\\\\c\\n\\t\\u0001é\"");
    assert_eq!(
        mortgagetrack::templates::panel_trigger_json("pay\"ments", false).as_deref(),
        Some("{\"markPanelsStale\":{\"invalidateChart\":false,\"keep\":\"pay\\\"ments\"}}")
    );
}

#[test]
fn later_notes_replace_earlier_ones() {
    let notes = vec![("k".to_string(), "old".to_string()), ("k".to_string(), "new".to_string())];
    assert_eq!(mortgagetrack::dashboard::note_fields(&notes, "k"), (true, "\"new\"".to_string()));
}
