use mortgagetrack::dashboard::{calendar_months, chip_for, note_fields, note_json, payment_groups, payments_table, RowAmounts, YearTotals};
use mortgagetrack::dates::{add_months, days_in_month, fmt_date, format_ymd, months_between, parse_date, payment_status, Date};
use mortgagetrack::error::AppError;
use mortgagetrack::schedule::{
    due_unpaid_keys, extra_pay_key, extras_as_inputs, row_info, schedule_events, ExtraRecord, RowInfo, RowKind,
};
use mortgagetrack::view::{
    empty_state, format_money, format_money_whole, format_years_saved, status_label, PaymentFilter, TabId,
};

fn d(s: &str) -> Date {
    parse_date(s).ok().unwrap()
}

fn sched(n: i32, due: &str) -> RowInfo {
    RowInfo { kind: RowKind::Scheduled, label: n.to_string(), id: None, due: d(due), pay_key: due.into(), recast: false }
}

fn extra(id: &str, due: &str, recast: bool) -> RowInfo {
    RowInfo {
        kind: RowKind::Extra,
        label: if recast { "Recast".into() } else { "Extra".into() },
        id: Some(id.into()),
        due: d(due),
        pay_key: format!("extra:{id}"),
        recast,
    }
}

#[test]
fn dates_parse_format_and_move() {
    let jan31 = d("2024-01-31");
    assert_eq!(format_ymd(add_months(jan31, 1)), "2024-02-29");
    assert_eq!(format_ymd(add_months(jan31, 13)), "2025-02-28");
    assert_eq!(format_ymd(add_months(jan31, -2)), "2023-11-30");
    assert_eq!(format_ymd(add_months(jan31, 0)), "2024-01-31");
    assert_eq!(months_between(d("2024-11-15"), d("2026-02-01")), 15);
    assert_eq!(days_in_month(2100, 2), 28);
    assert_eq!(days_in_month(2000, 2), 29);
    assert_eq!(fmt_date(d("2026-03-05")), "Mar 5, 2026");
    assert_eq!(format_ymd(d("0999-01-02")), "0999-01-02");
    assert!(matches!(parse_date("2026-02-30"), Err(AppError::BadRequest(m)) if m == "Invalid date"));
    assert!(matches!(parse_date("soon"), Err(AppError::BadRequest(_))));
    assert_eq!(Date::from_ymd(2026, 2, 29), None);
}

#[test]
fn payment_status_labels() {
    let today = d("2026-05-10");
    assert_eq!(payment_status(d("2026-04-01"), true, today), "paid");
    assert_eq!(payment_status(d("2026-04-01"), false, today), "missed");
    assert_eq!(payment_status(d("2026-05-20"), false, today), "due");
    assert_eq!(payment_status(d("2026-06-01"), false, today), "future");
    assert_eq!(status_label("due"), "Due this month");
    assert_eq!(status_label("missed"), "Past due");
    assert_eq!(status_label("future"), "Upcoming");
    assert_eq!(status_label("paid"), "Paid");
}

#[test]
fn tabs_filters_and_copy() {
    for t in [TabId::Summary, TabId::Calendar, TabId::Payments, TabId::Improvements, TabId::Chart] {
        assert_eq!(TabId::try_parse(t.as_str()), Some(t));
    }
    assert_eq!(TabId::Chart.label(), "Breakdown");
    assert_eq!(TabId::try_parse("Chart"), None);
    for f in [PaymentFilter::All, PaymentFilter::Unpaid, PaymentFilter::Paid, PaymentFilter::Year, PaymentFilter::Extra] {
        assert_eq!(PaymentFilter::parse(f.as_str()), f);
    }
    assert_eq!(PaymentFilter::parse("bogus"), PaymentFilter::All);
    assert_eq!(empty_state(true).action, "edit");
    assert_eq!(empty_state(false).title, "No mortgage yet");
}

#[test]
fn money_and_years_saved_text() {
    assert_eq!(format_money(false, 1234567, 5), "$1,234,567.05");
    assert_eq!(format_money(true, 999, 120), "-$999.99");
    assert_eq!(format_money(false, 0, -3), "$0.00");
    assert_eq!(format_money_whole(false, 1000), "$1,000");
    assert_eq!(format_money_whole(true, 12), "-$12");
    assert_eq!(format_years_saved(0), "0 Yrs Saved");
    assert_eq!(format_years_saved(7), "7 Mo Saved");
    assert_eq!(format_years_saved(24), "2 Yrs Saved");
    assert_eq!(format_years_saved(30), "2.5 Yrs Saved");
}

/// The one-decimal year text agrees with float formatting for every term length.
#[test]
fn years_saved_matches_float_formatting() {
    for months in 12..=600i32 {
        let years = months as f64 / 12.0;
        let expected = if (years - years.round()).abs() < 0.05 {
            format!("{:.0} Yrs Saved", years.round())
        } else {
            format!("{:.1} Yrs Saved", years)
        };
        assert_eq!(format_years_saved(months), expected, "months = {months}");
    }
}

#[test]
fn schedule_orders_installments_and_extras() {
    let extras = vec![
        ExtraRecord { id: "b".into(), date: "2026-02-01".into(), recast: true, positive: true },
        ExtraRecord { id: "a".into(), date: "2026-01-15".into(), recast: false, positive: true },
        ExtraRecord { id: "zero".into(), date: "2026-01-20".into(), recast: false, positive: false },
        ExtraRecord { id: "bad".into(), date: "someday".into(), recast: false, positive: true },
    ];
    let paid = vec!["extra:b".to_string()];
    let inputs = extras_as_inputs(&extras, &paid);
    assert_eq!(inputs.len(), 3);
    assert!(inputs[0].applied && !inputs[1].applied);
    let events = schedule_events(1, d("2026-01-01"), &inputs);
    assert_eq!(events.len(), 14);
    let rows: Vec<RowInfo> = events.iter().map(|e| row_info(e, &inputs)).collect();
    let keys: Vec<&str> = rows.iter().take(5).map(|r| r.pay_key.as_str()).collect();
    assert_eq!(keys, vec!["2026-01-01", "extra:a", "2026-02-01", "extra:b", "2026-03-01"]);
    assert_eq!(rows[0].label, "1");
    assert_eq!(rows[3].label, "Recast");
    assert_eq!(rows[13].pay_key, "2026-12-01");
    assert_eq!(extra_pay_key("x1"), "extra:x1");
    let due = due_unpaid_keys(&rows, &["2026-01-01".to_string()], d("2026-03-01"));
    assert_eq!(due, vec!["2026-02-01".to_string(), "2026-03-01".to_string()]);
}

#[test]
fn notes_render_as_json() {
    assert_eq!(note_json("say \"hi\"\n"), "\"say \\\"hi\\\"\\n\"");
    let notes = vec![("2026-01-01".to_string(), "  ".to_string()), ("2026-02-01".to_string(), "check".to_string())];
    assert_eq!(note_fields(&notes, "2026-01-01"), (false, "\"  \"".to_string()));
    assert_eq!(note_fields(&notes, "2026-02-01"), (true, "\"check\"".to_string()));
    assert_eq!(note_fields(&notes, "2026-03-01"), (false, "\"\"".to_string()));
}

#[test]
fn calendar_groups_chips_by_month() {
    let rows = vec![sched(1, "2026-01-01"), extra("x", "2026-01-20", false), sched(2, "2026-02-01"), sched(3, "2027-01-01")];
    let amounts: Vec<String> = vec!["$1.00".into(), "$2.00".into(), "$3.00".into(), "$4.00".into()];
    let shown = vec![true, false, false, true];
    let paid = vec!["2026-01-01".to_string()];
    let today = d("2026-02-10");
    let months = calendar_months(&rows, &amounts, &shown, &paid, 2026, today);
    assert_eq!(months.len(), 12);
    assert_eq!(months[0].name, "January");
    assert_eq!(months[0].chips.len(), 2);
    assert_eq!(months[0].chips[0].status, "paid");
    assert_eq!(months[0].chips[0].aria, "Mark unpaid");
    assert_eq!(months[0].chips[1].status_text, "Extra · Past due");
    assert!(months[0].chips[1].is_extra);
    assert!(months[1].is_current && months[1].is_empty);
    assert!(months[11].is_empty && !months[11].is_current);
    let chip = chip_for(&rows[2], "$3.00".into(), &paid, today);
    assert_eq!(chip.status, "missed");
    assert_eq!(chip.status_text, "Past due");
    let later = chip_for(&rows[2], "$3.00".into(), &paid, d("2026-02-01"));
    assert_eq!(later.status, "due");
    assert_eq!(later.status_text, "Due this month");
}

#[test]
fn payments_table_groups_years_and_marks_this_month() {
    let rows = vec![
        sched(1, "2025-12-01"),
        sched(2, "2026-01-01"),
        extra("r", "2026-01-15", true),
        sched(3, "2026-02-01"),
    ];
    let paid = vec!["2025-12-01".to_string()];
    let today = d("2026-01-20");
    let groups = payment_groups(&rows, &paid, PaymentFilter::Unpaid, today);
    assert_eq!(groups.len(), 1);
    assert_eq!(groups[0].year, 2026);
    assert_eq!(groups[0].rows, vec![1, 2, 3]);
    let all = payment_groups(&rows, &paid, PaymentFilter::All, today);
    assert_eq!(all.iter().map(|g| g.year).collect::<Vec<_>>(), vec![2025, 2026]);
    let amounts: Vec<RowAmounts> = (0..4)
        .map(|i| RowAmounts {
            payment: format!("p{i}"),
            principal: format!("q{i}"),
            interest: format!("i{i}"),
            balance: format!("b{i}"),
            balance_short: format!("s{i}"),
            zeroed: i == 3,
        })
        .collect();
    let totals = vec![
        YearTotals { payment: "T25".into(), principal: "P25".into(), interest: "I25".into() },
        YearTotals { payment: "T26".into(), principal: "P26".into(), interest: "I26".into() },
    ];
    let notes = vec![("extra:r".to_string(), "bonus".to_string())];
    let table = payments_table(&rows, &amounts, &all, &totals, &paid, &notes, today);
    assert_eq!(table.len(), 6);
    assert!(table[0].is_year_header && table[0].year_label == "2025" && table[0].payment == "T25");
    assert!(!table[0].is_current_year);
    assert!(table[1].paid && table[1].due == "Dec 1, 2025");
    assert!(table[2].is_year_header && table[2].is_current_year);
    assert!(table[3].is_current_month && table[3].label_html == "2");
    assert!(!table[4].is_current_month);
    assert_eq!(table[4].label_html, "<span class=\"type-pill\">Recast</span>");
    assert!(table[4].has_note && table[4].extra_id == "r" && table[4].is_extra);
    assert!(table[5].zeroed && table[5].payment == "p3");
}
