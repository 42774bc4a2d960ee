use mortgagetrack::dates::Date;
use mortgagetrack::export::{csv_escape, csv_filename_stem, payments_csv, CsvLine};
use mortgagetrack::schedule::{RowInfo, RowKind};
use mortgagetrack::view::PaymentFilter;

fn date(s: &str) -> Date {
    mortgagetrack::dates::parse_date(s).ok().unwrap()
}

fn row(label: &str, due: &str, kind: RowKind, pay_key: &str, payment: f64, recast: bool) -> CsvLine {
    CsvLine {
        info: RowInfo {
            kind,
            label: label.into(),
            id: None,
            due: date(due),
            pay_key: pay_key.into(),
            recast,
        },
        payment: format!("{:.2}", payment),
        principal: format!("{:.2}", payment * 0.6),
        interest: format!("{:.2}", payment * 0.4),
        balance: format!("{:.2}", 100_000.0f64),
    }
}

#[test]
fn csv_escape_quotes_and_commas() {
    assert_eq!(csv_escape("plain"), "plain");
    assert_eq!(csv_escape("a,b"), "\"a,b\"");
    assert_eq!(csv_escape("say \"hi\""), "\"say \"\"hi\"\"\"");
}

#[test]
fn filename_stem_sanitizes() {
    assert_eq!(csv_filename_stem("My Home"), "payments-my-home");
    assert_eq!(csv_filename_stem("!!!"), "payments");
    assert_eq!(csv_filename_stem("A/B Condo"), "payments-ab-condo");
}

#[test]
fn payments_csv_filters_and_types() {
    let today = Date { year: 2026, month: 3, day: 15 };
    let rows = vec![
        row("1", "2026-01-01", RowKind::Scheduled, "2026-01-01", 1000.0, false),
        row("2", "2026-02-01", RowKind::Scheduled, "2026-02-01", 1000.0, false),
        row("Extra", "2026-02-15", RowKind::Extra, "extra:abc", 5000.0, false),
        row("Recast", "2025-12-01", RowKind::Extra, "extra:rec", 2000.0, true),
    ];
    let paid = vec!["2026-01-01".to_string()];
    let notes = vec![("2026-02-01".to_string(), "bonus, \"tax\"".to_string())];

    let all = payments_csv(&rows, &paid, &notes, PaymentFilter::All, today);
    assert!(all.starts_with("label,due_date,type,payment,principal,interest,balance,status,note\n"));
    assert!(all.contains("1,2026-01-01,scheduled,1000.00,600.00,400.00,100000.00,paid,"));
    assert!(all.contains(
        "2,2026-02-01,scheduled,1000.00,600.00,400.00,100000.00,unpaid,\"bonus, \"\"tax\"\"\""
    ));
    assert!(all.contains("Extra,2026-02-15,extra,5000.00,"));
    assert!(all.contains("Recast,2025-12-01,recast,2000.00,"));

    let paid_only = payments_csv(&rows, &paid, &notes, PaymentFilter::Paid, today);
    assert!(paid_only.contains("2026-01-01"));
    assert!(!paid_only.contains("2026-02-01"));

    let year = payments_csv(&rows, &paid, &notes, PaymentFilter::Year, today);
    assert!(year.contains("2026-01-01"));
    assert!(!year.contains("2025-12-01"));

    let extras = payments_csv(&rows, &paid, &notes, PaymentFilter::Extra, today);
    assert!(extras.contains(",extra,"));
    assert!(extras.contains(",recast,"));
    assert!(!extras.contains(",scheduled,"));
}

#[test]
fn escape_leaves_empty_and_quotes_line_breaks() {
    assert_eq!(csv_escape(""), "");
    assert_eq!(csv_escape("a\nb"), "\"a\nb\"");
    assert_eq!(csv_filename_stem("  Lake -- House__2 "), "payments-lake-house-2");
}
