//! Payment schedule CSV export.

use vstd::prelude::*;
use crate::text::{push_char, push_str, contains_char};
use crate::dates::{Date, valid_date, ymd_text, format_ymd};
use crate::schedule::{RowKind, RowInfo, key_in, contains_key, lookup_last, lookup_note};
use crate::view::PaymentFilter;

verus! {

/// Internal quotes doubled.
pub open spec fn double_quotes(s: Seq<char>) -> Seq<char>
    decreases s.len(),
{
    if s.len() == 0 {
        Seq::empty()
    } else {
        double_quotes(s.drop_last()) + if s.last() == '"' {
            seq!['"', '"']
        } else {
            seq![s.last()]
        }
    }
}

/// A field needs quoting when it holds a quote, comma or line break.
pub open spec fn needs_quotes(s: Seq<char>) -> bool {
    s.contains('"') || s.contains(',') || s.contains('\n') || s.contains('\r')
}

/// RFC 4180 field escaping.
pub open spec fn csv_escape_spec(s: Seq<char>) -> Seq<char> {
    if s.len() == 0 || !needs_quotes(s) {
        s
    } else {
        seq!['"'] + double_quotes(s) + seq!['"']
    }
}

/// RFC 4180-ish field escaping: quote when needed; double internal quotes.
pub fn csv_escape(value: &str) -> (r: String)
    ensures
        r@ == csv_escape_spec(value@),
{
    let n = value.unicode_len();
    if n == 0 {
        return String::new();
    }
    if !(contains_char(value, '"') || contains_char(value, ',') || contains_char(value, '\n')
        || contains_char(value, '\r')) {
        return String::from_str(value);
    }
    let mut out = String::new();
    push_char(&mut out, '"');
    let mut i: usize = 0;
    while i < n
        invariant
            n == value@.len(),
            i <= n,
            out@ == seq!['"'] + double_quotes(value@.subrange(0, i as int)),
        decreases n - i,
    {
        let ch = value.get_char(i);
        if ch == '"' {
            push_char(&mut out, '"');
        }
        push_char(&mut out, ch);
        proof {
            let p = value@.subrange(0, i + 1);
            assert(p.drop_last() =~= value@.subrange(0, i as int));
            assert(p.last() == ch);
        }
        i = i + 1;
        assert(out@ =~= seq!['"'] + double_quotes(value@.subrange(0, i as int)));
    }
    push_char(&mut out, '"');
    assert(value@.subrange(0, n as int) =~= value@);
    out
}

pub open spec fn is_ascii_alnum(c: char) -> bool {
    ('0' <= c && c <= '9') || ('a' <= c && c <= 'z') || ('A' <= c && c <= 'Z')
}

/// Stem characters before trimming: lowercased alphanumerics, and one `-`
/// for each run of spaces, dashes and underscores.
pub open spec fn stem_raw(s: Seq<char>) -> Seq<char>
    decreases s.len(),
{
    if s.len() == 0 {
        Seq::empty()
    } else {
        let r = stem_raw(s.drop_last());
        let c = s.last();
        if is_ascii_alnum(c) {
            r.push(crate::text::lower_char(c))
        } else if (c == ' ' || c == '-' || c == '_') && !(r.len() > 0 && r.last() == '-') {
            r.push('-')
        } else {
            r
        }
    }
}

/// Leading dashes removed.
pub open spec fn ltrim_dash(s: Seq<char>) -> Seq<char>
    decreases s.len(),
{
    if s.len() > 0 && s[0] == '-' {
        ltrim_dash(s.drop_first())
    } else {
        s
    }
}

/// Trailing dashes removed.
pub open spec fn rtrim_dash(s: Seq<char>) -> Seq<char>
    decreases s.len(),
{
    if s.len() > 0 && s.last() == '-' {
        rtrim_dash(s.drop_last())
    } else {
        s
    }
}

pub open spec fn filename_stem_spec(name: Seq<char>) -> Seq<char> {
    let stem = rtrim_dash(ltrim_dash(stem_raw(name)));
    if stem.len() == 0 {
        "payments"@
    } else {
        "payments-"@ + stem
    }
}

proof fn lemma_ltrim_dash(s: Seq<char>, k: int)
    requires
        0 <= k <= s.len(),
        forall|j: int| 0 <= j < k ==> s[j] == '-',
        k < s.len() ==> s[k] != '-',
    ensures
        ltrim_dash(s) == s.subrange(k, s.len() as int),
    decreases k,
{
    if k > 0 {
        let t = s.drop_first();
        assert forall|j: int| 0 <= j < k - 1 implies t[j] == '-' by {
            assert(t[j] == s[j + 1]);
        }
        if k < s.len() {
            assert(t[k - 1] == s[k]);
        }
        lemma_ltrim_dash(t, k - 1);
        assert(t.subrange(k - 1, t.len() as int) =~= s.subrange(k, s.len() as int));
    } else {
        assert(s.subrange(0, s.len() as int) =~= s);
    }
}

proof fn lemma_rtrim_dash(s: Seq<char>, k: int)
    requires
        0 <= k <= s.len(),
        forall|j: int| k <= j < s.len() ==> s[j] == '-',
        k > 0 ==> s[k - 1] != '-',
    ensures
        rtrim_dash(s) == s.subrange(0, k),
    decreases s.len() - k,
{
    if k < s.len() {
        let t = s.drop_last();
        assert forall|j: int| k <= j < t.len() implies t[j] == '-' by {
            assert(t[j] == s[j]);
        }
        lemma_rtrim_dash(t, k);
        assert(t.subrange(0, k) =~= s.subrange(0, k));
    } else {
        assert(s.subrange(0, k) =~= s);
    }
}

/// Safe Content-Disposition filename stem from a profile name.
pub fn csv_filename_stem(profile_name: &str) -> (r: String)
    ensures
        r@ == filename_stem_spec(profile_name@),
{
    let n = profile_name.unicode_len();
    let mut stem = String::new();
    let mut i: usize = 0;
    while i < n
        invariant
            n == profile_name@.len(),
            i <= n,
            stem@ == stem_raw(profile_name@.subrange(0, i as int)),
        decreases n - i,
    {
        let ch = profile_name.get_char(i);
        let ghost before = stem@;
        proof {
            let p = profile_name@.subrange(0, i + 1);
            assert(p.drop_last() =~= profile_name@.subrange(0, i as int));
            assert(p.last() == ch);
        }
        let len = stem.as_str().unicode_len();
        if ('0' <= ch && ch <= '9') || ('a' <= ch && ch <= 'z') || ('A' <= ch && ch <= 'Z') {
            push_char(&mut stem, crate::text::to_lower_char(ch));
        } else if (ch == ' ' || ch == '-' || ch == '_') && !(len > 0 && stem.as_str().get_char(len - 1) == '-') {
            push_char(&mut stem, '-');
        }
        i = i + 1;
    }
    assert(profile_name@.subrange(0, n as int) =~= profile_name@);
    let s = stem.as_str();
    let len = s.unicode_len();
    let mut a: usize = 0;
    while a < len && s.get_char(a) == '-'
        invariant
            len == s@.len(),
            a <= len,
            forall|j: int| 0 <= j < a ==> s@[j] == '-',
        decreases len - a,
    {
        a = a + 1;
    }
    let mut b: usize = len;
    while b > a && s.get_char(b - 1) == '-'
        invariant
            len == s@.len(),
            a <= b <= len,
            forall|j: int| b <= j < len ==> s@[j] == '-',
        decreases b - a,
    {
        b = b - 1;
    }
    proof {
        lemma_ltrim_dash(s@, a as int);
        let t = s@.subrange(a as int, len as int);
        assert forall|j: int| b - a <= j < t.len() implies t[j] == '-' by {
            assert(t[j] == s@[a + j]);
        }
        if b > a {
            assert(t[b - a - 1] == s@[b - 1]);
        }
        lemma_rtrim_dash(t, b - a);
        assert(t.subrange(0, b - a) =~= s@.subrange(a as int, b as int));
    }
    let trimmed = s.substring_char(a, b);
    if a == b {
        String::from_str("payments")
    } else {
        let mut out = String::from_str("payments-");
        push_str(&mut out, trimmed);
        out
    }
}

/// A schedule row with its amounts already rendered with two decimals.
pub struct CsvLine {
    pub info: RowInfo,
    pub payment: String,
    pub principal: String,
    pub interest: String,
    pub balance: String,
}

/// Whether a row is shown under a filter.
pub open spec fn row_matches_filter_spec(row: RowInfo, paid: Seq<String>, filter: PaymentFilter, today: Date) -> bool {
    let is_paid = key_in(paid, row.pay_key@);
    match filter {
        PaymentFilter::Paid => is_paid,
        PaymentFilter::Unpaid => !is_paid,
        PaymentFilter::Year => row.due.year == today.year,
        PaymentFilter::Extra => row.kind == RowKind::Extra,
        PaymentFilter::All => true,
    }
}

/// What each filter keeps: "this year" keeps exactly the rows due in
/// today's year, "paid" and "unpaid" split the rows by whether their pay key
/// is marked paid, "extras" keeps the extra payments, "all" keeps every row.
pub proof fn law_filters_keep_what_they_name(row: RowInfo, paid: Seq<String>, today: Date)
    ensures
        row_matches_filter_spec(row, paid, PaymentFilter::Year, today) <==> row.due.year == today.year,
        row_matches_filter_spec(row, paid, PaymentFilter::Paid, today)
            <==> exists|p: int| 0 <= p < paid.len() && #[trigger] paid[p]@ == row.pay_key@,
        row_matches_filter_spec(row, paid, PaymentFilter::Unpaid, today)
            <==> !exists|p: int| 0 <= p < paid.len() && #[trigger] paid[p]@ == row.pay_key@,
        row_matches_filter_spec(row, paid, PaymentFilter::Extra, today) <==> row.kind == RowKind::Extra,
        row_matches_filter_spec(row, paid, PaymentFilter::All, today),
{
}

pub fn row_matches_filter(row: &RowInfo, paid: &[String], filter: PaymentFilter, today: Date) -> (r: bool)
    ensures
        r == row_matches_filter_spec(*row, paid@, filter, today),
{
    let is_paid = contains_key(paid, row.pay_key.as_str());
    match filter {
        PaymentFilter::Paid => is_paid,
        PaymentFilter::Unpaid => !is_paid,
        PaymentFilter::Year => row.due.year == today.year,
        PaymentFilter::Extra => row.kind == RowKind::Extra,
        PaymentFilter::All => true,
    }
}

pub open spec fn row_type_spec(row: RowInfo) -> Seq<char> {
    match row.kind {
        RowKind::Scheduled => "scheduled"@,
        RowKind::Extra => if row.recast {
            "recast"@
        } else {
            "extra"@
        },
    }
}

pub fn row_type(row: &RowInfo) -> (r: &'static str)
    ensures
        r@ == row_type_spec(*row),
{
    match row.kind {
        RowKind::Scheduled => "scheduled",
        RowKind::Extra => if row.recast {
            "recast"
        } else {
            "extra"
        },
    }
}

/// One CSV record for a row.
pub open spec fn csv_record(line: CsvLine, paid: Seq<String>, notes: Seq<(String, String)>) -> Seq<char> {
    let note = match lookup_last(notes, line.info.pay_key@) {
        Some(n) => n,
        None => Seq::empty(),
    };
    csv_escape_spec(line.info.label@) + seq![','] + ymd_text(line.info.due) + seq![','] + row_type_spec(line.info)
        + seq![','] + line.payment@ + seq![','] + line.principal@ + seq![','] + line.interest@ + seq![',']
        + line.balance@ + seq![','] + (if key_in(paid, line.info.pay_key@) { "paid"@ } else { "unpaid"@ })
        + seq![','] + csv_escape_spec(note) + seq!['\n']
}

/// Records of the rows the filter keeps, in order.
pub open spec fn csv_body(lines: Seq<CsvLine>, paid: Seq<String>, notes: Seq<(String, String)>, filter: PaymentFilter, today: Date) -> Seq<char>
    decreases lines.len(),
{
    if lines.len() == 0 {
        Seq::empty()
    } else {
        csv_body(lines.drop_last(), paid, notes, filter, today) + if row_matches_filter_spec(lines.last().info, paid, filter, today) {
            csv_record(lines.last(), paid, notes)
        } else {
            Seq::empty()
        }
    }
}

pub open spec fn csv_header() -> Seq<char> {
    "label,due_date,type,payment,principal,interest,balance,status,note\n"@
}

/// Appends the CSV record of one row.
#[verifier::rlimit(60)]
fn push_record(out: &mut String, row: &CsvLine, paid: &[String], notes: &[(String, String)])
    requires
        valid_date(row.info.due),
    ensures
        final(out)@ == old(out)@ + csv_record(*row, paid@, notes@),
{
    let is_paid = contains_key(paid, row.info.pay_key.as_str());
    let note: &str = match lookup_note(notes, row.info.pay_key.as_str()) {
        Some(n) => n.as_str(),
        None => "",
    };
    proof {
        reveal_strlit("");
    }
    let label = csv_escape(row.info.label.as_str());
    push_str(out, label.as_str());
    push_char(out, ',');
    let due = format_ymd(row.info.due);
    push_str(out, due.as_str());
    push_char(out, ',');
    push_str(out, row_type(&row.info));
    push_char(out, ',');
    push_str(out, row.payment.as_str());
    push_char(out, ',');
    push_str(out, row.principal.as_str());
    push_char(out, ',');
    push_str(out, row.interest.as_str());
    push_char(out, ',');
    push_str(out, row.balance.as_str());
    push_char(out, ',');
    push_str(out, if is_paid { "paid" } else { "unpaid" });
    push_char(out, ',');
    let esc = csv_escape(note);
    push_str(out, esc.as_str());
    push_char(out, '\n');
    assert(note@ == match lookup_last(notes@, row.info.pay_key@) { Some(n) => n, None => Seq::empty() });
    assert(final(out)@ =~= old(out)@ + csv_record(*row, paid@, notes@));
}

/// Build a CSV document for the payment schedule (header + filtered rows).
pub fn payments_csv(rows: &[CsvLine], paid: &[String], notes: &[(String, String)], filter: PaymentFilter, today: Date) -> (r: String)
    requires
        forall|i: int| 0 <= i < rows@.len() ==> valid_date(#[trigger] rows@[i].info.due),
    ensures
        r@ == csv_header() + csv_body(rows@, paid@, notes@, filter, today),
{
    let mut out = String::from_str("label,due_date,type,payment,principal,interest,balance,status,note\n");
    let mut i: usize = 0;
    while i < rows.len()
        invariant
            i <= rows@.len(),
            forall|k: int| 0 <= k < rows@.len() ==> valid_date(#[trigger] rows@[k].info.due),
            out@ == csv_header() + csv_body(rows@.subrange(0, i as int), paid@, notes@, filter, today),
        decreases rows@.len() - i,
    {
        let row = &rows[i];
        let ghost before = out@;
        let keep = row_matches_filter(&row.info, paid, filter, today);
        if keep {
            push_record(&mut out, row, paid, notes);
        }
        proof {
            let p = rows@.subrange(0, i + 1);
            assert(p.drop_last() =~= rows@.subrange(0, i as int));
            assert(p.last() == rows@[i as int]);
            assert(csv_body(p, paid@, notes@, filter, today) == csv_body(rows@.subrange(0, i as int), paid@, notes@, filter, today) + if keep { csv_record(rows@[i as int], paid@, notes@) } else { Seq::empty() });
        }
        i = i + 1;
        assert(out@ =~= csv_header() + csv_body(rows@.subrange(0, i as int), paid@, notes@, filter, today));
    }
    assert(rows@.subrange(0, rows@.len() as int) =~= rows@);
    out
}

/// A field read back under RFC 4180: a quoted field loses its outer quotes
/// and has its doubled quotes undone; any other field is taken as it is.
pub open spec fn csv_unquote(f: Seq<char>) -> Seq<char> {
    if f.len() >= 2 && f[0] == '"' && f.last() == '"' {
        undouble(f.subrange(1, f.len() - 1))
    } else {
        f
    }
}

/// Doubled quotes undone.
pub open spec fn undouble(t: Seq<char>) -> Seq<char>
    decreases t.len(),
{
    if t.len() == 0 {
        Seq::empty()
    } else if t.len() >= 2 && t.last() == '"' && t[t.len() - 2] == '"' {
        undouble(t.subrange(0, t.len() - 2)).push('"')
    } else {
        undouble(t.drop_last()).push(t.last())
    }
}

proof fn lemma_undouble(s: Seq<char>)
    ensures
        undouble(double_quotes(s)) == s,
    decreases s.len(),
{
    if s.len() > 0 {
        let p = s.drop_last();
        lemma_undouble(p);
        let d = double_quotes(p);
        let t = double_quotes(s);
        if s.last() == '"' {
            assert(t == d + seq!['"', '"']);
            assert(t.subrange(0, t.len() - 2) =~= d);
        } else {
            assert(t == d + seq![s.last()]);
            assert(t.drop_last() =~= d);
        }
        assert(p.push(s.last()) =~= s);
    }
}

proof fn lemma_no_quote_undoubled(s: Seq<char>)
    requires
        !s.contains('"'),
    ensures
        double_quotes(s) == s,
    decreases s.len(),
{
    if s.len() > 0 {
        let p = s.drop_last();
        assert(!p.contains('"')) by {
            if p.contains('"') {
                let j = choose|j: int| 0 <= j < p.len() && p[j] == '"';
                assert(s[j] == '"');
            }
        }
        assert(s.last() == s[s.len() - 1]);
        lemma_no_quote_undoubled(p);
        assert(p.push(s.last()) =~= s);
    }
}

/// Every exported field reads back as the value it was made from.
pub proof fn law_csv_field_round_trip(s: Seq<char>)
    ensures
        csv_unquote(csv_escape_spec(s)) == s,
{
    if s.len() == 0 || !needs_quotes(s) {
        if s.len() >= 2 && s[0] == '"' {
            assert(s.contains('"'));
        }
    } else {
        let f = csv_escape_spec(s);
        lemma_undouble(s);
        assert(f.subrange(1, f.len() - 1) =~= double_quotes(s));
    }
}

/// Characters a file-name stem may hold.
pub open spec fn stem_char(c: char) -> bool {
    ('a' <= c && c <= 'z') || ('0' <= c && c <= '9') || c == '-'
}

/// Lower-case letters, digits and single dashes.
pub open spec fn stem_ok(s: Seq<char>) -> bool {
    &&& forall|i: int| 0 <= i < s.len() ==> stem_char(#[trigger] s[i])
    &&& forall|i: int| 0 <= i < s.len() - 1 ==> !(#[trigger] s[i] == '-' && s[i + 1] == '-')
}

proof fn lemma_stem_raw_ok(s: Seq<char>)
    ensures
        stem_ok(stem_raw(s)),
    decreases s.len(),
{
    if s.len() > 0 {
        lemma_stem_raw_ok(s.drop_last());
        let r = stem_raw(s.drop_last());
        let c = s.last();
        if is_ascii_alnum(c) {
            let l = crate::text::lower_char(c);
            assert(stem_char(l));
            let n = r.push(l);
            assert forall|i: int| 0 <= i < n.len() - 1 implies !(#[trigger] n[i] == '-' && n[i + 1] == '-') by {
                if i < r.len() - 1 {
                    assert(n[i] == r[i] && n[i + 1] == r[i + 1]);
                }
            }
        } else if (c == ' ' || c == '-' || c == '_') && !(r.len() > 0 && r.last() == '-') {
            let n = r.push('-');
            assert forall|i: int| 0 <= i < n.len() - 1 implies !(#[trigger] n[i] == '-' && n[i + 1] == '-') by {
                if i < r.len() - 1 {
                    assert(n[i] == r[i] && n[i + 1] == r[i + 1]);
                } else {
                    assert(n[i] == r.last());
                }
            }
        }
    }
}

proof fn lemma_ltrim_dash_ok(s: Seq<char>)
    requires
        stem_ok(s),
    ensures
        stem_ok(ltrim_dash(s)),
        ltrim_dash(s).len() > 0 ==> ltrim_dash(s)[0] != '-',
        ltrim_dash(s).len() <= s.len(),
        ltrim_dash(s) == s.subrange(s.len() - ltrim_dash(s).len(), s.len() as int),
    decreases s.len(),
{
    if s.len() > 0 && s[0] == '-' {
        let t = s.drop_first();
        assert forall|i: int| 0 <= i < t.len() - 1 implies !(#[trigger] t[i] == '-' && t[i + 1] == '-') by {
            assert(t[i] == s[i + 1] && t[i + 1] == s[i + 2]);
        }
        assert forall|i: int| 0 <= i < t.len() implies stem_char(#[trigger] t[i]) by {
            assert(t[i] == s[i + 1]);
        }
        lemma_ltrim_dash_ok(t);
        assert(t.subrange(t.len() - ltrim_dash(t).len(), t.len() as int) =~= s.subrange(s.len() - ltrim_dash(s).len(), s.len() as int));
    } else {
        assert(s.subrange(0, s.len() as int) =~= s);
    }
}

proof fn lemma_rtrim_dash_ok(s: Seq<char>)
    requires
        stem_ok(s),
        s.len() > 0 ==> s[0] != '-',
    ensures
        stem_ok(rtrim_dash(s)),
        rtrim_dash(s).len() > 0 ==> rtrim_dash(s)[0] != '-' && rtrim_dash(s).last() != '-',
        rtrim_dash(s) == s.subrange(0, rtrim_dash(s).len() as int),
    decreases s.len(),
{
    if s.len() > 0 && s.last() == '-' {
        let t = s.drop_last();
        assert forall|i: int| 0 <= i < t.len() - 1 implies !(#[trigger] t[i] == '-' && t[i + 1] == '-') by {
            assert(t[i] == s[i] && t[i + 1] == s[i + 1]);
        }
        assert forall|i: int| 0 <= i < t.len() implies stem_char(#[trigger] t[i]) by {
            assert(t[i] == s[i]);
        }
        if t.len() > 0 {
            assert(t[0] == s[0]);
        }
        lemma_rtrim_dash_ok(t);
        assert(t.subrange(0, rtrim_dash(t).len() as int) =~= s.subrange(0, rtrim_dash(s).len() as int));
    } else {
        assert(s.subrange(0, s.len() as int) =~= s);
    }
}

/// Export file names are `payments`, or `payments-` and a stem of lower-case
/// letters, digits and single dashes that neither starts nor ends with a dash.
pub proof fn law_filename_stem_is_clean(name: Seq<char>)
    ensures
        filename_stem_spec(name) == "payments"@ || exists|t: Seq<char>| {
            &&& filename_stem_spec(name) == "payments-"@ + t
            &&& t.len() > 0 && stem_ok(t) && t[0] != '-' && t.last() != '-'
        },
{
    let raw = stem_raw(name);
    lemma_stem_raw_ok(name);
    lemma_ltrim_dash_ok(raw);
    lemma_rtrim_dash_ok(ltrim_dash(raw));
    let stem = rtrim_dash(ltrim_dash(raw));
    if stem.len() > 0 {
        assert(filename_stem_spec(name) == "payments-"@ + stem);
    }
}

} // verus!
