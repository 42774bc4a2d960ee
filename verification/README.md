# MortgageTrack

A mortgage amortization payment-schedule tracker: several loan profiles per
account, paid and extra (recasting) payments, notes, home improvements, CSV
export, and profiles shared through invite links.

## Layout

* `src/` — the library, verified with Verus: dates and the payment schedule's
  events, the calendar, payments table, summary strip and chart buckets,
  CSV export, redirect targets, CSRF tokens, accounts, roles and paid access,
  rate limits, sharing invites, settings, mail and database configuration.
  Each public function states what it returns in its contract; the laws that
  relate several functions are the `law_*` proof functions.
* `app/` — the web server around it (Axum, Askama, libSQL or the SQL gateway,
  sessions, mail over HTTP), and the floating-point amortization arithmetic.
* `tests/` — tests of the library on concrete values.
