//! Outbound mail: which backend the environment selects, the site origin for
//! links, and the password-reset message.

use vstd::prelude::*;
use crate::text::{trim, trim_str, to_owned_string, to_ascii_lower, ascii_lower, str_eq, push_str, debug_quoted, debug_text, strip_end, trim_end_char};

verus! {

/// An outgoing message.
pub struct Message {
    pub to: String,
    pub subject: String,
    pub text: String,
    pub html: String,
}

/// A sender address with an optional display name.
pub struct MailAddress {
    pub address: String,
    pub name: Option<String>,
}

/// The mail backend the environment selects.
pub enum MailerConfig {
    /// Log messages (including reset links) instead of sending them.
    Log { from: MailAddress },
    /// Cloudflare Email Sending REST API.
    Cloudflare { account_id: String, api_token: String, from: MailAddress },
}

/// A setting's trimmed value when it is set and not blank.
pub open spec fn optional_spec(raw: Option<Seq<char>>) -> Option<Seq<char>> {
    match raw {
        Some(v) => if trim(v).len() > 0 { Some(trim(v)) } else { None },
        None => None,
    }
}

pub open spec fn ov(o: Option<&str>) -> Option<Seq<char>> {
    match o {
        Some(s) => Some(s@),
        None => None,
    }
}

pub open spec fn osv(o: Option<String>) -> Option<Seq<char>> {
    match o {
        Some(s) => Some(s@),
        None => None,
    }
}

pub fn optional_env(raw: Option<&str>) -> (r: Option<String>)
    ensures
        osv(r) == optional_spec(ov(raw)),
{
    match raw {
        Some(v) => {
            let t = trim_str(v);
            if t.unicode_len() > 0 { Some(to_owned_string(t)) } else { None }
        },
        None => None,
    }
}

/// The first of two settings that is set.
pub open spec fn either_spec(a: Option<Seq<char>>, b: Option<Seq<char>>) -> Option<Seq<char>> {
    match optional_spec(a) {
        Some(v) => Some(v),
        None => optional_spec(b),
    }
}

/// The sender: `MAIL_FROM` (default `noreply@localhost`) and `MAIL_FROM_NAME`.
pub open spec fn sender_ok(from: MailAddress, mail_from: Option<Seq<char>>, from_name: Option<Seq<char>>) -> bool {
    &&& from.address@ == match optional_spec(mail_from) { Some(a) => a, None => "noreply@localhost"@ }
    &&& osv(from.name) == optional_spec(from_name)
}

/// The provider name: `MAIL_PROVIDER` lower-cased, default `log`.
pub open spec fn provider_spec(provider: Option<Seq<char>>) -> Seq<char> {
    match optional_spec(provider) { Some(p) => ascii_lower(p), None => "log"@ }
}

/// The backend for the mail settings. `log` logs; `cloudflare` (or `cf`)
/// needs an account id and an API token (each from its `CF_` setting or its
/// `CLOUDFLARE_` fallback) and a real sender address; any other provider is
/// refused.
pub fn mailer_config(
    mail_from: Option<&str>,
    mail_from_name: Option<&str>,
    provider: Option<&str>,
    cf_account_id: Option<&str>,
    cloudflare_account_id: Option<&str>,
    cf_api_token: Option<&str>,
    cloudflare_api_token: Option<&str>,
) -> (r: Result<MailerConfig, String>)
    ensures
        ({
            let p = provider_spec(ov(provider));
            let account = either_spec(ov(cf_account_id), ov(cloudflare_account_id));
            let token = either_spec(ov(cf_api_token), ov(cloudflare_api_token));
            let addr = match optional_spec(ov(mail_from)) { Some(a) => a, None => "noreply@localhost"@ };
            if p == "log"@ {
                r matches Ok(MailerConfig::Log { from }) && sender_ok(from, ov(mail_from), ov(mail_from_name))
            } else if p == "cloudflare"@ || p == "cf"@ {
                if account is None {
                    r matches Err(m) && m@ == "CF_ACCOUNT_ID (or CLOUDFLARE_ACCOUNT_ID) is required when MAIL_PROVIDER=cloudflare"@
                } else if token is None {
                    r matches Err(m) && m@ == "CF_API_TOKEN (or CLOUDFLARE_API_TOKEN) is required when MAIL_PROVIDER=cloudflare"@
                } else if addr == "noreply@localhost"@ || addr.len() == 0 {
                    r matches Err(m) && m@ == "MAIL_FROM must be set to an onboarded Cloudflare Email Sending address"@
                } else {
                    r matches Ok(MailerConfig::Cloudflare { account_id, api_token, from })
                        && Some(account_id@) == account && Some(api_token@) == token
                        && sender_ok(from, ov(mail_from), ov(mail_from_name))
                }
            } else {
                r matches Err(m) && m@ == "unknown MAIL_PROVIDER="@ + debug_text(p) + "; use log or cloudflare"@
            }
        }),
{
    let address = match optional_env(mail_from) {
        Some(a) => a,
        None => String::from_str("noreply@localhost"),
    };
    let from = MailAddress { address, name: optional_env(mail_from_name) };
    let p = match optional_env(provider) {
        Some(v) => to_ascii_lower(v.as_str()),
        None => String::from_str("log"),
    };
    if str_eq(p.as_str(), "log") {
        return Ok(MailerConfig::Log { from });
    }
    if str_eq(p.as_str(), "cloudflare") || str_eq(p.as_str(), "cf") {
        let account_id = match optional_env(cf_account_id) {
            Some(a) => a,
            None => match optional_env(cloudflare_account_id) {
                Some(a) => a,
                None => return Err(String::from_str("CF_ACCOUNT_ID (or CLOUDFLARE_ACCOUNT_ID) is required when MAIL_PROVIDER=cloudflare")),
            },
        };
        let api_token = match optional_env(cf_api_token) {
            Some(t) => t,
            None => match optional_env(cloudflare_api_token) {
                Some(t) => t,
                None => return Err(String::from_str("CF_API_TOKEN (or CLOUDFLARE_API_TOKEN) is required when MAIL_PROVIDER=cloudflare")),
            },
        };
        if str_eq(from.address.as_str(), "noreply@localhost") || from.address.as_str().unicode_len() == 0 {
            return Err(String::from_str("MAIL_FROM must be set to an onboarded Cloudflare Email Sending address"));
        }
        return Ok(MailerConfig::Cloudflare { account_id, api_token, from });
    }
    let mut msg = String::from_str("unknown MAIL_PROVIDER=");
    let q = debug_quoted(p.as_str());
    push_str(&mut msg, q.as_str());
    push_str(&mut msg, "; use log or cloudflare");
    Err(msg)
}

/// Public site origin used in emailed links, without trailing slashes
/// (from `APP_BASE_URL`, default `http://127.0.0.1:3000`).
pub fn app_base_url_from_env(raw: Option<&str>) -> (r: String)
    ensures
        r@ == strip_end(match optional_spec(ov(raw)) { Some(u) => u, None => "http://127.0.0.1:3000"@ }, '/'),
{
    let base = match optional_env(raw) {
        Some(u) => u,
        None => String::from_str("http://127.0.0.1:3000"),
    };
    trim_end_char(base.as_str(), '/')
}

/// The link a reset email carries.
pub open spec fn reset_url(base: Seq<char>, token: Seq<char>) -> Seq<char> {
    strip_end(base, '/') + "/reset-password?token="@ + token
}

/// The password-reset email to `to` with the link for `token`.
pub fn reset_email(app_base_url: &str, app_name: &str, to: &str, token: &str) -> (r: Message)
    ensures
        r.to@ == to@,
        r.subject@ == "Reset your "@ + app_name@ + " password"@,
        r.text@ == "Reset your "@ + app_name@ + " password using this link (expires in 1 hour):\n\n"@
            + reset_url(app_base_url@, token@) + "\n\nIf you did not request this, you can ignore this email."@,
        r.html@ == "<p>Reset your "@ + app_name@ + " password using the link below. It expires in 1 hour.</p><p><a href=\""@
            + reset_url(app_base_url@, token@) + "\">Reset password</a></p><p>If you did not request this, you can ignore this email.</p>"@,
{
    let mut url = trim_end_char(app_base_url, '/');
    push_str(&mut url, "/reset-password?token=");
    push_str(&mut url, token);
    let mut subject = String::from_str("Reset your ");
    push_str(&mut subject, app_name);
    push_str(&mut subject, " password");
    let mut text = String::from_str("Reset your ");
    push_str(&mut text, app_name);
    push_str(&mut text, " password using this link (expires in 1 hour):\n\n");
    push_str(&mut text, url.as_str());
    push_str(&mut text, "\n\nIf you did not request this, you can ignore this email.");
    let mut html = String::from_str("<p>Reset your ");
    push_str(&mut html, app_name);
    push_str(&mut html, " password using the link below. It expires in 1 hour.</p><p><a href=\"");
    push_str(&mut html, url.as_str());
    push_str(&mut html, "\">Reset password</a></p><p>If you did not request this, you can ignore this email.</p>");
    Message { to: to_owned_string(to), subject, text, html }
}

} // verus!
