//! Which database the settings name: a SQL gateway reached over HTTP, or a
//! local SQLite file.

use vstd::prelude::*;
use crate::text::{trim, trim_str, starts_with, to_owned_string, push_str, ascii_lower, to_ascii_lower, strip_end, trim_end_char, str_eq};
use crate::mail::ov;

verus! {

pub open spec fn has_prefix(s: Seq<char>, p: Seq<char>) -> bool {
    p.len() <= s.len() && s.subrange(0, p.len() as int) == p
}

/// URLs of a remote server.
pub open spec fn remote_spec(url: Seq<char>) -> bool {
    let u = trim(url);
    has_prefix(u, "libsql://"@) || has_prefix(u, "https://"@) || has_prefix(u, "http://"@)
}

pub fn is_remote_url(url: &str) -> (r: bool)
    ensures
        r == remote_spec(url@),
{
    let u = trim_str(url);
    starts_with(u, "libsql://") || starts_with(u, "https://") || starts_with(u, "http://")
}

/// A local database path: the trimmed URL without a `sqlite://` or `sqlite:` scheme.
pub open spec fn sqlite_path_spec(url: Seq<char>) -> Seq<char> {
    let u = trim(url);
    if has_prefix(u, "sqlite://"@) {
        u.subrange(9, u.len() as int)
    } else if has_prefix(u, "sqlite:"@) {
        u.subrange(7, u.len() as int)
    } else {
        u
    }
}

pub fn normalize_sqlite_path(url: &str) -> (r: String)
    ensures
        r@ == sqlite_path_spec(url@),
{
    let u = trim_str(url);
    let n = u.unicode_len();
    proof {
        reveal_strlit("sqlite://");
        reveal_strlit("sqlite:");
    }
    if starts_with(u, "sqlite://") {
        to_owned_string(u.substring_char(9, n))
    } else if starts_with(u, "sqlite:") {
        to_owned_string(u.substring_char(7, n))
    } else {
        to_owned_string(u)
    }
}

/// The database to open.
pub enum DbTarget {
    /// A SQL gateway over HTTP, with its base URL and the shared secret.
    SqlRpc { rpc_url: String, secret: String },
    /// A local SQLite file.
    Local { path: String },
}

/// The mode in force: `DB_MODE` trimmed and lower-cased, default `local`.
pub open spec fn mode_spec(raw: Option<Seq<char>>) -> Seq<char> {
    ascii_lower(trim(match raw { Some(m) => m, None => "local"@ }))
}

/// The database URL in force: `DATABASE_URL` trimmed, default `sqlite:mortgage.db`.
pub open spec fn url_spec(raw: Option<Seq<char>>) -> Seq<char> {
    match raw {
        Some(u) => trim(u),
        None => trim("sqlite:mortgage.db"@),
    }
}

/// The database the settings name. In `sql_rpc` mode the gateway URL and the
/// secret must both be given and not blank. Otherwise an empty URL is
/// refused, and so is a remote one; anything else is a local file.
pub fn db_target(
    mode_raw: Option<&str>,
    rpc_url_raw: Option<&str>,
    secret_raw: Option<&str>,
    url_raw: Option<&str>,
) -> (r: Result<DbTarget, String>)
    ensures
        ({
            if mode_spec(ov(mode_raw)) == "sql_rpc"@ {
                match rpc_url_raw {
                    None => r matches Err(m) && m@ == "DB_RPC_URL is required when DB_MODE=sql_rpc"@,
                    Some(u) => if trim(u@).len() == 0 {
                        r matches Err(m) && m@ == "DB_RPC_URL is empty"@
                    } else {
                        match secret_raw {
                            None => r matches Err(m) && m@ == "INTERNAL_DB_SECRET is required when DB_MODE=sql_rpc"@,
                            Some(t) => if trim(t@).len() == 0 {
                                r matches Err(m) && m@ == "INTERNAL_DB_SECRET is empty"@
                            } else {
                                r matches Ok(DbTarget::SqlRpc { rpc_url, secret }) && rpc_url@ == trim(u@)
                                    && secret@ == trim(t@)
                            },
                        }
                    },
                }
            } else {
                let url = url_spec(ov(url_raw));
                if url.len() == 0 {
                    r matches Err(m) && m@ == "DATABASE_URL is empty (check .env and that your shell is not exporting an empty DATABASE_URL)"@
                } else if remote_spec(url) {
                    r matches Err(m) && m@ == "Remote Turso/libSQL URLs are no longer supported. Use DATABASE_URL=sqlite:mortgage.db locally, or DB_MODE=sql_rpc with DB_RPC_URL."@
                } else {
                    r matches Ok(DbTarget::Local { path }) && path@ == sqlite_path_spec(url)
                }
            }
        }),
{
    let mode = match mode_raw {
        Some(m) => to_ascii_lower(trim_str(m)),
        None => to_ascii_lower(trim_str("local")),
    };
    if str_eq(mode.as_str(), "sql_rpc") {
        let rpc_url = match rpc_url_raw {
            Some(u) => to_owned_string(trim_str(u)),
            None => return Err(String::from_str("DB_RPC_URL is required when DB_MODE=sql_rpc")),
        };
        if rpc_url.as_str().unicode_len() == 0 {
            return Err(String::from_str("DB_RPC_URL is empty"));
        }
        let secret = match secret_raw {
            Some(t) => to_owned_string(trim_str(t)),
            None => return Err(String::from_str("INTERNAL_DB_SECRET is required when DB_MODE=sql_rpc")),
        };
        if secret.as_str().unicode_len() == 0 {
            return Err(String::from_str("INTERNAL_DB_SECRET is empty"));
        }
        return Ok(DbTarget::SqlRpc { rpc_url, secret });
    }
    let url: String = match url_raw {
        Some(u) => to_owned_string(trim_str(u)),
        None => to_owned_string(trim_str("sqlite:mortgage.db")),
    };
    if url.as_str().unicode_len() == 0 {
        return Err(String::from_str("DATABASE_URL is empty (check .env and that your shell is not exporting an empty DATABASE_URL)"));
    }
    proof {
        crate::text::lemma_trim_idempotent(url@);
    }
    if is_remote_url(url.as_str()) {
        return Err(String::from_str("Remote Turso/libSQL URLs are no longer supported. Use DATABASE_URL=sqlite:mortgage.db locally, or DB_MODE=sql_rpc with DB_RPC_URL."));
    }
    Ok(DbTarget::Local { path: normalize_sqlite_path(url.as_str()) })
}

/// Where the gateway takes statements: the base URL without trailing
/// slashes, then `/_internal/db`.
pub fn rpc_endpoint(rpc_url: &str) -> (r: String)
    ensures
        r@ == strip_end(rpc_url@, '/') + "/_internal/db"@,
{
    let mut out = trim_end_char(rpc_url, '/');
    push_str(&mut out, "/_internal/db");
    out
}

} // verus!
