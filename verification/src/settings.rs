//! Account settings: avatars, tab choices and the settings page data.

use vstd::prelude::*;
use crate::text::{str_eq, push_str, to_owned_string};
use crate::view::{TabId, tab_name, tab_label, tab_from, all_tabs, tab_at};
use crate::users::{AuthUser, UserRole};
use crate::auth::SettingsQuery;
use crate::error::{AppError, not_found, is_not_found};
use crate::identity::{parse_uuid, uuid_bytes};

verus! {

/// Selectable avatar ids (`static/avatars/{id}.webp`), in selector order.
pub open spec fn avatar_ids() -> Seq<Seq<char>> {
    seq!["barrow"@, "boat"@, "boot"@, "car"@, "dog"@, "hat"@, "iron"@, "thimble"@]
}

/// Number of selectable avatars.
pub const AVATAR_COUNT: usize = 8;

/// The `i`-th selectable avatar id.
pub fn avatar_option_id(i: usize) -> (r: &'static str)
    requires
        i < AVATAR_COUNT,
    ensures
        r@ == avatar_ids()[i as int],
{
    match i {
        0 => "barrow",
        1 => "boat",
        2 => "boot",
        3 => "car",
        4 => "dog",
        5 => "hat",
        6 => "iron",
        _ => "thimble",
    }
}

/// Whether `avatar` is one of the selectable ids.
pub fn is_valid_avatar(avatar: &str) -> (r: bool)
    ensures
        r == avatar_ids().contains(avatar@),
{
    let mut i: usize = 0;
    while i < AVATAR_COUNT
        invariant
            i <= AVATAR_COUNT,
            forall|j: int| 0 <= j < i ==> avatar_ids()[j] != avatar@,
        decreases AVATAR_COUNT - i,
    {
        if str_eq(avatar, avatar_option_id(i)) {
            assert(avatar_ids()[i as int] == avatar@);
            return true;
        }
        i = i + 1;
    }
    assert(avatar_ids().len() == 8);
    false
}

/// Index of the avatar picked for a user who has not chosen one: the
/// little-endian value of the id's first two bytes, modulo the option count.
pub open spec fn default_avatar_index(user_id: Seq<u8>) -> int {
    (user_id[0] + 256 * user_id[1]) % 8
}

/// Stable pick from the selector when the user has not chosen one yet.
pub fn default_avatar_id(user_id: &[u8; 16]) -> (r: &'static str)
    ensures
        r@ == avatar_ids()[default_avatar_index(user_id@)],
{
    let idx: usize = (user_id[0] as usize + 256 * user_id[1] as usize) % AVATAR_COUNT;
    avatar_option_id(idx)
}

/// The avatar shown for a user: the chosen one when it is selectable, else
/// the default pick.
pub open spec fn resolved_avatar(user_id: Seq<u8>, avatar: Option<Seq<char>>) -> Seq<char> {
    match avatar {
        Some(a) => if avatar_ids().contains(a) { a } else { avatar_ids()[default_avatar_index(user_id)] },
        None => avatar_ids()[default_avatar_index(user_id)],
    }
}

pub fn resolved_avatar_id(user_id: &[u8; 16], avatar: Option<&str>) -> (r: &'static str)
    ensures
        r@ == resolved_avatar(user_id@, match avatar { Some(a) => Some(a@), None => None }),
{
    if let Some(a) = avatar {
        let mut i: usize = 0;
        while i < AVATAR_COUNT
            invariant
                i <= AVATAR_COUNT,
                avatar == Some(a),
                forall|j: int| 0 <= j < i ==> avatar_ids()[j] != a@,
            decreases AVATAR_COUNT - i,
        {
            let id = avatar_option_id(i);
            if str_eq(a, id) {
                assert(avatar_ids()[i as int] == a@);
                assert(avatar_ids().contains(a@));
                return id;
            }
            i = i + 1;
        }
        assert(avatar_ids().len() == 8);
        assert(!avatar_ids().contains(a@));
    }
    default_avatar_id(user_id)
}

/// Image path of an avatar id.
pub open spec fn avatar_path(id: Seq<char>) -> Seq<char> {
    "/static/avatars/"@ + id + ".webp"@
}

/// Image URL for a user: chosen avatar, or a stable pick from the selector.
pub fn avatar_src(user_id: &[u8; 16], avatar: Option<&str>) -> (r: String)
    ensures
        r@ == avatar_path(resolved_avatar(user_id@, match avatar { Some(a) => Some(a@), None => None })),
{
    let id = resolved_avatar_id(user_id, avatar);
    let mut out = String::from_str("/static/avatars/");
    push_str(&mut out, id);
    push_str(&mut out, ".webp");
    out
}

/// An avatar in the selector.
pub struct AvatarOption {
    pub id: String,
    pub selected: bool,
}

/// A choice in a settings select (tabs, year expansion).
pub struct TabOption {
    pub id: String,
    pub label: String,
    pub selected: bool,
}

/// The avatar selector with `current` marked.
pub fn avatar_options(current: &str) -> (r: Vec<AvatarOption>)
    ensures
        r@.len() == avatar_ids().len(),
        forall|i: int| 0 <= i < r@.len() ==> (#[trigger] r@[i]).id@ == avatar_ids()[i]
            && r@[i].selected == (avatar_ids()[i] == current@),
{
    let mut out: Vec<AvatarOption> = Vec::new();
    let mut i: usize = 0;
    while i < AVATAR_COUNT
        invariant
            i <= AVATAR_COUNT,
            out@.len() == i,
            forall|j: int| 0 <= j < i ==> (#[trigger] out@[j]).id@ == avatar_ids()[j]
                && out@[j].selected == (avatar_ids()[j] == current@),
        decreases AVATAR_COUNT - i,
    {
        let id = avatar_option_id(i);
        out.push(AvatarOption { id: String::from_str(id), selected: str_eq(id, current) });
        i = i + 1;
    }
    out
}

/// The tab selector with `current` marked.
pub fn tab_options(current: TabId) -> (r: Vec<TabOption>)
    ensures
        r@.len() == all_tabs().len(),
        forall|i: int| 0 <= i < r@.len() ==> (#[trigger] r@[i]).id@ == tab_name(all_tabs()[i])
            && r@[i].label@ == tab_label(all_tabs()[i]) && r@[i].selected == (all_tabs()[i] == current),
{
    let mut out: Vec<TabOption> = Vec::new();
    let mut i: usize = 0;
    while i < 5
        invariant
            i <= 5,
            out@.len() == i,
            forall|j: int| 0 <= j < i ==> (#[trigger] out@[j]).id@ == tab_name(all_tabs()[j])
                && out@[j].label@ == tab_label(all_tabs()[j]) && out@[j].selected == (all_tabs()[j] == current),
        decreases 5 - i,
    {
        let t = tab_at(i);
        out.push(TabOption { id: String::from_str(t.as_str()), label: String::from_str(t.label()), selected: t == current });
        i = i + 1;
    }
    out
}

/// Data of the settings page.
pub struct SettingsTemplate {
    pub csrf_token: String,
    pub app_name: String,
    pub email: String,
    pub avatar_src: String,
    pub avatar_options: Vec<AvatarOption>,
    pub tab_options: Vec<TabOption>,
    pub year_expand_options: Vec<TabOption>,
    pub avatar_updated: bool,
    pub avatar_error: bool,
    pub default_tab_updated: bool,
    pub default_tab_error: bool,
    pub year_expand_updated: bool,
    pub year_expand_error: bool,
    pub password_updated: bool,
    pub password_error: String,
    pub delete_error: String,
    pub auth_edge: bool,
    pub is_admin: bool,
    pub is_paid: bool,
    pub billing_success: bool,
}

/// Whether a query flag holds exactly `word`.
pub open spec fn flag_is(v: Option<String>, word: Seq<char>) -> bool {
    match v {
        Some(s) => s@ == word,
        None => false,
    }
}

fn flag_eq(v: &Option<String>, word: &str) -> (r: bool)
    ensures
        r == flag_is(*v, word@),
{
    match v {
        Some(s) => str_eq(s.as_str(), word),
        None => false,
    }
}

/// The tab a stored preference names (the calendar when unknown).
pub open spec fn tab_or_calendar(s: Seq<char>) -> TabId {
    match tab_from(s) {
        Some(t) => t,
        None => TabId::Calendar,
    }
}

/// The settings page of `user`. `year_expand_options` are the payment-year
/// expansion choices, `auth_edge` whether sign-in is handled at the edge.
pub fn settings_template(
    user: &AuthUser,
    csrf_token: String,
    app_name: String,
    q: &SettingsQuery,
    year_expand_options: Vec<TabOption>,
    auth_edge: bool,
) -> (r: SettingsTemplate)
    ensures
        r.csrf_token@ == csrf_token@,
        r.app_name@ == app_name@,
        r.email@ == user.email@,
        r.avatar_src@ == avatar_path(resolved_avatar(user.id@, match user.avatar { Some(a) => Some(a@), None => None })),
        r.avatar_options@.len() == avatar_ids().len(),
        forall|i: int| 0 <= i < r.avatar_options@.len() ==> (#[trigger] r.avatar_options@[i]).id@ == avatar_ids()[i]
            && r.avatar_options@[i].selected == (avatar_ids()[i] == resolved_avatar(user.id@, match user.avatar { Some(a) => Some(a@), None => None })),
        r.tab_options@.len() == all_tabs().len(),
        forall|i: int| 0 <= i < r.tab_options@.len() ==> (#[trigger] r.tab_options@[i]).id@ == tab_name(all_tabs()[i])
            && r.tab_options@[i].label@ == tab_label(all_tabs()[i])
            && r.tab_options@[i].selected == (all_tabs()[i] == tab_or_calendar(user.default_tab@)),
        r.year_expand_options == year_expand_options,
        r.avatar_updated == flag_is(q.avatar, "updated"@),
        r.avatar_error == flag_is(q.avatar, "error"@),
        r.default_tab_updated == flag_is(q.tab, "updated"@),
        r.default_tab_error == flag_is(q.tab, "error"@),
        r.year_expand_updated == flag_is(q.years, "updated"@),
        r.year_expand_error == flag_is(q.years, "error"@),
        r.password_updated == flag_is(q.password, "updated"@),
        r.password_error@.len() == 0,
        r.delete_error@.len() == 0,
        r.auth_edge == auth_edge,
        r.is_admin == (user.role == UserRole::Admin),
        user.role == UserRole::Admin ==> r.is_paid,
        (user.role != UserRole::Admin && user.paid_until is None) ==> !r.is_paid,
        !r.billing_success,
{
    let avatar: Option<&str> = match &user.avatar {
        Some(a) => Some(a.as_str()),
        None => None,
    };
    let current = resolved_avatar_id(&user.id, avatar);
    let current_tab = TabId::parse(user.default_tab.as_str());
    SettingsTemplate {
        csrf_token,
        app_name,
        email: user.email.clone(),
        avatar_src: avatar_src(&user.id, avatar),
        avatar_options: avatar_options(current),
        tab_options: tab_options(current_tab),
        year_expand_options,
        avatar_updated: flag_eq(&q.avatar, "updated"),
        avatar_error: flag_eq(&q.avatar, "error"),
        default_tab_updated: flag_eq(&q.tab, "updated"),
        default_tab_error: flag_eq(&q.tab, "error"),
        year_expand_updated: flag_eq(&q.years, "updated"),
        year_expand_error: flag_eq(&q.years, "error"),
        password_updated: flag_eq(&q.password, "updated"),
        password_error: String::new(),
        delete_error: String::new(),
        auth_edge,
        is_admin: user.is_admin(),
        is_paid: user.is_paid(),
        billing_success: false,
    }
}

/// Every user shows a selectable avatar: the one they chose when it is
/// selectable, otherwise the stable default pick.
pub proof fn law_avatar_always_selectable(user_id: Seq<u8>, avatar: Option<Seq<char>>)
    requires
        user_id.len() == 16,
    ensures
        avatar_ids().contains(resolved_avatar(user_id, avatar)),
        avatar matches Some(a) ==> (avatar_ids().contains(a) ==> resolved_avatar(user_id, avatar) == a),
{
    let k = default_avatar_index(user_id);
    assert(0 <= k < 8);
    assert(avatar_ids()[k] == avatar_ids()[k]);
}

/// The user id an avatar URL names: the path segment without a `.svg` suffix.
pub open spec fn avatar_path_id(id: Seq<char>) -> Seq<char> {
    if id.len() >= 4 && id.subrange(id.len() - 4, id.len() as int) == ".svg"@ {
        id.subrange(0, id.len() - 4)
    } else {
        id
    }
}

/// The user whose avatar a URL asks for; anything but a UUID is not found.
pub fn avatar_user_id(id: &str) -> (r: Result<[u8; 16], AppError>)
    ensures
        match uuid_bytes(avatar_path_id(id@)) {
            Some(b) => r matches Ok(u) && u@ == b,
            None => r matches Err(e) && is_not_found(e, "Avatar not found."@),
        },
{
    let n = id.unicode_len();
    proof {
        reveal_strlit(".svg");
    }
    let stem = if n >= 4 && str_eq(id.substring_char(n - 4, n), ".svg") {
        id.substring_char(0, n - 4)
    } else {
        id
    };
    match parse_uuid(stem) {
        Some(b) => Ok(b),
        None => Err(not_found("Avatar not found.")),
    }
}

} // verus!
