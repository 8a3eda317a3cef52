//! The checks on a login or a new character's request, made before the
//! database is asked; how a new character's shown glyph and gender are set;
//! and what a login falls back on where the character's record is incomplete.
use vstd::prelude::*;

use crate::text::{chars_of, str_eq, string_from_range, to_string, views};
use vstd::string::StringSliceAdditionalSpecFns;

verus! {

/// Why a login is refused before the database is asked.
#[derive(PartialEq, Eq, Structural)]
pub enum LoginRefusal {
    NeedId,
    NeedPassword,
}

impl LoginRefusal {
    /// The key of the client text for this refusal.
    pub open spec fn spec_key(self) -> Seq<char> {
        match self {
            LoginRefusal::NeedId => "login_need_id"@,
            LoginRefusal::NeedPassword => "login_need_password"@,
        }
    }

    /// The key of the client text for this refusal.
    pub fn text_key(&self) -> (k: &'static str)
        ensures
            k@ == self.spec_key(),
    {
        proof {
            reveal_strlit("login_need_id");
            reveal_strlit("login_need_password");
        }
        match self {
            LoginRefusal::NeedId => "login_need_id",
            LoginRefusal::NeedPassword => "login_need_password",
        }
    }
}

/// A login needs a player id, then a password.
pub fn check_login_request(player_id: &str, password: &str) -> (r: Option<LoginRefusal>)
    ensures
        r == (if player_id@.len() == 0 {
            Some(LoginRefusal::NeedId)
        } else if password@.len() == 0 {
            Some(LoginRefusal::NeedPassword)
        } else {
            None
        }),
{
    if player_id.is_empty() {
        Some(LoginRefusal::NeedId)
    } else if password.is_empty() {
        Some(LoginRefusal::NeedPassword)
    } else {
        None
    }
}

/// Why a new character is refused before the database is asked.
#[derive(PartialEq, Eq, Structural)]
pub enum CreateRefusal {
    NeedId,
    NeedPassword,
    /// The password has fewer than 6 bytes.
    PasswordShort,
    /// The id has fewer than 2 or more than 32 bytes.
    IdLen,
}

impl CreateRefusal {
    /// The key of the client text for this refusal.
    pub open spec fn spec_key(self) -> Seq<char> {
        match self {
            CreateRefusal::NeedId => "create_need_id"@,
            CreateRefusal::NeedPassword => "create_need_password"@,
            CreateRefusal::PasswordShort => "create_password_short"@,
            CreateRefusal::IdLen => "create_id_len"@,
        }
    }

    /// The key of the client text for this refusal.
    pub fn text_key(&self) -> (k: &'static str)
        ensures
            k@ == self.spec_key(),
    {
        proof {
            reveal_strlit("create_need_id");
            reveal_strlit("create_need_password");
            reveal_strlit("create_password_short");
            reveal_strlit("create_id_len");
        }
        match self {
            CreateRefusal::NeedId => "create_need_id",
            CreateRefusal::NeedPassword => "create_need_password",
            CreateRefusal::PasswordShort => "create_password_short",
            CreateRefusal::IdLen => "create_id_len",
        }
    }
}

/// The refusal of a new character's id and password, in the order checked:
/// an id, a password, a password of at least 6 bytes, an id of 2 to 32 bytes
/// (lengths in UTF-8 bytes).
pub open spec fn create_refusal(player_id: &str, password: &str) -> Option<CreateRefusal> {
    if player_id@.len() == 0 {
        Some(CreateRefusal::NeedId)
    } else if password@.len() == 0 {
        Some(CreateRefusal::NeedPassword)
    } else if password.spec_bytes().len() < 6 {
        Some(CreateRefusal::PasswordShort)
    } else if player_id.spec_bytes().len() < 2 || player_id.spec_bytes().len() > 32 {
        Some(CreateRefusal::IdLen)
    } else {
        None
    }
}

/// Checks a new character's id and password; see `create_refusal`.
pub fn check_create_request(player_id: &str, password: &str) -> (r: Option<CreateRefusal>)
    ensures
        r == create_refusal(player_id, password),
{
    if player_id.is_empty() {
        Some(CreateRefusal::NeedId)
    } else if password.is_empty() {
        Some(CreateRefusal::NeedPassword)
    } else if password.as_bytes().len() < 6 {
        Some(CreateRefusal::PasswordShort)
    } else if player_id.as_bytes().len() < 2 || player_id.as_bytes().len() > 32 {
        Some(CreateRefusal::IdLen)
    } else {
        None
    }
}

/// The glyph a new character is shown by: the requested one, or the default
/// when none was given, cut to its first character.
pub open spec fn display_glyph(requested: Seq<char>, default: Seq<char>) -> Seq<char> {
    let d = if requested.len() == 0 {
        default
    } else {
        requested
    };
    if d.len() > 1 {
        d.subrange(0, 1)
    } else {
        d
    }
}

/// The glyph a new character is shown by; see `display_glyph`.
pub fn new_display_char(requested: &str, default: &str) -> (out: String)
    ensures
        out@ == display_glyph(requested@, default@),
{
    let d = if requested.is_empty() {
        default
    } else {
        requested
    };
    let chs = chars_of(d);
    if chs.len() > 1 {
        string_from_range(chs.as_slice(), 0, 1)
    } else {
        to_string(d)
    }
}

/// The stored gender code: `F` for a request of `女`, `M` for anything else.
pub fn gender_code(requested: &str) -> (g: &'static str)
    ensures
        g@ == (if requested@ == "女"@ {
            "F"@
        } else {
            "M"@
        }),
{
    proof {
        reveal_strlit("F");
        reveal_strlit("M");
    }
    if str_eq(requested, "女") {
        "F"
    } else {
        "M"
    }
}

/// Where a logged-in player stands on the square grid: their stored cell, or
/// the origin when either coordinate is missing, in which case the origin is
/// stored for them (the flag).
pub fn login_grid_position(grid_x: Option<i32>, grid_y: Option<i32>) -> (r: ((i32, i32), bool))
    ensures
        r == (match (grid_x, grid_y) {
            (Some(x), Some(y)) => ((x, y), false),
            _ => ((0i32, 0i32), true),
        }),
{
    match (grid_x, grid_y) {
        (Some(x), Some(y)) => ((x, y), false),
        _ => ((0, 0), true),
    }
}

/// The player needs a spawn cell when either hex coordinate is missing.
pub fn login_needs_spawn(hex_q: Option<i32>, hex_r: Option<i32>) -> (b: bool)
    ensures
        b == (hex_q is None || hex_r is None),
{
    hex_q.is_none() || hex_r.is_none()
}

/// The vitality, qi and dexterity a login reports: the character's, or 10
/// each when it could not be read.
pub fn login_stats(stats: Option<(i32, i32, i32)>) -> (r: (i32, i32, i32))
    ensures
        r == (match stats {
            Some(t) => t,
            None => (10i32, 10i32, 10i32),
        }),
{
    match stats {
        Some(t) => t,
        None => (10, 10, 10),
    }
}

/// The NPCs a player meets on entering a view: each entity (id, is an NPC)
/// that is an NPC other than the player, in view order.
pub open spec fn met_npcs(entities: Seq<(String, bool)>, player_id: Seq<char>) -> Seq<Seq<char>>
    decreases entities.len(),
{
    if entities.len() == 0 {
        Seq::empty()
    } else {
        let rest = met_npcs(entities.drop_last(), player_id);
        let e = entities.last();
        if e.1 && e.0@ != player_id {
            rest.push(e.0@)
        } else {
            rest
        }
    }
}

/// The NPCs met on entering a view; see `met_npcs`.
pub fn npcs_met(entities: &Vec<(String, bool)>, player_id: &str) -> (out: Vec<String>)
    ensures
        views(out@) == met_npcs(entities@, player_id@),
{
    let mut out: Vec<String> = Vec::new();
    let mut i: usize = 0;
    while i < entities.len()
        invariant
            i <= entities@.len(),
            views(out@) == met_npcs(entities@.take(i as int), player_id@),
        decreases entities@.len() - i,
    {
        proof {
            assert(entities@.take(i + 1).drop_last() =~= entities@.take(i as int));
            assert(entities@.take(i + 1).last() == entities@[i as int]);
        }
        if entities[i].1 && !str_eq(entities[i].0.as_str(), player_id) {
            out.push(to_string(entities[i].0.as_str()));
            proof {
                assert(views(out@) =~= met_npcs(entities@.take(i as int), player_id@).push(
                    entities@[i as int].0@,
                ));
            }
        }
        i += 1;
    }
    proof {
        assert(entities@.take(entities@.len() as int) =~= entities@);
    }
    out
}

} // verus!
