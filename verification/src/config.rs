//! The player configuration's `access_chumby_com` switch.

use vstd::prelude::*;

verus! {

/// A top-level entry of a TOML document, as far as the switch cares.
#[derive(Clone, Copy, Debug, PartialEq, Eq)]
pub enum Setting {
    /// The text is not a TOML document.
    Unparsable,
    /// The document has no such key.
    Missing,
    Integer(i64),
    Boolean(bool),
    /// A string, float, datetime, array or table.
    Other,
}

/// The entry under key `key` of TOML document `text`, as the `toml` crate
/// parses it.
pub uninterp spec fn toml_setting(text: Seq<char>, key: Seq<char>) -> Setting;

/// Parses `text` as a TOML table with `toml::Table`'s `FromStr` impl and
/// looks `key` up with `toml::Table::get`. The contract claims only that the
/// result is a function of `text` and `key`: what TOML the parser accepts
/// is the `toml` crate's, and is not stated here.
#[verifier::external_body]
fn top_level_setting(text: &str, key: &str) -> (s: Setting)
    ensures
        s == toml_setting(text@, key@),
{
    match text.parse::<toml::Table>() {
        Err(_) => Setting::Unparsable,
        Ok(table) => match table.get(key) {
            None => Setting::Missing,
            Some(toml::Value::Integer(i)) => Setting::Integer(*i),
            Some(toml::Value::Boolean(b)) => Setting::Boolean(*b),
            Some(_) => Setting::Other,
        },
    }
}

/// The switch is on for the integer 1 or the boolean `true`, as the player
/// reads it; anything else means off.
pub open spec fn enables(s: Setting) -> bool {
    s == Setting::Integer(1) || s == Setting::Boolean(true)
}

pub fn setting_enables(s: Setting) -> (r: bool)
    ensures
        r == enables(s),
{
    match s {
        Setting::Integer(i) => i == 1,
        Setting::Boolean(b) => b,
        _ => false,
    }
}

/// Whether the configuration text `text` (`None`: no readable file) turns
/// on chumby.com watching.
pub fn chumby_com_enabled(text: Option<&str>) -> (r: bool)
    ensures
        r == match text {
            None => false,
            Some(t) => enables(toml_setting(t@, "access_chumby_com"@)),
        },
{
    match text {
        None => false,
        Some(t) => setting_enables(top_level_setting(t, "access_chumby_com")),
    }
}

} // verus!
