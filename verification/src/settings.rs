//! Stored settings: texts under a key, with what stands for a switch.

use vstd::prelude::*;

use crate::text;
use crate::text::{blank, same_text};

verus! {

/// How a setting's text is meant.
#[derive(Clone, Copy, PartialEq, Eq, Debug, Structural)]
pub enum ValueKind {
    Text,
    Bool,
    Int,
}

/// A change to the stored settings.
#[derive(PartialEq, Eq, Debug)]
pub enum SettingWrite {
    /// The key holds this text from now on.
    Put { key: String, value: String, kind: ValueKind },
    /// The key holds nothing any more.
    Remove { key: String },
}

/// What a change to the settings says.
pub enum SettingNote {
    Put { key: Seq<char>, value: Seq<char>, kind: ValueKind },
    Remove { key: Seq<char> },
}

impl SettingWrite {
    pub open spec fn view(&self) -> SettingNote {
        match self {
            SettingWrite::Put { key, value, kind } => SettingNote::Put {
                key: key@,
                value: value@,
                kind: *kind,
            },
            SettingWrite::Remove { key } => SettingNote::Remove { key: key@ },
        }
    }
}

/// The settings after a change.
pub open spec fn settings_after(
    settings: Map<Seq<char>, Seq<char>>,
    change: SettingNote,
) -> Map<Seq<char>, Seq<char>> {
    match change {
        SettingNote::Put { key, value, .. } => settings.insert(key, value),
        SettingNote::Remove { key } => settings.remove(key),
    }
}

/// What the settings hold under a key.
pub open spec fn setting(settings: Map<Seq<char>, Seq<char>>, key: Seq<char>) -> Option<Seq<char>> {
    if settings.dom().contains(key) {
        Some(settings[key])
    } else {
        None
    }
}

/// Whether a stored text stands for a switch that is on.
pub open spec fn is_on(value: Seq<char>) -> bool {
    value == "true"@ || value == "1"@
}

/// Whether a stored switch is on, or what it is when nothing is stored.
pub open spec fn on_or(value: Option<Seq<char>>, default: bool) -> bool {
    match value {
        Some(v) => is_on(v),
        None => default,
    }
}

/// The stored form of a switch.
pub open spec fn switch_text(on: bool) -> Seq<char> {
    if on {
        "true"@
    } else {
        "false"@
    }
}

/// Whether a stored switch is on, or `default` when nothing is stored.
pub fn switch_or(value: &Option<String>, default: bool) -> (r: bool)
    ensures
        r == on_or(text::opt_text(*value), default),
{
    match value {
        Some(v) => same_text(v.as_str(), "true") || same_text(v.as_str(), "1"),
        None => default,
    }
}

/// The stored form of a switch.
pub fn switch_value(on: bool) -> (r: &'static str)
    ensures
        r@ == switch_text(on),
{
    if on {
        "true"
    } else {
        "false"
    }
}

/// A switch reads back as it was stored, whatever it is when nothing is stored.
pub proof fn a_stored_switch_reads_back(on: bool, default: bool)
    ensures
        on_or(Some(switch_text(on)), default) == on,
{
    reveal_strlit("true");
    reveal_strlit("false");
    reveal_strlit("1");
    assert("false"@.len() == 5);
    assert("true"@.len() == 4);
    assert("1"@.len() == 1);
}

/// A stored text, unless it is blank.
pub fn unless_blank(value: Option<String>) -> (r: Option<String>)
    ensures
        r == (match value {
            Some(v) if !text::is_blank(v@) => Some(v),
            _ => None,
        }),
{
    match value {
        Some(v) => {
            if blank(v.as_str()) {
                None
            } else {
                Some(v)
            }
        },
        None => None,
    }
}

/// What is put under a key is found there and nothing else changes; what is removed is gone.
pub proof fn a_change_touches_its_key_alone(
    settings: Map<Seq<char>, Seq<char>>,
    key: Seq<char>,
    value: Seq<char>,
    kind: ValueKind,
    other: Seq<char>,
)
    ensures
        setting(settings_after(settings, SettingNote::Put { key, value, kind }), key) == Some(value),
        setting(settings_after(settings, SettingNote::Remove { key }), key) is None,
        other != key ==> setting(
            settings_after(settings, SettingNote::Put { key, value, kind }),
            other,
        ) == setting(settings, other),
        other != key ==> setting(settings_after(settings, SettingNote::Remove { key }), other)
            == setting(settings, other),
{
}

/// A switch is on where `true` or `1` is stored, off where anything else is, and what it is
/// by default where nothing is.
pub proof fn a_switch_is_on_where_it_says_so(value: Seq<char>, default: bool)
    ensures
        on_or(Some(value), default) <==> value == "true"@ || value == "1"@,
        on_or(None, default) == default,
        switch_text(true) == "true"@,
        switch_text(false) == "false"@,
{
}

/// A change says the key, the text and the kind that it holds, and changes nothing but what
/// stands under its key.
pub proof fn a_change_says_what_it_holds(
    key: String,
    value: String,
    kind: ValueKind,
    settings: Map<Seq<char>, Seq<char>>,
    other: Seq<char>,
)
    ensures
        (SettingWrite::Put { key, value, kind })@ == (SettingNote::Put {
            key: key@,
            value: value@,
            kind,
        }),
        (SettingWrite::Remove { key })@ == (SettingNote::Remove { key: key@ }),
        setting(settings_after(settings, (SettingWrite::Put { key, value, kind })@), key@) == Some(
            value@,
        ),
        setting(settings_after(settings, (SettingWrite::Remove { key })@), key@) is None,
        other != key@ ==> setting(
            settings_after(settings, (SettingWrite::Put { key, value, kind })@),
            other,
        ) == setting(settings, other),
        other != key@ ==> setting(
            settings_after(settings, (SettingWrite::Remove { key })@),
            other,
        ) == setting(settings, other),
{
}

} // verus!
