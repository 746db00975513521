//! Playlists that fill themselves by rules: which may be edited, and what is
//! stored of them.

use vstd::prelude::*;

use crate::decimal;
use crate::decimal::i64_text;
use crate::error;
use crate::error::AppError;
use crate::text;
use crate::text::{around, blank, clone_opt};

verus! {

/// How many tracks a preview lists.
pub const PREVIEW_LIMIT: usize = 200;

/// What making all of the built-in playlists anew comes to.
#[derive(PartialEq, Eq, Debug)]
pub struct RegenerateAllSmartPlaylistsOutput {
    pub daily_mix_ids: Vec<i64>,
    pub on_repeat_id: Option<i64>,
}

/// A playlist with rules, as it is to be made or changed. The rules are as they
/// will be stored.
#[derive(PartialEq, Eq, Debug)]
pub struct CustomSmartPlaylistInput {
    pub name: String,
    pub description: Option<String>,
    pub color_id: Option<String>,
    pub icon_id: Option<String>,
    pub rules: String,
}

/// What making or changing a playlist with rules comes to.
#[derive(PartialEq, Eq, Debug)]
pub struct CustomSmartPlaylistOutput {
    pub playlist_id: i64,
    pub track_count: i64,
}

/// What rules come to before they are stored.
#[derive(PartialEq, Eq, Debug)]
pub struct RulesPreview {
    pub total: i64,
    pub track_ids: Vec<i64>,
}

/// A playlist with rules, as it is stored.
#[derive(PartialEq, Eq, Debug)]
pub struct CustomDraft {
    pub name: String,
    pub description: Option<String>,
    pub color_id: String,
    pub icon_id: String,
    pub rules: String,
}

/// Whether this is what is stored of a playlist with rules: its name trimmed, and
/// a colour and a picture where none was chosen.
pub open spec fn is_draft(d: CustomDraft, input: CustomSmartPlaylistInput) -> bool {
    &&& d.name@ == text::trimmed(input.name@)
    &&& d.description == input.description
    &&& d.color_id@ == (match input.color_id {
        Some(c) => c@,
        None => "violet"@,
    })
    &&& d.icon_id@ == (match input.icon_id {
        Some(i) => i@,
        None => "sparkles"@,
    })
    &&& d.rules == input.rules
}

/// What is stored of a new playlist with rules.
pub fn create_custom_smart_playlist(input: &CustomSmartPlaylistInput) -> (r: Result<
    CustomDraft,
    AppError,
>)
    ensures
        r is Err <==> text::is_blank(input.name@),
        r matches Err(e) ==> error::says(e, "playlist name cannot be empty"@),
        r matches Ok(d) ==> is_draft(d, *input),
{
    if blank(input.name.as_str()) {
        return Err(AppError::Other("playlist name cannot be empty".to_owned()));
    }
    let color_id = match &input.color_id {
        Some(c) => c.clone(),
        None => "violet".to_owned(),
    };
    let icon_id = match &input.icon_id {
        Some(i) => i.clone(),
        None => "sparkles".to_owned(),
    };
    Ok(
        CustomDraft {
            name: input.name.as_str().trim().to_owned(),
            description: clone_opt(&input.description),
            color_id,
            icon_id,
            rules: input.rules.clone(),
        },
    )
}

/// What the stored rules of a playlist turn out to be.
#[derive(PartialEq, Eq, Debug)]
pub enum StoredRules {
    /// There are none.
    Missing,
    /// Rules that somebody wrote, as they are stored.
    Custom(String),
    /// Rules that the application came with.
    BuiltIn,
    /// What cannot be read, with the reason.
    Invalid(String),
}

/// A playlist as it is found.
#[derive(PartialEq, Eq, Debug)]
pub struct SmartRow {
    pub is_smart: i64,
    pub rules: StoredRules,
}

/// What is said of a playlist that the application came with.
pub open spec fn built_in() -> Seq<char> {
    "playlist is a built-in smart playlist (Daily Mix), not a custom one"@
}

/// What is said of a playlist that is not there.
pub open spec fn no_playlist(playlist_id: i64) -> Seq<char> {
    "playlist "@ + decimal::int_text(playlist_id as int) + " not found"@
}

/// What stands in the way of filling a playlist by its rules: one that is not
/// there, one without rules, rules that are missing, not of one's own, or that
/// cannot be read.
pub open spec fn rules_obstacle(rules: StoredRules) -> Option<Seq<char>> {
    match rules {
        StoredRules::Missing => Some("smart_rules column is empty"@),
        StoredRules::Custom(_) => None,
        StoredRules::BuiltIn => Some(built_in()),
        StoredRules::Invalid(e) => Some("invalid smart_rules JSON: "@ + e@),
    }
}

/// Whether this is what asking for the rules comes to: the rules themselves, or what
/// stands in the way.
pub open spec fn are_the_rules(r: Result<String, AppError>, rules: StoredRules) -> bool {
    match rules_obstacle(rules) {
        None => r matches Ok(s) && s@ == rules->Custom_0@,
        Some(m) => r matches Err(e) && error::says(e, m),
    }
}

/// Whether the stored rules are rules that somebody wrote.
pub fn is_custom_payload(rules: &StoredRules) -> (r: bool)
    ensures
        r == (rules is Custom),
{
    match rules {
        StoredRules::Custom(_) => true,
        _ => false,
    }
}

/// The rules of a playlist, where somebody wrote them; if not, why not.
pub fn parse_custom_rules(rules: &StoredRules) -> (r: Result<String, AppError>)
    ensures
        r is Ok <==> rules is Custom,
        are_the_rules(r, *rules),
{
    match rules {
        StoredRules::Missing => Err(AppError::Other("smart_rules column is empty".to_owned())),
        StoredRules::Custom(s) => Ok(s.clone()),
        StoredRules::BuiltIn => Err(
            AppError::Other(
                "playlist is a built-in smart playlist (Daily Mix), not a custom one".to_owned(),
            ),
        ),
        StoredRules::Invalid(e) => {
            let m = around("invalid smart_rules JSON: ", e.as_str(), "");
            proof {
                reveal_strlit("");
                assert(m@ =~= "invalid smart_rules JSON: "@ + e@);
            }
            Err(AppError::Other(m))
        },
    }
}

fn missing_playlist(playlist_id: i64) -> (e: AppError)
    ensures
        error::says(e, no_playlist(playlist_id)),
{
    AppError::Other(around("playlist ", i64_text(playlist_id).as_str(), " not found"))
}

/// What is stored of a playlist with rules that is changed. One that is not there,
/// that has no rules, or whose rules are not somebody's own stays as it is.
pub fn update_custom_smart_playlist(
    playlist_id: i64,
    row: &Option<SmartRow>,
    input: &CustomSmartPlaylistInput,
) -> (r: Result<CustomDraft, AppError>)
    ensures
        match *row {
            None => r matches Err(e) && error::says(e, no_playlist(playlist_id)),
            Some(found) => if found.is_smart != 1 {
                r matches Err(e) && error::says(e, "playlist is not a smart playlist"@)
            } else if found.rules !is Custom {
                r matches Err(e) && error::says(e, built_in())
            } else if text::is_blank(input.name@) {
                r matches Err(e) && error::says(e, "playlist name cannot be empty"@)
            } else {
                r matches Ok(d) && is_draft(d, *input)
            },
        },
{
    match row {
        None => Err(missing_playlist(playlist_id)),
        Some(found) => {
            if found.is_smart != 1 {
                return Err(AppError::Other("playlist is not a smart playlist".to_owned()));
            }
            if !is_custom_payload(&found.rules) {
                return Err(
                    AppError::Other(
                        "playlist is a built-in smart playlist (Daily Mix), not a custom one".to_owned(),
                    ),
                );
            }
            create_custom_smart_playlist(input)
        },
    }
}

/// The rules by which a playlist is filled anew.
pub fn regenerate_custom_smart_playlist(playlist_id: i64, row: &Option<SmartRow>) -> (r: Result<
    String,
    AppError,
>)
    ensures
        match *row {
            None => r matches Err(e) && error::says(e, no_playlist(playlist_id)),
            Some(found) => if found.is_smart != 1 {
                r matches Err(e) && error::says(e, "playlist is not a smart playlist"@)
            } else {
                are_the_rules(r, found.rules)
            },
        },
{
    match row {
        None => Err(missing_playlist(playlist_id)),
        Some(found) => {
            if found.is_smart != 1 {
                return Err(AppError::Other("playlist is not a smart playlist".to_owned()));
            }
            parse_custom_rules(&found.rules)
        },
    }
}

/// The rules of a playlist, opened for editing. `rules` are those of the playlist, if
/// it is there and fills itself.
pub fn get_custom_smart_playlist_rules(playlist_id: i64, rules: &StoredRules) -> (r: Result<
    String,
    AppError,
>)
    ensures
        match *rules {
            StoredRules::Missing => r matches Err(e) && error::says(
                e,
                "smart playlist "@ + decimal::int_text(playlist_id as int) + " not found"@,
            ),
            _ => are_the_rules(r, *rules),
        },
{
    match rules {
        StoredRules::Missing => Err(
            AppError::Other(
                around("smart playlist ", i64_text(playlist_id).as_str(), " not found"),
            ),
        ),
        _ => parse_custom_rules(rules),
    }
}

/// What rules come to before they are stored: how many tracks, and the first of
/// them.
pub fn preview_custom_smart_playlist(ids: &Vec<i64>) -> (r: RulesPreview)
    requires
        ids@.len() <= i64::MAX,
    ensures
        r.total == ids@.len(),
        r.track_ids@ == ids@.take(
            if ids@.len() <= PREVIEW_LIMIT {
                ids@.len() as int
            } else {
                PREVIEW_LIMIT as int
            },
        ),
        ids@.len() <= 200 ==> r.track_ids@ == ids@,
        ids@.len() > 200 ==> r.track_ids@ == ids@.take(200),
{
    let total: usize = ids.len();
    let shown: usize = if total <= PREVIEW_LIMIT {
        total
    } else {
        PREVIEW_LIMIT
    };
    let mut track_ids: Vec<i64> = Vec::new();
    let mut i: usize = 0;
    while i < shown
        invariant
            i <= shown <= ids@.len(),
            track_ids@ == ids@.take(i as int),
        decreases shown - i,
    {
        track_ids.push(ids[i]);
        i = i + 1;
        assert(track_ids@ =~= ids@.take(i as int));
    }
    RulesPreview { total: total as i64, track_ids }
}

/// What is stored of a playlist with rules is what was given, each thing in its place, with
/// the name trimmed and a colour and a picture for what was not chosen.
pub proof fn a_draft_holds_what_was_given(d: CustomDraft, input: CustomSmartPlaylistInput)
    requires
        is_draft(d, input),
    ensures
        d.name@ == text::trimmed(input.name@),
        d.description == input.description,
        input.color_id is Some ==> d.color_id@ == input.color_id->0@,
        input.color_id is None ==> d.color_id@ == "violet"@,
        input.icon_id is Some ==> d.icon_id@ == input.icon_id->0@,
        input.icon_id is None ==> d.icon_id@ == "sparkles"@,
        d.rules == input.rules,
{
}

/// Rules that somebody wrote are handed out as they are, and any others are refused in words
/// that say what they are.
pub proof fn rules_are_handed_out_or_refused(r: Result<String, AppError>, rules: StoredRules)
    requires
        are_the_rules(r, rules),
    ensures
        rules is Custom ==> r is Ok && r->Ok_0@ == rules->Custom_0@,
        rules is Missing ==> r is Err && error::says(r->Err_0, "smart_rules column is empty"@),
        rules is BuiltIn ==> r is Err && error::says(
            r->Err_0,
            "playlist is a built-in smart playlist (Daily Mix), not a custom one"@,
        ),
        rules is Invalid ==> r is Err && error::says(
            r->Err_0,
            "invalid smart_rules JSON: "@ + rules->Invalid_0@,
        ),
{
}

/// What is said of a playlist that cannot be changed names the reason.
pub proof fn a_refused_change_says_why(playlist_id: i64)
    ensures
        built_in() == "playlist is a built-in smart playlist (Daily Mix), not a custom one"@,
        no_playlist(playlist_id) == "playlist "@ + decimal::int_text(playlist_id as int)
            + " not found"@,
{
}

} // verus!
