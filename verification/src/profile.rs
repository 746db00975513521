//! Profiles: how one is made, renamed and removed.

use vstd::prelude::*;

use crate::decimal;
use crate::decimal::i64_text;
use crate::error;
use crate::error::AppError;
use crate::settings;
use crate::settings::{SettingWrite, ValueKind};
use crate::text;
use crate::text::{blank, clone_opt, same_text};

verus! {

/// Where it is kept which profile was open last.
pub const LAST_PROFILE_KEY: &'static str = "app.last_profile_id";

/// A profile to be made.
#[derive(PartialEq, Eq, Debug)]
pub struct CreateProfileInput {
    pub name: String,
    pub color_id: Option<String>,
    pub avatar_hash: Option<String>,
}

/// A profile as it is first stored.
#[derive(PartialEq, Eq, Debug)]
pub struct ProfileDraft {
    pub name: String,
    pub color_id: String,
    pub avatar_hash: Option<String>,
    pub now_ms: i64,
}

/// A profile, as the interface is told it.
#[derive(PartialEq, Eq, Debug)]
pub struct Profile {
    pub id: i64,
    pub user_id: i64,
    pub name: String,
    pub color_id: String,
    pub avatar_hash: Option<String>,
    pub data_dir: String,
    pub created_at: i64,
    pub last_used_at: i64,
}

/// A name of a profile, trimmed; a blank one is none.
pub fn profile_name(name: &str) -> (r: Result<String, AppError>)
    ensures
        r is Err <==> text::is_blank(name@),
        r matches Ok(n) ==> n@ == text::trimmed(name@),
        r matches Err(e) ==> error::says(e, "profile name cannot be empty"@),
{
    if blank(name) {
        return Err(AppError::Other("profile name cannot be empty".to_owned()));
    }
    Ok(name.trim().to_owned())
}

/// A profile as it is first stored: its name trimmed, and a colour where none was
/// chosen.
pub fn create_profile(input: &CreateProfileInput, now_ms: i64) -> (r: Result<ProfileDraft, AppError>)
    ensures
        r is Err <==> text::is_blank(input.name@),
        r matches Err(e) ==> error::says(e, "profile name cannot be empty"@),
        r matches Ok(d) ==> {
            &&& d.name@ == text::trimmed(input.name@)
            &&& d.color_id@ == (match input.color_id {
                Some(c) => c@,
                None => "emerald"@,
            })
            &&& d.avatar_hash == input.avatar_hash
            &&& d.now_ms == now_ms
        },
{
    match profile_name(input.name.as_str()) {
        Err(e) => Err(e),
        Ok(name) => {
            let color_id = match &input.color_id {
                Some(c) => c.clone(),
                None => "emerald".to_owned(),
            };
            Ok(
                ProfileDraft {
                    name,
                    color_id,
                    avatar_hash: clone_opt(&input.avatar_hash),
                    now_ms,
                },
            )
        },
    }
}

/// What becomes of a profile that has been stored: once its files are set up the
/// interface is told of it, and where that failed nothing of it stays.
#[derive(PartialEq, Eq, Debug)]
pub enum ProfileSetup {
    Made(Profile),
    /// The stored profile and its files are removed, and the failure is handed on.
    Undo { profile_id: i64, error: AppError },
}

/// What becomes of a profile that has been stored.
pub fn finish_profile(
    profile_id: i64,
    draft: ProfileDraft,
    data_dir: String,
    setup: Result<(), AppError>,
) -> (r: ProfileSetup)
    ensures
        match setup {
            Ok(_) => r == ProfileSetup::Made(
                Profile {
                    id: profile_id,
                    user_id: 0,
                    name: draft.name,
                    color_id: draft.color_id,
                    avatar_hash: draft.avatar_hash,
                    data_dir,
                    created_at: draft.now_ms,
                    last_used_at: draft.now_ms,
                },
            ),
            Err(error) => r == (ProfileSetup::Undo { profile_id, error }),
        },
{
    match setup {
        Ok(_) => ProfileSetup::Made(
            Profile {
                id: profile_id,
                user_id: 0,
                name: draft.name,
                color_id: draft.color_id,
                avatar_hash: draft.avatar_hash,
                data_dir,
                created_at: draft.now_ms,
                last_used_at: draft.now_ms,
            },
        ),
        Err(error) => ProfileSetup::Undo { profile_id, error },
    }
}

/// What opening a profile comes to: the profile with the time it was opened, and
/// what is stored so that it is opened again.
pub fn switch_profile(profile_id: i64, found: Option<Profile>, now_ms: i64) -> (r: Result<
    (Profile, SettingWrite),
    AppError,
>)
    ensures
        match found {
            None => r == Err::<(Profile, SettingWrite), AppError>(
                AppError::ProfileNotFound(profile_id),
            ),
            Some(p) => {
                &&& r matches Ok((opened, w))
                &&& opened == (Profile { last_used_at: now_ms, ..p })
                &&& w@ == last_profile_change(profile_id)
            },
        },
{
    match found {
        None => Err(AppError::ProfileNotFound(profile_id)),
        Some(p) => {
            let opened = Profile { last_used_at: now_ms, ..p };
            let w = SettingWrite::Put {
                key: LAST_PROFILE_KEY.to_owned(),
                value: i64_text(profile_id),
                kind: ValueKind::Int,
            };
            Ok((opened, w))
        },
    }
}

/// What is stored so that a profile is opened again.
pub open spec fn last_profile_change(profile_id: i64) -> settings::SettingNote {
    settings::SettingNote::Put {
        key: "app.last_profile_id"@,
        value: decimal::int_text(profile_id as int),
        kind: ValueKind::Int,
    }
}

/// What renaming a profile comes to. `renamed` says whether there was one.
pub fn rename_profile(profile_id: i64, renamed: bool, found: Option<Profile>) -> (r: Result<
    Profile,
    AppError,
>)
    ensures
        match (renamed, found) {
            (true, Some(p)) => r == Ok::<Profile, AppError>(p),
            _ => r == Err::<Profile, AppError>(AppError::ProfileNotFound(profile_id)),
        },
{
    if !renamed {
        return Err(AppError::ProfileNotFound(profile_id));
    }
    match found {
        Some(p) => Ok(p),
        None => Err(AppError::ProfileNotFound(profile_id)),
    }
}

/// Whether a profile may be removed: not while it is open.
pub fn may_delete_profile(profile_id: i64, active_id: Option<i64>) -> (r: Result<(), AppError>)
    ensures
        r is Err <==> active_id == Some(profile_id),
        r matches Err(e) ==> error::says(
            e,
            "cannot delete the active profile; switch to another profile first"@,
        ),
{
    match active_id {
        Some(id) => {
            if id == profile_id {
                return Err(
                    AppError::Other(
                        "cannot delete the active profile; switch to another profile first".to_owned(),
                    ),
                );
            }
            Ok(())
        },
        None => Ok(()),
    }
}

/// What trying to remove a profile's row came to.
#[derive(Clone, Copy, PartialEq, Eq, Debug, Structural)]
pub enum ProfileDeleteOutcome {
    Deleted,
    /// It is the only one.
    WasLast,
    NotFound,
}

/// What removing a profile comes to.
pub fn delete_profile(profile_id: i64, outcome: ProfileDeleteOutcome) -> (r: Result<(), AppError>)
    ensures
        match outcome {
            ProfileDeleteOutcome::Deleted => r is Ok,
            ProfileDeleteOutcome::WasLast => r matches Err(e) && error::says(
                e,
                "cannot delete the last remaining profile"@,
            ),
            ProfileDeleteOutcome::NotFound => r == Err::<(), AppError>(
                AppError::ProfileNotFound(profile_id),
            ),
        },
{
    match outcome {
        ProfileDeleteOutcome::Deleted => Ok(()),
        ProfileDeleteOutcome::WasLast => Err(
            AppError::Other("cannot delete the last remaining profile".to_owned()),
        ),
        ProfileDeleteOutcome::NotFound => Err(AppError::ProfileNotFound(profile_id)),
    }
}

/// What is stored of the profile that was open last once a profile is removed:
/// nothing where it was that one.
pub fn forget_last_profile(profile_id: i64, stored: &Option<String>) -> (r: Option<SettingWrite>)
    ensures
        r is Some <==> text::opt_text(*stored) == Some(decimal::int_text(profile_id as int)),
        r matches Some(w) ==> w@ == (settings::SettingNote::Remove {
            key: "app.last_profile_id"@,
        }),
{
    match stored {
        Some(v) => {
            if same_text(v.as_str(), i64_text(profile_id).as_str()) {
                Some(SettingWrite::Remove { key: LAST_PROFILE_KEY.to_owned() })
            } else {
                None
            }
        },
        None => None,
    }
}

/// The profile that was opened is the one that the next start finds, and no start
/// looks for a profile that has been removed.
pub proof fn the_last_profile_is_found_again(settings: Map<Seq<char>, Seq<char>>, profile_id: i64)
    ensures
        ({
            let key = "app.last_profile_id"@;
            let opened = settings::settings_after(settings, last_profile_change(profile_id));
            let removed = settings::settings_after(
                opened,
                settings::SettingNote::Remove { key },
            );
            &&& settings::setting(opened, key) matches Some(v) && decimal::int_named(v) == Some(
                profile_id as int,
            )
            &&& settings::setting(removed, key) is None
        }),
{
    decimal::a_written_number_reads_back(profile_id as int);
}

/// The profile that is opened is remembered as a number, under one key.
pub proof fn an_opened_profile_is_remembered(profile_id: i64)
    ensures
        last_profile_change(profile_id) == (settings::SettingNote::Put {
            key: "app.last_profile_id"@,
            value: decimal::int_text(profile_id as int),
            kind: ValueKind::Int,
        }),
        LAST_PROFILE_KEY@ == "app.last_profile_id"@,
{
}

} // verus!
