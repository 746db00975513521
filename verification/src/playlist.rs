//! Playlists: what is stored of them, and what a server is told of each change.

use vstd::prelude::*;

use crate::decimal;
use crate::decimal::i64_text;
use crate::error;
use crate::error::AppError;
use crate::text;
use crate::text::{around, blank, clone_opt, same_text};

verus! {

/// What a change to a playlist carries.
#[derive(PartialEq, Eq, Debug)]
pub enum OpPayload {
    /// The fields of a new playlist.
    Fields { name: String, description: Option<String>, color_id: String, icon_id: String },
    /// A field's new value.
    Value(String),
    /// Some tracks.
    Tracks(Vec<i64>),
    /// Some tracks that came from one place.
    TracksFrom { track_ids: Vec<i64>, source_type: String, source_id: i64 },
    /// A track's new place.
    Position { track_id: i64, position: i64 },
}

/// A change to a playlist, as a server is told it.
#[derive(PartialEq, Eq, Debug)]
pub struct PendingOp {
    pub entity: String,
    pub entity_id: String,
    pub field: Option<String>,
    pub op: String,
    pub payload: Option<OpPayload>,
}

/// Whether a change is this one, to this playlist.
pub open spec fn is_op(p: PendingOp, playlist_id: i64, field: Option<Seq<char>>, op: Seq<char>) -> bool {
    &&& p.entity@ == "playlist"@
    &&& p.entity_id@ == decimal::int_text(playlist_id as int)
    &&& text::opt_text(p.field) == field
    &&& p.op@ == op
}

fn pending_op(playlist_id: i64, field: Option<String>, op: &str, payload: Option<OpPayload>) -> (r: PendingOp)
    ensures
        is_op(r, playlist_id, text::opt_text(field), op@),
        r.payload == payload,
{
    PendingOp {
        entity: "playlist".to_owned(),
        entity_id: i64_text(playlist_id),
        field,
        op: op.to_owned(),
        payload,
    }
}

/// The error for a playlist that is not there.
pub fn playlist_not_found(playlist_id: i64) -> (e: AppError)
    ensures
        error::says(
            e,
            "playlist "@ + decimal::int_text(playlist_id as int) + " not found in active profile"@,
        ),
{
    AppError::Other(
        around("playlist ", i64_text(playlist_id).as_str(), " not found in active profile"),
    )
}

/// A playlist to be made.
#[derive(PartialEq, Eq, Debug)]
pub struct CreatePlaylistInput {
    pub name: String,
    pub description: Option<String>,
    pub color_id: Option<String>,
    pub icon_id: Option<String>,
}

/// A playlist as it is first stored.
#[derive(PartialEq, Eq, Debug)]
pub struct PlaylistDraft {
    pub name: String,
    pub description: Option<String>,
    pub color_id: String,
    pub icon_id: String,
    pub now_ms: i64,
}

/// A text, or another where there is none.
pub open spec fn or_text(o: Option<String>, default: Seq<char>) -> Seq<char> {
    match o {
        Some(s) => s@,
        None => default,
    }
}

/// A playlist as it is first stored: its name trimmed, and a colour and an icon
/// where none were chosen.
pub fn create_playlist(input: &CreatePlaylistInput, now_ms: i64) -> (r: Result<
    PlaylistDraft,
    AppError,
>)
    ensures
        r is Err <==> text::is_blank(input.name@),
        r matches Err(e) ==> error::says(e, "playlist name cannot be empty"@),
        r matches Ok(d) ==> {
            &&& d.name@ == text::trimmed(input.name@)
            &&& d.description == input.description
            &&& d.color_id@ == or_text(input.color_id, "violet"@)
            &&& d.icon_id@ == or_text(input.icon_id, "music"@)
            &&& d.now_ms == now_ms
        },
{
    if blank(input.name.as_str()) {
        return Err(AppError::Other("playlist name cannot be empty".to_owned()));
    }
    let color_id = match &input.color_id {
        Some(c) => c.clone(),
        None => "violet".to_owned(),
    };
    let icon_id = match &input.icon_id {
        Some(i) => i.clone(),
        None => "music".to_owned(),
    };
    Ok(
        PlaylistDraft {
            name: input.name.as_str().trim().to_owned(),
            description: clone_opt(&input.description),
            color_id,
            icon_id,
            now_ms,
        },
    )
}

/// A playlist that an imported list becomes.
pub fn imported_draft(name: String, now_ms: i64) -> (d: PlaylistDraft)
    ensures
        d.name == name,
        d.description is None,
        d.color_id@ == "violet"@,
        d.icon_id@ == "music"@,
        d.now_ms == now_ms,
{
    PlaylistDraft {
        name,
        description: None,
        color_id: "violet".to_owned(),
        icon_id: "music".to_owned(),
        now_ms,
    }
}

/// A playlist, as the interface is told it.
#[derive(PartialEq, Eq, Debug)]
pub struct Playlist {
    pub id: i64,
    pub profile_id: i64,
    pub name: String,
    pub description: Option<String>,
    pub color_id: String,
    pub icon_id: String,
    pub is_smart: i64,
    pub cover_hash: Option<String>,
    pub cover_path: Option<String>,
    pub cover_is_auto: i64,
    pub position: i64,
    pub created_at: i64,
    pub updated_at: i64,
    pub track_count: i64,
    pub total_duration_ms: i64,
    pub smart_rules: Option<String>,
}

/// A playlist that has just been made, as the interface is told it and as a
/// server is: empty, with its cover made for it.
pub fn created_playlist(id: i64, draft: PlaylistDraft) -> (r: (Playlist, PendingOp))
    ensures
        r.0 == (Playlist {
            id,
            profile_id: 0,
            name: draft.name,
            description: draft.description,
            color_id: draft.color_id,
            icon_id: draft.icon_id,
            is_smart: 0,
            cover_hash: None,
            cover_path: None,
            cover_is_auto: 1,
            position: 0,
            created_at: draft.now_ms,
            updated_at: draft.now_ms,
            track_count: 0,
            total_duration_ms: 0,
            smart_rules: None,
        }),
        is_op(r.1, id, None, "insert"@),
        r.1.payload == Some(
            OpPayload::Fields {
                name: draft.name,
                description: draft.description,
                color_id: draft.color_id,
                icon_id: draft.icon_id,
            },
        ),
{
    let insert = pending_op(
        id,
        None,
        "insert",
        Some(
            OpPayload::Fields {
                name: draft.name.clone(),
                description: clone_opt(&draft.description),
                color_id: draft.color_id.clone(),
                icon_id: draft.icon_id.clone(),
            },
        ),
    );
    let playlist = Playlist {
        id,
        profile_id: 0,
        name: draft.name,
        description: draft.description,
        color_id: draft.color_id,
        icon_id: draft.icon_id,
        is_smart: 0,
        cover_hash: None,
        cover_path: None,
        cover_is_auto: 1,
        position: 0,
        created_at: draft.now_ms,
        updated_at: draft.now_ms,
        track_count: 0,
        total_duration_ms: 0,
        smart_rules: None,
    };
    (playlist, insert)
}

/// A playlist's fields to be changed; those not given stay.
#[derive(PartialEq, Eq, Debug)]
pub struct UpdatePlaylistInput {
    pub name: Option<String>,
    pub description: Option<String>,
    pub color_id: Option<String>,
    pub icon_id: Option<String>,
}

/// The fields given, by their names, in the order in which a server is told them.
pub open spec fn given(u: UpdatePlaylistInput) -> Seq<(Seq<char>, Seq<char>)> {
    field_given("name"@, u.name) + field_given("description"@, u.description) + field_given(
        "color_id"@,
        u.color_id,
    ) + field_given("icon_id"@, u.icon_id)
}

/// A field, where it is given.
pub open spec fn field_given(name: Seq<char>, value: Option<String>) -> Seq<
    (Seq<char>, Seq<char>),
> {
    match value {
        Some(v) => seq![(name, v@)],
        None => seq![],
    }
}

/// Whether some changes set these fields of a playlist to these values, one
/// change for each in order.
pub open spec fn sets(ops: Seq<PendingOp>, playlist_id: i64, fields: Seq<(Seq<char>, Seq<char>)>) -> bool {
    &&& ops.len() == fields.len()
    &&& forall|i: int|
        #![trigger ops[i]]
        0 <= i < ops.len() ==> {
            &&& is_op(ops[i], playlist_id, Some(fields[i].0), "set"@)
            &&& ops[i].payload matches Some(OpPayload::Value(v)) && v@ == fields[i].1
        }
}

fn push_field(ops: &mut Vec<PendingOp>, playlist_id: i64, name: &str, value: &Option<String>)
    ensures
        forall|fields: Seq<(Seq<char>, Seq<char>)>| #[trigger]
            sets(old(ops)@, playlist_id, fields) ==> sets(
                final(ops)@,
                playlist_id,
                fields + field_given(name@, *value),
            ),
{
    let ghost before = ops@;
    if let Some(v) = value {
        let set = pending_op(
            playlist_id,
            Some(name.to_owned()),
            "set",
            Some(OpPayload::Value(v.clone())),
        );
        ops.push(set);
    }
    assert forall|fields: Seq<(Seq<char>, Seq<char>)>| #[trigger]
        sets(before, playlist_id, fields) implies sets(
        ops@,
        playlist_id,
        fields + field_given(name@, *value),
    ) by {
        let more = fields + field_given(name@, *value);
        assert forall|i: int| #![trigger ops@[i]] 0 <= i < ops@.len() implies {
            &&& is_op(ops@[i], playlist_id, Some(more[i].0), "set"@)
            &&& ops@[i].payload matches Some(OpPayload::Value(v)) && v@ == more[i].1
        } by {
            if i < before.len() {
                assert(ops@[i] == before[i]);
                assert(more[i] == fields[i]);
            }
        }
    }
}

/// What changing a playlist comes to: the fields to be stored, the name trimmed,
/// and what a server is told. `exists` says whether the playlist is there.
pub fn update_playlist(playlist_id: i64, exists: bool, input: &UpdatePlaylistInput) -> (r: Result<
    (UpdatePlaylistInput, Vec<PendingOp>),
    AppError,
>)
    ensures
        r is Ok <==> exists && !(input.name matches Some(n) && text::is_blank(n@)),
        r matches Err(e) ==> error::says(
            e,
            if exists {
                "playlist name cannot be empty"@
            } else {
                "playlist "@ + decimal::int_text(playlist_id as int)
                    + " not found in active profile"@
            },
        ),
        r matches Ok((patch, ops)) ==> {
            &&& text::opt_text(patch.name) == (match input.name {
                Some(n) => Some(text::trimmed(n@)),
                None => None,
            })
            &&& patch.description == input.description
            &&& patch.color_id == input.color_id
            &&& patch.icon_id == input.icon_id
            &&& sets(ops@, playlist_id, given(patch))
        },
{
    if !exists {
        return Err(playlist_not_found(playlist_id));
    }
    let name = match &input.name {
        Some(n) => {
            if blank(n.as_str()) {
                return Err(AppError::Other("playlist name cannot be empty".to_owned()));
            }
            Some(n.as_str().trim().to_owned())
        },
        None => None,
    };
    let patch = UpdatePlaylistInput {
        name,
        description: clone_opt(&input.description),
        color_id: clone_opt(&input.color_id),
        icon_id: clone_opt(&input.icon_id),
    };
    let mut ops: Vec<PendingOp> = Vec::new();
    assert(sets(ops@, playlist_id, seq![]));
    push_field(&mut ops, playlist_id, "name", &patch.name);
    push_field(&mut ops, playlist_id, "description", &patch.description);
    push_field(&mut ops, playlist_id, "color_id", &patch.color_id);
    push_field(&mut ops, playlist_id, "icon_id", &patch.icon_id);
    assert(seq![] + field_given("name"@, patch.name) + field_given(
        "description"@,
        patch.description,
    ) + field_given("color_id"@, patch.color_id) + field_given("icon_id"@, patch.icon_id)
        =~= given(patch));
    Ok((patch, ops))
}

/// What deleting a playlist comes to. `deleted` says whether there was one.
pub fn delete_playlist(playlist_id: i64, deleted: bool) -> (r: Result<PendingOp, AppError>)
    ensures
        r is Ok <==> deleted,
        r matches Ok(p) ==> is_op(p, playlist_id, None, "delete"@) && p.payload is None,
        r matches Err(e) ==> error::says(
            e,
            "playlist "@ + decimal::int_text(playlist_id as int) + " not found in active profile"@,
        ),
{
    if deleted {
        Ok(pending_op(playlist_id, None, "delete", None))
    } else {
        Err(playlist_not_found(playlist_id))
    }
}

/// What a server is told of tracks that were added to a playlist: all of them at
/// once.
pub fn add_tracks_to_playlist(playlist_id: i64, track_ids: Vec<i64>) -> (p: PendingOp)
    ensures
        is_op(p, playlist_id, Some("tracks"@), "insert"@),
        p.payload == Some(OpPayload::Tracks(track_ids)),
{
    pending_op(playlist_id, Some("tracks".to_owned()), "insert", Some(OpPayload::Tracks(track_ids)))
}

/// What a server is told of a track that was removed from a playlist.
pub fn remove_track_from_playlist(playlist_id: i64, track_id: i64) -> (p: PendingOp)
    ensures
        is_op(p, playlist_id, Some("tracks"@), "delete"@),
        p.payload matches Some(OpPayload::Tracks(ids)) && ids@ == seq![track_id],
{
    pending_op(playlist_id, Some("tracks".to_owned()), "delete", Some(OpPayload::Tracks(vec![track_id])))
}

/// What moving a track within a playlist comes to. `moved` says whether the
/// track was there, and `position` is the place where it now stands, read back:
/// a server is told that place, or nothing where it could not be read.
pub fn reorder_playlist_track(playlist_id: i64, track_id: i64, moved: bool, position: Option<i64>) -> (r:
    Result<Option<PendingOp>, AppError>)
    ensures
        r is Ok <==> moved,
        r matches Err(e) ==> error::says(
            e,
            "track "@ + decimal::int_text(track_id as int) + " not in playlist "@
                + decimal::int_text(playlist_id as int),
        ),
        r matches Ok(p) ==> match position {
            None => p is None,
            Some(position) => {
                &&& p matches Some(p)
                &&& is_op(p, playlist_id, Some("tracks"@), "set"@)
                &&& p.payload == Some(OpPayload::Position { track_id, position })
            },
        },
{
    if !moved {
        let who = around("track ", i64_text(track_id).as_str(), " not in playlist ");
        let m = around(who.as_str(), i64_text(playlist_id).as_str(), "");
        proof {
            reveal_strlit("");
            assert(m@ =~= "track "@ + decimal::int_text(track_id as int) + " not in playlist "@
                + decimal::int_text(playlist_id as int));
        }
        return Err(AppError::Other(m));
    }
    match position {
        None => Ok(None),
        Some(position) => Ok(
            Some(
                pending_op(
                    playlist_id,
                    Some("tracks".to_owned()),
                    "set",
                    Some(OpPayload::Position { track_id, position }),
                ),
            ),
        ),
    }
}

/// Where tracks come from.
#[derive(Clone, Copy, PartialEq, Eq, Debug, Structural)]
pub enum TrackSource {
    Folder(i64),
    Album(i64),
    Artist(i64),
}

/// The source that a name stands for.
pub open spec fn source_named(source_type: Seq<char>, id: i64) -> Option<TrackSource> {
    if source_type == "folder"@ {
        Some(TrackSource::Folder(id))
    } else if source_type == "album"@ {
        Some(TrackSource::Album(id))
    } else if source_type == "artist"@ {
        Some(TrackSource::Artist(id))
    } else {
        None
    }
}

/// The source that a name stands for.
pub fn parse_source(source_type: &str, source_id: i64) -> (r: Result<TrackSource, AppError>)
    ensures
        match source_named(source_type@, source_id) {
            Some(s) => r == Ok::<TrackSource, AppError>(s),
            None => r matches Err(e) && error::says(
                e,
                "unknown source_type '"@ + source_type@ + "', expected folder/album/artist"@,
            ),
        },
{
    if same_text(source_type, "folder") {
        Ok(TrackSource::Folder(source_id))
    } else if same_text(source_type, "album") {
        Ok(TrackSource::Album(source_id))
    } else if same_text(source_type, "artist") {
        Ok(TrackSource::Artist(source_id))
    } else {
        Err(
            AppError::Other(
                around(
                    "unknown source_type '",
                    source_type,
                    "', expected folder/album/artist",
                ),
            ),
        )
    }
}

/// What a server is told of the tracks of one place that were added to a
/// playlist.
pub fn add_source_to_playlist(
    playlist_id: i64,
    source_type: &str,
    source_id: i64,
    track_ids: Vec<i64>,
) -> (p: PendingOp)
    ensures
        is_op(p, playlist_id, Some("tracks"@), "insert"@),
        p.payload matches Some(OpPayload::TracksFrom { track_ids: ids, source_type: t, source_id: s })
            && ids == track_ids && t@ == source_type@ && s == source_id,
{
    pending_op(
        playlist_id,
        Some("tracks".to_owned()),
        "insert",
        Some(
            OpPayload::TracksFrom { track_ids, source_type: source_type.to_owned(), source_id },
        ),
    )
}

// What holds of all of them.

/// A change is told of its playlist: the kind of thing, its id, the field and what is done
/// to it.
pub proof fn a_change_names_its_playlist(
    p: PendingOp,
    playlist_id: i64,
    field: Option<Seq<char>>,
    op: Seq<char>,
)
    ensures
        is_op(p, playlist_id, field, op) <==> {
            &&& p.entity@ == "playlist"@
            &&& decimal::int_text(playlist_id as int) == p.entity_id@
            &&& field is Some ==> p.field is Some && p.field->0@ == field->0
            &&& field is None ==> p.field is None
            &&& p.op@ == op
        },
{
}

/// A colour or an icon that was chosen is kept, and one that was not is the default.
pub proof fn a_choice_is_kept(chosen: String, default: Seq<char>)
    ensures
        or_text(Some(chosen), default) == chosen@,
        or_text(None, default) == default,
{
}

/// The server is told of each field that is given, under its own name and with its own
/// value, the name first, then the description, the colour and the icon; of a field that is
/// not given it is told nothing.
pub proof fn each_given_field_is_told(u: UpdatePlaylistInput, playlist_id: i64, ops: Seq<PendingOp>)
    requires
        sets(ops, playlist_id, given(u)),
    ensures
        ({
            let a = if u.name is Some {
                1int
            } else {
                0
            };
            let b = a + if u.description is Some {
                1int
            } else {
                0
            };
            let c = b + if u.color_id is Some {
                1int
            } else {
                0
            };
            let d = c + if u.icon_id is Some {
                1int
            } else {
                0
            };
            &&& ops.len() == d
            &&& u.name is Some ==> tells(ops[0], playlist_id, "name"@, u.name->0@)
            &&& u.description is Some ==> tells(
                ops[a],
                playlist_id,
                "description"@,
                u.description->0@,
            )
            &&& u.color_id is Some ==> tells(ops[b], playlist_id, "color_id"@, u.color_id->0@)
            &&& u.icon_id is Some ==> tells(ops[c], playlist_id, "icon_id"@, u.icon_id->0@)
        }),
{
    let one = field_given("name"@, u.name);
    let two = one + field_given("description"@, u.description);
    let three = two + field_given("color_id"@, u.color_id);
    let four = given(u);
    assert(four == three + field_given("icon_id"@, u.icon_id));
    assert(forall|i: int| 0 <= i < one.len() ==> four[i] == one[i]);
    assert(forall|i: int| 0 <= i < two.len() ==> four[i] == two[i]);
    assert(forall|i: int| 0 <= i < three.len() ==> four[i] == three[i]);
}

/// Whether a change sets one field of a playlist to one value.
pub open spec fn tells(p: PendingOp, playlist_id: i64, field: Seq<char>, value: Seq<char>) -> bool {
    &&& p.entity@ == "playlist"@
    &&& p.entity_id@ == decimal::int_text(playlist_id as int)
    &&& p.field is Some && p.field->0@ == field
    &&& p.op@ == "set"@
    &&& p.payload matches Some(OpPayload::Value(v)) && v@ == value
}

/// Tracks come from a folder, an album or an artist, by that name and with that id, and
/// from nothing else.
pub proof fn a_source_goes_by_its_name(name: Seq<char>, id: i64)
    ensures
        name == "folder"@ ==> source_named(name, id) == Some(TrackSource::Folder(id)),
        name == "album"@ ==> source_named(name, id) == Some(TrackSource::Album(id)),
        name == "artist"@ ==> source_named(name, id) == Some(TrackSource::Artist(id)),
        name != "folder"@ && name != "album"@ && name != "artist"@ ==> source_named(name, id)
            is None,
{
    reveal_strlit("folder");
    reveal_strlit("album");
    reveal_strlit("artist");
    assert("folder"@.len() == 6 && "album"@.len() == 5 && "artist"@.len() == 6);
    assert("folder"@[0] == 'f' && "artist"@[0] == 'a');
}

} // verus!
