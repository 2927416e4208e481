//! Decoding the text of a library manifest.
//!
//! A manifest is a JSON object with a `games` array. Each game is an object
//! with the texts `app_name`, `title` and `folder_name` and an object
//! `install` that holds the text `platform`. Other members are passed over.
//! The JSON itself is read by `serde_json`; what the document has to hold is
//! decided here.

use crate::library::{record_views, Install, LibraryGame, LibraryGameView, Manifest};
use crate::text::optional_text;
use vstd::prelude::*;

verus! {

/// A JSON value of `serde_json`. Nothing inside it is visible here; the
/// functions below give names to what it holds.
#[verifier::external_type_specification]
#[verifier::external_body]
pub struct ExValue(serde_json::Value);

/// The error of `serde_json`.
#[verifier::external_type_specification]
#[verifier::external_body]
pub struct ExError(serde_json::Error);

/// The JSON value that a text is read as; none where the text is not one
/// JSON document.
pub uninterp spec fn json_document(text: Seq<char>) -> Option<serde_json::Value>;

/// The text of a JSON string; none for any other value.
pub uninterp spec fn json_text(value: serde_json::Value) -> Option<Seq<char>>;

/// The items of a JSON array, in order; none for any other value.
pub uninterp spec fn json_items(value: serde_json::Value) -> Option<Seq<serde_json::Value>>;

/// The members of a JSON object by their keys; none for any other value.
pub uninterp spec fn json_members(value: serde_json::Value) -> Option<
    Map<Seq<char>, serde_json::Value>,
>;

/// Calls `serde_json::from_str` for a `Value`. Nothing is proved of the call:
/// the contract gives the value that was read the name `json_document`, a
/// function of the text alone, and says that an error comes exactly where
/// that name gives none.
#[verifier::external_body]
fn parse_json(text: &str) -> (result: Result<serde_json::Value, serde_json::Error>)
    ensures
        match result {
            Ok(value) => json_document(text@) == Some(value),
            Err(_) => json_document(text@) is None,
        },
{
    serde_json::from_str::<serde_json::Value>(text)
}

/// Calls `Value::get` with a text key. The contract says what the crate's
/// source shows: the member under the key where the value is an object that
/// has one, nothing for any other value or key.
#[verifier::external_body]
fn json_get<'a>(value: &'a serde_json::Value, key: &str) -> (result: Option<&'a serde_json::Value>)
    ensures
        match result {
            Some(member) => json_members(*value) is Some && json_members(
                *value,
            ).unwrap().contains_key(key@) && *member == json_members(*value).unwrap()[key@],
            None => !(json_members(*value) is Some && json_members(
                *value,
            ).unwrap().contains_key(key@)),
        },
{
    value.get(key)
}

/// Calls `Value::as_str`: the text where the value is a string, nothing
/// otherwise.
#[verifier::external_body]
fn json_as_str<'a>(value: &'a serde_json::Value) -> (result: Option<&'a str>)
    ensures
        match result {
            Some(text) => json_text(*value) == Some(text@),
            None => json_text(*value) is None,
        },
{
    value.as_str()
}

/// Calls `Value::as_array`: the items where the value is an array, nothing
/// otherwise.
#[verifier::external_body]
fn json_as_array<'a>(value: &'a serde_json::Value) -> (result: Option<&'a Vec<serde_json::Value>>)
    ensures
        match result {
            Some(items) => json_items(*value) == Some(items@),
            None => json_items(*value) is None,
        },
{
    value.as_array()
}

/// Writes out the message of an error of `serde_json`, with the line and
/// column that it names. Nothing is claimed of the text.
#[verifier::external_body]
fn json_error_text(error: &serde_json::Error) -> (result: String) {
    error.to_string()
}

/// The member of an object under `key`; none where the value is no object or
/// has no such member.
pub open spec fn json_member(value: serde_json::Value, key: Seq<char>) -> Option<
    serde_json::Value,
> {
    match json_members(value) {
        Some(members) => if members.contains_key(key) {
            Some(members[key])
        } else {
            None
        },
        None => None,
    }
}

/// The text of the member under `key`; none where there is no such member or
/// it is no string.
pub open spec fn member_text(value: serde_json::Value, key: Seq<char>) -> Option<Seq<char>> {
    match json_member(value, key) {
        Some(member) => json_text(member),
        None => None,
    }
}

/// The platform of a game: the text `platform` of its object `install`.
pub open spec fn install_platform(game: serde_json::Value) -> Option<Seq<char>> {
    match json_member(game, "install"@) {
        Some(install) => member_text(install, "platform"@),
        None => None,
    }
}

/// The record that one item of `games` declares; none where a member is
/// missing or of the wrong kind.
pub open spec fn game_record(game: serde_json::Value) -> Option<LibraryGameView> {
    if member_text(game, "app_name"@) is Some && member_text(game, "title"@) is Some
        && install_platform(game) is Some && member_text(game, "folder_name"@) is Some {
        Some(
            LibraryGameView {
                app_name: member_text(game, "app_name"@).unwrap(),
                title: member_text(game, "title"@).unwrap(),
                platform: install_platform(game).unwrap(),
                folder_name: member_text(game, "folder_name"@).unwrap(),
            },
        )
    } else {
        None
    }
}

/// The records that the items of `games` declare, in their order; none where
/// one of them declares none.
pub open spec fn game_records(items: Seq<serde_json::Value>) -> Option<Seq<LibraryGameView>> {
    if forall|i: int| 0 <= i < items.len() ==> (#[trigger] game_record(items[i])) is Some {
        Some(Seq::new(items.len(), |i: int| game_record(items[i]).unwrap()))
    } else {
        None
    }
}

/// The records that a document declares; none where it is no object, has no
/// array `games`, or one of the games is not as expected.
pub open spec fn document_records(document: serde_json::Value) -> Option<Seq<LibraryGameView>> {
    match json_member(document, "games"@) {
        Some(games) => match json_items(games) {
            Some(items) => game_records(items),
            None => None,
        },
        None => None,
    }
}

/// The records that the text of a manifest declares.
pub open spec fn manifest_records(text: Seq<char>) -> Option<Seq<LibraryGameView>> {
    match json_document(text) {
        Some(document) => document_records(document),
        None => None,
    }
}

fn read_text(value: &serde_json::Value, key: &str) -> (result: Option<String>)
    ensures
        optional_text(result) == member_text(*value, key@),
{
    match json_get(value, key) {
        Some(member) => match json_as_str(member) {
            Some(text) => Some(text.to_owned()),
            None => None,
        },
        None => None,
    }
}

/// Reads one item of `games`.
pub fn read_game(game: &serde_json::Value) -> (result: Option<LibraryGame>)
    ensures
        match result {
            Some(record) => game_record(*game) == Some(record@),
            None => game_record(*game) is None,
        },
{
    let app_name = match read_text(game, "app_name") {
        Some(text) => text,
        None => {
            return None;
        },
    };
    let title = match read_text(game, "title") {
        Some(text) => text,
        None => {
            return None;
        },
    };
    let platform = match json_get(game, "install") {
        Some(install) => match read_text(install, "platform") {
            Some(text) => text,
            None => {
                return None;
            },
        },
        None => {
            return None;
        },
    };
    let folder_name = match read_text(game, "folder_name") {
        Some(text) => text,
        None => {
            return None;
        },
    };
    Some(LibraryGame { app_name, title, install: Install { platform }, folder_name })
}

/// Reads the games of a document that was read as JSON, in the order in
/// which the document lists them. One game that is not as expected spoils
/// the whole document.
pub fn read_document(document: &serde_json::Value) -> (result: Option<Vec<LibraryGame>>)
    ensures
        match result {
            Some(records) => document_records(*document) == Some(record_views(records@)),
            None => document_records(*document) is None,
        },
{
    let games = match json_get(document, "games") {
        Some(games) => games,
        None => {
            return None;
        },
    };
    let items = match json_as_array(games) {
        Some(items) => items,
        None => {
            return None;
        },
    };
    let mut records: Vec<LibraryGame> = Vec::new();
    let mut i: usize = 0;
    while i < items.len()
        invariant
            i <= items@.len(),
            records@.len() == i,
            document_records(*document) == game_records(items@),
            forall|j: int|
                0 <= j < i ==> (#[trigger] game_record(items@[j])) == Some(records@[j]@),
        decreases items@.len() - i,
    {
        match read_game(&items[i]) {
            Some(record) => {
                records.push(record);
            },
            None => {
                assert(game_record(items@[i as int]) is None);
                return None;
            },
        }
        i += 1;
    }
    assert(record_views(records@) =~= game_records(items@).unwrap());
    Some(records)
}

/// Reads the text of a manifest file. The result is `Parsed` with the games
/// in the manifest's order where the text is a library manifest, and
/// `Malformed` with the reason where it is not; never `Missing`. The reason
/// is the JSON reader's message where the text is no JSON document, and a
/// fixed sentence where the document is of another shape.
pub fn read_library(text: &str) -> (manifest: Manifest)
    ensures
        match manifest {
            Manifest::Parsed(records) => manifest_records(text@) == Some(record_views(records@)),
            Manifest::Malformed(reason) => {
                &&& manifest_records(text@) is None
                &&& json_document(text@) is Some ==> reason@
                    == "the document does not declare a library"@
            },
            Manifest::Missing => false,
        },
{
    match parse_json(text) {
        Ok(document) => match read_document(&document) {
            Some(records) => Manifest::Parsed(records),
            None => Manifest::Malformed("the document does not declare a library".to_owned()),
        },
        Err(error) => Manifest::Malformed(json_error_text(&error)),
    }
}

} // verus!
