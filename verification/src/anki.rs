//! The pure side of the flashcard client: request and note structures,
//! and the interpretation of the automation endpoint's answers.  Every
//! answer arrives as an optional result plus an optional error string;
//! the functions here decide, exactly, what each combination means.
//! The HTTP exchange itself lives outside the library.

use vstd::prelude::*;
use crate::text::{contains_substring, has_substring};

verus! {

/// One request to the flashcard app's automation endpoint.
#[derive(Debug)]
pub struct AnkiRequest<T> {
    pub action: String,
    pub version: u32,
    pub params: T,
}

impl<T> AnkiRequest<T> {
    /// Wraps parameters under an action name, at the automation API
    /// version this library speaks.
    pub fn new(action: String, params: T) -> (r: Self)
        ensures
            r.action == action,
            r.version == 6,
            r.params == params,
    {
        AnkiRequest { action, version: 6, params }
    }
}

/// A note to create: target deck, note model, its two fields, tags, and
/// optional media attachments.
#[derive(Debug, Clone, PartialEq)]
pub struct Note {
    pub deck_name: String,
    pub model_name: String,
    pub fields: NoteFields,
    pub tags: Vec<String>,
    pub audio: Option<Vec<AudioField>>,
    pub picture: Option<Vec<PictureField>>,
}

/// The two faces of a note.
#[derive(Debug, Clone, PartialEq)]
pub struct NoteFields {
    pub front: String,
    pub back: String,
}

/// An audio attachment: where to fetch it, what to store it as, and which
/// note fields it belongs to.
#[derive(Debug, Clone, PartialEq)]
pub struct AudioField {
    pub url: String,
    pub filename: String,
    pub fields: Vec<String>,
}

/// A picture attachment: where to fetch it, what to store it as, and
/// which note fields it belongs to.
#[derive(Debug, Clone, PartialEq)]
pub struct PictureField {
    pub url: String,
    pub filename: String,
    pub fields: Vec<String>,
}

/// What went wrong with one call to the automation endpoint.
#[derive(Debug, Clone, PartialEq)]
pub enum AnkiError {
    /// The permission check was answered with an error.
    Connect { detail: String },
    /// The deck-name listing was answered with an error.
    DeckNames { detail: String },
    /// Creating a deck was answered with an error.
    CreateDeck { detail: String },
    /// The note already exists.
    Duplicate,
    /// Adding a note failed for another reason.
    AddNote { detail: String },
}

impl AnkiError {
    /// The human-readable message for this error.
    pub open spec fn spec_message(&self) -> Seq<char> {
        match self {
            AnkiError::Connect { detail } => "AnkiConnect error: "@ + detail@,
            AnkiError::DeckNames { detail } => "Failed to get deck names: "@ + detail@,
            AnkiError::CreateDeck { detail } => "Failed to create deck: "@ + detail@,
            AnkiError::Duplicate => "Duplicate note"@,
            AnkiError::AddNote { detail } => "Failed to add note: "@ + detail@,
        }
    }

    /// Renders the error as its message.
    pub fn message(&self) -> (r: String)
        ensures
            r@ == self.spec_message(),
    {
        match self {
            AnkiError::Connect { detail } => String::from_str("AnkiConnect error: ").concat(
                detail.as_str(),
            ),
            AnkiError::DeckNames { detail } => String::from_str("Failed to get deck names: ")
                .concat(detail.as_str()),
            AnkiError::CreateDeck { detail } => String::from_str("Failed to create deck: ")
                .concat(detail.as_str()),
            AnkiError::Duplicate => String::from_str("Duplicate note"),
            AnkiError::AddNote { detail } => String::from_str("Failed to add note: ").concat(
                detail.as_str(),
            ),
        }
    }
}

/// An error message that mentions a duplicate, the endpoint's way of
/// reporting a note that already exists.
pub open spec fn spec_duplicate_message(m: Seq<char>) -> bool {
    has_substring(m, "duplicate"@)
}

/// Interprets the answer to a permission check: any reported error aborts
/// the connection, otherwise the endpoint is reachable.
pub fn check_connection_outcome(error: Option<String>) -> (r: Result<(), AnkiError>)
    ensures
        r is Ok <==> error is None,
        (error matches Some(m) ==> r == Err::<(), AnkiError>(AnkiError::Connect { detail: m })),
{
    match error {
        None => Ok(()),
        Some(detail) => Err(AnkiError::Connect { detail }),
    }
}

/// Interprets the answer to a deck-name listing: an error aborts, a
/// missing result means no decks.
pub fn deck_names_outcome(result: Option<Vec<String>>, error: Option<String>) -> (r: Result<
    Vec<String>,
    AnkiError,
>)
    ensures
        r is Ok <==> error is None,
        (error matches Some(m) ==> r == Err::<Vec<String>, AnkiError>(AnkiError::DeckNames {
            detail: m,
        })),
        (error is None ==> (match result {
            Some(names) => r == Ok::<Vec<String>, AnkiError>(names),
            None => r matches Ok(names) && names@.len() == 0,
        })),
{
    match error {
        Some(detail) => Err(AnkiError::DeckNames { detail }),
        None => match result {
            Some(names) => Ok(names),
            None => Ok(Vec::new()),
        },
    }
}

/// Interprets the answer to a deck creation: an error aborts, a missing
/// identifier reads as zero.
pub fn create_deck_outcome(result: Option<i64>, error: Option<String>) -> (r: Result<
    i64,
    AnkiError,
>)
    ensures
        r is Ok <==> error is None,
        (error matches Some(m) ==> r == Err::<i64, AnkiError>(AnkiError::CreateDeck {
            detail: m,
        })),
        (error is None ==> r == Ok::<i64, AnkiError>(
            match result {
                Some(id) => id,
                None => 0,
            },
        )),
{
    match error {
        Some(detail) => Err(AnkiError::CreateDeck { detail }),
        None => match result {
            Some(id) => Ok(id),
            None => Ok(0),
        },
    }
}

/// Interprets the answer to adding a note: an error mentioning a
/// duplicate means the note already exists, any other error aborts, and
/// on success a missing identifier reads as zero.
pub fn add_note_outcome(result: Option<i64>, error: Option<String>) -> (r: Result<i64, AnkiError>)
    ensures
        r is Ok <==> error is None,
        (error matches Some(m) ==> (if spec_duplicate_message(m@) {
            r == Err::<i64, AnkiError>(AnkiError::Duplicate)
        } else {
            r == Err::<i64, AnkiError>(AnkiError::AddNote { detail: m })
        })),
        (error is None ==> r == Ok::<i64, AnkiError>(
            match result {
                Some(id) => id,
                None => 0,
            },
        )),
{
    match error {
        Some(detail) => {
            if contains_substring(detail.as_str(), "duplicate") {
                Err(AnkiError::Duplicate)
            } else {
                Err(AnkiError::AddNote { detail })
            }
        },
        None => match result {
            Some(id) => Ok(id),
            None => Ok(0),
        },
    }
}

} // verus!
