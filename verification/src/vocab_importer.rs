//! Note building and result accounting for the vocabulary import: how a
//! word becomes a note, and how a batch of add-note outcomes is tallied.
//! Sending the notes over HTTP is the caller's business; everything here
//! is a pure function of its arguments.

use vstd::prelude::*;
use crate::anki::{Note, NoteFields, spec_duplicate_message};
use crate::parse::Word;
use crate::text::{blank_seq, is_blank, has_substring, contains_substring};

verus! {

/// The import settings: which deck and note model the notes target.
#[derive(Debug, Clone, PartialEq)]
pub struct JapaneseVocabImporter {
    deck_name: String,
    model_name: String,
}

/// The tags a note gets: its topic (when the topic has a name) followed
/// by the two fixed tags.
pub open spec fn spec_note_tags(topic: Seq<char>) -> Seq<Seq<char>> {
    if topic.len() == 0 {
        seq!["japanese"@, "vocabularly"@]
    } else {
        seq![topic, "japanese"@, "vocabularly"@]
    }
}

/// The deck a note lands in: the importer's deck, or a subdeck named
/// after the topic when the topic has a name.
pub open spec fn spec_note_deck(deck: Seq<char>, topic: Seq<char>) -> Seq<char> {
    if topic.len() == 0 {
        deck
    } else {
        deck + "::"@ + topic
    }
}

/// The note's front: the written form when present, else the term.
pub open spec fn spec_note_front(word: crate::parse::WordModel) -> Seq<char> {
    if blank_seq(word.kanji) {
        word.japanese
    } else {
        word.kanji
    }
}

/// The note's back: the translation alone when the front is the term,
/// else the term and the translation separated by a bar.
pub open spec fn spec_note_back(word: crate::parse::WordModel) -> Seq<char> {
    if blank_seq(word.kanji) {
        word.english
    } else {
        word.japanese + " | "@ + word.english
    }
}

impl JapaneseVocabImporter {
    /// The target deck.
    pub closed spec fn spec_deck_name(&self) -> Seq<char> {
        self.deck_name@
    }

    /// The note model used for every note.
    pub closed spec fn spec_model_name(&self) -> Seq<char> {
        self.model_name@
    }

    /// An importer targeting this deck, with the basic two-field model.
    pub fn new(deck_name: String) -> (r: Self)
        ensures
            r.spec_deck_name() == deck_name@,
            r.spec_model_name() == "Basic"@,
    {
        JapaneseVocabImporter { deck_name, model_name: String::from_str("Basic") }
    }

    /// The same importer with another note model.
    pub fn _with_model(self, model_name: String) -> (r: Self)
        ensures
            r.spec_deck_name() == self.spec_deck_name(),
            r.spec_model_name() == model_name@,
    {
        JapaneseVocabImporter { deck_name: self.deck_name, model_name }
    }

    /// Builds the note for one word of one topic: the front prefers the
    /// written form, the back carries the translation, the deck gains a
    /// topic subdeck when the topic has a name, and no media is attached.
    pub fn word_to_note(&self, word: &Word, topic: &str) -> (n: Note)
        ensures
            n.deck_name@ == spec_note_deck(self.spec_deck_name(), topic@),
            n.model_name@ == self.spec_model_name(),
            n.fields.front@ == spec_note_front(word@),
            n.fields.back@ == spec_note_back(word@),
            n.tags.deep_view() == spec_note_tags(topic@),
            n.audio is None,
            n.picture is None,
    {
        let full_deck_name = if topic.is_empty() {
            self.deck_name.clone()
        } else {
            self.deck_name.clone().concat("::").concat(topic)
        };
        let kanji_blank = is_blank(word.kanji().as_str());
        let front = if kanji_blank {
            word.japanese().clone()
        } else {
            word.kanji().clone()
        };
        let back = if kanji_blank {
            word.english().clone()
        } else {
            word.japanese().clone().concat(" | ").concat(word.english().as_str())
        };
        let mut tags: Vec<String> = Vec::new();
        if !topic.is_empty() {
            tags.push(String::from_str(topic));
        }
        tags.push(String::from_str("japanese"));
        tags.push(String::from_str("vocabularly"));
        proof {
            assert(tags.deep_view() =~= spec_note_tags(topic@));
        }
        Note {
            deck_name: full_deck_name,
            model_name: self.model_name.clone(),
            fields: NoteFields { front, back },
            tags,
            audio: None,
            picture: None,
        }
    }
}

/// What one topic's import came to: how many notes were added, how many
/// already existed, and how many failed outright.
#[derive(Debug, Clone, PartialEq)]
pub struct ImportResult {
    pub topic_name: String,
    pub added: usize,
    pub duplicates: usize,
    pub errors: usize,
}

/// How many of the first `n` outcomes carry an identifier.
pub open spec fn count_added(s: Seq<Result<i64, String>>, n: int) -> int
    decreases n,
{
    if n <= 0 {
        0
    } else {
        count_added(s, n - 1) + if s[n - 1] is Ok {
            1int
        } else {
            0int
        }
    }
}

/// How many of the first `n` outcomes report a duplicate.
pub open spec fn count_duplicates(s: Seq<Result<i64, String>>, n: int) -> int
    decreases n,
{
    if n <= 0 {
        0
    } else {
        count_duplicates(s, n - 1) + if s[n - 1] matches Err(m) && spec_tally_duplicate(m@) {
            1int
        } else {
            0int
        }
    }
}

/// How many of the first `n` outcomes report another failure.
pub open spec fn count_errors(s: Seq<Result<i64, String>>, n: int) -> int
    decreases n,
{
    if n <= 0 {
        0
    } else {
        count_errors(s, n - 1) + if s[n - 1] matches Err(m) && !spec_tally_duplicate(m@) {
            1int
        } else {
            0int
        }
    }
}

/// An outcome message that the tally counts as a duplicate.
pub open spec fn spec_tally_duplicate(m: Seq<char>) -> bool {
    has_substring(m, "Duplicate"@)
}

impl ImportResult {
    /// An empty tally for this topic.
    pub fn new(topic_name: &str) -> (r: Self)
        ensures
            r.topic_name@ == topic_name@,
            r.added == 0,
            r.duplicates == 0,
            r.errors == 0,
    {
        ImportResult {
            topic_name: String::from_str(topic_name),
            added: 0,
            duplicates: 0,
            errors: 0,
        }
    }

    /// The number of outcomes accounted for.
    pub fn total(&self) -> (r: usize)
        requires
            self.added + self.duplicates + self.errors <= usize::MAX,
        ensures
            r == self.added + self.duplicates + self.errors,
    {
        self.added + self.duplicates + self.errors
    }
}

/// Tallies a batch of add-note outcomes for one topic: an identifier
/// counts as added, an error mentioning a duplicate as a duplicate, any
/// other error as a failure; every outcome lands in exactly one bucket.
pub fn tally_add_results(topic_name: &str, add_results: &Vec<Result<i64, String>>) -> (t:
    ImportResult)
    ensures
        t.topic_name@ == topic_name@,
        t.added == count_added(add_results@, add_results@.len() as int),
        t.duplicates == count_duplicates(add_results@, add_results@.len() as int),
        t.errors == count_errors(add_results@, add_results@.len() as int),
        t.added + t.duplicates + t.errors == add_results@.len(),
{
    let mut result = ImportResult::new(topic_name);
    let n = add_results.len();
    let mut i: usize = 0;
    while i < n
        invariant
            i <= n,
            n == add_results@.len(),
            result.topic_name@ == topic_name@,
            result.added == count_added(add_results@, i as int),
            result.duplicates == count_duplicates(add_results@, i as int),
            result.errors == count_errors(add_results@, i as int),
            result.added + result.duplicates + result.errors == i,
        decreases n - i,
    {
        match &add_results[i] {
            Ok(_) => {
                result.added = result.added + 1;
            },
            Err(m) => {
                if contains_substring(m.as_str(), "Duplicate") {
                    result.duplicates = result.duplicates + 1;
                } else {
                    result.errors = result.errors + 1;
                }
            },
        }
        i = i + 1;
    }
    result
}

} // verus!
