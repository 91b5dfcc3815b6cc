//! Rules by which entities and their relations are read off a text when no
//! language model is at hand.

use vstd::prelude::*;

use crate::text::ends_in;
use crate::text::find_word;
use crate::text::first_place;
use crate::text::has_word;
use crate::text::occurs_in;
use crate::text::same_text;
use crate::text::text_contains;
use crate::text::text_ends_with;

verus! {

/// What kind of thing an entity is taken to be.
#[derive(Debug, Clone, Copy, PartialEq, Eq, Structural)]
pub enum EntityKind {
    /// A temperature or the like.
    Measurement,
    /// A place.
    Location,
    /// Anything else.
    Concept,
}

/// How two entities of a sentence are taken to be related.
#[derive(Debug, Clone, Copy, PartialEq, Eq, Structural)]
pub enum Predicate {
    LocatedIn,
    Is,
    HasWeather,
    RelatedTo,
}

/// Whether a word is one of the places that the rules know.
pub open spec fn known_place(word: Seq<char>) -> bool {
    word == "Boston"@ || word == "Massachusetts"@ || word == "USA"@
}

/// The kind of an entity with the given name: a measurement when the name
/// ends in `F` or holds a degree sign, a location when it is a known
/// place, else a concept.
pub open spec fn kind_of(word: Seq<char>) -> EntityKind {
    if ends_in(word, "F"@) || occurs_in(word, "°"@) {
        EntityKind::Measurement
    } else if known_place(word) {
        EntityKind::Location
    } else {
        EntityKind::Concept
    }
}

/// Decides the kind of an entity from its name.
pub fn entity_kind(word: &str) -> (kind: EntityKind)
    ensures
        kind == kind_of(word@),
{
    if text_ends_with(word, "F") || text_contains(word, "°") {
        EntityKind::Measurement
    } else if same_text(word, "Boston") || same_text(word, "Massachusetts") || same_text(
        word,
        "USA",
    ) {
        EntityKind::Location
    } else {
        EntityKind::Concept
    }
}

/// The name of a kind of entity.
pub fn kind_name(kind: EntityKind) -> (name: &'static str)
    ensures
        name@ == (match kind {
            EntityKind::Measurement => "Measurement"@,
            EntityKind::Location => "Location"@,
            EntityKind::Concept => "Concept"@,
        }),
{
    match kind {
        EntityKind::Measurement => "Measurement",
        EntityKind::Location => "Location",
        EntityKind::Concept => "Concept",
    }
}

/// The name of a predicate.
pub fn predicate_name(predicate: Predicate) -> (name: &'static str)
    ensures
        name@ == (match predicate {
            Predicate::LocatedIn => "LOCATED_IN"@,
            Predicate::Is => "IS"@,
            Predicate::HasWeather => "HAS_WEATHER"@,
            Predicate::RelatedTo => "RELATED_TO"@,
        }),
{
    match predicate {
        Predicate::LocatedIn => "LOCATED_IN",
        Predicate::Is => "IS",
        Predicate::HasWeather => "HAS_WEATHER",
        Predicate::RelatedTo => "RELATED_TO",
    }
}

/// The predicate that the words from place `from` up to place `to` of a
/// sentence give away: a place for `in` or `from`, an identity for `is` or
/// `was`, the weather for `weather`, else a mere relation.
pub open spec fn predicate_of(words: Seq<String>, from: int, to: int) -> Predicate {
    if has_word(words, from, to, "in"@) || has_word(words, from, to, "from"@) {
        Predicate::LocatedIn
    } else if has_word(words, from, to, "is"@) || has_word(words, from, to, "was"@) {
        Predicate::Is
    } else if has_word(words, from, to, "weather"@) {
        Predicate::HasWeather
    } else {
        Predicate::RelatedTo
    }
}

/// Decides the predicate between two entities from the words that stand
/// between them, those from place `from` up to place `to` of the sentence.
pub fn predicate_between(words: &Vec<String>, from: usize, to: usize) -> (predicate: Predicate)
    requires
        from <= to <= words@.len(),
    ensures
        predicate == predicate_of(words@, from as int, to as int),
{
    if find_word(words, from, to, "in") < to || find_word(words, from, to, "from") < to {
        Predicate::LocatedIn
    } else if find_word(words, from, to, "is") < to || find_word(words, from, to, "was") < to {
        Predicate::Is
    } else if find_word(words, from, to, "weather") < to {
        Predicate::HasWeather
    } else {
        Predicate::RelatedTo
    }
}

/// The predicate between two words of a sentence: the one that the words
/// between their first places give away, the word that comes first
/// counted in.
pub open spec fn relation_of(words: Seq<String>, a: Seq<char>, b: Seq<char>) -> Predicate {
    let at_a = first_place(words, 0, words.len() as int, a);
    let at_b = first_place(words, 0, words.len() as int, b);
    if at_a <= at_b {
        predicate_of(words, at_a, at_b)
    } else {
        predicate_of(words, at_b, at_a)
    }
}

/// Relates two words of a sentence. `None` when one of them does not stand
/// in the sentence.
pub fn relate(words: &Vec<String>, a: &str, b: &str) -> (relation: Option<Predicate>)
    ensures
        relation is Some <==> has_word(words@, 0, words@.len() as int, a@) && has_word(
            words@,
            0,
            words@.len() as int,
            b@,
        ),
        relation matches Some(predicate) ==> predicate == relation_of(words@, a@, b@),
{
    let at_a = find_word(words, 0, words.len(), a);
    let at_b = find_word(words, 0, words.len(), b);
    if at_a == words.len() || at_b == words.len() {
        None
    } else if at_a <= at_b {
        Some(predicate_between(words, at_a, at_b))
    } else {
        Some(predicate_between(words, at_b, at_a))
    }
}

} // verus!
