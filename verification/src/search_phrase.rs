//! The search phrase: the query as the user has typed it so far.

use crate::event_service::EventService;
use crate::pattern::Pattern;
use vstd::prelude::*;
use vstd::string::*;

verus! {

/// `String::pop` takes the last character off a string and returns it; of an
/// empty string it takes nothing and returns `None`.
pub assume_specification[ String::pop ](text: &mut String) -> (last: Option<char>)
    ensures
        old(text)@.len() == 0 ==> last.is_none() && final(text)@ == old(text)@,
        old(text)@.len() > 0 ==> last == Some(old(text)@.last()) && final(text)@ == old(
            text,
        )@.drop_last(),
;

/// `String::push` puts one character behind a string.
pub assume_specification[ String::push ](text: &mut String, ch: char)
    ensures
        final(text)@ == old(text)@.push(ch),
;

/// The string of the one character `c`.
pub fn string_of(c: char) -> (text: String)
    ensures
        text@ == seq![c],
{
    let mut text = String::new();
    text.push(c);
    proof {
        assert(text@ =~= seq![c]);
    }
    text
}

/// `phrase` without its last character, or `phrase` itself where it is empty.
pub open spec fn without_last(phrase: Seq<char>) -> Seq<char> {
    if phrase.len() > 0 {
        phrase.drop_last()
    } else {
        phrase
    }
}

/// Taking the last character off undoes putting one character behind.
pub proof fn delete_last_undoes_one_character(phrase: Seq<char>, c: char)
    ensures
        without_last(phrase + seq![c]) == phrase,
{
    assert((phrase + seq![c]).drop_last() =~= phrase);
}

/// The query that filters the results. Every edit leaves a new content and
/// puts a copy of it in the queue of the event service, for the filter.
pub struct SearchPhrase {
    pub content: String,
}

impl View for SearchPhrase {
    type V = Seq<char>;

    open spec fn view(&self) -> Seq<char> {
        self.content@
    }
}

impl Clone for SearchPhrase {
    fn clone(&self) -> (copy: Self)
        ensures
            copy@ == self@,
    {
        SearchPhrase::from_string(self.content.clone())
    }
}

impl SearchPhrase {
    /// The empty search phrase.
    pub fn init() -> (search_phrase: SearchPhrase)
        ensures
            search_phrase@ == Seq::<char>::empty(),
    {
        SearchPhrase { content: String::new() }
    }

    /// The search phrase that reads `string`.
    pub fn from_string(string: String) -> (search_phrase: SearchPhrase)
        ensures
            search_phrase@ == string@,
    {
        SearchPhrase { content: string }
    }

    /// Puts `string` behind what the phrase reads, and puts the phrase as it
    /// then reads behind the phrases that wait in `event_service`.
    pub fn update(&mut self, string: String, event_service: &mut EventService)
        ensures
            final(self)@ == old(self)@ + string@,
            final(event_service)@.search_phrases == old(event_service)@.search_phrases.push(
                final(self)@,
            ),
            final(event_service)@.file_finder_events == old(event_service)@.file_finder_events,
    {
        self.content.append(string.as_str());
        event_service.trigger_search_phrase_changed(self.clone());
    }

    /// Takes the last character off the phrase; an empty phrase stays empty.
    /// Either way the phrase as it then reads goes behind the phrases that
    /// wait in `event_service`.
    pub fn delete_last(&mut self, event_service: &mut EventService)
        ensures
            final(self)@ == without_last(old(self)@),
            final(event_service)@.search_phrases == old(event_service)@.search_phrases.push(
                final(self)@,
            ),
            final(event_service)@.file_finder_events == old(event_service)@.file_finder_events,
    {
        let _ = self.content.pop();
        event_service.trigger_search_phrase_changed(self.clone());
    }

    /// The pattern that the phrase stands for: its characters, each to be
    /// found in a path in this order, in upper or lower case.
    pub fn to_pattern(&self) -> (pattern: Pattern)
        ensures
            pattern@ == self@,
    {
        Pattern::new(self.content.as_str())
    }
}

} // verus!
