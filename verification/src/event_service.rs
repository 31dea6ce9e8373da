//! The event queues: search phrases on their way to the filter, and result
//! lists on their way to the screen. Each kind has a queue of its own, and
//! what came first leaves first.

use crate::search_phrase::SearchPhrase;
use vstd::prelude::*;

verus! {

/// What each phrase of `phrases` reads.
pub open spec fn phrase_views(phrases: Seq<SearchPhrase>) -> Seq<Seq<char>> {
    phrases.map_values(|phrase: SearchPhrase| phrase@)
}

/// The search phrases that wait for the filter, oldest first.
pub struct SearchPhrases {
    data: Vec<SearchPhrase>,
}

impl View for SearchPhrases {
    type V = Seq<Seq<char>>;

    closed spec fn view(&self) -> Seq<Seq<char>> {
        phrase_views(self.data@)
    }
}

impl SearchPhrases {
    /// No phrase waits.
    pub fn new() -> (phrases: SearchPhrases)
        ensures
            phrases@ == Seq::<Seq<char>>::empty(),
    {
        let phrases = SearchPhrases { data: Vec::new() };
        proof {
            assert(phrases@ =~= Seq::<Seq<char>>::empty());
        }
        phrases
    }

    /// Puts `data` behind the phrases that wait.
    pub fn push(&mut self, data: SearchPhrase)
        ensures
            final(self)@ == old(self)@.push(data@),
    {
        self.data.push(data);
        proof {
            assert(self@ =~= old(self)@.push(data@));
        }
    }

    /// Hands out the phrases that wait, oldest first, and leaves none.
    pub fn export(&mut self) -> (data: Vec<SearchPhrase>)
        ensures
            phrase_views(data@) == old(self)@,
            final(self)@ == Seq::<Seq<char>>::empty(),
    {
        let mut data: Vec<SearchPhrase> = Vec::new();
        core::mem::swap(&mut data, &mut self.data);
        proof {
            assert(self@ =~= Seq::<Seq<char>>::empty());
        }
        data
    }
}

/// What an event service stands for: the phrases and the result lists that
/// wait, each kind oldest first.
pub struct EventServiceState {
    pub search_phrases: Seq<Seq<char>>,
    pub file_finder_events: Seq<Seq<Seq<char>>>,
}

/// What each list of `events` holds.
pub open spec fn event_views(events: Seq<Vec<String>>) -> Seq<Seq<Seq<char>>> {
    events.map_values(|results: Vec<String>| results.deep_view())
}

/// The meeting point of the three activities: the keyboard puts search
/// phrases in, the file finder takes them out and puts result lists in, the
/// screen takes result lists out.
pub struct EventService {
    pub search_phrases: SearchPhrases,
    file_finder_events: Vec<Vec<String>>,
}

impl View for EventService {
    type V = EventServiceState;

    closed spec fn view(&self) -> EventServiceState {
        EventServiceState {
            search_phrases: self.search_phrases@,
            file_finder_events: event_views(self.file_finder_events@),
        }
    }
}

/// What the screen's loop does next.
#[derive(Debug, PartialEq, Eq)]
pub enum Listening {
    /// Show this list of results, then listen on.
    Show(Vec<String>),
    /// Nothing waits: listen on.
    Idle,
    /// The session is over: leave the loop.
    Stop,
}

impl EventService {
    /// An event service in which nothing waits.
    pub fn new() -> (event_service: EventService)
        ensures
            event_service@.search_phrases == Seq::<Seq<char>>::empty(),
            event_service@.file_finder_events == Seq::<Seq<Seq<char>>>::empty(),
    {
        let event_service = EventService {
            search_phrases: SearchPhrases::new(),
            file_finder_events: Vec::new(),
        };
        proof {
            assert(event_service@.file_finder_events =~= Seq::<Seq<Seq<char>>>::empty());
        }
        event_service
    }

    /// Puts `search_phrase` behind the phrases that wait for the filter.
    pub fn trigger_search_phrase_changed(&mut self, search_phrase: SearchPhrase)
        ensures
            final(self)@.search_phrases == old(self)@.search_phrases.push(search_phrase@),
            final(self)@.file_finder_events == old(self)@.file_finder_events,
    {
        self.search_phrases.push(search_phrase);
    }

    /// Puts `results` behind the result lists that wait for the screen.
    pub fn trigger_file_finder_event(&mut self, results: Vec<String>)
        ensures
            final(self)@.file_finder_events == old(self)@.file_finder_events.push(
                results.deep_view(),
            ),
            final(self)@.search_phrases == old(self)@.search_phrases,
    {
        self.file_finder_events.push(results);
        proof {
            assert(self@.file_finder_events =~= old(self)@.file_finder_events.push(
                results.deep_view(),
            ));
        }
    }

    /// Takes out every phrase that waits and hands back the newest: the
    /// phrases typed before it are superseded. `None` where none waits.
    pub fn fetch_last_search_phrase(&mut self) -> (last: Option<SearchPhrase>)
        ensures
            final(self)@.search_phrases == Seq::<Seq<char>>::empty(),
            final(self)@.file_finder_events == old(self)@.file_finder_events,
            last.is_some() == (old(self)@.search_phrases.len() > 0),
            last matches Some(phrase) ==> phrase@ == old(self)@.search_phrases.last(),
    {
        let mut events = self.search_phrases.export();
        events.pop()
    }

    /// Takes out every result list that waits and hands back the newest.
    /// `None` where none waits.
    pub fn fetch_last_file_finder_event(&mut self) -> (last: Option<Vec<String>>)
        ensures
            final(self)@.file_finder_events == Seq::<Seq<Seq<char>>>::empty(),
            final(self)@.search_phrases == old(self)@.search_phrases,
            last.is_some() == (old(self)@.file_finder_events.len() > 0),
            last matches Some(results) ==> results.deep_view() == old(
                self,
            )@.file_finder_events.last(),
    {
        let mut events: Vec<Vec<String>> = Vec::new();
        core::mem::swap(&mut events, &mut self.file_finder_events);
        proof {
            assert(self@.file_finder_events =~= Seq::<Seq<Seq<char>>>::empty());
        }
        events.pop()
    }
}

/// One turn of the screen's loop. Once the session is over the loop stops,
/// whatever waits. Else the oldest result list that waits leaves the queue to
/// be shown; where none waits, the loop listens on.
pub fn listen_for_events(event_service: &mut EventService, app_finished: bool) -> (next: Listening)
    ensures
        final(event_service)@.search_phrases == old(event_service)@.search_phrases,
        app_finished ==> next is Stop && final(event_service)@ == old(event_service)@,
        !app_finished && old(event_service)@.file_finder_events.len() == 0 ==> next is Idle
            && final(event_service)@ == old(event_service)@,
        !app_finished && old(event_service)@.file_finder_events.len() > 0 ==> {
            &&& next matches Listening::Show(results)
            &&& results.deep_view() == old(event_service)@.file_finder_events.first()
            &&& final(event_service)@.file_finder_events == old(
                event_service,
            )@.file_finder_events.drop_first()
        },
{
    if app_finished {
        Listening::Stop
    } else if event_service.file_finder_events.len() == 0 {
        Listening::Idle
    } else {
        let results = event_service.file_finder_events.remove(0);
        proof {
            assert(event_service@.file_finder_events =~= old(
                event_service,
            )@.file_finder_events.drop_first());
        }
        Listening::Show(results)
    }
}

} // verus!
