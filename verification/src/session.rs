use vstd::prelude::*;
use crate::decimal::{decimal, push_decimal};
use crate::layout::{message_screen, screen_shows, status_items, item_is, Font, Screen};
use crate::reply::{Message, PollError};

verus! {

/// Address of the message server.
pub const SERVER_URL: &'static str = "http://my-love.duckdns.org:8080";

/// The person whose messages this display shows.
pub const MY_PERSON: &'static str = "a";

/// How many times connecting to the display or to WiFi is tried.
pub const ATTEMPTS: u32 = 5;

/// The polling address for messages newer than `since`.
pub open spec fn poll_url_of(since: i64) -> Seq<char> {
    SERVER_URL@ + "/api/display/"@ + MY_PERSON@ + "?since="@ + decimal(since as int)
}

/// The address that asks the server for messages newer than `since`.
pub fn poll_url(since: i64) -> (url: String)
    ensures
        url@ == poll_url_of(since),
{
    let mut url = String::from_str(SERVER_URL);
    url.append("/api/display/");
    url.append(MY_PERSON);
    url.append("?since=");
    push_decimal(&mut url, since);
    url
}

/// The state kept between polls: the timestamp of the last message shown.
#[derive(Debug)]
pub struct Poller {
    pub last_timestamp: i64,
}

impl Poller {
    /// Before any message, polling asks for everything since time 0.
    pub fn new() -> (p: Poller)
        ensures
            p.last_timestamp == 0,
    {
        Poller { last_timestamp: 0 }
    }

    /// The address of the next poll.
    pub fn next_url(&self) -> (url: String)
        ensures
            url@ == poll_url_of(self.last_timestamp),
    {
        poll_url(self.last_timestamp)
    }

    /// Takes the outcome of a poll. A message is remembered by its
    /// timestamp and shown; an empty answer or an error changes nothing and
    /// shows nothing new.
    pub fn receive(&mut self, outcome: Result<Option<Message>, PollError>) -> (shown: Option<
        Screen,
    >)
        ensures
            match outcome {
                Ok(Some(m)) => {
                    &&& final(self).last_timestamp == m.timestamp
                    &&& shown matches Some(s) && screen_shows(s, m.content@, m.kind@)
                },
                _ => final(self).last_timestamp == old(self).last_timestamp && shown is None,
            },
    {
        match outcome {
            Ok(Some(m)) => {
                self.last_timestamp = m.timestamp;
                Some(message_screen(m.content.as_str(), m.kind.as_str()))
            },
            _ => None,
        }
    }
}

/// What follows one try at connecting.
#[derive(Debug, Clone, Copy, PartialEq, Eq, Structural)]
pub enum AttemptOutcome {
    /// The connection is up.
    Connected,
    /// Wait, then try again.
    Retry,
    /// The last try failed.
    GiveUp,
}

/// What follows try number `attempt` (counted from 1): success connects; a
/// failure retries until the [`ATTEMPTS`]-th try, after which it gives up.
pub fn after_attempt(attempt: u32, succeeded: bool) -> (o: AttemptOutcome)
    ensures
        succeeded ==> o == AttemptOutcome::Connected,
        !succeeded && attempt < ATTEMPTS ==> o == AttemptOutcome::Retry,
        !succeeded && attempt >= ATTEMPTS ==> o == AttemptOutcome::GiveUp,
{
    if succeeded {
        AttemptOutcome::Connected
    } else if attempt < ATTEMPTS {
        AttemptOutcome::Retry
    } else {
        AttemptOutcome::GiveUp
    }
}

/// The screen of two status lines.
pub open spec fn status_screen(s: Screen, line1: Seq<char>, line2: Seq<char>) -> bool {
    match s {
        Screen::Texts { items } => items@.len() == 2 && item_is(items@[0], line1, 24, Font::Regular)
            && item_is(items@[1], line2, 44, Font::Regular),
        _ => false,
    }
}

/// Shown while the device starts.
pub fn boot_screen() -> (s: Screen)
    ensures
        status_screen(s, "Love Display"@, "Demarrage..."@),
{
    Screen::Texts { items: status_items("Love Display", "Demarrage...") }
}

/// Shown while WiFi is being set up.
pub fn wifi_screen() -> (s: Screen)
    ensures
        status_screen(s, "Love Display"@, "WiFi..."@),
{
    Screen::Texts { items: status_items("Love Display", "WiFi...") }
}

/// The label of try number `attempt` out of [`ATTEMPTS`].
pub open spec fn attempt_label(attempt: u32) -> Seq<char> {
    "Tentative "@ + decimal(attempt as int) + "/"@ + decimal(ATTEMPTS as int)
}

/// Shown before each WiFi connection try.
pub fn wifi_attempt_screen(attempt: u32) -> (s: Screen)
    ensures
        status_screen(s, "WiFi..."@, attempt_label(attempt)),
{
    let mut label = String::from_str("Tentative ");
    push_decimal(&mut label, attempt as i64);
    label.append("/");
    push_decimal(&mut label, ATTEMPTS as i64);
    Screen::Texts { items: status_items("WiFi...", label.as_str()) }
}

/// Shown when WiFi could not be joined, before the restart.
pub fn wifi_failed_screen() -> (s: Screen)
    ensures
        status_screen(s, "WiFi ECHEC"@, "Reboot..."@),
{
    Screen::Texts { items: status_items("WiFi ECHEC", "Reboot...") }
}

} // verus!
