//! Connection state of the message publisher.

use crate::backoff::{doubled_ms, Backoff};
use vstd::prelude::*;

verus! {

/// First pause after a failure, in milliseconds.
pub const FIRST_PAUSE_MS: u64 = 250;

/// Longest pause, in milliseconds.
pub const LONGEST_PAUSE_MS: u64 = 10_000;

/// Best-effort publisher: where it publishes, whether it is connected, and its backoff. A
/// failure drops the connection, and the next publication tries once to connect.
#[derive(Debug)]
pub struct NatsPublisher {
    server: String,
    subject: String,
    connected: bool,
    backoff: Backoff,
}

impl NatsPublisher {
    /// Where it connects to.
    pub closed spec fn server_text(self) -> Seq<char> {
        self.server@
    }

    /// What it publishes on where no other subject is given.
    pub closed spec fn subject_text(self) -> Seq<char> {
        self.subject@
    }

    pub closed spec fn is_up(self) -> bool {
        self.connected
    }

    pub closed spec fn pause(self) -> u64 {
        self.backoff.current()
    }

    pub closed spec fn valid(self) -> bool {
        self.backoff.start() == FIRST_PAUSE_MS && self.backoff.max() == LONGEST_PAUSE_MS
    }

    pub fn new(server: String, subject: String) -> (r: Self)
        ensures
            r.server_text() == server@,
            r.subject_text() == subject@,
            !r.is_up(),
            r.pause() == FIRST_PAUSE_MS,
            r.valid(),
    {
        NatsPublisher {
            server,
            subject,
            connected: false,
            backoff: Backoff::new(FIRST_PAUSE_MS, LONGEST_PAUSE_MS),
        }
    }

    pub fn server(&self) -> (r: &str)
        ensures
            r@ == self.server_text(),
    {
        self.server.as_str()
    }

    pub fn subject(&self) -> (r: &str)
        ensures
            r@ == self.subject_text(),
    {
        self.subject.as_str()
    }

    /// Whether a publication has to connect first.
    pub fn must_connect(&self) -> (r: bool)
        ensures
            r == !self.is_up(),
    {
        !self.connected
    }

    /// Notes the outcome of a connection attempt: the pause to make where it failed.
    pub fn connect_done(&mut self, ok: bool) -> (r: Option<u64>)
        requires
            old(self).valid(),
        ensures
            final(self).valid(),
            final(self).server_text() == old(self).server_text(),
            final(self).subject_text() == old(self).subject_text(),
            final(self).is_up() == ok,
            ok ==> r is None && final(self).pause() == FIRST_PAUSE_MS,
            !ok ==> r == Some(old(self).pause()) && final(self).pause() == doubled_ms(
                old(self).pause(),
                LONGEST_PAUSE_MS,
            ),
    {
        self.connected = ok;
        if ok {
            self.backoff.succeeded();
            None
        } else {
            Some(self.backoff.failed())
        }
    }

    /// Notes the outcome of a publication: a failed one drops the connection.
    pub fn publish_done(&mut self, ok: bool)
        requires
            old(self).valid(),
        ensures
            final(self).valid(),
            final(self).server_text() == old(self).server_text(),
            final(self).subject_text() == old(self).subject_text(),
            ok ==> final(self).is_up() == old(self).is_up() && final(self).pause()
                == FIRST_PAUSE_MS,
            !ok ==> !final(self).is_up() && final(self).pause() == doubled_ms(
                old(self).pause(),
                LONGEST_PAUSE_MS,
            ),
    {
        if ok {
            self.backoff.succeeded();
        } else {
            self.connected = false;
            self.backoff.failed();
        }
    }
}

} // verus!
