//! What the client asks the server on its socket, and how it takes the answers.

use serde_json::Value;
use vstd::prelude::*;

use crate::journal::SessionSummary;
use crate::protocol::{Arrived, SessionInfo, StoredSession};
use crate::session::Creation;

verus! {

/// One request, which the server answers with one line.
#[derive(Debug, PartialEq, Eq)]
pub enum Asked {
    Health,
    CreateSession(Creation),
    SendMessage { id: String, text: String },
    StopSession { id: String },
    /// What happened in a session after this point.
    Updates { id: String, after: u64 },
    ListStoredSessions,
    StoredSession { id: String },
    Transcript { id: String },
}

/// What the server says.
#[derive(Debug, PartialEq, Eq)]
pub enum Answered {
    Health(Value),
    SessionCreated(SessionInfo),
    Accepted,
    Updates { updates: Vec<Arrived>, next: u64 },
    StoredSessions(Vec<SessionSummary>),
    StoredSession(StoredSession),
    Transcript(String),
}

/// An answering line: what was asked for, or why it is refused.
#[derive(Debug, PartialEq, Eq)]
pub enum Wire {
    Done(Answered),
    Refused(String),
}

impl Asked {
    /// Whether this answer is of the kind that the request has.
    pub open spec fn takes(self, answer: Answered) -> bool {
        match self {
            Asked::Health => answer is Health,
            Asked::CreateSession(_) => answer is SessionCreated,
            Asked::SendMessage { .. } => answer is Accepted,
            Asked::StopSession { .. } => answer is Accepted,
            Asked::Updates { .. } => answer is Updates,
            Asked::ListStoredSessions => answer is StoredSessions,
            Asked::StoredSession { .. } => answer is StoredSession,
            Asked::Transcript { .. } => answer is Transcript,
        }
    }

    /// What that kind is called.
    pub open spec fn kind(self) -> Seq<char> {
        match self {
            Asked::Health => "health"@,
            Asked::CreateSession(_) => "session_created"@,
            Asked::SendMessage { .. } => "accepted"@,
            Asked::StopSession { .. } => "accepted"@,
            Asked::Updates { .. } => "updates"@,
            Asked::ListStoredSessions => "stored_sessions"@,
            Asked::StoredSession { .. } => "stored_session"@,
            Asked::Transcript { .. } => "transcript"@,
        }
    }

    fn fits(&self, answer: &Answered) -> (r: bool)
        ensures
            r == self.takes(*answer),
    {
        match (self, answer) {
            (Asked::Health, Answered::Health(_)) => true,
            (Asked::CreateSession(_), Answered::SessionCreated(_)) => true,
            (Asked::SendMessage { .. }, Answered::Accepted) => true,
            (Asked::StopSession { .. }, Answered::Accepted) => true,
            (Asked::Updates { .. }, Answered::Updates { .. }) => true,
            (Asked::ListStoredSessions, Answered::StoredSessions(_)) => true,
            (Asked::StoredSession { .. }, Answered::StoredSession(_)) => true,
            (Asked::Transcript { .. }, Answered::Transcript(_)) => true,
            _ => false,
        }
    }

    fn expected(&self) -> (r: &'static str)
        ensures
            r@ == self.kind(),
    {
        match self {
            Asked::Health => "health",
            Asked::CreateSession(_) => "session_created",
            Asked::SendMessage { .. } => "accepted",
            Asked::StopSession { .. } => "accepted",
            Asked::Updates { .. } => "updates",
            Asked::ListStoredSessions => "stored_sessions",
            Asked::StoredSession { .. } => "stored_session",
            Asked::Transcript { .. } => "transcript",
        }
    }

    /// Take the line that came back. An empty one means that the server closed
    /// the socket; `decoded` is what any other says, or why it says nothing, and
    /// `shown` how an answer of another kind is put in words.
    pub fn answer(&self, line: &str, decoded: Result<Wire, String>, shown: &str) -> (r: Result<
        Answered,
        String,
    >)
        ensures
            match r {
                Ok(answer) => line@.len() > 0 && decoded == Ok::<Wire, String>(Wire::Done(answer))
                    && self.takes(answer),
                Err(error) => error@ == if line@.len() == 0 {
                    "Styra server closed the socket without a response"@
                } else {
                    match decoded {
                        Err(why) => "decoding the Styra response: "@ + why@,
                        Ok(Wire::Refused(why)) => "Styra server: "@ + why@,
                        Ok(Wire::Done(_)) => "Styra protocol error: expected "@ + self.kind()
                            + " response, got "@ + shown@,
                    }
                } && !(line@.len() > 0 && (decoded matches Ok(Wire::Done(answer)) && self.takes(
                    answer,
                ))),
            },
    {
        if line.is_empty() {
            return Err("Styra server closed the socket without a response".to_owned());
        }
        match decoded {
            Err(why) => Err("decoding the Styra response: ".to_owned().concat(why.as_str())),
            Ok(Wire::Refused(why)) => Err("Styra server: ".to_owned().concat(why.as_str())),
            Ok(Wire::Done(answer)) => {
                if self.fits(&answer) {
                    Ok(answer)
                } else {
                    Err(
                        "Styra protocol error: expected ".to_owned().concat(
                            self.expected(),
                        ).concat(" response, got ").concat(shown),
                    )
                }
            },
        }
    }
}

/// A client of the server that listens on a socket.
#[derive(Debug, PartialEq, Eq)]
pub struct Client {
    pub socket: String,
}

impl Client {
    pub fn new(socket: String) -> (r: Client)
        ensures
            r.socket == socket,
    {
        Client { socket }
    }

    pub fn socket_path(&self) -> (r: &str)
        ensures
            r@ == self.socket@,
    {
        self.socket.as_str()
    }

    pub fn health(&self) -> (r: Asked)
        ensures
            r == Asked::Health,
    {
        Asked::Health
    }

    pub fn create_session(&self, creation: Creation) -> (r: Asked)
        ensures
            r == Asked::CreateSession(creation),
    {
        Asked::CreateSession(creation)
    }

    pub fn send_message(&self, id: &str, text: &str) -> (r: Asked)
        ensures
            r matches Asked::SendMessage { id: to, text: message } && to@ == id@ && message@
                == text@,
    {
        Asked::SendMessage { id: id.to_owned(), text: text.to_owned() }
    }

    pub fn stop_session(&self, id: &str) -> (r: Asked)
        ensures
            r matches Asked::StopSession { id: of } && of@ == id@,
    {
        Asked::StopSession { id: id.to_owned() }
    }

    pub fn updates(&self, id: &str, after: u64) -> (r: Asked)
        ensures
            r matches Asked::Updates { id: of, after: since } && of@ == id@ && since == after,
    {
        Asked::Updates { id: id.to_owned(), after }
    }

    pub fn list_sessions(&self) -> (r: Asked)
        ensures
            r == Asked::ListStoredSessions,
    {
        Asked::ListStoredSessions
    }

    pub fn stored_session(&self, id: &str) -> (r: Asked)
        ensures
            r matches Asked::StoredSession { id: of } && of@ == id@,
    {
        Asked::StoredSession { id: id.to_owned() }
    }

    pub fn transcript(&self, id: &str) -> (r: Asked)
        ensures
            r matches Asked::Transcript { id: of } && of@ == id@,
    {
        Asked::Transcript { id: id.to_owned() }
    }
}

} // verus!
