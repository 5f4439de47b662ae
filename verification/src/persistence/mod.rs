//! Storage of thought sessions.

pub mod memory;

use vstd::prelude::*;
use crate::types::{ThoughtData, ThoughtView, Timestamp, thoughts_view};

verus! {

/// Summary of one stored session.
#[derive(Debug)]
pub struct SessionInfo {
    pub id: String,
    pub created_at: Timestamp,
    pub updated_at: Timestamp,
    pub total_thoughts: usize,
}

/// A backend that keeps the thoughts of each session.
///
/// What a backend promises of its answers is given by the three spec functions. By default
/// they promise nothing; a backend that states its behaviour overrides them, and its methods
/// are then held to what it states whenever they succeed.
pub trait ThoughtStore: Sized {
    /// `thoughts` is what loading session `sid` from this store gives back.
    open spec fn loads(&self, sid: Seq<char>, thoughts: Seq<ThoughtView>) -> bool {
        true
    }

    /// `after` is this store once thought `t` has been saved to session `sid`.
    open spec fn saves(&self, sid: Seq<char>, t: ThoughtView, after: Self) -> bool {
        true
    }

    /// `after` is this store once session `sid` has been deleted.
    open spec fn deletes(&self, sid: Seq<char>, after: Self) -> bool {
        true
    }

    /// Appends a thought to a session, creating the session when it is new.
    fn save_thought(&mut self, session_id: &str, thought: &ThoughtData) -> (r: Result<(), String>)
        ensures
            r is Ok ==> old(self).saves(session_id@, thought@, *final(self)),
    ;

    /// The thoughts of a session (empty for an unknown session).
    fn load_session(&self, session_id: &str) -> (r: Result<Vec<ThoughtData>, String>)
        ensures
            r matches Ok(v) ==> self.loads(session_id@, thoughts_view(v@)),
    ;

    /// Summaries of all sessions, most recently updated first.
    fn list_sessions(&self) -> Result<Vec<SessionInfo>, String>;

    /// Forgets a session and its thoughts.
    fn delete_session(&mut self, session_id: &str) -> (r: Result<(), String>)
        ensures
            r is Ok ==> old(self).deletes(session_id@, *final(self)),
    ;
}

} // verus!
