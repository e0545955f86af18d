use vstd::prelude::*;
use crate::error::{BellaError, BellaResult};

verus! {

/// One stored unit of episodic memory: a discrete interaction or event.
#[derive(Debug)]
pub struct Episode {
    pub id: u128,
    pub correlation_id: u128,
    /// Unix seconds.
    pub created_at_unix: i64,
    /// Free-text summary of what happened in this episode.
    pub content: String,
    /// Loosely-typed tag for filtering (e.g. "utterance", "action_taken").
    pub kind: String,
}

/// A new episode ready to be stored: no id or timestamp yet, those are
/// assigned at write time.
#[derive(Debug)]
pub struct NewEpisode {
    pub correlation_id: u128,
    pub content: String,
    pub kind: String,
}

/// The mathematical value of an `Episode`.
pub struct EpisodeView {
    pub id: u128,
    pub correlation_id: u128,
    pub created_at_unix: i64,
    pub content: Seq<char>,
    pub kind: Seq<char>,
}

impl View for Episode {
    type V = EpisodeView;

    open spec fn view(&self) -> EpisodeView {
        EpisodeView {
            id: self.id,
            correlation_id: self.correlation_id,
            created_at_unix: self.created_at_unix,
            content: self.content@,
            kind: self.kind@,
        }
    }
}

impl Clone for Episode {
    fn clone(&self) -> (r: Self)
        ensures
            r == *self,
    {
        Episode {
            id: self.id,
            correlation_id: self.correlation_id,
            created_at_unix: self.created_at_unix,
            content: self.content.clone(),
            kind: self.kind.clone(),
        }
    }
}

impl Clone for NewEpisode {
    fn clone(&self) -> (r: Self)
        ensures
            r == *self,
    {
        NewEpisode {
            correlation_id: self.correlation_id,
            content: self.content.clone(),
            kind: self.kind.clone(),
        }
    }
}

/// The episode `new` becomes when stored under `id` at second `now`.
pub open spec fn stamped_episode(new: NewEpisode, id: u128, now: u64) -> EpisodeView {
    EpisodeView {
        id,
        correlation_id: new.correlation_id,
        created_at_unix: now as i64,
        content: new.content@,
        kind: new.kind@,
    }
}

impl Episode {
    /// The episode `new` becomes when stored under `id` at second `now_unix`
    /// (the timestamp is kept as a signed number of seconds).
    pub fn stamp_at(new: NewEpisode, id: u128, now_unix: u64) -> (e: Episode)
        ensures
            e@ == stamped_episode(new, id, now_unix),
            e.content == new.content,
            e.kind == new.kind,
    {
        Episode {
            id,
            correlation_id: new.correlation_id,
            created_at_unix: now_unix as i64,
            content: new.content,
            kind: new.kind,
        }
    }

    /// The episode `new` becomes when stored now: a fresh random id and the
    /// system clock's time. Fails when the system's random source fails or
    /// the clock reads before the epoch.
    pub fn stamped(new: NewEpisode) -> (r: BellaResult<Episode>)
        ensures
            r matches Ok(e) ==> {
                &&& e.correlation_id == new.correlation_id
                &&& e.content == new.content
                &&& e.kind == new.kind
                &&& crate::ids::is_random_uuid(e.id)
                &&& exists|t: u64| crate::clock::clock_reading(t) && e.created_at_unix == t as i64
            },
            r matches Err(e) ==> e is Internal,
    {
        let id = match crate::ids::new_id() {
            Some(id) => id,
            None => {
                return Err(BellaError::Internal(String::from_str("system random source unavailable")));
            },
        };
        match crate::clock::now_unix() {
            Some(now) => {
                let e = Self::stamp_at(new, id, now);
                assert(crate::clock::clock_reading(now) && e.created_at_unix == now as i64);
                Ok(e)
            },
            None => Err(BellaError::Internal(String::from_str("system clock before unix epoch"))),
        }
    }

    /// The episode a stored row denotes: ids are read back from their text,
    /// and a text that is not a UUID reads as the nil id (0).
    pub fn from_row(id_text: &str, correlation_text: &str, created_at_unix: i64, content: String, kind: String) -> (e: Episode)
        ensures
            e.id == match crate::ids::uuid_parse(id_text@) {
                Some(v) => v,
                None => 0u128,
            },
            e.correlation_id == match crate::ids::uuid_parse(correlation_text@) {
                Some(v) => v,
                None => 0u128,
            },
            e.created_at_unix == created_at_unix,
            e.content == content,
            e.kind == kind,
    {
        Episode {
            id: crate::ids::id_from_text(id_text),
            correlation_id: crate::ids::id_from_text(correlation_text),
            created_at_unix,
            content,
            kind,
        }
    }
}

} // verus!
