use crate::model::{NoteId, ReactionType};
use crate::request::Request as ApiRequest;
use vstd::prelude::*;

verus! {

/// Adds a reaction to a note.
pub struct Request {
    pub note_id: NoteId,
    pub reaction: ReactionType,
}

impl ApiRequest for Request {
    type Response = ();

    const ENDPOINT: &'static str = "notes/reactions/create";
}

} // verus!
