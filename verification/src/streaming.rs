use vstd::prelude::*;

verus! {

/// The id of a note whose updates are subscribed to.
#[derive(Clone, PartialEq, Eq, Hash, Debug)]
pub struct SubNoteId(pub String);

impl SubNoteId {
    /// The id with text `text`.
    pub fn from_text(text: &str) -> (r: SubNoteId)
        ensures
            r.0@ == text@,
    {
        SubNoteId(text.to_owned())
    }

    /// The text of this id, as `Display` writes it.
    pub fn to_string(&self) -> (r: String)
        ensures
            r@ == self.0@,
    {
        self.0.clone()
    }
}

impl std::str::FromStr for SubNoteId {
    type Err = std::convert::Infallible;

    fn from_str(s: &str) -> (r: Result<SubNoteId, std::convert::Infallible>)
        ensures
            r matches Ok(id) && id.0@ == s@,
    {
        Ok(SubNoteId::from_text(s))
    }
}

/// A request to connect to a streaming channel.
pub trait ConnectChannelRequest {
    /// The messages the channel sends.
    type Incoming;

    /// The messages sent to the channel.
    type Outgoing;

    /// The name of the channel.
    const NAME: &'static str;
}

/// An event about a subscribed note.
pub trait SubNoteEvent {

}

/// An event broadcast to every connection.
pub trait BroadcastEvent {
    /// The type name the server gives the event.
    const TYPE: &'static str;
}

} // verus!
