use vstd::prelude::*;

verus! {

/// An API request: the endpoint it is sent to, and the type of what the
/// server answers.
pub trait Request {
    type Response;

    /// The endpoint, relative to the API root.
    const ENDPOINT: &'static str;
}

/// A request that is sent together with a file.
pub trait UploadFileRequest: Request {

}

/// An object the server identifies by an id.
pub trait Entity {
    type Id;

    spec fn spec_id(&self) -> Self::Id;

    /// The id of this object.
    fn id(&self) -> (r: Self::Id)
        ensures
            r == self.spec_id(),
    ;
}

/// A request whose results can be paged by the ids of the items returned.
pub trait PaginationRequest {
    type Item: Entity;

    /// The id after which results start, if set.
    spec fn since(&self) -> Option<<Self::Item as Entity>::Id>;

    /// The id before which results stop, if set.
    spec fn until(&self) -> Option<<Self::Item as Entity>::Id>;

    /// Asks for results after `item`.
    fn set_since(&mut self, item: &Self::Item)
        ensures
            final(self).since() == Some(item.spec_id()),
            final(self).until() == old(self).until(),
    ;

    /// Asks for results before `item`.
    fn set_until(&mut self, item: &Self::Item)
        ensures
            final(self).until() == Some(item.spec_id()),
            final(self).since() == old(self).since(),
    ;
}

/// A request whose results can be paged by an offset.
pub trait OffsetPaginationRequest {
    type Item;

    /// The offset of the first result, if set.
    spec fn offset(&self) -> Option<u64>;

    /// Asks for results from `offset` on.
    fn set_offset(&mut self, offset: u64)
        ensures
            final(self).offset() == Some(offset),
    ;
}

} // verus!
