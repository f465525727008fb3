use crate::model::{Announcement, AnnouncementId};
use crate::request::{Entity, PaginationRequest, Request as ApiRequest};
use vstd::prelude::*;

verus! {

/// Lists the announcements of the instance.
#[derive(Debug)]
pub struct Request {
    /// 1 .. 100
    pub limit: Option<u8>,
    pub since_id: Option<AnnouncementId>,
    pub until_id: Option<AnnouncementId>,
}

impl Default for Request {
    fn default() -> (r: Request)
        ensures
            r.limit is None,
            r.since_id is None,
            r.until_id is None,
    {
        Request { limit: None, since_id: None, until_id: None }
    }
}

impl ApiRequest for Request {
    type Response = Vec<Announcement>;

    const ENDPOINT: &'static str = "admin/announcements/list";
}

impl PaginationRequest for Request {
    type Item = Announcement;

    open spec fn since(&self) -> Option<AnnouncementId> {
        self.since_id
    }

    open spec fn until(&self) -> Option<AnnouncementId> {
        self.until_id
    }

    fn set_since(&mut self, item: &Announcement)
        ensures
            final(self).limit == old(self).limit,
    {
        self.since_id = Some(item.id());
    }

    fn set_until(&mut self, item: &Announcement)
        ensures
            final(self).limit == old(self).limit,
    {
        self.until_id = Some(item.id());
    }
}

/// Builds a `Request` field by field; every field left unset is `None`.
pub struct RequestBuilder {
    limit: Option<u8>,
    since_id: Option<AnnouncementId>,
    until_id: Option<AnnouncementId>,
}

impl Request {
    /// A builder with every field unset.
    pub fn builder() -> (r: RequestBuilder)
        ensures
            r.built() == (Request { limit: None, since_id: None, until_id: None }),
    {
        RequestBuilder { limit: None, since_id: None, until_id: None }
    }
}

impl RequestBuilder {
    /// The request this builder makes.
    pub closed spec fn built(&self) -> Request {
        Request { limit: self.limit, since_id: self.since_id, until_id: self.until_id }
    }

    /// Sets the number of announcements to return.
    pub fn limit(self, limit: u8) -> (r: RequestBuilder)
        ensures
            r.built() == (Request { limit: Some(limit), ..self.built() }),
    {
        RequestBuilder { limit: Some(limit), ..self }
    }

    /// Asks for announcements after `since_id`.
    pub fn since_id(self, since_id: AnnouncementId) -> (r: RequestBuilder)
        ensures
            r.built() == (Request { since_id: Some(since_id), ..self.built() }),
    {
        RequestBuilder { since_id: Some(since_id), ..self }
    }

    /// Asks for announcements before `until_id`.
    pub fn until_id(self, until_id: AnnouncementId) -> (r: RequestBuilder)
        ensures
            r.built() == (Request { until_id: Some(until_id), ..self.built() }),
    {
        RequestBuilder { until_id: Some(until_id), ..self }
    }

    /// The request.
    pub fn build(self) -> (r: Request)
        ensures
            r == self.built(),
    {
        Request { limit: self.limit, since_id: self.since_id, until_id: self.until_id }
    }
}

} // verus!
