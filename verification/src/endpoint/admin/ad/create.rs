use crate::model::{Place, Priority, Timestamp};
use crate::request::Request as ApiRequest;
use vstd::prelude::*;

verus! {

/// Creates an ad.
#[derive(Clone, Debug)]
pub struct Request {
    /// [ 1 .. ] characters
    pub url: String,
    pub memo: String,
    pub place: Place,
    pub priority: Priority,
    pub ratio: u64,
    pub starts_at: Timestamp,
    pub expires_at: Timestamp,
    /// [ 1 .. ] characters
    pub image_url: String,
    pub day_of_week: u8,
}

impl ApiRequest for Request {
    type Response = ();

    const ENDPOINT: &'static str = "admin/ad/create";
}

/// Builds a `Request` field by field. `url`, `expires_at` and `image_url`
/// must be set; the others default to an empty memo, a square place, middle
/// priority, ratio 0, the Unix epoch as start and day of week 0.
pub struct RequestBuilder {
    url: Option<String>,
    memo: String,
    place: Place,
    priority: Priority,
    ratio: u64,
    starts_at: Timestamp,
    expires_at: Option<Timestamp>,
    image_url: Option<String>,
    day_of_week: u8,
}

/// The fields a builder holds.
pub struct AdFields {
    pub url: Option<Seq<char>>,
    pub memo: Seq<char>,
    pub place: Place,
    pub priority: Priority,
    pub ratio: u64,
    pub starts_at: Timestamp,
    pub expires_at: Option<Timestamp>,
    pub image_url: Option<Seq<char>>,
    pub day_of_week: u8,
}

impl Request {
    /// A builder with every field at its default and the required ones unset.
    pub fn builder() -> (r: RequestBuilder)
        ensures
            r.fields() == (AdFields {
                url: None,
                memo: Seq::<char>::empty(),
                place: Place::Square,
                priority: Priority::Middle,
                ratio: 0,
                starts_at: Timestamp { millis: 0 },
                expires_at: None,
                image_url: None,
                day_of_week: 0,
            }),
    {
        RequestBuilder {
            url: None,
            memo: String::new(),
            place: Place::Square,
            priority: Priority::Middle,
            ratio: 0,
            starts_at: Timestamp { millis: 0 },
            expires_at: None,
            image_url: None,
            day_of_week: 0,
        }
    }
}

impl RequestBuilder {
    /// The fields set so far, texts by their characters.
    pub closed spec fn fields(&self) -> AdFields {
        AdFields {
            url: match self.url {
                Some(u) => Some(u@),
                None => None,
            },
            memo: self.memo@,
            place: self.place,
            priority: self.priority,
            ratio: self.ratio,
            starts_at: self.starts_at,
            expires_at: self.expires_at,
            image_url: match self.image_url {
                Some(u) => Some(u@),
                None => None,
            },
            day_of_week: self.day_of_week,
        }
    }

    pub fn url(self, url: &str) -> (r: RequestBuilder)
        ensures
            r.fields() == (AdFields { url: Some(url@), ..self.fields() }),
    {
        RequestBuilder { url: Some(url.to_owned()), ..self }
    }

    pub fn memo(self, memo: &str) -> (r: RequestBuilder)
        ensures
            r.fields() == (AdFields { memo: memo@, ..self.fields() }),
    {
        RequestBuilder { memo: memo.to_owned(), ..self }
    }

    pub fn place(self, place: Place) -> (r: RequestBuilder)
        ensures
            r.fields() == (AdFields { place, ..self.fields() }),
    {
        RequestBuilder { place, ..self }
    }

    pub fn priority(self, priority: Priority) -> (r: RequestBuilder)
        ensures
            r.fields() == (AdFields { priority, ..self.fields() }),
    {
        RequestBuilder { priority, ..self }
    }

    pub fn ratio(self, ratio: u64) -> (r: RequestBuilder)
        ensures
            r.fields() == (AdFields { ratio, ..self.fields() }),
    {
        RequestBuilder { ratio, ..self }
    }

    pub fn starts_at(self, starts_at: Timestamp) -> (r: RequestBuilder)
        ensures
            r.fields() == (AdFields { starts_at, ..self.fields() }),
    {
        RequestBuilder { starts_at, ..self }
    }

    pub fn expires_at(self, expires_at: Timestamp) -> (r: RequestBuilder)
        ensures
            r.fields() == (AdFields { expires_at: Some(expires_at), ..self.fields() }),
    {
        RequestBuilder { expires_at: Some(expires_at), ..self }
    }

    pub fn image_url(self, image_url: &str) -> (r: RequestBuilder)
        ensures
            r.fields() == (AdFields { image_url: Some(image_url@), ..self.fields() }),
    {
        RequestBuilder { image_url: Some(image_url.to_owned()), ..self }
    }

    pub fn day_of_week(self, day_of_week: u8) -> (r: RequestBuilder)
        ensures
            r.fields() == (AdFields { day_of_week, ..self.fields() }),
    {
        RequestBuilder { day_of_week, ..self }
    }

    /// The request; `url`, `expires_at` and `image_url` must have been set.
    pub fn build(self) -> (r: Request)
        requires
            self.fields().url is Some,
            self.fields().expires_at is Some,
            self.fields().image_url is Some,
        ensures
            self.fields() == (AdFields {
                url: Some(r.url@),
                memo: r.memo@,
                place: r.place,
                priority: r.priority,
                ratio: r.ratio,
                starts_at: r.starts_at,
                expires_at: Some(r.expires_at),
                image_url: Some(r.image_url@),
                day_of_week: r.day_of_week,
            }),
    {
        let ghost f = self.fields();
        match (self.url, self.expires_at, self.image_url) {
            (Some(url), Some(expires_at), Some(image_url)) => Request {
                url,
                memo: self.memo,
                place: self.place,
                priority: self.priority,
                ratio: self.ratio,
                starts_at: self.starts_at,
                expires_at,
                image_url,
                day_of_week: self.day_of_week,
            },
            _ => {
                assert(false);
                Request {
                    url: String::new(),
                    memo: String::new(),
                    place: Place::Square,
                    priority: Priority::Middle,
                    ratio: 0,
                    starts_at: Timestamp { millis: 0 },
                    expires_at: Timestamp { millis: 0 },
                    image_url: String::new(),
                    day_of_week: 0,
                }
            },
        }
    }
}

} // verus!
