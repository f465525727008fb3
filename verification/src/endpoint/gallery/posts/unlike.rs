use crate::model::{GalleryPost, Id};
use crate::request::Request as ApiRequest;
use vstd::prelude::*;

verus! {

/// Takes back a like of a gallery post.
#[derive(Debug)]
pub struct Request {
    pub post_id: Id<GalleryPost>,
}

impl ApiRequest for Request {
    type Response = ();

    const ENDPOINT: &'static str = "gallery/posts/unlike";
}

} // verus!
