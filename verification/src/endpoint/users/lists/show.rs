use crate::model::{Id, UserList};
use crate::request::Request as ApiRequest;
use vstd::prelude::*;

verus! {

/// Shows a user list.
#[derive(Debug)]
pub struct Request {
    pub list_id: Id<UserList>,
}

impl ApiRequest for Request {
    type Response = UserList;

    const ENDPOINT: &'static str = "users/lists/show";
}

} // verus!
