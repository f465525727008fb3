use crate::model::{Id, Role};
use crate::request::Request as ApiRequest;
use vstd::prelude::*;

verus! {

/// Shows a role.
#[derive(Debug)]
pub struct Request {
    pub role_id: Id<Role>,
}

impl ApiRequest for Request {
    type Response = Role;

    const ENDPOINT: &'static str = "roles/show";
}

} // verus!
