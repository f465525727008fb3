use crate::model::{UserGroup, UserGroupId, UserId};
use crate::request::Request as ApiRequest;
use vstd::prelude::*;

verus! {

/// Hands a user group over to another of its members.
#[derive(Clone, Debug)]
pub struct Request {
    pub group_id: UserGroupId,
    pub user_id: UserId,
}

impl ApiRequest for Request {
    type Response = UserGroup;

    const ENDPOINT: &'static str = "users/groups/transfer";
}

} // verus!
