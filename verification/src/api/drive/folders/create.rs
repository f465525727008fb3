use crate::model::{DriveFolder, DriveFolderId};
use crate::request::Request as ApiRequest;
use vstd::prelude::*;

verus! {

/// Creates a drive folder.
#[derive(Clone, Debug)]
pub struct Request {
    pub name: Option<String>,
    pub parent_id: Option<DriveFolderId>,
}

impl ApiRequest for Request {
    type Response = DriveFolder;

    const ENDPOINT: &'static str = "drive/folders/create";
}

} // verus!
