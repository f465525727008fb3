//! A client library for the Misskey API: request types, the HTTP client's
//! configuration, and everything it decides before and after a request is
//! sent — the endpoint URL under the API root, the body with the access
//! token added, the text fields of a file upload, and how a response is to
//! be read. The sending itself lives in the companion crate under `app/`.

use vstd::prelude::*;

pub mod api;
pub mod builder;
pub mod client;
pub mod endpoint;
pub mod error;
pub mod json;
pub mod model;
pub mod request;
pub mod streaming;
pub mod url;
