use crate::model::{ChartSpan, DriveChart};
use crate::request::{OffsetPaginationRequest, Request as ApiRequest};
use vstd::prelude::*;

verus! {

/// Asks for the drive usage chart.
#[derive(Clone, Debug)]
pub struct Request {
    pub span: ChartSpan,
    /// 1 .. 500
    pub limit: Option<u64>,
    pub offset: Option<u64>,
}

/// The drive usage of local and of remote users.
#[derive(Clone, Debug)]
pub struct Response {
    pub local: DriveChart,
    pub remote: DriveChart,
}

impl ApiRequest for Request {
    type Response = Response;

    const ENDPOINT: &'static str = "charts/drive";
}

impl OffsetPaginationRequest for Request {
    type Item = DriveChart;

    open spec fn offset(&self) -> Option<u64> {
        self.offset
    }

    fn set_offset(&mut self, offset: u64)
        ensures
            final(self).span == old(self).span,
            final(self).limit == old(self).limit,
    {
        self.offset = Some(offset);
    }
}

} // verus!
