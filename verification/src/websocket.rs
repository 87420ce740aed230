//! The envelope in which an answer travels over a websocket.
use crate::exchange_info::{ErrorResponse, ErrorResponseView, ExchangeInfo, ExchangeInfoView};
use crate::rate_limit::RateLimit;
use vstd::prelude::*;

verus! {

/// What the envelope carries.
#[derive(Debug)]
pub enum WebSocketResult {
    Unset,
    Error(ErrorResponse),
    ExchangeInfo(ExchangeInfo),
}

/// A `WebSocketResult` as plain values.
pub enum WebSocketResultView {
    Unset,
    Error(ErrorResponseView),
    ExchangeInfo(ExchangeInfoView),
}

impl View for WebSocketResult {
    type V = WebSocketResultView;

    open spec fn view(&self) -> WebSocketResultView {
        match self {
            WebSocketResult::Unset => WebSocketResultView::Unset,
            WebSocketResult::Error(e) => WebSocketResultView::Error(e@),
            WebSocketResult::ExchangeInfo(e) => WebSocketResultView::ExchangeInfo(e@),
        }
    }
}

/// The envelope: status, the rate limits that the request counted against,
/// the id of the request, and the answer.
#[derive(Debug)]
pub struct WebSocketMetadata {
    status: u16,
    rate_limits: Vec<RateLimit>,
    id: String,
    result: WebSocketResult,
}

/// A `WebSocketMetadata` as plain values.
pub struct WebSocketMetadataView {
    pub status: u16,
    pub rate_limits: Seq<RateLimit>,
    pub id: Seq<char>,
    pub result: WebSocketResultView,
}

impl View for WebSocketMetadata {
    type V = WebSocketMetadataView;

    closed spec fn view(&self) -> WebSocketMetadataView {
        WebSocketMetadataView {
            status: self.status,
            rate_limits: self.rate_limits@,
            id: self.id@,
            result: self.result@,
        }
    }
}

impl WebSocketMetadata {
    /// An envelope that carries nothing yet.
    pub fn new(status: u16, rate_limits: Vec<RateLimit>, id: String) -> (r: Self)
        ensures
            r@ == (WebSocketMetadataView {
                status,
                rate_limits: rate_limits@,
                id: id@,
                result: WebSocketResultView::Unset,
            }),
    {
        Self { status, rate_limits, id, result: WebSocketResult::Unset }
    }

    pub fn set_error(&mut self, error: ErrorResponse)
        ensures
            final(self)@ == (WebSocketMetadataView {
                result: WebSocketResultView::Error(error@),
                ..old(self)@
            }),
    {
        self.result = WebSocketResult::Error(error);
    }

    pub fn set_exchange_info(&mut self, exchange_info: ExchangeInfo)
        ensures
            final(self)@ == (WebSocketMetadataView {
                result: WebSocketResultView::ExchangeInfo(exchange_info@),
                ..old(self)@
            }),
    {
        self.result = WebSocketResult::ExchangeInfo(exchange_info);
    }

    pub fn status(&self) -> (r: u16)
        ensures
            r == self@.status,
    {
        self.status
    }

    pub fn rate_limits(&self) -> (r: &Vec<RateLimit>)
        ensures
            r@ == self@.rate_limits,
    {
        &self.rate_limits
    }

    pub fn id(&self) -> (r: &String)
        ensures
            r@ == self@.id,
    {
        &self.id
    }

    pub fn result(&self) -> (r: &WebSocketResult)
        ensures
            r@ == self@.result,
    {
        &self.result
    }

    /// Gives up the envelope for what it carries.
    pub fn into_result(self) -> (r: WebSocketResult)
        ensures
            r@ == self@.result,
    {
        self.result
    }
}

} // verus!
