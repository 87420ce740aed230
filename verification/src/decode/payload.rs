//! Whole payloads: an error response, the exchange information, or a
//! websocket envelope around one of them.
use crate::buffer::ReadBuf;
use crate::codec::{Decoder, Reader};
use crate::decode::{
    DecodeError, block_fits, decode_text, flag_at, has_block, into_bool, stands_for, text_at,
    text_of, var16_at,
};
use crate::decode::groups::{
    counted_rate_limits_at, decode_counted_rate_limits, decode_exchange_filters,
    decode_rate_limits, decode_sors, decode_symbols, exchange_filters_at, plain_rate_limits_at,
    sors_at, symbols_at,
};
use crate::error_response_codec::{self, ErrorResponseDecoder};
use crate::exchange_info::{ErrorResponse, ErrorResponseView, ExchangeInfo, ExchangeInfoView};
use crate::exchange_info_response_codec::{self, ExchangeInfoResponseDecoder};
use crate::message_header_codec::MessageHeaderDecoder;
use crate::web_socket_response_codec::{self, WebSocketResponseDecoder};
use crate::websocket::{WebSocketMetadata, WebSocketMetadataView, WebSocketResultView};
use crate::wire::{absent_if, read_i16, read_i64, read_u16, read_u32};
use vstd::prelude::*;
use vstd::utf8::{decode_utf8, valid_utf8};

verus! {

/// What a buffer says that holds an error response behind a header at
/// `at`: the block begins behind the header, and the message text follows
/// the block, whose length the header declares.
pub open spec fn error_response_of(s: Seq<u8>, at: int) -> Result<ErrorResponseView, DecodeError> {
    if !block_fits(s, at, error_response_codec::SBE_BLOCK_LENGTH as int) {
        Err(DecodeError::Truncated)
    } else {
        match var16_at(s, at + 8 + read_u16(s, at)) {
            Err(e) => Err(e),
            Ok((b, _)) => match text_of(b) {
                Err(e) => Err(e),
                Ok(msg) => Ok(
                    ErrorResponseView {
                        code: read_i16(s, at + 8),
                        server_time: absent_if(read_i64(s, at + 10), i64::MIN),
                        retry_after: absent_if(read_i64(s, at + 18), i64::MIN),
                        msg,
                    },
                ),
            },
        }
    }
}

/// Decodes the error response that `header` announces.
pub fn decode_error(header: MessageHeaderDecoder<ReadBuf<'_>>) -> (r: Result<
    ErrorResponse,
    DecodeError,
>)
    requires
        header.buf_ok(),
        header.offset_view() + 8 <= header.buf()@.len(),
        read_u16(header.buf()@, header.offset_view() + 2)
            == error_response_codec::SBE_TEMPLATE_ID,
    ensures
        stands_for(r, error_response_of(header.buf()@, header.offset_view() as int)),
{
    let len = header.get_buf().len();
    if !has_block(&header, error_response_codec::SBE_BLOCK_LENGTH as usize) {
        return Err(DecodeError::Truncated);
    }
    let mut decoder = ErrorResponseDecoder::default().header(header);
    let code = decoder.code();
    let server_time = decoder.server_time();
    let retry_after = decoder.retry_after();
    let limit = decoder.get_limit();
    if limit > len || len - limit < 2 {
        return Err(DecodeError::Truncated);
    }
    let length = decoder.get_buf().get_u16_at(limit) as usize;
    if len - limit - 2 < length {
        return Err(DecodeError::Truncated);
    }
    let (offset, length) = decoder.msg_decoder();
    let slice = decoder.msg_slice((offset, length));
    let msg = match decode_text(slice) {
        Ok(msg) => msg,
        Err(e) => {
            return Err(e);
        },
    };
    Ok(ErrorResponse { code, server_time, retry_after, msg })
}

/// What a buffer says that holds the exchange information behind a header
/// at `at`: four groups, one behind the other, which begin behind the header
/// and the block length that it declares.
pub open spec fn exchange_info_of(s: Seq<u8>, at: int) -> Result<ExchangeInfoView, DecodeError> {
    if read_u16(s, at + 2) != exchange_info_response_codec::SBE_TEMPLATE_ID {
        Err(DecodeError::Template { got: read_u16(s, at + 2) })
    } else if !block_fits(s, at, 0) {
        Err(DecodeError::Truncated)
    } else {
        match plain_rate_limits_at(s, at + 8 + read_u16(s, at)) {
            Err(e) => Err(e),
            Ok((rate_limits, q1)) => match exchange_filters_at(s, q1) {
                Err(e) => Err(e),
                Ok((exchange_filters, q2)) => match symbols_at(s, q2) {
                    Err(e) => Err(e),
                    Ok((symbols, q3)) => match sors_at(s, q3) {
                        Err(e) => Err(e),
                        Ok((sors, _)) => Ok(
                            ExchangeInfoView { rate_limits, exchange_filters, symbols, sors },
                        ),
                    },
                },
            },
        }
    }
}

/// Decodes the exchange information that `header` announces. A header that
/// announces another message is an error.
pub fn decode_exchange_info(header: MessageHeaderDecoder<ReadBuf<'_>>) -> (r: Result<
    ExchangeInfo,
    DecodeError,
>)
    requires
        header.buf_ok(),
        header.offset_view() + 8 <= header.buf()@.len(),
    ensures
        stands_for(r, exchange_info_of(header.buf()@, header.offset_view() as int)),
{
    let id = header.template_id();
    if id != exchange_info_response_codec::SBE_TEMPLATE_ID {
        return Err(DecodeError::Template { got: id });
    }
    if !has_block(&header, 0) {
        return Err(DecodeError::Truncated);
    }
    let decoder = ExchangeInfoResponseDecoder::default().header(header);
    proof {
        decoder.lemma_with_limit();
    }
    let (rate_limits, decoder) = match decode_rate_limits(decoder) {
        Ok(x) => x,
        Err(e) => {
            return Err(e);
        },
    };
    proof {
        decoder.lemma_with_limit();
    }
    let (exchange_filters, decoder) = match decode_exchange_filters(decoder) {
        Ok(x) => x,
        Err(e) => {
            return Err(e);
        },
    };
    proof {
        decoder.lemma_with_limit();
    }
    let (symbols, decoder) = match decode_symbols(decoder) {
        Ok(x) => x,
        Err(e) => {
            return Err(e);
        },
    };
    proof {
        decoder.lemma_with_limit();
    }
    let (sors, _) = match decode_sors(decoder) {
        Ok(x) => x,
        Err(e) => {
            return Err(e);
        },
    };
    Ok(ExchangeInfo { rate_limits, exchange_filters, symbols, sors })
}

/// A websocket envelope, opened: whether the sender calls the schema
/// deprecated, and the envelope with the place where the enclosed message
/// begins, or why it could not be read.
#[derive(Debug)]
pub struct Envelope {
    pub deprecated: bool,
    pub content: Result<(WebSocketMetadata, usize), DecodeError>,
}

/// The envelope behind the header at `at` calls the schema deprecated.
pub open spec fn deprecated_of(s: Seq<u8>, at: int) -> bool {
    block_fits(s, at, web_socket_response_codec::SBE_BLOCK_LENGTH as int) && flag_at(s, at + 8)
        == Ok::<bool, DecodeError>(true)
}

/// What a buffer says that holds a websocket envelope behind a header at
/// `at`: the envelope, which carries nothing yet, and where the enclosed
/// message begins.
pub open spec fn envelope_of(s: Seq<u8>, at: int) -> Result<
    (WebSocketMetadataView, int),
    DecodeError,
> {
    if !block_fits(s, at, web_socket_response_codec::SBE_BLOCK_LENGTH as int) {
        Err(DecodeError::Truncated)
    } else if flag_at(s, at + 8) is Err {
        Err(DecodeError::NullBool)
    } else {
        match counted_rate_limits_at(s, at + 8 + read_u16(s, at)) {
            Err(e) => Err(e),
            Ok((rate_limits, q1)) => match text_at(s, q1) {
                Err(e) => Err(e),
                Ok((id, q2)) => if q2 + 4 > s.len() || q2 + 4 + read_u32(s, q2) > usize::MAX {
                    Err(DecodeError::Truncated)
                } else {
                    Ok(
                        (
                            WebSocketMetadataView {
                                status: read_u16(s, at + 9),
                                rate_limits,
                                id,
                                result: WebSocketResultView::Unset,
                            },
                            q2 + 4,
                        ),
                    )
                },
            },
        }
    }
}

/// An opened envelope stands for what the bytes say.
pub open spec fn envelope_stands_for(r: Envelope, s: Seq<u8>, at: int) -> bool {
    &&& r.deprecated == deprecated_of(s, at)
    &&& match (r.content, envelope_of(s, at)) {
        (Ok((metadata, offset)), Ok((view, pos))) => metadata@ == view && offset == pos,
        (Err(e), Err(f)) => e == f,
        _ => false,
    }
}

/// Decodes the websocket envelope that `header` announces, as far as the
/// enclosed message.
pub fn decode_websocket_metadata(header: MessageHeaderDecoder<ReadBuf<'_>>) -> (r: Envelope)
    requires
        header.buf_ok(),
        header.offset_view() + 8 <= header.buf()@.len(),
        read_u16(header.buf()@, header.offset_view() + 2)
            == web_socket_response_codec::SBE_TEMPLATE_ID,
    ensures
        envelope_stands_for(r, header.buf()@, header.offset_view() as int),
{
    let len = header.get_buf().len();
    if !has_block(&header, web_socket_response_codec::SBE_BLOCK_LENGTH as usize) {
        return Envelope { deprecated: false, content: Err(DecodeError::Truncated) };
    }
    let decoder = WebSocketResponseDecoder::default().header(header);
    let deprecated = match into_bool(decoder.sbe_schema_id_version_deprecated()) {
        Ok(b) => b,
        Err(e) => {
            return Envelope { deprecated: false, content: Err(e) };
        },
    };
    let status = decoder.status();
    proof {
        decoder.lemma_with_limit();
    }
    let (rate_limits, decoder) = match decode_counted_rate_limits(decoder) {
        Ok(x) => x,
        Err(e) => {
            return Envelope { deprecated, content: Err(e) };
        },
    };
    let mut decoder = decoder;
    let limit = decoder.get_limit();
    if limit > len || len - limit < 1 {
        return Envelope { deprecated, content: Err(DecodeError::Truncated) };
    }
    let length = decoder.get_buf().get_u8_at(limit) as usize;
    if len - limit - 1 < length {
        return Envelope { deprecated, content: Err(DecodeError::Truncated) };
    }
    proof {
        decoder.lemma_with_limit();
    }
    let coordinates = decoder.id_decoder();
    let id = decoder.id_slice(coordinates);
    let id = match decode_text(id) {
        Ok(text) => text,
        Err(e) => {
            return Envelope { deprecated, content: Err(e) };
        },
    };
    let response = WebSocketMetadata::new(status, rate_limits, id);
    let limit = decoder.get_limit();
    if limit > len || len - limit < 4 {
        return Envelope { deprecated, content: Err(DecodeError::Truncated) };
    }
    let length = decoder.get_buf().get_u32_at(limit) as usize;
    if length > usize::MAX - limit - 4 {
        return Envelope { deprecated, content: Err(DecodeError::Truncated) };
    }
    let coordinates = decoder.result_decoder();
    Envelope { deprecated, content: Ok((response, coordinates.0)) }
}

/// What a payload turned out to be.
#[derive(Debug)]
pub enum Outcome {
    /// The exchange information.
    ExchangeInfo(ExchangeInfo),
    /// A websocket envelope that carries the exchange information.
    WebSocket(WebSocketMetadata),
    /// The exchange answered with an error: the request has failed.
    Error(ErrorResponse),
    /// A websocket envelope that carries an error: the request has failed.
    WebSocketError(WebSocketMetadata),
}

/// An `Outcome` as plain values.
pub enum OutcomeView {
    ExchangeInfo(ExchangeInfoView),
    WebSocket(WebSocketMetadataView),
    Error(ErrorResponseView),
    WebSocketError(WebSocketMetadataView),
}

impl View for Outcome {
    type V = OutcomeView;

    open spec fn view(&self) -> OutcomeView {
        match self {
            Outcome::ExchangeInfo(x) => OutcomeView::ExchangeInfo(x@),
            Outcome::WebSocket(x) => OutcomeView::WebSocket(x@),
            Outcome::Error(x) => OutcomeView::Error(x@),
            Outcome::WebSocketError(x) => OutcomeView::WebSocketError(x@),
        }
    }
}

/// All that decoding a payload has to tell: two warnings, which do not stop
/// the decoding, and the outcome or the reason why there is none.
#[derive(Debug)]
pub struct Report {
    /// The version of the schema, where it is not the expected one.
    pub unexpected_version: Option<u16>,
    /// The sender calls the schema deprecated.
    pub deprecated_schema: bool,
    pub result: Result<Outcome, DecodeError>,
}

/// A `Report` as plain values.
pub struct ReportView {
    pub unexpected_version: Option<u16>,
    pub deprecated_schema: bool,
    pub result: Result<OutcomeView, DecodeError>,
}

impl View for Report {
    type V = ReportView;

    open spec fn view(&self) -> ReportView {
        ReportView {
            unexpected_version: self.unexpected_version,
            deprecated_schema: self.deprecated_schema,
            result: match self.result {
                Ok(x) => Ok(x@),
                Err(e) => Err(e),
            },
        }
    }
}

/// The schema that this library speaks.
pub const EXPECTED_SCHEMA_ID: u16 = exchange_info_response_codec::SBE_SCHEMA_ID;

/// The version of the schema that this library speaks.
pub const EXPECTED_SCHEMA_VERSION: u16 = exchange_info_response_codec::SBE_SCHEMA_VERSION;

/// What an envelope carries: the message that begins at `offset` of the
/// payload, an error response or the exchange information.
pub open spec fn enclosed_of(s: Seq<u8>, metadata: WebSocketMetadataView, offset: int) -> Result<
    OutcomeView,
    DecodeError,
> {
    let inner = s.subrange(offset, s.len() as int);
    if inner.len() < 8 {
        Err(DecodeError::Truncated)
    } else if read_u16(inner, 2) == error_response_codec::SBE_TEMPLATE_ID {
        match error_response_of(inner, 0) {
            Err(e) => Err(e),
            Ok(error) => Ok(
                OutcomeView::WebSocketError(
                    WebSocketMetadataView { result: WebSocketResultView::Error(error), ..metadata },
                ),
            ),
        }
    } else {
        match exchange_info_of(inner, 0) {
            Err(e) => Err(e),
            Ok(info) => Ok(
                OutcomeView::WebSocket(
                    WebSocketMetadataView {
                        result: WebSocketResultView::ExchangeInfo(info),
                        ..metadata
                    },
                ),
            ),
        }
    }
}

/// What a payload says. An error response is read whatever its schema is;
/// every other message has to be of the expected schema. A websocket
/// envelope is opened and the message in it is read in its place.
pub open spec fn report_of(s: Seq<u8>) -> ReportView {
    if s.len() < 8 {
        ReportView {
            unexpected_version: None,
            deprecated_schema: false,
            result: Err(DecodeError::Truncated),
        }
    } else if read_u16(s, 2) == error_response_codec::SBE_TEMPLATE_ID {
        ReportView {
            unexpected_version: None,
            deprecated_schema: false,
            result: match error_response_of(s, 0) {
                Err(e) => Err(e),
                Ok(error) => Ok(OutcomeView::Error(error)),
            },
        }
    } else if read_u16(s, 4) != EXPECTED_SCHEMA_ID {
        ReportView {
            unexpected_version: None,
            deprecated_schema: false,
            result: Err(
                DecodeError::SchemaId { got: read_u16(s, 4), expected: EXPECTED_SCHEMA_ID },
            ),
        }
    } else {
        let unexpected_version = if read_u16(s, 6) != EXPECTED_SCHEMA_VERSION {
            Some(read_u16(s, 6))
        } else {
            None
        };
        if read_u16(s, 2) == web_socket_response_codec::SBE_TEMPLATE_ID {
            ReportView {
                unexpected_version,
                deprecated_schema: deprecated_of(s, 0),
                result: match envelope_of(s, 0) {
                    Err(e) => Err(e),
                    Ok((metadata, offset)) => enclosed_of(s, metadata, offset),
                },
            }
        } else {
            ReportView {
                unexpected_version,
                deprecated_schema: false,
                result: match exchange_info_of(s, 0) {
                    Err(e) => Err(e),
                    Ok(info) => Ok(OutcomeView::ExchangeInfo(info)),
                },
            }
        }
    }
}

/// An error response comes first: where the header announces one, the report
/// is that response, or the reason why it could not be read, whatever the
/// schema id and the version in the header are, and the payload is never
/// taken for the exchange information. The same holds of the message inside
/// an envelope.
pub proof fn lemma_error_response_first(s: Seq<u8>, metadata: WebSocketMetadataView, offset: int)
    ensures
        s.len() >= 8 && read_u16(s, 2) == error_response_codec::SBE_TEMPLATE_ID ==> {
            &&& report_of(s).unexpected_version is None
            &&& !report_of(s).deprecated_schema
            &&& report_of(s).result == match error_response_of(s, 0) {
                Err(e) => Err::<OutcomeView, DecodeError>(e),
                Ok(error) => Ok(OutcomeView::Error(error)),
            }
        },
        ({
            let inner = s.subrange(offset, s.len() as int);
            inner.len() >= 8 && read_u16(inner, 2) == error_response_codec::SBE_TEMPLATE_ID ==> {
                &&& enclosed_of(s, metadata, offset) == match error_response_of(inner, 0) {
                    Err(e) => Err::<OutcomeView, DecodeError>(e),
                    Ok(error) => Ok(
                        OutcomeView::WebSocketError(
                            WebSocketMetadataView {
                                result: WebSocketResultView::Error(error),
                                ..metadata
                            },
                        ),
                    ),
                }
            }
        }),
{
}

/// The fields of an error response that is whole are those on the wire: the
/// code behind the header, the two times behind it, and the text behind the
/// block.
pub proof fn lemma_error_response_fields(s: Seq<u8>, at: int)
    requires
        block_fits(s, at, 18),
        var16_at(s, at + 8 + read_u16(s, at)) is Ok,
        valid_utf8(var16_at(s, at + 8 + read_u16(s, at))->Ok_0.0),
    ensures
        error_response_of(s, at) == Ok::<ErrorResponseView, DecodeError>(
            ErrorResponseView {
                code: read_i16(s, at + 8),
                server_time: absent_if(read_i64(s, at + 10), i64::MIN),
                retry_after: absent_if(read_i64(s, at + 18), i64::MIN),
                msg: decode_utf8(var16_at(s, at + 8 + read_u16(s, at))->Ok_0.0),
            },
        ),
{
}

/// Decodes the message that an envelope carries, and puts it into the
/// envelope.
pub fn decode_enclosed(payload: &[u8], metadata: WebSocketMetadata, offset: usize) -> (r: Result<
    Outcome,
    DecodeError,
>)
    requires
        offset <= payload@.len(),
    ensures
        stands_for(r, enclosed_of(payload@, metadata@, offset as int)),
{
    let mut metadata = metadata;
    let inner = vstd::slice::slice_subrange(payload, offset, payload.len());
    if inner.len() < 8 {
        return Err(DecodeError::Truncated);
    }
    let header = MessageHeaderDecoder::default().wrap(ReadBuf::new(inner), 0);
    if header.template_id() == error_response_codec::SBE_TEMPLATE_ID {
        match decode_error(header) {
            Ok(error) => {
                metadata.set_error(error);
                Ok(Outcome::WebSocketError(metadata))
            },
            Err(e) => Err(e),
        }
    } else {
        match decode_exchange_info(header) {
            Ok(info) => {
                metadata.set_exchange_info(info);
                Ok(Outcome::WebSocket(metadata))
            },
            Err(e) => Err(e),
        }
    }
}

/// Decodes a payload: one message behind its header, or a websocket
/// envelope with a message in it.
pub fn decode_payload(payload: &[u8]) -> (r: Report)
    ensures
        r@ == report_of(payload@),
{
    if payload.len() < 8 {
        return Report {
            unexpected_version: None,
            deprecated_schema: false,
            result: Err(DecodeError::Truncated),
        };
    }
    let decoder = MessageHeaderDecoder::default().wrap(ReadBuf::new(payload), 0);
    if decoder.template_id() == error_response_codec::SBE_TEMPLATE_ID {
        let result = match decode_error(decoder) {
            Ok(error) => Ok(Outcome::Error(error)),
            Err(e) => Err(e),
        };
        return Report { unexpected_version: None, deprecated_schema: false, result };
    }
    let schema_id = decoder.schema_id();
    if schema_id != EXPECTED_SCHEMA_ID {
        return Report {
            unexpected_version: None,
            deprecated_schema: false,
            result: Err(DecodeError::SchemaId { got: schema_id, expected: EXPECTED_SCHEMA_ID }),
        };
    }
    let version = decoder.version();
    let unexpected_version = if version != EXPECTED_SCHEMA_VERSION {
        Some(version)
    } else {
        None
    };
    if decoder.template_id() == web_socket_response_codec::SBE_TEMPLATE_ID {
        let envelope = decode_websocket_metadata(decoder);
        let result = match envelope.content {
            Ok((metadata, offset)) => decode_enclosed(payload, metadata, offset),
            Err(e) => Err(e),
        };
        return Report { unexpected_version, deprecated_schema: envelope.deprecated, result };
    }
    let result = match decode_exchange_info(decoder) {
        Ok(info) => Ok(Outcome::ExchangeInfo(info)),
        Err(e) => Err(e),
    };
    Report { unexpected_version, deprecated_schema: false, result }
}

} // verus!
