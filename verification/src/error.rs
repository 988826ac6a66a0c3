//! Error taxonomy of the decoder.

use vstd::prelude::*;

verus! {

/// Malformed block structure or frame layout.
#[derive(Debug, Clone, Copy, PartialEq, Eq, Structural)]
pub enum FormatError {
    /// The frame holds no bytes at all.
    EmptyFrame,
    /// The leading discriminator byte is not 1, 2 or 3.
    InvalidMessageType(u8),
    /// A request or response frame is too short to hold its identifier.
    TruncatedFrame,
    /// A block's type tag is neither 0 nor 2.
    InvalidBlockType(u8),
    /// The buffer ended while the continuation flag was still set.
    TruncatedVarint,
    /// A variable-length integer does not fit in 64 bits.
    OversizedVarint,
    /// A length-delimited span claims more bytes than the buffer holds.
    TruncatedBlock,
    /// The sub-buffer holds a number of blocks other than two.
    InvalidBlockCount(usize),
    /// A dotted method name has too few segments.
    MalformedMethodName,
}

/// A byte string or text field that does not decode.
#[derive(Debug, PartialEq, Eq)]
pub enum EncodingError {
    /// A name field is not valid UTF-8. The text is the UTF-8 decoder's own
    /// account of the fault, with the offset it was found at.
    InvalidUtf8(String),
    /// The nested payload is not valid base64. The text is the base64
    /// decoder's own account of the fault, with the offending symbol.
    InvalidBase64(String),
}

/// Mathematical model of an [`EncodingError`].
pub enum EncodingView {
    InvalidUtf8(Seq<char>),
    InvalidBase64(Seq<char>),
}

impl View for EncodingError {
    type V = EncodingView;

    open spec fn view(&self) -> EncodingView {
        match self {
            EncodingError::InvalidUtf8(detail) => EncodingView::InvalidUtf8(detail@),
            EncodingError::InvalidBase64(detail) => EncodingView::InvalidBase64(detail@),
        }
    }
}

/// A payload that does not satisfy the schema resolved for it.
#[derive(Debug, PartialEq, Eq)]
pub enum SchemaError {
    /// The payload bytes violate the wire constraints of the schema. The
    /// text is the payload decoder's own account of the fault.
    InvalidPayload(String),
    /// The decoded message has no structured-value rendering. The text is
    /// the renderer's own account of a fault; of a message with several
    /// faults it names one.
    Unrepresentable(String),
    /// A notification carries nested data without a textual action name.
    MissingActionName,
}

/// Mathematical model of a [`SchemaError`].
pub enum SchemaView {
    InvalidPayload(Seq<char>),
    /// Without the text: which fault the renderer reports is not determined
    /// by the message.
    Unrepresentable,
    MissingActionName,
}

impl View for SchemaError {
    type V = SchemaView;

    open spec fn view(&self) -> SchemaView {
        match self {
            SchemaError::InvalidPayload(detail) => SchemaView::InvalidPayload(detail@),
            SchemaError::Unrepresentable(_) => SchemaView::Unrepresentable,
            SchemaError::MissingActionName => SchemaView::MissingActionName,
        }
    }
}

/// A name or identifier with nothing registered under it.
#[derive(Debug, PartialEq, Eq)]
pub enum NotFoundError {
    /// The catalog holds no message schema under this bare name.
    UnknownSchema(String),
    /// The service index declares no type for this method name.
    UnknownMethod(String),
    /// A response arrived for an identifier with no pending request.
    NoCorrespondingRequest(u16),
}

/// Mathematical model of a [`NotFoundError`].
pub enum NotFoundView {
    UnknownSchema(Seq<char>),
    UnknownMethod(Seq<char>),
    NoCorrespondingRequest(u16),
}

impl View for NotFoundError {
    type V = NotFoundView;

    open spec fn view(&self) -> NotFoundView {
        match self {
            NotFoundError::UnknownSchema(name) => NotFoundView::UnknownSchema(name@),
            NotFoundError::UnknownMethod(name) => NotFoundView::UnknownMethod(name@),
            NotFoundError::NoCorrespondingRequest(id) => NotFoundView::NoCorrespondingRequest(*id),
        }
    }
}

/// Why a frame was rejected.
#[derive(Debug, PartialEq, Eq)]
pub enum ParseError {
    Format(FormatError),
    NotFound(NotFoundError),
    Encoding(EncodingError),
    Schema(SchemaError),
}

/// Mathematical model of a [`ParseError`].
pub enum ParseErrorView {
    Format(FormatError),
    NotFound(NotFoundView),
    Encoding(EncodingView),
    Schema(SchemaView),
}

impl View for ParseError {
    type V = ParseErrorView;

    open spec fn view(&self) -> ParseErrorView {
        match self {
            ParseError::Format(e) => ParseErrorView::Format(*e),
            ParseError::NotFound(e) => ParseErrorView::NotFound(e@),
            ParseError::Encoding(e) => ParseErrorView::Encoding(e@),
            ParseError::Schema(e) => ParseErrorView::Schema(e@),
        }
    }
}

/// The four classes of failure.
#[derive(Debug, Clone, Copy, PartialEq, Eq, Structural)]
pub enum ErrorKind {
    Format,
    NotFound,
    Encoding,
    Schema,
}

impl ParseErrorView {
    /// The class this error belongs to.
    pub open spec fn kind(self) -> ErrorKind {
        match self {
            ParseErrorView::Format(_) => ErrorKind::Format,
            ParseErrorView::NotFound(_) => ErrorKind::NotFound,
            ParseErrorView::Encoding(_) => ErrorKind::Encoding,
            ParseErrorView::Schema(_) => ErrorKind::Schema,
        }
    }
}

impl ParseError {
    /// The class this error belongs to.
    pub fn kind(&self) -> (k: ErrorKind)
        ensures
            k == self@.kind(),
    {
        match self {
            ParseError::Format(_) => ErrorKind::Format,
            ParseError::NotFound(_) => ErrorKind::NotFound,
            ParseError::Encoding(_) => ErrorKind::Encoding,
            ParseError::Schema(_) => ErrorKind::Schema,
        }
    }
}

} // verus!
