//! The message decoder: classifies a frame, splits it, resolves its schema
//! and decodes its payload, keeping track of the requests that still wait
//! for a response.

use crate::blocks::{buf_to_method_data, spec_method_data};
use crate::buffer::{bytes_from_vec, bytes_into_vec, bytes_is_empty, bytes_seq};
use crate::cipher::{deobfuscate, spec_deobfuscate};
use crate::error::{
    EncodingError, EncodingView, ErrorKind, FormatError, NotFoundView, ParseError, ParseErrorView,
    SchemaError, SchemaView,
};
use crate::json::{json_view, value_as_str, value_get, value_insert, JsonView};
use crate::resolver::{spec_declared_schema, spec_method_entry, SchemaResolver};
pub use crate::schema::{dyn_to_json, to_fqn};
use crate::schema::{
    decode_payload, json_result, message_pool, pool_sound, resolve_schema, schema_sound,
    spec_decode_payload, spec_resolve,
};
use crate::table::{spec_insert, spec_take, CorrelationTable, PendingRequest, PendingView};
use crate::text::{
    base64_decode, base64_decoded, base64_error_message, base64_error_text, spec_split,
    split_text, string_from_utf8, utf8_error, utf8_error_message, utf8_error_text,
};
use bytes::Bytes;
use prost_reflect::{DescriptorPool, MessageDescriptor};
use serde_json::Value;
use vstd::prelude::*;
use vstd::slice::slice_subrange;
use vstd::string::StringExecFns;
use vstd::utf8::{decode_utf8, valid_utf8};

verus! {

/// The three kinds of message, told apart by the leading byte of a frame.
#[derive(Debug, Clone, Copy, PartialEq, Eq, Structural)]
pub enum MessageType {
    /// Leading byte 1: a message that expects no answer.
    Notify,
    /// Leading byte 2: a call that will be answered.
    Request,
    /// Leading byte 3: the answer to an earlier request.
    Response,
}

impl MessageType {
    /// The kind that a leading byte stands for.
    pub open spec fn spec_from_byte(byte: u8) -> Option<MessageType> {
        if byte == 1 {
            Some(MessageType::Notify)
        } else if byte == 2 {
            Some(MessageType::Request)
        } else if byte == 3 {
            Some(MessageType::Response)
        } else {
            None
        }
    }

    /// The leading byte that stands for this kind.
    pub open spec fn spec_to_byte(self) -> u8 {
        match self {
            MessageType::Notify => 1,
            MessageType::Request => 2,
            MessageType::Response => 3,
        }
    }

    /// The leading byte that stands for this kind.
    pub fn to_byte(self) -> (byte: u8)
        ensures
            byte == self.spec_to_byte(),
            Self::spec_from_byte(byte) == Some(self),
    {
        match self {
            MessageType::Notify => 1,
            MessageType::Request => 2,
            MessageType::Response => 3,
        }
    }

    /// The kind that a leading byte stands for, if it is 1, 2 or 3.
    pub fn from_byte(byte: u8) -> (kind: Option<MessageType>)
        ensures
            kind == Self::spec_from_byte(byte),
    {
        match byte {
            1 => Some(MessageType::Notify),
            2 => Some(MessageType::Request),
            3 => Some(MessageType::Response),
            _ => None,
        }
    }
}

/// A decoded message.
#[derive(Debug)]
pub struct LiqiMessage {
    /// The identifier read from the frame, or the frame count for a notify.
    pub id: usize,
    /// The kind of message.
    pub msg_type: MessageType,
    /// The full dotted method name.
    pub method_name: String,
    /// The decoded payload.
    pub data: Value,
}

/// Mathematical model of a [`LiqiMessage`].
pub struct MessageView {
    pub id: nat,
    pub msg_type: MessageType,
    pub method_name: Seq<char>,
    pub data: JsonView,
}

impl View for LiqiMessage {
    type V = MessageView;

    open spec fn view(&self) -> MessageView {
        MessageView {
            id: self.id as nat,
            msg_type: self.msg_type,
            method_name: self.method_name@,
            data: json_view(self.data),
        }
    }
}

/// The model of the outcome of decoding a frame.
pub open spec fn message_result(r: Result<LiqiMessage, ParseError>) -> Result<
    MessageView,
    ParseErrorView,
> {
    match r {
        Ok(message) => Ok(message@),
        Err(e) => Err(e@),
    }
}

/// The text that name bytes spell in UTF-8.
pub open spec fn spec_method_text(bytes: Seq<u8>) -> Result<Seq<char>, ParseErrorView> {
    if valid_utf8(bytes) {
        Ok(decode_utf8(bytes))
    } else {
        Err(
            ParseErrorView::Encoding(
                EncodingView::InvalidUtf8(utf8_error_message(utf8_error(bytes))),
            ),
        )
    }
}

/// The structured value of a nested action: `data` is base64 of the
/// obfuscated payload, `name` the bare name of the payload's type.
pub open spec fn spec_decode_action(pool: DescriptorPool, name: Seq<char>, data: Seq<char>)
    -> Result<JsonView, ParseErrorView> {
    match base64_decoded(data) {
        Ok(raw) => match spec_resolve(pool, name) {
            Ok(schema) => spec_decode_payload(schema, spec_deobfuscate(raw)),
            Err(e) => Err(e),
        },
        Err(e) => Err(
            ParseErrorView::Encoding(EncodingView::InvalidBase64(base64_error_message(e))),
        ),
    }
}

/// A notification's value with its nested action decoded in place.
///
/// A value without a `data` member is left as it is. Otherwise the `name`
/// member has to be a text, and the `data` member is replaced by the action
/// decoded from it; a `data` member that is no text counts as empty text.
pub open spec fn spec_expand_action(pool: DescriptorPool, value: JsonView) -> Result<
    JsonView,
    ParseErrorView,
> {
    match value.member("data"@) {
        Some(data) => match value.member("name"@) {
            Some(JsonView::Text(name)) => {
                let text = match data.text() {
                    Some(text) => text,
                    None => Seq::empty(),
                };
                match spec_decode_action(pool, name, text) {
                    Ok(action) => Ok(value.with_member("data"@, action)),
                    Err(e) => Err(e),
                }
            },
            _ => Err(ParseErrorView::Schema(SchemaView::MissingActionName)),
        },
        None => Ok(value),
    }
}

/// The identifier of a request or response: bytes 1 and 2 of the frame,
/// low byte first.
pub open spec fn spec_identifier(frame: Seq<u8>) -> u16
    recommends
        frame.len() >= 3,
{
    (frame[1] + 256 * frame[2]) as u16
}

/// The dotted name of a notify whose sub-buffer is `body`, and the value
/// that its payload decodes to, before a nested action is looked at.
///
/// The third segment of the dotted name is the bare name of the payload's
/// type.
pub open spec fn spec_notify_value(pool: DescriptorPool, body: Seq<u8>) -> Result<
    (Seq<char>, JsonView),
    ParseErrorView,
> {
    match spec_method_data(body) {
        Ok((name_bytes, payload)) => match spec_method_text(name_bytes) {
            Ok(name) => {
                let segments = spec_split(name, '.');
                if segments.len() < 3 {
                    Err(ParseErrorView::Format(FormatError::MalformedMethodName))
                } else {
                    match spec_resolve(pool, segments[2]) {
                        Ok(schema) => match spec_decode_payload(schema, payload) {
                            Ok(value) => Ok((name, value)),
                            Err(e) => Err(e),
                        },
                        Err(e) => Err(e),
                    }
                }
            },
            Err(e) => Err(e),
        },
        Err(e) => Err(ParseErrorView::Format(e)),
    }
}

/// A notify whose sub-buffer is `body`, decoded as frame number `total`.
pub open spec fn spec_notify(pool: DescriptorPool, total: nat, body: Seq<u8>) -> Result<
    MessageView,
    ParseErrorView,
> {
    match spec_notify_value(pool, body) {
        Ok((name, value)) => match spec_expand_action(pool, value) {
            Ok(data) => Ok(
                MessageView { id: total, msg_type: MessageType::Notify, method_name: name, data },
            ),
            Err(e) => Err(e),
        },
        Err(e) => Err(e),
    }
}

/// A request with identifier `id` whose sub-buffer is `body`: the decoded
/// message, and the entry to remember for its response.
///
/// Segments 1, 2 and 3 of the dotted name are domain, service and method.
/// The payload is decoded against the declared request type before the
/// declared response type is looked at.
pub open spec fn spec_request(pool: DescriptorPool, index: JsonView, id: u16, body: Seq<u8>)
    -> Result<(MessageView, PendingView), ParseErrorView> {
    match spec_method_data(body) {
        Ok((name_bytes, payload)) => match spec_method_text(name_bytes) {
            Ok(name) => {
                let segments = spec_split(name, '.');
                if segments.len() < 4 {
                    Err(ParseErrorView::Format(FormatError::MalformedMethodName))
                } else {
                    let entry = spec_method_entry(index, segments[1], segments[2], segments[3]);
                    match spec_declared_schema(pool, entry, "requestType"@, name) {
                        Ok(schema) => match spec_decode_payload(schema, payload) {
                            Ok(data) => match spec_declared_schema(
                                pool,
                                entry,
                                "responseType"@,
                                name,
                            ) {
                                Ok(answer) => Ok(
                                    (
                                        MessageView {
                                            id: id as nat,
                                            msg_type: MessageType::Request,
                                            method_name: name,
                                            data,
                                        },
                                        PendingView { method_name: name, schema: answer },
                                    ),
                                ),
                                Err(e) => Err(e),
                            },
                            Err(e) => Err(e),
                        },
                        Err(e) => Err(e),
                    }
                }
            },
            Err(e) => Err(e),
        },
        Err(e) => Err(ParseErrorView::Format(e)),
    }
}

/// A response with identifier `id` whose sub-buffer is `body`, against the
/// table `pending`: the outcome, and the table afterwards.
///
/// The entry under `id` is taken before the payload is decoded, so it is
/// gone even where the payload does not decode.
pub open spec fn spec_response(pending: Map<u16, PendingView>, id: u16, body: Seq<u8>) -> (
    Result<MessageView, ParseErrorView>,
    Map<u16, PendingView>,
) {
    match spec_method_data(body) {
        Ok((_, payload)) => match spec_take(pending, id) {
            (Ok(entry), rest) => (
                match spec_decode_payload(entry.schema, payload) {
                    Ok(data) => Ok(
                        MessageView {
                            id: id as nat,
                            msg_type: MessageType::Response,
                            method_name: entry.method_name,
                            data,
                        },
                    ),
                    Err(e) => Err(e),
                },
                rest,
            ),
            (Err(e), rest) => (Err(e), rest),
        },
        Err(e) => (Err(ParseErrorView::Format(e)), pending),
    }
}

/// Whether `frame` is a response whose sub-buffer splits and names a method.
/// A response carries no name of its own, so such a frame is not to be
/// handed to the decoder.
pub open spec fn spec_response_names_method(frame: Seq<u8>) -> bool {
    &&& frame.len() >= 3
    &&& frame[0] == 3
    &&& spec_method_data(frame.skip(3)) matches Ok((name_bytes, _)) && name_bytes.len() > 0
}

/// What changes from frame to frame in a decoder.
pub struct ParserView {
    /// How many frames were decoded with success.
    pub total: nat,
    /// The requests that wait for their response.
    pub pending: Map<u16, PendingView>,
}

/// Decoding `frame` in state `state`: the outcome, and the state afterwards.
pub open spec fn spec_parse(
    pool: DescriptorPool,
    index: JsonView,
    state: ParserView,
    frame: Seq<u8>,
) -> (Result<MessageView, ParseErrorView>, ParserView) {
    if frame.len() == 0 {
        (Err(ParseErrorView::Format(FormatError::EmptyFrame)), state)
    } else {
        match MessageType::spec_from_byte(frame[0]) {
            Some(MessageType::Notify) => match spec_notify(pool, state.total, frame.skip(1)) {
                Ok(message) => (
                    Ok(message),
                    ParserView { total: state.total + 1, pending: state.pending },
                ),
                Err(e) => (Err(e), state),
            },
            Some(MessageType::Request) => if frame.len() < 3 {
                (Err(ParseErrorView::Format(FormatError::TruncatedFrame)), state)
            } else {
                match spec_request(pool, index, spec_identifier(frame), frame.skip(3)) {
                    Ok((message, entry)) => (
                        Ok(message),
                        ParserView {
                            total: state.total + 1,
                            pending: spec_insert(state.pending, spec_identifier(frame), entry),
                        },
                    ),
                    Err(e) => (Err(e), state),
                }
            },
            Some(MessageType::Response) => if frame.len() < 3 {
                (Err(ParseErrorView::Format(FormatError::TruncatedFrame)), state)
            } else {
                match spec_response(state.pending, spec_identifier(frame), frame.skip(3)) {
                    (Ok(message), pending) => (
                        Ok(message),
                        ParserView { total: state.total + 1, pending },
                    ),
                    (Err(e), pending) => (Err(e), ParserView { total: state.total, pending }),
                }
            },
            None => (Err(ParseErrorView::Format(FormatError::InvalidMessageType(frame[0]))), state),
        }
    }
}

/// The model of the outcome of reading a name.
pub open spec fn text_result(r: Result<String, ParseError>) -> Result<Seq<char>, ParseErrorView> {
    match r {
        Ok(text) => Ok(text@),
        Err(e) => Err(e@),
    }
}

/// Reads name bytes as UTF-8 text.
pub fn method_text(name: Bytes) -> (r: Result<String, ParseError>)
    ensures
        text_result(r) == spec_method_text(bytes_seq(name)),
{
    match string_from_utf8(bytes_into_vec(name)) {
        Ok(text) => Ok(text),
        Err(e) => Err(ParseError::Encoding(EncodingError::InvalidUtf8(utf8_error_text(&e)))),
    }
}

/// Decodes a nested action: `data` is base64 of the obfuscated payload,
/// `name` the bare name of the payload's type.
pub fn decode_action(name: &str, data: &str, pool: &DescriptorPool) -> (r: Result<
    Value,
    ParseError,
>)
    requires
        pool_sound(*pool),
    ensures
        json_result(r) == spec_decode_action(*pool, name@, data@),
{
    let mut decoded: Vec<u8> = match base64_decode(data) {
        Ok(decoded) => decoded,
        Err(e) => {
            return Err(ParseError::Encoding(EncodingError::InvalidBase64(base64_error_text(&e))));
        },
    };
    deobfuscate(&mut decoded);
    let schema: MessageDescriptor = match resolve_schema(pool, name) {
        Ok(schema) => schema,
        Err(e) => {
            return Err(e);
        },
    };
    decode_payload(schema, bytes_from_vec(decoded))
}

/// Decodes the action nested in a notification's value, if it has one, and
/// puts it in the place of the `data` member.
pub fn expand_action(value: Value, pool: &DescriptorPool) -> (r: Result<Value, ParseError>)
    requires
        pool_sound(*pool),
    ensures
        json_result(r) == spec_expand_action(*pool, json_view(value)),
{
    let mut value = value;
    let action: Value = match value_get(&value, "data") {
        Some(data) => {
            let name: Option<&str> = match value_get(&value, "name") {
                Some(name) => value_as_str(name),
                None => None,
            };
            match name {
                Some(name) => {
                    let text: &str = match value_as_str(data) {
                        Some(text) => text,
                        None => {
                            proof {
                                reveal_strlit("");
                            }
                            assert(""@ =~= Seq::<char>::empty());
                            ""
                        },
                    };
                    match decode_action(name, text, pool) {
                        Ok(action) => action,
                        Err(e) => {
                            return Err(e);
                        },
                    }
                },
                None => {
                    return Err(ParseError::Schema(SchemaError::MissingActionName));
                },
            }
        },
        None => {
            return Ok(value);
        },
    };
    value_insert(&mut value, String::from_str("data"), action);
    Ok(value)
}

/// The model of the outcome of decoding a request.
pub open spec fn request_result(r: Result<(LiqiMessage, PendingRequest), ParseError>) -> Result<
    (MessageView, PendingView),
    ParseErrorView,
> {
    match r {
        Ok((message, entry)) => Ok((message@, entry@)),
        Err(e) => Err(e@),
    }
}

/// Whether `frame` is a response whose sub-buffer splits and names a method
/// (see [`spec_response_names_method`]). [`Parser::parse`] takes no such
/// frame.
pub fn response_names_method(frame: &[u8]) -> (named: bool)
    ensures
        named == spec_response_names_method(frame@),
{
    if frame.len() < 3 || frame[0] != 3 {
        return false;
    }
    let body: &[u8] = slice_subrange(frame, 3, frame.len());
    assert(body@ =~= frame@.skip(3));
    match buf_to_method_data(body) {
        Ok((name, _)) => !bytes_is_empty(&name),
        Err(_) => false,
    }
}

/// The decoder of one connection.
///
/// It owns the count of frames decoded and the correlation table; the
/// catalog and the service index are shared and only read.
#[derive(Debug)]
pub struct Parser<'a> {
    total: usize,
    respond_type: CorrelationTable,
    resolver: SchemaResolver<'a>,
}

impl<'a> View for Parser<'a> {
    type V = ParserView;

    closed spec fn view(&self) -> ParserView {
        ParserView { total: self.total as nat, pending: self.respond_type@ }
    }
}

impl<'a> Parser<'a> {
    #[verifier::type_invariant]
    spec fn sound(self) -> bool {
        forall|id: u16|
            self.respond_type@.contains_key(id) ==> message_pool(
                (#[trigger] self.respond_type@[id]).schema,
            ) == self.resolver.pool()
    }

    /// The catalog that this decoder resolves schemas in.
    pub closed spec fn pool(&self) -> DescriptorPool {
        self.resolver.pool()
    }

    /// The service index that this decoder looks methods up in.
    pub closed spec fn index(&self) -> JsonView {
        self.resolver.index()
    }

    /// A decoder that has seen no frame yet.
    pub fn new(resolver: SchemaResolver<'a>) -> (parser: Self)
        ensures
            parser@ == (ParserView { total: 0, pending: Map::empty() }),
            parser.pool() == resolver.pool(),
            parser.index() == resolver.index(),
    {
        Parser { total: 0, respond_type: CorrelationTable::new(), resolver }
    }

    /// Takes the correlation table out, leaving an empty one, so that it
    /// can change on its own and be put back whole.
    fn detach_table(&mut self) -> (table: CorrelationTable)
        ensures
            table@ == old(self)@.pending,
            final(self)@.total == old(self)@.total,
            final(self).pool() == old(self).pool(),
            final(self).index() == old(self).index(),
            forall|id: u16|
                table@.contains_key(id) ==> message_pool((#[trigger] table@[id]).schema)
                    == old(self).pool(),
    {
        proof {
            use_type_invariant(&*self);
        }
        let mut table: CorrelationTable = CorrelationTable::new();
        std::mem::swap(&mut self.respond_type, &mut table);
        table
    }

    /// Decodes the sub-buffer of a notify.
    fn parse_notify(&self, body: &[u8]) -> (r: Result<LiqiMessage, ParseError>)
        ensures
            message_result(r) == spec_notify(self.pool(), self@.total, body@),
    {
        let (name, payload) = match buf_to_method_data(body) {
            Ok(pair) => pair,
            Err(e) => {
                return Err(ParseError::Format(e));
            },
        };
        let method_name: String = match method_text(name) {
            Ok(text) => text,
            Err(e) => {
                return Err(e);
            },
        };
        let segments: Vec<String> = split_text(method_name.as_str(), '.');
        if segments.len() < 3 {
            return Err(ParseError::Format(FormatError::MalformedMethodName));
        }
        let schema: MessageDescriptor = match self.resolver.resolve(segments[2].as_str()) {
            Ok(schema) => schema,
            Err(e) => {
                return Err(e);
            },
        };
        let value: Value = match decode_payload(schema, payload) {
            Ok(value) => value,
            Err(e) => {
                return Err(e);
            },
        };
        let data: Value = match expand_action(value, self.resolver.catalog()) {
            Ok(data) => data,
            Err(e) => {
                return Err(e);
            },
        };
        Ok(LiqiMessage { id: self.total, msg_type: MessageType::Notify, method_name, data })
    }

    /// Decodes the sub-buffer of a request, and says what to remember for
    /// its response.
    fn parse_request(&self, id: u16, body: &[u8]) -> (r: Result<
        (LiqiMessage, PendingRequest),
        ParseError,
    >)
        ensures
            request_result(r) == spec_request(self.pool(), self.index(), id, body@),
            r matches Ok((_, entry)) ==> message_pool(entry.schema) == self.pool(),
    {
        let (name, payload) = match buf_to_method_data(body) {
            Ok(pair) => pair,
            Err(e) => {
                return Err(ParseError::Format(e));
            },
        };
        let method_name: String = match method_text(name) {
            Ok(text) => text,
            Err(e) => {
                return Err(e);
            },
        };
        let segments: Vec<String> = split_text(method_name.as_str(), '.');
        if segments.len() < 4 {
            return Err(ParseError::Format(FormatError::MalformedMethodName));
        }
        let entry: Option<&Value> = self.resolver.method_entry(
            segments[1].as_str(),
            segments[2].as_str(),
            segments[3].as_str(),
        );
        let schema: MessageDescriptor = match self.resolver.declared_schema(
            entry,
            "requestType",
            method_name.as_str(),
        ) {
            Ok(schema) => schema,
            Err(e) => {
                return Err(e);
            },
        };
        let data: Value = match decode_payload(schema, payload) {
            Ok(value) => value,
            Err(e) => {
                return Err(e);
            },
        };
        let answer: MessageDescriptor = match self.resolver.declared_schema(
            entry,
            "responseType",
            method_name.as_str(),
        ) {
            Ok(schema) => schema,
            Err(e) => {
                return Err(e);
            },
        };
        let pending = PendingRequest { method_name: method_name.clone(), schema: answer };
        Ok(
            (
                LiqiMessage { id: id as usize, msg_type: MessageType::Request, method_name, data },
                pending,
            ),
        )
    }

    /// Decodes the sub-buffer of a response against the entry that `table`
    /// holds for `id`, which is taken out.
    fn parse_response(table: &mut CorrelationTable, id: u16, body: &[u8]) -> (r: Result<
        LiqiMessage,
        ParseError,
    >)
        requires
            forall|key: u16|
                old(table)@.contains_key(key) ==> schema_sound(
                    (#[trigger] old(table)@[key]).schema,
                ),
        ensures
            (message_result(r), final(table)@) == spec_response(old(table)@, id, body@),
    {
        let (_, payload) = match buf_to_method_data(body) {
            Ok(pair) => pair,
            Err(e) => {
                return Err(ParseError::Format(e));
            },
        };
        let entry: PendingRequest = match table.take(id) {
            Ok(entry) => entry,
            Err(e) => {
                return Err(e);
            },
        };
        let data: Value = match decode_payload(entry.schema, payload) {
            Ok(value) => value,
            Err(e) => {
                return Err(e);
            },
        };
        Ok(
            LiqiMessage {
                id: id as usize,
                msg_type: MessageType::Response,
                method_name: entry.method_name,
                data,
            },
        )
    }

    /// How many frames this decoder has decoded with success.
    pub fn total(&self) -> (total: usize)
        ensures
            total == self@.total,
    {
        self.total
    }

    /// Decodes one frame.
    ///
    /// A frame that fails leaves the decoder as it was, with one exception:
    /// a response whose payload does not decode has used up its pending
    /// request. A request is remembered only once its own payload has
    /// decoded and its response type has resolved.
    pub fn parse(&mut self, buf: &[u8]) -> (r: Result<LiqiMessage, ParseError>)
        requires
            old(self)@.total < usize::MAX,
            !spec_response_names_method(buf@),
        ensures
            (message_result(r), final(self)@) == spec_parse(
                old(self).pool(),
                old(self).index(),
                old(self)@,
                buf@,
            ),
            final(self).pool() == old(self).pool(),
            final(self).index() == old(self).index(),
            buf@.len() == 0 ==> message_result(r) == Err::<MessageView, ParseErrorView>(
                ParseErrorView::Format(FormatError::EmptyFrame),
            ),
            buf@.len() > 0 && !(1 <= buf@[0] <= 3) ==> message_result(r) == Err::<
                MessageView,
                ParseErrorView,
            >(ParseErrorView::Format(FormatError::InvalidMessageType(buf@[0]))),
            r matches Ok(message) ==> message.msg_type == MessageType::Notify || message.id
                == buf@[1] + 256 * buf@[2],
    {
        if buf.len() == 0 {
            return Err(ParseError::Format(FormatError::EmptyFrame));
        }
        let msg_type: MessageType = match MessageType::from_byte(buf[0]) {
            Some(msg_type) => msg_type,
            None => {
                return Err(ParseError::Format(FormatError::InvalidMessageType(buf[0])));
            },
        };
        let message: LiqiMessage = match msg_type {
            MessageType::Notify => {
                let body: &[u8] = slice_subrange(buf, 1, buf.len());
                assert(body@ =~= buf@.skip(1));
                match self.parse_notify(body) {
                    Ok(message) => message,
                    Err(e) => {
                        return Err(e);
                    },
                }
            },
            MessageType::Request => {
                if buf.len() < 3 {
                    return Err(ParseError::Format(FormatError::TruncatedFrame));
                }
                let id: u16 = buf[1] as u16 + 256 * (buf[2] as u16);
                let body: &[u8] = slice_subrange(buf, 3, buf.len());
                assert(body@ =~= buf@.skip(3));
                match self.parse_request(id, body) {
                    Ok((message, entry)) => {
                        let mut table: CorrelationTable = self.detach_table();
                        table.insert(id, entry);
                        self.respond_type = table;
                        message
                    },
                    Err(e) => {
                        return Err(e);
                    },
                }
            },
            MessageType::Response => {
                if buf.len() < 3 {
                    return Err(ParseError::Format(FormatError::TruncatedFrame));
                }
                let id: u16 = buf[1] as u16 + 256 * (buf[2] as u16);
                let body: &[u8] = slice_subrange(buf, 3, buf.len());
                assert(body@ =~= buf@.skip(3));
                let _ = self.resolver.catalog();
                let mut table: CorrelationTable = self.detach_table();
                let outcome = Self::parse_response(&mut table, id, body);
                self.respond_type = table;
                match outcome {
                    Ok(message) => message,
                    Err(e) => {
                        return Err(e);
                    },
                }
            },
        };
        proof {
            use_type_invariant(&*self);
        }
        self.total = self.total + 1;
        Ok(message)
    }

    /// Decodes one frame, if it is one that [`Parser::parse`] takes.
    ///
    /// The answer is `None`, and nothing has changed, for a response whose
    /// sub-buffer names a method, and where the count of decoded frames
    /// cannot grow any further.
    pub fn parse_checked(&mut self, buf: &[u8]) -> (r: Option<Result<LiqiMessage, ParseError>>)
        ensures
            r is None <==> old(self)@.total >= usize::MAX || spec_response_names_method(buf@),
            r is None ==> final(self)@ == old(self)@,
            r matches Some(outcome) ==> (message_result(outcome), final(self)@) == spec_parse(
                old(self).pool(),
                old(self).index(),
                old(self)@,
                buf@,
            ),
            final(self).pool() == old(self).pool(),
            final(self).index() == old(self).index(),
    {
        if self.total == usize::MAX || response_names_method(buf) {
            None
        } else {
            Some(self.parse(buf))
        }
    }
}

/// What goes wrong with a nested action, and in which order: a text that is
/// no base64 is reported as such whatever the action's name is; a text that
/// is base64 under a name that the catalog does not hold is reported as a
/// missing schema, with the name.
pub proof fn lemma_decode_action_failures(pool: DescriptorPool, name: Seq<char>, data: Seq<char>)
    ensures
        base64_decoded(data) matches Err(e) ==> spec_decode_action(pool, name, data) == Err::<
            JsonView,
            ParseErrorView,
        >(ParseErrorView::Encoding(EncodingView::InvalidBase64(base64_error_message(e)))),
        base64_decoded(data) is Ok && spec_resolve(pool, name) is Err ==> spec_decode_action(
            pool,
            name,
            data,
        ) == Err::<JsonView, ParseErrorView>(
            ParseErrorView::NotFound(NotFoundView::UnknownSchema(name)),
        ),
{
}

/// A nested action takes the place of the text it was decoded from: where
/// a value names an action and carries its data, and the action decodes, the
/// `data` member of the result is the decoded action, and every other member
/// is as it was.
pub proof fn lemma_action_replaces_data(
    pool: DescriptorPool,
    value: JsonView,
    name: Seq<char>,
    data: Seq<char>,
    action: JsonView,
)
    requires
        value.member("name"@) == Some(JsonView::Text(name)),
        value.member("data"@) == Some(JsonView::Text(data)),
        spec_decode_action(pool, name, data) == Ok::<JsonView, ParseErrorView>(action),
    ensures
        spec_expand_action(pool, value) matches Ok(expanded) && expanded.member("data"@) == Some(
            action,
        ) && forall|key: Seq<char>|
            key != "data"@ ==> #[trigger] expanded.member(key) == value.member(key),
{
}

/// A notification with a nested action is reported with the action
/// decoded: where the payload of a notify decodes to a value that names an
/// action and carries its data, and the action decodes, the message has the
/// frame's dotted name, the frame count as its identifier, and the decoded
/// value with the action in the place of `data`.
pub proof fn lemma_notify_expands_action(
    pool: DescriptorPool,
    index: JsonView,
    state: ParserView,
    frame: Seq<u8>,
    name: Seq<char>,
    value: JsonView,
    action_name: Seq<char>,
    data: Seq<char>,
    action: JsonView,
)
    requires
        frame.len() >= 1,
        frame[0] == 1,
        spec_notify_value(pool, frame.skip(1)) == Ok::<(Seq<char>, JsonView), ParseErrorView>(
            (name, value),
        ),
        value.member("name"@) == Some(JsonView::Text(action_name)),
        value.member("data"@) == Some(JsonView::Text(data)),
        spec_decode_action(pool, action_name, data) == Ok::<JsonView, ParseErrorView>(action),
    ensures
        spec_parse(pool, index, state, frame).0 matches Ok(message) && message.msg_type
            == MessageType::Notify && message.method_name == name && message.id == state.total
            && message.data.member("data"@) == Some(action) && forall|key: Seq<char>|
            key != "data"@ ==> #[trigger] message.data.member(key) == value.member(key),
{
    lemma_action_replaces_data(pool, value, action_name, data, action);
}

/// The identifier of a request or a response is read low byte first: a
/// frame of either kind that decodes is reported under
/// `frame[1] + 256 * frame[2]`, and under its own kind.
pub proof fn lemma_identifier_little_endian(
    pool: DescriptorPool,
    index: JsonView,
    state: ParserView,
    frame: Seq<u8>,
)
    requires
        frame.len() >= 3,
        frame[0] == 2 || frame[0] == 3,
        spec_parse(pool, index, state, frame).0 is Ok,
    ensures
        spec_parse(pool, index, state, frame).0 matches Ok(message) && message.id == frame[1] + 256
            * frame[2] && message.id < 65536 && (frame[0] == 2 ==> message.msg_type
            == MessageType::Request) && (frame[0] == 3 ==> message.msg_type
            == MessageType::Response),
{
}

/// A response takes the entry of its identifier, and that entry only: where
/// the table holds `entry` under the identifier of a response whose payload
/// decodes against the entry's schema, the message carries the entry's
/// method name and the payload decoded against the entry's schema, the
/// identifier is gone from the table, and every other identifier keeps its
/// entry.
pub proof fn lemma_response_takes_pending(
    pool: DescriptorPool,
    index: JsonView,
    state: ParserView,
    frame: Seq<u8>,
    entry: PendingView,
    payload: Seq<u8>,
    data: JsonView,
)
    requires
        frame.len() >= 3,
        frame[0] == 3,
        state.pending.contains_key(spec_identifier(frame)),
        state.pending[spec_identifier(frame)] == entry,
        spec_method_data(frame.skip(3)) matches Ok((_, found)) && found == payload,
        spec_decode_payload(entry.schema, payload) == Ok::<JsonView, ParseErrorView>(data),
    ensures
        ({
            let id = spec_identifier(frame);
            let (outcome, after) = spec_parse(pool, index, state, frame);
            &&& outcome == Ok::<MessageView, ParseErrorView>(
                MessageView {
                    id: id as nat,
                    msg_type: MessageType::Response,
                    method_name: entry.method_name,
                    data,
                },
            )
            &&& after.total == state.total + 1
            &&& after.pending == state.pending.remove(id)
            &&& !after.pending.contains_key(id)
            &&& forall|other: u16|
                other != id ==> (#[trigger] after.pending.contains_key(other))
                    == state.pending.contains_key(other) && (state.pending.contains_key(other)
                    ==> after.pending[other] == state.pending[other])
        }),
{
}

/// An entry is taken once: after a response that decoded, the same frame
/// again fails with a not-found error that names the identifier, and neither
/// the count nor the table changes.
pub proof fn lemma_second_response_fails(
    pool: DescriptorPool,
    index: JsonView,
    state: ParserView,
    frame: Seq<u8>,
)
    requires
        frame.len() >= 3,
        frame[0] == 3,
        spec_parse(pool, index, state, frame).0 is Ok,
    ensures
        ({
            let after = spec_parse(pool, index, state, frame).1;
            let again = spec_parse(pool, index, after, frame);
            &&& again.0 == Err::<MessageView, ParseErrorView>(
                ParseErrorView::NotFound(
                    NotFoundView::NoCorrespondingRequest(spec_identifier(frame)),
                ),
            )
            &&& again.0->Err_0.kind() == ErrorKind::NotFound
            &&& again.1 == after
        }),
{
}

/// What a frame does to the decoder's state.
///
/// A frame that decodes is counted once. A frame that fails is not counted
/// and leaves the pending requests as they were, with one exception: a
/// response that found its request has used it up, even where its payload
/// did not decode.
pub proof fn lemma_parse_state(
    pool: DescriptorPool,
    index: JsonView,
    state: ParserView,
    frame: Seq<u8>,
)
    ensures
        ({
            let (outcome, after) = spec_parse(pool, index, state, frame);
            &&& outcome is Ok ==> after.total == state.total + 1
            &&& outcome is Err ==> after.total == state.total
            &&& outcome is Err ==> after.pending == state.pending || (frame.len() >= 3 && frame[0]
                == 3 && state.pending.contains_key(spec_identifier(frame)) && after.pending
                == state.pending.remove(spec_identifier(frame)))
            &&& outcome matches Ok(message) ==> match message.msg_type {
                MessageType::Notify => after.pending == state.pending && message.id == state.total,
                MessageType::Request => after.pending.contains_key(spec_identifier(frame))
                    && message.id == spec_identifier(frame),
                MessageType::Response => after.pending == state.pending.remove(
                    spec_identifier(frame),
                ) && message.id == spec_identifier(frame),
            }
        }),
{
}

/// The answer to a request is decoded with the schema that the request
/// recorded.
///
/// Let a request frame decode with success, and let a response frame with
/// the same identifier follow it. The response's payload is decoded against
/// the schema of the response type declared for the request's method, the
/// response is reported under the request's method name, and the pending
/// entry is used up. Nothing in the response's own sub-buffer chooses the
/// schema.
pub proof fn lemma_response_uses_request_schema(
    pool: DescriptorPool,
    index: JsonView,
    state: ParserView,
    request: Seq<u8>,
    response: Seq<u8>,
)
    requires
        request.len() >= 3,
        request[0] == 2,
        spec_parse(pool, index, state, request).0 is Ok,
        response.len() >= 3,
        response[0] == 3,
        spec_identifier(response) == spec_identifier(request),
    ensures
        ({
            let id = spec_identifier(request);
            let asked = spec_parse(pool, index, state, request).0->Ok_0;
            let after = spec_parse(pool, index, state, request).1;
            let recorded = after.pending[id];
            let answered = spec_parse(pool, index, after, response);
            &&& after.pending.contains_key(id)
            &&& recorded.method_name == asked.method_name
            &&& {
                let segments = spec_split(asked.method_name, '.');
                spec_declared_schema(
                    pool,
                    spec_method_entry(index, segments[1], segments[2], segments[3]),
                    "responseType"@,
                    asked.method_name,
                ) == Ok::<MessageDescriptor, ParseErrorView>(recorded.schema)
            }
            &&& answered.0 == match spec_method_data(response.skip(3)) {
                Ok((_, payload)) => match spec_decode_payload(recorded.schema, payload) {
                    Ok(data) => Ok(
                        MessageView {
                            id: id as nat,
                            msg_type: MessageType::Response,
                            method_name: asked.method_name,
                            data,
                        },
                    ),
                    Err(e) => Err(e),
                },
                Err(e) => Err(ParseErrorView::Format(e)),
            }
            &&& spec_method_data(response.skip(3)) is Ok ==> !answered.1.pending.contains_key(id)
        }),
{
}

} // verus!
