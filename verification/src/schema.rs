//! Schema resolution and payload decoding, done by `prost_reflect`.
//!
//! A descriptor catalog, a message schema, a field and a decoded message are
//! values that Verus cannot look inside. What a catalog and a schema hold and
//! what decoding and rendering give are named by spec functions without a
//! body, and the functions marked `external_body` are believed, not proved,
//! to return what those names say.
//!
//! The decoder and the renderer of `prost_reflect` do not return on a map
//! field whose entry type lacks its key or value field. Payloads are
//! therefore decoded only against schemas of a catalog that
//! [`is_pool_sound`] has gone through.

use crate::buffer::bytes_seq;
use crate::error::{
    NotFoundError, NotFoundView, ParseError, ParseErrorView, SchemaError, SchemaView,
};
use crate::json::{json_view, JsonView};
use bytes::Bytes;
use prost_reflect::prost::DecodeError;
use prost_reflect::{
    DescriptorPool, DynamicMessage, FieldDescriptor, Kind, MessageDescriptor, SerializeOptions,
};
use serde_json::Value;
use vstd::prelude::*;
use vstd::string::StringExecFns;

verus! {

/// `prost_reflect::DescriptorPool`, a value that Verus cannot look inside.
#[verifier::external_type_specification]
#[verifier::external_body]
pub struct ExDescriptorPool(prost_reflect::DescriptorPool);

/// `prost_reflect::MessageDescriptor`, a value that Verus cannot look inside.
#[verifier::external_type_specification]
#[verifier::external_body]
pub struct ExMessageDescriptor(prost_reflect::MessageDescriptor);

/// `prost_reflect::FieldDescriptor`, a value that Verus cannot look inside.
#[verifier::external_type_specification]
#[verifier::external_body]
pub struct ExFieldDescriptor(prost_reflect::FieldDescriptor);

/// `prost_reflect::DynamicMessage`, a value that Verus cannot look inside.
#[verifier::external_type_specification]
#[verifier::external_body]
pub struct ExDynamicMessage(prost_reflect::DynamicMessage);

/// `prost::DecodeError`, a value that Verus cannot look inside.
#[verifier::external_type_specification]
#[verifier::external_body]
pub struct ExDecodeError(prost_reflect::prost::DecodeError);

/// `serde_json::Error`, a value that Verus cannot look inside.
#[verifier::external_type_specification]
#[verifier::external_body]
pub struct ExJsonError(serde_json::Error);

/// The message schemas that a catalog holds, by fully-qualified name.
pub uninterp spec fn pool_messages(pool: DescriptorPool) -> Map<Seq<char>, MessageDescriptor>;

/// Every message schema of a catalog, nested ones included.
pub uninterp spec fn pool_message_list(pool: DescriptorPool) -> Seq<MessageDescriptor>;

/// The catalog that a message schema is defined in.
pub uninterp spec fn message_pool(schema: MessageDescriptor) -> DescriptorPool;

/// Whether a message schema is marked as the entry type of a map field.
pub uninterp spec fn message_is_map_entry(schema: MessageDescriptor) -> bool;

/// The field that a message schema has under `number`, if it has one.
pub uninterp spec fn message_field(schema: MessageDescriptor, number: u32) -> Option<
    FieldDescriptor,
>;

/// The type of a field.
pub uninterp spec fn field_kind(field: FieldDescriptor) -> FieldKind;

/// The message that `payload` encodes under `schema`, or the decoder's
/// error where the bytes violate the schema's wire constraints. A message is
/// taken as its own equality takes it: by its schema and the values of its
/// fields.
pub uninterp spec fn decoded_message(schema: MessageDescriptor, payload: Seq<u8>) -> Result<
    DynamicMessage,
    DecodeError,
>;

/// The message that a decoding error prints.
pub uninterp spec fn decode_error_message(e: DecodeError) -> Seq<char>;

/// The structured value that renders `message` under the two rendering
/// options, or nothing where the message has no rendering.
///
/// Which fault the renderer reports for a message without rendering is not
/// named: a message with several faults can report any of them.
pub uninterp spec fn message_json(
    message: DynamicMessage,
    skip_default_fields: bool,
    use_proto_field_name: bool,
) -> Option<JsonView>;

/// The name under which a catalog looks `name` up: one leading dot is
/// ignored.
pub open spec fn lookup_key(name: Seq<char>) -> Seq<char> {
    if name.len() > 0 && name[0] == '.' {
        name.skip(1)
    } else {
        name
    }
}

/// `DescriptorPool::get_message_by_name`: the message schema stored under
/// `name`, after one leading dot is dropped, or nothing.
#[verifier::external_body]
pub(crate) fn pool_get_message(pool: &DescriptorPool, name: &str) -> (r: Option<MessageDescriptor>)
    ensures
        r == (if pool_messages(*pool).contains_key(lookup_key(name@)) {
            Some(pool_messages(*pool)[lookup_key(name@)])
        } else {
            None
        }),
        r matches Some(schema) ==> message_pool(schema) == *pool,
{
    pool.get_message_by_name(name)
}

/// `DescriptorPool::all_messages`, collected: every message schema of the
/// catalog, nested ones included.
#[verifier::external_body]
pub(crate) fn pool_all_messages(pool: &DescriptorPool) -> (all: Vec<MessageDescriptor>)
    ensures
        all@ == pool_message_list(*pool),
{
    pool.all_messages().collect()
}

/// `MessageDescriptor::is_map_entry`: whether the schema is marked as the
/// entry type of a map field.
#[verifier::external_body]
pub(crate) fn descriptor_is_map_entry(schema: &MessageDescriptor) -> (marked: bool)
    ensures
        marked == message_is_map_entry(*schema),
{
    schema.is_map_entry()
}

/// `MessageDescriptor::get_field`: the field under `number`, if there is
/// one.
#[verifier::external_body]
pub(crate) fn descriptor_get_field(schema: &MessageDescriptor, number: u32) -> (field: Option<
    FieldDescriptor,
>)
    ensures
        field == message_field(*schema, number),
{
    schema.get_field(number)
}

/// `FieldDescriptor::kind`: the type of the field, without the schema that
/// a message or an enum type carries.
#[verifier::external_body]
pub(crate) fn descriptor_field_kind(field: &FieldDescriptor) -> (kind: FieldKind)
    ensures
        kind == field_kind(*field),
{
    match field.kind() {
        Kind::Double => FieldKind::Double, Kind::Float => FieldKind::Float,
        Kind::Int32 => FieldKind::Int32, Kind::Int64 => FieldKind::Int64,
        Kind::Uint32 => FieldKind::Uint32, Kind::Uint64 => FieldKind::Uint64,
        Kind::Sint32 => FieldKind::Sint32, Kind::Sint64 => FieldKind::Sint64,
        Kind::Fixed32 => FieldKind::Fixed32, Kind::Fixed64 => FieldKind::Fixed64,
        Kind::Sfixed32 => FieldKind::Sfixed32, Kind::Sfixed64 => FieldKind::Sfixed64,
        Kind::Bool => FieldKind::Bool, Kind::String => FieldKind::String,
        Kind::Bytes => FieldKind::Bytes, Kind::Message(_) => FieldKind::Message,
        Kind::Enum(_) => FieldKind::Enum,
    }
}

/// `DynamicMessage::decode`: the message that `payload` encodes under
/// `schema`, or the decoder's error. The decoder does not return on a map
/// field whose entry type lacks its key or its value field, so the schema has
/// to come from a catalog without such entry types.
#[verifier::external_body]
pub(crate) fn message_decode(schema: MessageDescriptor, payload: Bytes) -> (r: Result<
    DynamicMessage,
    DecodeError,
>)
    requires
        schema_sound(schema),
    ensures
        r == decoded_message(schema, bytes_seq(payload)),
{
    DynamicMessage::decode(schema, payload)
}

/// `to_string` of a `prost::DecodeError`: the message it prints.
#[verifier::external_body]
pub(crate) fn decode_error_text(e: &DecodeError) -> (text: String)
    ensures
        text@ == decode_error_message(*e),
{
    e.to_string()
}

/// Whether `message` is one that decoding returned, for some schema of a
/// sound catalog and some payload. Rendering is asked only of such messages:
/// a message put together by hand can hold a value that its field cannot
/// have, and the renderer does not return on one, nor on a map field whose
/// entry type is malformed.
pub open spec fn spec_is_decoded(message: DynamicMessage) -> bool {
    exists|schema: MessageDescriptor, payload: Seq<u8>|
        schema_sound(schema) && decoded_message(schema, payload) == Ok::<
            DynamicMessage,
            DecodeError,
        >(message)
}

/// `DynamicMessage::serialize_with_options` into a `serde_json::Value`, with
/// the two options set as given and the others at their defaults: the
/// rendering of `message`, or the serializer's error. The message has to be
/// one that decoding returned.
#[verifier::external_body]
pub(crate) fn message_serialize(
    message: &DynamicMessage,
    skip_default_fields: bool,
    use_proto_field_name: bool,
) -> (r: Result<Value, serde_json::Error>)
    requires
        spec_is_decoded(*message),
    ensures
        match r {
            Ok(value) => message_json(*message, skip_default_fields, use_proto_field_name) == Some(
                json_view(value),
            ),
            Err(_) => message_json(*message, skip_default_fields, use_proto_field_name) is None,
        },
{
    let options = SerializeOptions::new().skip_default_fields(skip_default_fields)
        .use_proto_field_name(use_proto_field_name);
    message.serialize_with_options(serde_json::value::Serializer, &options)
}

/// `to_string` of a `serde_json::Error`: the message it prints. Nothing is
/// said of the text.
#[verifier::external_body]
pub(crate) fn json_error_text(e: &serde_json::Error) -> (text: String) {
    e.to_string()
}

/// The type of a field, as far as the decoder asks for it.
#[derive(Debug, Clone, Copy, PartialEq, Eq, Structural)]
pub enum FieldKind {
    Double,
    Float,
    Int32,
    Int64,
    Uint32,
    Uint64,
    Sint32,
    Sint64,
    Fixed32,
    Fixed64,
    Sfixed32,
    Sfixed64,
    Bool,
    String,
    Bytes,
    Message,
    Enum,
}

impl FieldKind {
    /// Whether a map can be keyed by this type: an integral type, `bool` or
    /// `string`.
    pub open spec fn spec_is_map_key(self) -> bool {
        !(self is Double || self is Float || self is Bytes || self is Message || self is Enum)
    }

    /// Whether a map can be keyed by this type.
    pub fn is_map_key(self) -> (key: bool)
        ensures
            key == self.spec_is_map_key(),
    {
        match self {
            FieldKind::Double | FieldKind::Float | FieldKind::Bytes | FieldKind::Message
            | FieldKind::Enum => false,
            _ => true,
        }
    }
}

/// Field number of the key in the entry type of a map field.
pub const MAP_ENTRY_KEY_NUMBER: u32 = 1;

/// Field number of the value in the entry type of a map field.
pub const MAP_ENTRY_VALUE_NUMBER: u32 = 2;

/// Whether a message schema can stand as what it is marked: one marked as
/// the entry type of a map field has a key field of a type that a map can be
/// keyed by, and a value field.
pub open spec fn entry_sound(schema: MessageDescriptor) -> bool {
    message_is_map_entry(schema) ==> {
        &&& message_field(schema, MAP_ENTRY_KEY_NUMBER) matches Some(key) && field_kind(
            key,
        ).spec_is_map_key()
        &&& message_field(schema, MAP_ENTRY_VALUE_NUMBER) is Some
    }
}

/// Whether every message schema of a catalog is sound. Payloads are decoded
/// against the schemas of such catalogs only.
pub open spec fn pool_sound(pool: DescriptorPool) -> bool {
    forall|i: int|
        0 <= i < pool_message_list(pool).len() ==> entry_sound(
            #[trigger] pool_message_list(pool)[i],
        )
}

/// Whether a message schema comes from a sound catalog.
pub open spec fn schema_sound(schema: MessageDescriptor) -> bool {
    pool_sound(message_pool(schema))
}

/// Whether `schema` is sound (see [`entry_sound`]).
pub fn is_entry_sound(schema: &MessageDescriptor) -> (sound: bool)
    ensures
        sound == entry_sound(*schema),
{
    if !descriptor_is_map_entry(schema) {
        return true;
    }
    let key_ok: bool = match descriptor_get_field(schema, MAP_ENTRY_KEY_NUMBER) {
        Some(key) => descriptor_field_kind(&key).is_map_key(),
        None => false,
    };
    key_ok && descriptor_get_field(schema, MAP_ENTRY_VALUE_NUMBER).is_some()
}

/// Whether every message schema of `pool` is sound (see [`pool_sound`]).
pub fn is_pool_sound(pool: &DescriptorPool) -> (sound: bool)
    ensures
        sound == pool_sound(*pool),
{
    let all: Vec<MessageDescriptor> = pool_all_messages(pool);
    let mut i: usize = 0;
    while i < all.len()
        invariant
            i <= all.len(),
            all@ == pool_message_list(*pool),
            forall|j: int| 0 <= j < i ==> entry_sound(#[trigger] all@[j]),
        decreases all.len() - i,
    {
        if !is_entry_sound(&all[i]) {
            return false;
        }
        i = i + 1;
    }
    true
}

/// Fields that hold their default value are rendered, not left out.
pub const SKIP_DEFAULT_FIELDS: bool = false;

/// Members are named as the schema declares its fields, not in camel case.
pub const USE_PROTO_FIELD_NAME: bool = true;

/// The model of an outcome that carries a structured value.
pub open spec fn json_result(r: Result<Value, ParseError>) -> Result<JsonView, ParseErrorView> {
    match r {
        Ok(value) => Ok(json_view(value)),
        Err(e) => Err(e@),
    }
}

/// The model of an outcome that carries a schema.
pub open spec fn schema_result(r: Result<MessageDescriptor, ParseError>) -> Result<
    MessageDescriptor,
    ParseErrorView,
> {
    match r {
        Ok(schema) => Ok(schema),
        Err(e) => Err(e@),
    }
}

/// A bare type name behind the namespace prefix `lq.`.
pub open spec fn spec_to_fqn(name: Seq<char>) -> Seq<char> {
    seq!['l', 'q', '.'] + name
}

/// The fully-qualified name of a bare type or message name.
pub fn to_fqn(method_name: &str) -> (fqn: String)
    ensures
        fqn@ == spec_to_fqn(method_name@),
{
    let mut fqn: String = String::from_str("lq.");
    proof {
        reveal_strlit("lq.");
    }
    assert(fqn@ =~= seq!['l', 'q', '.']);
    fqn.append(method_name);
    fqn
}

/// The schema that a catalog holds for a bare name.
pub open spec fn spec_resolve(pool: DescriptorPool, name: Seq<char>) -> Result<
    MessageDescriptor,
    ParseErrorView,
> {
    if pool_messages(pool).contains_key(spec_to_fqn(name)) {
        Ok(pool_messages(pool)[spec_to_fqn(name)])
    } else {
        Err(ParseErrorView::NotFound(NotFoundView::UnknownSchema(name)))
    }
}

/// Looks up the schema of the message with the bare name `name`.
pub fn resolve_schema(pool: &DescriptorPool, name: &str) -> (r: Result<
    MessageDescriptor,
    ParseError,
>)
    ensures
        schema_result(r) == spec_resolve(*pool, name@),
        r matches Ok(schema) ==> message_pool(schema) == *pool,
{
    let fqn: String = to_fqn(name);
    assert(fqn@[0] == 'l');
    match pool_get_message(pool, fqn.as_str()) {
        Some(schema) => Ok(schema),
        None => Err(ParseError::NotFound(NotFoundError::UnknownSchema(String::from_str(name)))),
    }
}

/// The structured value of a decoded message.
pub open spec fn spec_dyn_to_json(message: DynamicMessage) -> Result<JsonView, ParseErrorView> {
    match message_json(message, SKIP_DEFAULT_FIELDS, USE_PROTO_FIELD_NAME) {
        Some(value) => Ok(value),
        None => Err(ParseErrorView::Schema(SchemaView::Unrepresentable)),
    }
}

/// Renders a decoded message as a structured value whose members carry the
/// schema's own field names, fields at their default included.
///
/// The message has to be one that decoding returned, as [`decode_message`]
/// does.
pub fn dyn_to_json(msg: DynamicMessage) -> (r: Result<Value, ParseError>)
    requires
        spec_is_decoded(msg),
    ensures
        json_result(r) == spec_dyn_to_json(msg),
{
    match message_serialize(&msg, SKIP_DEFAULT_FIELDS, USE_PROTO_FIELD_NAME) {
        Ok(value) => Ok(value),
        Err(e) => Err(ParseError::Schema(SchemaError::Unrepresentable(json_error_text(&e)))),
    }
}

/// The model of an outcome that carries a decoded message.
pub open spec fn decoded_result(r: Result<DynamicMessage, ParseError>) -> Result<
    DynamicMessage,
    ParseErrorView,
> {
    match r {
        Ok(message) => Ok(message),
        Err(e) => Err(e@),
    }
}

/// The message that `payload` decodes to under `schema`.
pub open spec fn spec_decode_message(schema: MessageDescriptor, payload: Seq<u8>) -> Result<
    DynamicMessage,
    ParseErrorView,
> {
    match decoded_message(schema, payload) {
        Ok(message) => Ok(message),
        Err(e) => Err(ParseErrorView::Schema(SchemaView::InvalidPayload(decode_error_message(e)))),
    }
}

/// The structured value that `payload` decodes to under `schema`.
pub open spec fn spec_decode_payload(schema: MessageDescriptor, payload: Seq<u8>) -> Result<
    JsonView,
    ParseErrorView,
> {
    match spec_decode_message(schema, payload) {
        Ok(message) => spec_dyn_to_json(message),
        Err(e) => Err(e),
    }
}

/// Decodes `payload` against `schema` into a message, one that
/// [`dyn_to_json`] takes.
pub fn decode_message(schema: MessageDescriptor, payload: Bytes) -> (r: Result<
    DynamicMessage,
    ParseError,
>)
    requires
        schema_sound(schema),
    ensures
        decoded_result(r) == spec_decode_message(schema, bytes_seq(payload)),
        r matches Ok(message) ==> spec_is_decoded(message),
{
    match message_decode(schema, payload) {
        Ok(message) => Ok(message),
        Err(e) => Err(ParseError::Schema(SchemaError::InvalidPayload(decode_error_text(&e)))),
    }
}

/// Decodes `payload` against `schema` into a structured value.
pub fn decode_payload(schema: MessageDescriptor, payload: Bytes) -> (r: Result<Value, ParseError>)
    requires
        schema_sound(schema),
    ensures
        json_result(r) == spec_decode_payload(schema, bytes_seq(payload)),
{
    match decode_message(schema, payload) {
        Ok(message) => dyn_to_json(message),
        Err(e) => Err(e),
    }
}

} // verus!
