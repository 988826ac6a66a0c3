//! The schema resolver: a descriptor catalog together with the index of
//! services and their methods.

use crate::error::{NotFoundError, NotFoundView, ParseError, ParseErrorView};
use crate::json::{json_option, json_view, member_of, value_as_str, value_member, JsonView};
use crate::schema::{
    is_pool_sound, message_pool, pool_sound, resolve_schema, schema_result, schema_sound,
    spec_resolve,
};
use prost_reflect::{DescriptorPool, MessageDescriptor};
use serde_json::Value;
use vstd::prelude::*;
use vstd::string::StringExecFns;

verus! {

/// The entry that the service index holds for a method: the index is a tree
/// keyed by domain, service and method, with a fixed member name between the
/// levels.
pub open spec fn spec_method_entry(
    index: JsonView,
    domain: Seq<char>,
    service: Seq<char>,
    method: Seq<char>,
) -> Option<JsonView> {
    let domains = member_of(Some(index), "nested"@);
    let services = member_of(member_of(domains, domain), "nested"@);
    let methods = member_of(member_of(services, service), "methods"@);
    member_of(methods, method)
}

/// The type name that a method's entry declares under `field`, where the
/// entry exists and holds a text there.
pub open spec fn spec_declared_type(entry: Option<JsonView>, field: Seq<char>) -> Option<
    Seq<char>,
> {
    match member_of(entry, field) {
        Some(declared) => declared.text(),
        None => None,
    }
}

/// The schema of the type that a method's entry declares under `field`.
/// Where the entry declares none, the method is reported under `full_name`.
pub open spec fn spec_declared_schema(
    pool: DescriptorPool,
    entry: Option<JsonView>,
    field: Seq<char>,
    full_name: Seq<char>,
) -> Result<MessageDescriptor, ParseErrorView> {
    match spec_declared_type(entry, field) {
        Some(declared_name) => spec_resolve(pool, declared_name),
        None => Err(ParseErrorView::NotFound(NotFoundView::UnknownMethod(full_name))),
    }
}

/// Read-only handles to a descriptor catalog and a service index.
///
/// A resolver exists only over a catalog whose message schemas are all
/// sound, so that whatever it resolves can be decoded against.
#[derive(Debug)]
pub struct SchemaResolver<'a> {
    pool: &'a DescriptorPool,
    index: &'a Value,
}

impl<'a> SchemaResolver<'a> {
    #[verifier::type_invariant]
    spec fn sound(self) -> bool {
        pool_sound(*self.pool)
    }

    /// The catalog that schemas are looked up in.
    pub closed spec fn pool(&self) -> DescriptorPool {
        *self.pool
    }

    /// The service index, as a tree.
    pub closed spec fn index(&self) -> JsonView {
        json_view(*self.index)
    }

    /// A resolver over `pool` and `index`, or nothing where a message schema
    /// of `pool` is marked as the entry type of a map field without having
    /// the key and value fields of one.
    pub fn new(pool: &'a DescriptorPool, index: &'a Value) -> (resolver: Option<Self>)
        ensures
            resolver is Some <==> pool_sound(*pool),
            resolver matches Some(made) ==> made.pool() == *pool && made.index() == json_view(
                *index,
            ),
    {
        if is_pool_sound(pool) {
            Some(SchemaResolver { pool, index })
        } else {
            None
        }
    }

    /// The catalog that schemas are looked up in.
    pub fn catalog(&self) -> (pool: &'a DescriptorPool)
        ensures
            *pool == self.pool(),
            pool_sound(*pool),
    {
        proof {
            use_type_invariant(self);
        }
        self.pool
    }

    /// Looks up the schema of the message with the bare name `name`.
    pub fn resolve(&self, name: &str) -> (r: Result<MessageDescriptor, ParseError>)
        ensures
            schema_result(r) == spec_resolve(self.pool(), name@),
            r matches Ok(schema) ==> message_pool(schema) == self.pool() && schema_sound(schema),
    {
        resolve_schema(self.catalog(), name)
    }

    /// The entry of the service index for a method.
    pub fn method_entry(&self, domain: &str, service: &str, method: &str) -> (entry: Option<
        &'a Value,
    >)
        ensures
            json_option(entry) == spec_method_entry(self.index(), domain@, service@, method@),
    {
        let domains = value_member(Some(self.index), "nested");
        let services = value_member(value_member(domains, domain), "nested");
        let methods = value_member(value_member(services, service), "methods");
        value_member(methods, method)
    }

    /// Looks up the schema of the type that `entry` declares under `field`.
    pub fn declared_schema(&self, entry: Option<&Value>, field: &str, full_name: &str) -> (r:
        Result<MessageDescriptor, ParseError>)
        ensures
            schema_result(r) == spec_declared_schema(
                self.pool(),
                json_option(entry),
                field@,
                full_name@,
            ),
            r matches Ok(schema) ==> message_pool(schema) == self.pool() && schema_sound(schema),
    {
        let declared: Option<&str> = match value_member(entry, field) {
            Some(value) => value_as_str(value),
            None => None,
        };
        match declared {
            Some(declared_name) => resolve_schema(self.catalog(), declared_name),
            None => Err(
                ParseError::NotFound(NotFoundError::UnknownMethod(String::from_str(full_name))),
            ),
        }
    }
}

/// Resolving is repeatable: any two outcomes of resolving one name in one
/// catalog are the same, the same schema or the same failure.
pub proof fn lemma_resolve_idempotent(
    pool: DescriptorPool,
    name: Seq<char>,
    first: Result<MessageDescriptor, ParseError>,
    second: Result<MessageDescriptor, ParseError>,
)
    requires
        schema_result(first) == spec_resolve(pool, name),
        schema_result(second) == spec_resolve(pool, name),
    ensures
        schema_result(first) == schema_result(second),
        first is Ok ==> second is Ok && first->Ok_0 == second->Ok_0,
        first is Err ==> second is Err && first->Err_0@ == second->Err_0@,
{
}

} // verus!
