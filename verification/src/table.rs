//! The correlation table: requests that still wait for their response.

use crate::error::{ErrorKind, NotFoundError, NotFoundView, ParseError, ParseErrorView};
use prost_reflect::MessageDescriptor;
use std::collections::HashMap;
use vstd::prelude::*;

verus! {

/// What is remembered of a request until its response arrives.
#[derive(Debug)]
pub struct PendingRequest {
    /// The full dotted method name of the request.
    pub method_name: String,
    /// The schema that the response will be decoded against.
    pub schema: MessageDescriptor,
}

/// Mathematical model of a [`PendingRequest`].
pub struct PendingView {
    pub method_name: Seq<char>,
    pub schema: MessageDescriptor,
}

impl View for PendingRequest {
    type V = PendingView;

    open spec fn view(&self) -> PendingView {
        PendingView { method_name: self.method_name@, schema: self.schema }
    }
}

/// The model of the outcome of taking an entry.
pub open spec fn pending_result(r: Result<PendingRequest, ParseError>) -> Result<
    PendingView,
    ParseErrorView,
> {
    match r {
        Ok(entry) => Ok(entry@),
        Err(e) => Err(e@),
    }
}

/// Storing `entry` under `id`: whatever was stored there before is gone.
pub open spec fn spec_insert(table: Map<u16, PendingView>, id: u16, entry: PendingView) -> Map<
    u16,
    PendingView,
> {
    table.insert(id, entry)
}

/// Taking the entry under `id`: the entry and the table without it, or a
/// failure and the table as it was.
pub open spec fn spec_take(table: Map<u16, PendingView>, id: u16) -> (
    Result<PendingView, ParseErrorView>,
    Map<u16, PendingView>,
) {
    if table.contains_key(id) {
        (Ok(table[id]), table.remove(id))
    } else {
        (Err(ParseErrorView::NotFound(NotFoundView::NoCorrespondingRequest(id))), table)
    }
}

/// Pending requests by their 16-bit identifier.
///
/// Nothing is ever evicted: an entry stays until its identifier is taken or
/// written again.
#[derive(Debug)]
pub struct CorrelationTable {
    entries: HashMap<u16, PendingRequest>,
}

impl View for CorrelationTable {
    type V = Map<u16, PendingView>;

    closed spec fn view(&self) -> Map<u16, PendingView> {
        self.entries@.map_values(|entry: PendingRequest| entry@)
    }
}

impl CorrelationTable {
    /// A table with no entries.
    pub fn new() -> (table: Self)
        ensures
            table@ == Map::<u16, PendingView>::empty(),
    {
        let table = CorrelationTable { entries: HashMap::new() };
        assert(table@ =~= Map::<u16, PendingView>::empty());
        table
    }

    /// Stores `entry` under `id`, in place of any entry already there.
    pub fn insert(&mut self, id: u16, entry: PendingRequest)
        ensures
            final(self)@ == spec_insert(old(self)@, id, entry@),
    {
        self.entries.insert(id, entry);
        assert(self@ =~= spec_insert(old(self)@, id, entry@));
    }

    /// Removes and returns the entry under `id`. Where there is none, the
    /// table stays as it is and the identifier is reported.
    pub fn take(&mut self, id: u16) -> (r: Result<PendingRequest, ParseError>)
        ensures
            (pending_result(r), final(self)@) == spec_take(old(self)@, id),
    {
        match self.entries.remove(&id) {
            Some(entry) => {
                assert(self@ =~= old(self)@.remove(id));
                Ok(entry)
            },
            None => {
                assert(self@ =~= old(self)@);
                Err(ParseError::NotFound(NotFoundError::NoCorrespondingRequest(id)))
            },
        }
    }
}

/// An entry that was inserted is returned by the next take of its
/// identifier, and by that take only: a second take fails.
pub proof fn lemma_insert_take_once(table: Map<u16, PendingView>, id: u16, entry: PendingView)
    ensures
        spec_take(spec_insert(table, id, entry), id).0 == Ok::<PendingView, ParseErrorView>(entry),
        spec_take(spec_take(spec_insert(table, id, entry), id).1, id).0 == Err::<
            PendingView,
            ParseErrorView,
        >(ParseErrorView::NotFound(NotFoundView::NoCorrespondingRequest(id))),
        spec_take(spec_insert(table, id, entry), id).1 == table.remove(id),
{
    assert(table.insert(id, entry).remove(id) =~= table.remove(id));
}

/// Taking an identifier that is not in the table fails with a not-found
/// error and changes nothing.
pub proof fn lemma_take_absent(table: Map<u16, PendingView>, id: u16)
    requires
        !table.contains_key(id),
    ensures
        spec_take(table, id) == (
            Err::<PendingView, ParseErrorView>(
                ParseErrorView::NotFound(NotFoundView::NoCorrespondingRequest(id)),
            ),
            table,
        ),
        spec_take(table, id).0->Err_0.kind() == ErrorKind::NotFound,
{
}

/// Nothing can be taken from a table that was never written to.
pub proof fn lemma_take_from_empty(id: u16)
    ensures
        spec_take(Map::empty(), id).0 == Err::<PendingView, ParseErrorView>(
            ParseErrorView::NotFound(NotFoundView::NoCorrespondingRequest(id)),
        ),
{
}

/// The last write wins: of two entries inserted under one identifier, a
/// take returns the second.
pub proof fn lemma_insert_overwrites(
    table: Map<u16, PendingView>,
    id: u16,
    first: PendingView,
    second: PendingView,
)
    ensures
        spec_insert(spec_insert(table, id, first), id, second) == spec_insert(table, id, second),
        spec_take(spec_insert(spec_insert(table, id, first), id, second), id).0 == Ok::<
            PendingView,
            ParseErrorView,
        >(second),
{
    assert(table.insert(id, first).insert(id, second) =~= table.insert(id, second));
}

/// Entries under other identifiers are not touched by an insert or a take.
pub proof fn lemma_other_entries_kept(
    table: Map<u16, PendingView>,
    id: u16,
    entry: PendingView,
    other: u16,
)
    requires
        other != id,
    ensures
        spec_insert(table, id, entry).contains_key(other) == table.contains_key(other),
        spec_take(table, id).1.contains_key(other) == table.contains_key(other),
        table.contains_key(other) ==> spec_insert(table, id, entry)[other] == table[other]
            && spec_take(table, id).1[other] == table[other],
{
}

} // verus!
