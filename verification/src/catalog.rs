//! The catalog: model entries under their ids, in order.

use vstd::prelude::*;
use vstd::string::*;
use indexmap::IndexMap;
use crate::models::{ModelEntry, ModelEntryView};
use crate::ordered::{value_of, with_value};

verus! {

/// What a catalog holds, in its order.
pub uninterp spec fn catalog_entries_of(catalog: IndexMap<String, ModelEntry>) -> Seq<
    (Seq<char>, ModelEntryView),
>;

/// No entries at all.
pub open spec fn no_entries() -> Seq<(Seq<char>, ModelEntryView)> {
    Seq::empty()
}

/// The entries of a list of pairs.
pub open spec fn listed(pairs: Seq<(String, ModelEntry)>) -> Seq<(Seq<char>, ModelEntryView)> {
    pairs.map_values(|p: (String, ModelEntry)| (p.0@, p.1@))
}

/// The entries with one put in, unless its id is already there.
pub open spec fn with_absent(
    entries: Seq<(Seq<char>, ModelEntryView)>,
    id: Seq<char>,
    entry: ModelEntryView,
) -> Seq<(Seq<char>, ModelEntryView)> {
    if value_of(entries, id) is Some {
        entries
    } else {
        entries.push((id, entry))
    }
}

/// `IndexMap::new`: a catalog without entries.
#[verifier::external_body]
pub(crate) fn new_catalog() -> (r: IndexMap<String, ModelEntry>)
    ensures
        catalog_entries_of(r) == no_entries(),
{
    IndexMap::new()
}

/// `IndexMap::insert`: the entry under an id that is there is replaced in its
/// place; a new id goes to the end.
#[verifier::external_body]
pub(crate) fn insert_entry(
    catalog: &mut IndexMap<String, ModelEntry>,
    id: String,
    entry: ModelEntry,
)
    ensures
        catalog_entries_of(*final(catalog)) == with_value(
            catalog_entries_of(*old(catalog)),
            id@,
            entry@,
        ),
{
    catalog.insert(id, entry);
}

/// `IndexMap::entry`, then `Entry::or_insert`: an id that is there keeps its
/// entry; a new id goes to the end.
#[verifier::external_body]
pub(crate) fn insert_absent(
    catalog: &mut IndexMap<String, ModelEntry>,
    id: String,
    entry: ModelEntry,
)
    ensures
        catalog_entries_of(*final(catalog)) == with_absent(
            catalog_entries_of(*old(catalog)),
            id@,
            entry@,
        ),
{
    catalog.entry(id).or_insert(entry);
}

/// `IndexMap::contains_key`: whether there is an entry under the id.
#[verifier::external_body]
pub(crate) fn has_entry(catalog: &IndexMap<String, ModelEntry>, id: &str) -> (r: bool)
    ensures
        r == (value_of(catalog_entries_of(*catalog), id@) is Some),
{
    catalog.contains_key(id)
}

/// `IndexMap::len`: how many entries there are.
#[verifier::external_body]
pub(crate) fn entry_count(catalog: &IndexMap<String, ModelEntry>) -> (r: usize)
    ensures
        r == catalog_entries_of(*catalog).len(),
{
    catalog.len()
}

/// `IndexMap::get_index_mut`: the entry at a position, to be changed in place
/// under its id.
#[verifier::external_body]
pub(crate) fn entry_at(catalog: &mut IndexMap<String, ModelEntry>, position: usize) -> (r:
    &mut ModelEntry)
    requires
        position < catalog_entries_of(*old(catalog)).len(),
    ensures
        (*r)@ == catalog_entries_of(*old(catalog))[position as int].1,
        catalog_entries_of(*final(catalog)) == catalog_entries_of(*old(catalog)).update(
            position as int,
            (catalog_entries_of(*old(catalog))[position as int].0, (*final(r))@),
        ),
{
    catalog.get_index_mut(position).expect("a position in the catalog").1
}

/// `IndexMap::into_iter`: the ids and entries in order.
#[verifier::external_body]
pub(crate) fn into_entries(catalog: IndexMap<String, ModelEntry>) -> (r: Vec<(String, ModelEntry)>)
    ensures
        listed(r@) == catalog_entries_of(catalog),
{
    catalog.into_iter().collect()
}

} // verus!
