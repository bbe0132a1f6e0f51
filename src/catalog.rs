use std::collections::HashMap;
use crate::decimal::{id_of_text, parse_id};
use vstd::prelude::*;

verus! {

broadcast use vstd::std_specs::hash::group_hash_axioms;

/// One record of the size database: a display name and an installed size
/// in millionths of a gibibyte.
#[derive(Clone, Debug)]
pub struct SizeEntry {
    pub name: String,
    pub size_micro: u64,
}

/// One record of the size database file: the key it stands under, the
/// game's name and its size in millionths of a gibibyte.
#[derive(Clone, Debug)]
pub struct CatalogRecord {
    pub key: String,
    pub name: String,
    pub size_micro: u64,
}

/// The catalog that `records` describe, read in order: a record whose key is
/// the decimal text of an identifier replaces any earlier one for it, and a
/// record under any other key is left out, as no game can match it.
pub open spec fn catalog_of(records: Seq<CatalogRecord>) -> Map<u64, SizeEntry>
    decreases records.len(),
{
    if records.len() == 0 {
        Map::empty()
    } else {
        let m = catalog_of(records.drop_last());
        let r = records.last();
        match id_of_text(r.key@) {
            Some(id) => m.insert(id, SizeEntry { name: r.name, size_micro: r.size_micro }),
            None => m,
        }
    }
}

/// The size database, keyed by numeric game identifier. It is built once
/// and offers no way to change it afterwards.
pub struct SizeCatalog {
    entries: HashMap<u64, SizeEntry>,
}

impl View for SizeCatalog {
    type V = Map<u64, SizeEntry>;

    closed spec fn view(&self) -> Map<u64, SizeEntry> {
        self.entries@
    }
}

impl SizeCatalog {
    /// A catalog that knows no game.
    pub fn empty() -> (r: SizeCatalog)
        ensures
            r@ == Map::<u64, SizeEntry>::empty(),
    {
        SizeCatalog { entries: HashMap::new() }
    }

    /// The catalog that `records` describe.
    pub fn from_records(records: &Vec<CatalogRecord>) -> (r: SizeCatalog)
        ensures
            r@ == catalog_of(records@),
    {
        let mut entries: HashMap<u64, SizeEntry> = HashMap::new();
        let mut i: usize = 0;
        while i < records.len()
            invariant
                i <= records.len(),
                entries@ == catalog_of(records@.take(i as int)),
            decreases records.len() - i,
        {
            let rec = &records[i];
            assert(records@.take(i + 1).drop_last() =~= records@.take(i as int));
            assert(records@.take(i + 1).last() == records@[i as int]);
            match parse_id(rec.key.as_str()) {
                Some(id) => {
                    let entry = SizeEntry { name: rec.name.clone(), size_micro: rec.size_micro };
                    entries.insert(id, entry);
                },
                None => {},
            }
            i = i + 1;
        }
        assert(records@.take(records.len() as int) =~= records@);
        SizeCatalog { entries }
    }

    /// The entry stored for `id`, if any.
    pub fn lookup(&self, id: u64) -> (r: Option<&SizeEntry>)
        ensures
            match r {
                Some(e) => self@.contains_key(id) && *e == self@[id],
                None => !self@.contains_key(id),
            },
    {
        self.entries.get(&id)
    }
}

/// What became of one candidate location of the size database.
pub enum CandidateOutcome {
    /// Nothing could be read there.
    Unreadable,
    /// It was read, and is not a valid size database.
    Malformed,
    /// It was read and decoded into these records.
    Parsed(Vec<CatalogRecord>),
}

/// What to do after trying a candidate location.
pub enum LoadStep {
    /// Try the candidate at this index next.
    TryNext(usize),
    /// Loading is over, with this catalog.
    Done(SizeCatalog),
}

/// The decision after trying candidate `i` of `n`, tried in order: the first
/// that decodes gives the catalog; one that cannot be read or decoded is
/// skipped; after the last, an empty catalog stands in, so that loading
/// never fails.
pub fn load_step(i: usize, n: usize, outcome: CandidateOutcome) -> (r: LoadStep)
    ensures
        match outcome {
            CandidateOutcome::Parsed(recs) => r is Done && r->Done_0@ == catalog_of(recs@),
            _ => if i + 1 < n {
                r is TryNext && r->TryNext_0 == i + 1
            } else {
                r is Done && r->Done_0@ == Map::<u64, SizeEntry>::empty()
            },
        },
{
    match outcome {
        CandidateOutcome::Parsed(recs) => LoadStep::Done(SizeCatalog::from_records(&recs)),
        _ => {
            if n > 0 && i < n - 1 {
                LoadStep::TryNext(i + 1)
            } else {
                LoadStep::Done(SizeCatalog::empty())
            }
        },
    }
}

} // verus!
