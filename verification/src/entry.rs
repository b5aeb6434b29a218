//! The entries of the index of a documented crate, as far as they are read
//! here.

use vstd::prelude::*;
use rustdoc_types::{Crate, Id, ItemEnum, Type};

verus! {

/// `rustdoc_types::Crate`: a documented crate. Nothing is known of one
/// but what the functions below say.
#[verifier::external_type_specification]
#[verifier::external_body]
pub struct ExCrate(Crate);

/// `serde_json::Error`: what the parser says of a text it does not take.
/// Nothing is known of one.
#[verifier::external_type_specification]
#[verifier::external_body]
pub struct ExJsonError(serde_json::Error);

/// An attribute of a documented item: either free text, or one of the
/// attributes that have a structured form, of which nothing is read here.
pub enum Attribute {
    Other(String),
    Structured,
}

/// An implementation, reduced to what tells whose it is and what it holds.
pub struct Implementation {
    /// The name of the type, where that is a primitive type.
    pub primitive: Option<String>,
    /// Whether a trait is implemented.
    pub of_trait: bool,
    /// The ids of the items of the implementation.
    pub items: Vec<u32>,
}

/// The kind of a documented item, as far as kinds are told apart here.
pub enum Kind {
    Function,
    Impl(Implementation),
    Other,
}

/// An entry of the index: a documented item under its id.
pub struct Entry {
    pub id: u32,
    pub name: Option<String>,
    pub attrs: Vec<Attribute>,
    pub kind: Kind,
}

/// A documented crate as it was read, with the entries of its index in the
/// order in which the index gave them.
pub struct Documentation {
    pub krate: Crate,
    pub entries: Vec<Entry>,
}

/// What `serde_json::from_str` makes of a text as a `rustdoc_types::Crate`:
/// the crate that the text describes, or the error of a text that
/// describes none.
pub uninterp spec fn parsed(json: Seq<char>) -> Result<Crate, serde_json::Error>;

/// `serde_json::from_str` for a `rustdoc_types::Crate`: the crate that the
/// text describes, or the error of a text that describes none. The same
/// text gives the same result.
#[verifier::external_body]
fn parse_crate(json: &str) -> (r: Result<Crate, serde_json::Error>)
    ensures
        r == parsed(json@),
{
    serde_json::from_str(json)
}

/// What the index of a crate holds: under each id the name of the item,
/// its attributes, each free-text one with its text, and its kind.
pub uninterp spec fn index_of(krate: Crate) -> Map<u32, (Option<String>, Vec<Attribute>, Kind)>;

/// The entry that the index of a crate holds under an id.
pub open spec fn entry_of(krate: Crate, id: u32) -> Entry {
    Entry {
        id,
        name: index_of(krate)[id].0,
        attrs: index_of(krate)[id].1,
        kind: index_of(krate)[id].2,
    }
}

/// The ids of a list of entries, in their order.
pub open spec fn ids_of(entries: Seq<Entry>) -> Seq<u32> {
    entries.map_values(|entry: Entry| entry.id)
}

/// Whether a list holds the entries of the index of a crate: one entry for
/// each id of the index, each what the index holds under its id, in some
/// order.
pub open spec fn lists_index(krate: Crate, entries: Seq<Entry>) -> bool {
    &&& ids_of(entries).no_duplicates()
    &&& ids_of(entries).to_set() == index_of(krate).dom()
    &&& forall|i: int|
        0 <= i < entries.len() ==> #[trigger] entries[i] == entry_of(krate, entries[i].id)
}

/// `HashMap::keys` on the index of a crate: the ids of the index, each
/// once, in the order of the map.
#[verifier::external_body]
fn index_ids(krate: &Crate) -> (ids: Vec<u32>)
    ensures
        ids@.no_duplicates(),
        ids@.to_set() == index_of(*krate).dom(),
{
    krate.index.keys().map(|id| id.0).collect()
}

/// `HashMap::index` on the index of a crate, and the field `name` of the
/// item.
#[verifier::external_body]
fn name_of(krate: &Crate, id: u32) -> (name: Option<String>)
    requires
        index_of(*krate).dom().contains(id),
    ensures
        name == index_of(*krate)[id].0,
{
    krate.index[&Id(id)].name.clone()
}

/// `HashMap::index` on the index of a crate, and the field `attrs` of the
/// item, each free-text attribute with its text.
#[verifier::external_body]
fn attributes_of(krate: &Crate, id: u32) -> (attrs: Vec<Attribute>)
    requires
        index_of(*krate).dom().contains(id),
    ensures
        attrs == index_of(*krate)[id].1,
{
    krate.index[&Id(id)].attrs.iter().map(|attr| match attr {
        rustdoc_types::Attribute::Other(text) => Attribute::Other(text.clone()),
        _ => Attribute::Structured,
    }).collect()
}

/// `HashMap::index` on the index of a crate, and the field `inner` of the
/// item: whether it holds a function, an implementation or something else,
/// and of an implementation the name of a primitive type it is for,
/// whether it has a trait, and the ids it lists.
#[verifier::external_body]
fn kind_of(krate: &Crate, id: u32) -> (kind: Kind)
    requires
        index_of(*krate).dom().contains(id),
    ensures
        kind == index_of(*krate)[id].2,
{
    match &krate.index[&Id(id)].inner {
        ItemEnum::Function(_) => Kind::Function,
        ItemEnum::Impl(imp) => Kind::Impl(Implementation {
            primitive: match &imp.for_ {
                Type::Primitive(name) => Some(name.clone()),
                _ => None,
            },
            of_trait: imp.trait_.is_some(),
            items: imp.items.iter().map(|id| id.0).collect(),
        }),
        _ => Kind::Other,
    }
}

/// The entries of the index of a crate, in the order of the index.
pub fn entries(krate: &Crate) -> (r: Vec<Entry>)
    ensures
        lists_index(*krate, r@),
{
    let ids = index_ids(krate);
    let mut r: Vec<Entry> = Vec::new();
    let mut i: usize = 0;
    while i < ids.len()
        invariant
            i <= ids.len(),
            r.len() == i,
            ids@.to_set() == index_of(*krate).dom(),
            forall|j: int| 0 <= j < i ==> #[trigger] r@[j] == entry_of(*krate, ids@[j]),
        decreases ids.len() - i,
    {
        let id = ids[i];
        assert(ids@.to_set().contains(id));
        r.push(
            Entry {
                id,
                name: name_of(krate, id),
                attrs: attributes_of(krate, id),
                kind: kind_of(krate, id),
            },
        );
        i += 1;
    }
    assert(ids_of(r@) =~= ids@);
    r
}

impl Documentation {
    /// Reads the description of a crate: the crate that the parser makes of
    /// the text, with the entries of its index, or the error of the parser.
    pub fn read(json: &str) -> (r: Result<Documentation, serde_json::Error>)
        ensures
            match r {
                Ok(documentation) => parsed(json@) == Ok::<Crate, serde_json::Error>(
                    documentation.krate,
                ) && lists_index(documentation.krate, documentation.entries@),
                Err(error) => parsed(json@) == Err::<Crate, serde_json::Error>(error),
            },
    {
        match parse_crate(json) {
            Ok(krate) => {
                let entries = entries(&krate);
                Ok(Documentation { krate, entries })
            },
            Err(error) => Err(error),
        }
    }
}

} // verus!
