//! The functions of a primitive type among the entries of an index.

use vstd::prelude::*;
use crate::entry::{Attribute, Entry, Implementation, Kind};
use crate::stability::{
    all_readable, is_readable, parse_stability_str, readable, same_text, stated, Stability,
};

verus! {

/// A line of the listing: a function, told by the place of its entry, or a
/// stability that the function before it states.
#[derive(Clone, Copy, Debug, PartialEq, Eq, Structural)]
pub enum Line {
    Function(usize),
    Stated(Stability),
}

/// The place of the first entry with the id `id`, from the place `from` on.
pub open spec fn place_from(entries: Seq<Entry>, id: u32, from: int) -> Option<int>
    decreases entries.len() - from,
{
    if from < 0 || from >= entries.len() {
        None
    } else if entries[from].id == id {
        Some(from)
    } else {
        place_from(entries, id, from + 1)
    }
}

/// The place of the first entry with the id `id`.
pub open spec fn place(entries: Seq<Entry>, id: u32) -> Option<int> {
    place_from(entries, id, 0)
}

/// Whether an entry is an implementation for the primitive type `primitive`
/// that implements no trait.
pub open spec fn inherent_of(entry: Entry, primitive: Seq<char>) -> bool {
    match entry.kind {
        Kind::Impl(implementation) => !implementation.of_trait && match implementation.primitive {
            Some(name) => name@ == primitive,
            None => false,
        },
        _ => false,
    }
}

/// The stabilities of a list as lines.
pub open spec fn stated_lines(stabilities: Seq<Stability>) -> Seq<Line> {
    stabilities.map_values(|stability: Stability| Line::Stated(stability))
}

/// The lines for one id that an implementation lists. The id must be that
/// of an entry, and the entry must have a name. A function gives its line
/// and those of the stabilities it states, for which its attributes must be
/// readable; any other entry gives no line.
pub open spec fn lines_of_id(entries: Seq<Entry>, id: u32) -> Option<Seq<Line>> {
    match place(entries, id) {
        Some(at) => if entries[at].name is None {
            None
        } else if entries[at].kind is Function {
            if all_readable(entries[at].attrs@) {
                Some(seq![Line::Function(at as usize)] + stated_lines(stated(entries[at].attrs@)))
            } else {
                None
            }
        } else {
            Some(Seq::empty())
        },
        None => None,
    }
}

/// The lines for the ids that an implementation lists, in their order.
pub open spec fn lines_of_ids(entries: Seq<Entry>, ids: Seq<u32>) -> Option<Seq<Line>>
    decreases ids.len(),
{
    if ids.len() == 0 {
        Some(Seq::empty())
    } else {
        match (lines_of_ids(entries, ids.drop_last()), lines_of_id(entries, ids.last())) {
            (Some(before), Some(lines)) => Some(before + lines),
            _ => None,
        }
    }
}

/// The lines for one entry: those of the ids it lists where it is an
/// inherent implementation for the primitive type, and none where it is
/// anything else.
pub open spec fn lines_of_entry(entries: Seq<Entry>, entry: Entry, primitive: Seq<char>) -> Option<
    Seq<Line>,
> {
    match entry.kind {
        Kind::Impl(implementation) => if inherent_of(entry, primitive) {
            lines_of_ids(entries, implementation.items@)
        } else {
            Some(Seq::empty())
        },
        _ => Some(Seq::empty()),
    }
}

/// The lines for the first `upto` entries, in their order.
pub open spec fn listing_upto(entries: Seq<Entry>, primitive: Seq<char>, upto: int) -> Option<
    Seq<Line>,
>
    decreases upto,
{
    if upto <= 0 {
        Some(Seq::empty())
    } else {
        match (
            listing_upto(entries, primitive, upto - 1),
            lines_of_entry(entries, entries[upto - 1], primitive),
        ) {
            (Some(before), Some(lines)) => Some(before + lines),
            _ => None,
        }
    }
}

/// The listing of the functions of a primitive type: for each inherent
/// implementation for the type, in the order of the entries, and for each
/// id it lists, in their order, the lines of that id. There is no listing
/// where an id is that of no entry, where a listed entry has no name, or
/// where a listed function has an attribute that is not readable.
pub open spec fn listing(entries: Seq<Entry>, primitive: Seq<char>) -> Option<Seq<Line>> {
    listing_upto(entries, primitive, entries.len() as int)
}

/// The place of the first entry with the id `id`.
pub fn find(entries: &Vec<Entry>, id: u32) -> (r: Option<usize>)
    ensures
        r matches Some(at) ==> place(entries@, id) == Some(at as int) && at < entries@.len()
            && entries@[at as int].id == id,
        r is None ==> place(entries@, id) is None,
{
    let mut i: usize = 0;
    while i < entries.len()
        invariant
            i <= entries.len(),
            place(entries@, id) == place_from(entries@, id, i as int),
        decreases entries.len() - i,
    {
        if entries[i].id == id {
            return Some(i);
        }
        i += 1;
    }
    None
}

/// Adds the lines for one id to `lines`, unless the id has none.
fn add_lines_of_id(entries: &Vec<Entry>, id: u32, lines: &mut Vec<Line>) -> (r: bool)
    ensures
        r == lines_of_id(entries@, id) is Some,
        r ==> final(lines)@ == old(lines)@ + lines_of_id(entries@, id)->0,
{
    let at = match find(entries, id) {
        Some(at) => at,
        None => {
            return false;
        },
    };
    let entry = &entries[at];
    if entry.name.is_none() {
        return false;
    }
    match entry.kind {
        Kind::Function => {},
        _ => {
            assert(lines@ + Seq::<Line>::empty() =~= lines@);
            return true;
        },
    }
    let ghost before = lines@;
    lines.push(Line::Function(at));
    let n: usize = entry.attrs.len();
    let mut i: usize = 0;
    while i < n
        invariant
            i <= n,
            n == entry.attrs@.len(),
            place(entries@, id) == Some(at as int),
            *entry == entries@[at as int],
            entry.kind is Function,
            entry.name is Some,
            all_readable(entry.attrs@.take(i as int)),
            lines@ == before + seq![Line::Function(at)] + stated_lines(
                stated(entry.attrs@.take(i as int)),
            ),
        decreases n - i,
    {
        let ghost next = entry.attrs@.take(i + 1);
        proof {
            assert(next.drop_last() =~= entry.attrs@.take(i as int));
            assert(next.last() == entry.attrs@[i as int]);
        }
        match &entry.attrs[i] {
            Attribute::Other(text) => {
                if !is_readable(text.as_str()) {
                    proof {
                        let unreadable = entry.attrs@[i as int];
                        assert(unreadable matches Attribute::Other(s) && !readable(s@));
                    }
                    return false;
                }
                match parse_stability_str(text.as_str()) {
                    Some(stability) => {
                        lines.push(Line::Stated(stability));
                        assert(stated_lines(stated(next)) =~= stated_lines(
                            stated(next.drop_last()),
                        ).push(Line::Stated(stability)));
                    },
                    None => {},
                }
            },
            Attribute::Structured => {},
        }
        proof {
            assert forall|j: int| 0 <= j < next.len() implies (#[trigger] next[j] matches
                Attribute::Other(s) ==> readable(s@)) by {
                if j < i {
                    assert(next[j] == entry.attrs@.take(i as int)[j]);
                }
            }
            assert(lines@ =~= before + seq![Line::Function(at)] + stated_lines(stated(next)));
        }
        i += 1;
    }
    proof {
        assert(entry.attrs@.take(n as int) =~= entry.attrs@);
        assert(lines@ =~= before + (seq![Line::Function(at)] + stated_lines(
            stated(entry.attrs@),
        )));
    }
    true
}

/// Adds the lines for the ids of an implementation to `lines`, unless one
/// of the ids has none.
fn add_lines_of_ids(entries: &Vec<Entry>, ids: &Vec<u32>, lines: &mut Vec<Line>) -> (r: bool)
    ensures
        r == lines_of_ids(entries@, ids@) is Some,
        r ==> final(lines)@ == old(lines)@ + lines_of_ids(entries@, ids@)->0,
{
    let ghost before = lines@;
    let mut i: usize = 0;
    proof {
        assert(lines@ + Seq::<Line>::empty() =~= lines@);
    }
    while i < ids.len()
        invariant
            i <= ids.len(),
            lines_of_ids(entries@, ids@.take(i as int)) is Some,
            lines@ == before + lines_of_ids(entries@, ids@.take(i as int))->0,
        decreases ids.len() - i,
    {
        proof {
            assert(ids@.take(i + 1).drop_last() =~= ids@.take(i as int));
        }
        if !add_lines_of_id(entries, ids[i], lines) {
            proof {
                lemma_lines_of_ids_fail(entries@, ids@, i + 1);
            }
            return false;
        }
        proof {
            let more = lines_of_id(entries@, ids@[i as int])->0;
            let past = lines_of_ids(entries@, ids@.take(i as int))->0;
            assert(lines@ =~= before + (past + more));
        }
        i += 1;
    }
    proof {
        assert(ids@.take(ids.len() as int) =~= ids@);
    }
    true
}

/// Where the first ids of a list have no lines, the list has none.
proof fn lemma_lines_of_ids_fail(entries: Seq<Entry>, ids: Seq<u32>, k: int)
    requires
        0 <= k <= ids.len(),
        lines_of_ids(entries, ids.take(k)) is None,
    ensures
        lines_of_ids(entries, ids) is None,
    decreases ids.len() - k,
{
    if k == ids.len() {
        assert(ids.take(k) =~= ids);
    } else {
        assert(ids.take(k + 1).drop_last() =~= ids.take(k));
        lemma_lines_of_ids_fail(entries, ids, k + 1);
    }
}

/// Where the first entries of a list have no listing, the list has none.
proof fn lemma_listing_fail(entries: Seq<Entry>, primitive: Seq<char>, k: int)
    requires
        0 <= k <= entries.len(),
        listing_upto(entries, primitive, k) is None,
    ensures
        listing(entries, primitive) is None,
    decreases entries.len() - k,
{
    if k < entries.len() {
        lemma_listing_fail(entries, primitive, k + 1);
    }
}

/// Whether an entry is an inherent implementation for a primitive type.
fn is_inherent_of(entry: &Entry, primitive: &str) -> (r: bool)
    ensures
        r == inherent_of(*entry, primitive@),
{
    match &entry.kind {
        Kind::Impl(implementation) => match &implementation.primitive {
            Some(name) => !implementation.of_trait && same_text(name.as_str(), primitive),
            None => false,
        },
        _ => false,
    }
}

/// Adds the lines for one entry to `lines`, unless the entry has none.
fn add_lines_of_entry(
    entries: &Vec<Entry>,
    entry: &Entry,
    primitive: &str,
    lines: &mut Vec<Line>,
) -> (r: bool)
    ensures
        r == lines_of_entry(entries@, *entry, primitive@) is Some,
        r ==> final(lines)@ == old(lines)@ + lines_of_entry(entries@, *entry, primitive@)->0,
{
    proof {
        assert(lines@ + Seq::<Line>::empty() =~= lines@);
    }
    if is_inherent_of(entry, primitive) {
        match &entry.kind {
            Kind::Impl(implementation) => add_lines_of_ids(entries, &implementation.items, lines),
            _ => true,
        }
    } else {
        true
    }
}

/// Lists what one entry gives to the listing of the functions of a
/// primitive type: the functions that it lists, where it is an inherent
/// implementation for the type, each with the stabilities that it states.
pub fn functions_of_entry(entries: &Vec<Entry>, entry: &Entry, primitive: &str) -> (r: Option<
    Vec<Line>,
>)
    ensures
        r is Some == lines_of_entry(entries@, *entry, primitive@) is Some,
        r matches Some(lines) ==> Some(lines@) == lines_of_entry(entries@, *entry, primitive@),
{
    let mut lines: Vec<Line> = Vec::new();
    if add_lines_of_entry(entries, entry, primitive, &mut lines) {
        proof {
            let added = lines_of_entry(entries@, *entry, primitive@)->0;
            assert(Seq::<Line>::empty() + added =~= added);
        }
        Some(lines)
    } else {
        None
    }
}

/// Lists the functions of a primitive type, each with the stabilities that
/// it states.
pub fn functions_of(entries: &Vec<Entry>, primitive: &str) -> (r: Option<Vec<Line>>)
    ensures
        r is Some == listing(entries@, primitive@) is Some,
        r matches Some(lines) ==> Some(lines@) == listing(entries@, primitive@),
{
    let mut lines: Vec<Line> = Vec::new();
    let mut i: usize = 0;
    while i < entries.len()
        invariant
            i <= entries.len(),
            listing_upto(entries@, primitive@, i as int) == Some(lines@),
        decreases entries.len() - i,
    {
        if !add_lines_of_entry(entries, &entries[i], primitive, &mut lines) {
            proof {
                lemma_listing_fail(entries@, primitive@, i + 1);
            }
            return None;
        }
        i += 1;
    }
    Some(lines)
}

} // verus!
