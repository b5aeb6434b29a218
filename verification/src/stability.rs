//! Stability levels read from the attributes of documented items.

use vstd::prelude::*;
use vstd::string::StrSliceExecFns;
use crate::entry::{Attribute, Entry};

verus! {

/// Whether a documented item is part of the stable surface.
#[derive(Clone, Copy, Debug, PartialEq, Eq, Structural)]
pub enum Stability {
    Stable,
    Unstable,
}

/// The text every stability attribute begins with.
pub open spec fn attr_prefix() -> Seq<char> {
    "#[attr = Stability "@
}

/// The text that leads to the level inside a stability attribute.
pub open spec fn level_prefix() -> Seq<char> {
    "{stability: Stability {level: "@
}

/// The length of the word that `s` starts with: the characters before its first space.
pub open spec fn word_len(s: Seq<char>) -> nat
    decreases s.len(),
{
    if s.len() == 0 || s[0] == ' ' {
        0
    } else {
        1 + word_len(s.drop_first())
    }
}

/// What follows the attribute prefix in a stability attribute.
pub open spec fn attr_body(s: Seq<char>) -> Seq<char> {
    s.skip(attr_prefix().len() as int)
}

/// What follows the level prefix in the body of a stability attribute.
pub open spec fn level_text(s: Seq<char>) -> Seq<char> {
    attr_body(s).skip(level_prefix().len() as int)
}

/// The level named by a stability attribute.
pub open spec fn level_word(s: Seq<char>) -> Seq<char> {
    level_text(s).take(word_len(level_text(s)) as int)
}

/// Whether `s` is a stability attribute at all.
pub open spec fn is_stability_attr(s: Seq<char>) -> bool {
    attr_prefix().is_prefix_of(s)
}

/// A text is readable if it is no stability attribute, or a complete one:
/// the level prefix follows, the level is a word ended by a space, and the
/// word is one of the two known levels.
pub open spec fn readable(s: Seq<char>) -> bool {
    is_stability_attr(s) ==> {
        &&& level_prefix().is_prefix_of(attr_body(s))
        &&& word_len(level_text(s)) < level_text(s).len()
        &&& (level_word(s) == "Stable"@ || level_word(s) == "Unstable"@)
    }
}

/// The stability that an attribute text states, if it states one.
pub open spec fn stability_of(s: Seq<char>) -> Option<Stability> {
    if !is_stability_attr(s) {
        None
    } else if level_word(s) == "Stable"@ {
        Some(Stability::Stable)
    } else {
        Some(Stability::Unstable)
    }
}

proof fn lemma_word_len_bound(s: Seq<char>)
    ensures
        word_len(s) <= s.len(),
        forall|i: int| 0 <= i < word_len(s) ==> s[i] != ' ',
        word_len(s) < s.len() ==> s[word_len(s) as int] == ' ',
    decreases s.len(),
{
    if s.len() == 0 || s[0] == ' ' {
    } else {
        let t = s.drop_first();
        lemma_word_len_bound(t);
        assert forall|i: int| 0 <= i < word_len(s) implies s[i] != ' ' by {
            if i > 0 {
                assert(s[i] == t[i - 1]);
            }
        }
        if word_len(s) < s.len() {
            assert(s[word_len(s) as int] == t[word_len(t) as int]);
        }
    }
}

proof fn lemma_word_len_is(s: Seq<char>, n: nat)
    requires
        n <= s.len(),
        forall|i: int| 0 <= i < n ==> s[i] != ' ',
        n < s.len() ==> s[n as int] == ' ',
    ensures
        word_len(s) == n,
    decreases s.len(),
{
    if n == 0 {
    } else {
        let t = s.drop_first();
        assert forall|i: int| 0 <= i < n - 1 implies t[i] != ' ' by {
            assert(t[i] == s[i + 1]);
        }
        if n - 1 < t.len() {
            assert(t[n - 1] == s[n as int]);
        }
        lemma_word_len_is(t, (n - 1) as nat);
    }
}

/// Whether `pat` stands in `s` at position `from`.
fn matches_at(s: &str, from: usize, pat: &str) -> (r: bool)
    requires
        from <= s@.len(),
    ensures
        r == pat@.is_prefix_of(s@.skip(from as int)),
{
    let n: usize = s.unicode_len();
    let m: usize = pat.unicode_len();
    if m > n - from {
        return false;
    }
    let mut i: usize = 0;
    while i < m
        invariant
            i <= m,
            from + m <= n,
            n == s@.len(),
            m == pat@.len(),
            forall|j: int| 0 <= j < i ==> s@[from + j] == pat@[j],
        decreases m - i,
    {
        if s.get_char(from + i) != pat.get_char(i) {
            assert(s@.skip(from as int)[i as int] != pat@[i as int]);
            return false;
        }
        i += 1;
    }
    assert(pat@ =~= s@.skip(from as int).subrange(0, m as int));
    true
}

/// Whether two texts are the same.
pub fn same_text(a: &str, b: &str) -> (r: bool)
    ensures
        r == (a@ == b@),
{
    if a.unicode_len() != b.unicode_len() {
        return false;
    }
    let r = matches_at(a, 0, b);
    proof {
        assert(a@.skip(0) =~= a@);
        if r {
            assert(a@ =~= b@);
        }
    }
    r
}

/// The position at which the word that starts at `from` ends.
fn word_end(s: &str, from: usize) -> (r: usize)
    requires
        from <= s@.len(),
    ensures
        r == from + word_len(s@.skip(from as int)),
        r <= s@.len(),
{
    let n: usize = s.unicode_len();
    let mut i: usize = from;
    while i < n && s.get_char(i) != ' '
        invariant
            from <= i <= n,
            n == s@.len(),
            forall|j: int| from <= j < i ==> s@[j] != ' ',
        decreases n - i,
    {
        i += 1;
    }
    proof {
        lemma_word_len_is(s@.skip(from as int), (i - from) as nat);
    }
    i
}

/// Whether an attribute text is readable: whether `parse_stability_str`
/// takes it.
pub fn is_readable(s: &str) -> (r: bool)
    ensures
        r == readable(s@),
{
    proof {
        reveal_strlit("#[attr = Stability ");
        reveal_strlit("{stability: Stability {level: ");
        reveal_strlit("Stable");
        reveal_strlit("Unstable");
    }
    if !matches_at(s, 0, "#[attr = Stability ") {
        return true;
    }
    if !matches_at(s, 19, "{stability: Stability {level: ") {
        return false;
    }
    let start: usize = 19 + 30;
    assert(s@.skip(19).skip(30) =~= s@.skip(start as int));
    let end = word_end(s, start);
    if end >= s.unicode_len() {
        return false;
    }
    let stable = end - start == 6 && matches_at(s, start, "Stable");
    let unstable = end - start == 8 && matches_at(s, start, "Unstable");
    proof {
        let text = level_text(s@);
        let word = level_word(s@);
        assert(word.len() == end - start);
        assert(text.subrange(0, word.len() as int) =~= word);
        if stable {
            assert(word =~= "Stable"@);
        }
        if unstable {
            assert(word =~= "Unstable"@);
        }
    }
    stable || unstable
}

/// Reads the stability that an attribute text states.
///
/// A text that does not begin as a stability attribute states none. One that
/// does must be complete, see [`readable`].
pub fn parse_stability_str(s: &str) -> (r: Option<Stability>)
    requires
        readable(s@),
    ensures
        r == stability_of(s@),
{
    proof {
        reveal_strlit("#[attr = Stability ");
        reveal_strlit("{stability: Stability {level: ");
        reveal_strlit("Stable");
        reveal_strlit("Unstable");
    }
    if !matches_at(s, 0, "#[attr = Stability ") {
        return None;
    }
    let start: usize = 19 + 30;
    assert(s@.skip(19).skip(30) =~= s@.skip(start as int));
    let end = word_end(s, start);
    let is_stable = end - start == 6 && matches_at(s, start, "Stable");
    proof {
        let text = level_text(s@);
        let word = level_word(s@);
        assert(word.len() == end - start);
        if is_stable {
            assert(word =~= "Stable"@);
        } else if word == "Stable"@ {
            assert("Stable"@.is_prefix_of(text)) by {
                assert(text.subrange(0, 6) =~= word);
            }
        }
    }
    if is_stable {
        Some(Stability::Stable)
    } else {
        Some(Stability::Unstable)
    }
}

/// The stabilities that the free-text attributes of a list state, in order.
pub open spec fn stated(attrs: Seq<Attribute>) -> Seq<Stability>
    decreases attrs.len(),
{
    if attrs.len() == 0 {
        Seq::empty()
    } else {
        let rest = stated(attrs.drop_last());
        match attrs.last() {
            Attribute::Other(s) => match stability_of(s@) {
                Some(level) => rest.push(level),
                None => rest,
            },
            Attribute::Structured => rest,
        }
    }
}

/// Whether every free-text attribute of a list is readable.
pub open spec fn all_readable(attrs: Seq<Attribute>) -> bool {
    forall|i: int|
        0 <= i < attrs.len() ==> (#[trigger] attrs[i] matches Attribute::Other(s) ==> readable(s@))
}

/// The stability of an entry with attributes that state one at most.
pub open spec fn entry_stability(entry: Entry) -> Option<Stability> {
    if stated(entry.attrs@).len() == 0 {
        None
    } else {
        Some(stated(entry.attrs@)[0])
    }
}

/// Whether `calculate_stability` takes an entry: whether each of its
/// free-text attributes is readable and one of them at most states a
/// stability.
pub open spec fn well_formed(entry: Entry) -> bool {
    all_readable(entry.attrs@) && stated(entry.attrs@).len() <= 1
}

/// Whether an entry is well formed.
pub fn is_well_formed(entry: &Entry) -> (r: bool)
    ensures
        r == well_formed(*entry),
{
    let n: usize = entry.attrs.len();
    let mut count: usize = 0;
    let mut i: usize = 0;
    while i < n
        invariant
            i <= n,
            n == entry.attrs@.len(),
            count <= i,
            count == stated(entry.attrs@.take(i as int)).len(),
            all_readable(entry.attrs@.take(i as int)),
        decreases n - i,
    {
        proof {
            let next = entry.attrs@.take(i + 1);
            assert(next.drop_last() =~= entry.attrs@.take(i as int));
            assert(next.last() == entry.attrs@[i as int]);
        }
        match &entry.attrs[i] {
            Attribute::Other(s) => {
                if !is_readable(s.as_str()) {
                    return false;
                }
                if parse_stability_str(s.as_str()).is_some() {
                    count += 1;
                }
            },
            Attribute::Structured => {},
        }
        proof {
            let next = entry.attrs@.take(i + 1);
            assert forall|j: int| 0 <= j < next.len() implies (#[trigger] next[j] matches
                Attribute::Other(s) ==> readable(s@)) by {
                if j < i {
                    assert(next[j] == entry.attrs@.take(i as int)[j]);
                }
            }
        }
        i += 1;
    }
    assert(entry.attrs@.take(n as int) =~= entry.attrs@);
    count <= 1
}

/// The stability of an entry: the one that its attributes state, if any does.
///
/// An entry may state its stability once at most.
pub fn calculate_stability(entry: &Entry) -> (r: Option<Stability>)
    requires
        well_formed(*entry),
    ensures
        r == entry_stability(*entry),
{
    let mut stability: Option<Stability> = None;
    let n: usize = entry.attrs.len();
    let mut i: usize = 0;
    while i < n
        invariant
            i <= n,
            n == entry.attrs@.len(),
            all_readable(entry.attrs@),
            stated(entry.attrs@).len() <= 1,
            stated(entry.attrs@.take(i as int)).len() <= 1,
            stability == if stated(entry.attrs@.take(i as int)).len() == 0 {
                None
            } else {
                Some(stated(entry.attrs@.take(i as int))[0])
            },
        decreases n - i,
    {
        proof {
            let next = entry.attrs@.take(i + 1);
            assert(next.drop_last() =~= entry.attrs@.take(i as int));
            assert(next.last() == entry.attrs@[i as int]);
            lemma_stated_grows(entry.attrs@, i + 1);
        }
        match &entry.attrs[i] {
            Attribute::Other(s) => {
                match parse_stability_str(s.as_str()) {
                    Some(level) => {
                        stability = Some(level);
                    },
                    None => {},
                }
            },
            Attribute::Structured => {},
        }
        i += 1;
    }
    assert(entry.attrs@.take(n as int) =~= entry.attrs@);
    stability
}

/// The stabilities stated by the first `k` attributes begin those stated by all.
proof fn lemma_stated_grows(attrs: Seq<Attribute>, k: int)
    requires
        0 <= k <= attrs.len(),
    ensures
        stated(attrs.take(k)).len() <= stated(attrs).len(),
    decreases attrs.len() - k,
{
    if k == attrs.len() {
        assert(attrs.take(k) =~= attrs);
    } else {
        let next = attrs.take(k + 1);
        assert(next.drop_last() =~= attrs.take(k));
        lemma_stated_grows(attrs, k + 1);
    }
}

} // verus!
