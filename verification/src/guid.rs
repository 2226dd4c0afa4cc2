//! Identifiers of point clouds: fresh ones for what is written, and the way from the
//! identifiers that a source file uses to those of the result.

use crate::text::same_text;
use vstd::prelude::*;

verus! {

/// A lowercase hexadecimal digit.
pub open spec fn is_hex_digit(c: char) -> bool {
    '0' <= c <= '9' || 'a' <= c <= 'f'
}

/// The text of a random identifier: 36 characters, lowercase hexadecimal digits in
/// five groups with a hyphen between them, with the digits that mark it as random.
pub open spec fn is_guid_text(text: Seq<char>) -> bool {
    &&& text.len() == 36
    &&& forall|i: int|
        0 <= i < 36 ==> if i == 8 || i == 13 || i == 18 || i == 23 {
            #[trigger] text[i] == '-'
        } else {
            is_hex_digit(text[i])
        }
    &&& text[14] == '4'
    &&& text[19] == '8' || text[19] == '9' || text[19] == 'a' || text[19] == 'b'
}

/// The text of `uuid::Uuid::new_v4`. It differs from call to call; the contract gives
/// the form that every one of them has. That no two are alike is left unsaid.
#[verifier::external_body]
fn random_guid() -> (guid: String)
    ensures
        is_guid_text(guid@),
{
    uuid::Uuid::new_v4().to_string()
}

/// A fresh identifier.
pub fn fresh_guid() -> (guid: String)
    ensures
        is_guid_text(guid@),
{
    random_guid()
}

/// Which identifier of the result stands for which identifier of the source.
pub struct GuidMap {
    entries: Vec<(String, String)>,
}

/// The entries as a map from source to result.
pub open spec fn entry_map(entries: Seq<(String, String)>) -> Map<Seq<char>, Seq<char>>
    decreases entries.len(),
{
    if entries.len() == 0 {
        Map::empty()
    } else {
        entry_map(entries.drop_last()).insert(entries.last().0@, entries.last().1@)
    }
}

impl View for GuidMap {
    type V = Map<Seq<char>, Seq<char>>;

    /// The map from the identifiers of the source to those of the result.
    closed spec fn view(&self) -> Map<Seq<char>, Seq<char>> {
        entry_map(self.entries@)
    }
}

/// The identifier of the result that a reference leads to: the one that stands for it,
/// or itself where none does.
pub open spec fn resolved(map: Map<Seq<char>, Seq<char>>, reference: Seq<char>) -> Seq<char> {
    if map.contains_key(reference) {
        map[reference]
    } else {
        reference
    }
}

impl GuidMap {
    /// A map without entries.
    pub fn new() -> (map: GuidMap)
        ensures
            map@ == Map::<Seq<char>, Seq<char>>::empty(),
    {
        GuidMap { entries: Vec::new() }
    }

    /// Lets `new` stand for `source` from now on.
    pub fn insert(&mut self, source: &str, new: &str)
        ensures
            final(self)@ == old(self)@.insert(source@, new@),
    {
        let ghost before = self.entries@;
        let entry = (source.to_owned(), new.to_owned());
        self.entries.push(entry);
        assert(self.entries@.drop_last() =~= before);
    }

    /// What stands for `source`, if anything does.
    pub fn get(&self, source: &str) -> (new: Option<String>)
        ensures
            match new {
                Some(text) => self@.contains_key(source@) && text@ == self@[source@],
                None => !self@.contains_key(source@),
            },
    {
        let mut n: usize = self.entries.len();
        assert(self.entries@.take(n as int) =~= self.entries@);
        while n > 0
            invariant
                n <= self.entries.len(),
                self@.contains_key(source@) == entry_map(self.entries@.take(n as int)).contains_key(
                    source@,
                ),
                self@[source@] == entry_map(self.entries@.take(n as int))[source@],
            decreases n,
        {
            assert(self.entries@.take(n as int).drop_last() =~= self.entries@.take(n - 1));
            assert(self.entries@.take(n as int).last() == self.entries@[n - 1]);
            n = n - 1;
            if same_text(self.entries[n].0.as_str(), source) {
                return Some(self.entries[n].1.as_str().to_owned());
            }
        }
        None
    }

    /// The identifier of the result that a reference leads to.
    pub fn resolve(&self, reference: &str) -> (guid: String)
        ensures
            guid@ == resolved(self@, reference@),
    {
        match self.get(reference) {
            Some(new) => new,
            None => reference.to_owned(),
        }
    }

    /// A map in which one identifier stands for every scan that has one.
    pub fn merging(sources: &Vec<Option<String>>, new: &str) -> (map: GuidMap)
        ensures
            forall|key: Seq<char>|
                map@.contains_key(key) <==> #[trigger] names_scan(sources@, key),
            forall|key: Seq<char>| #[trigger] map@.contains_key(key) ==> map@[key] == new@,
            forall|key: Seq<char>| #[trigger]
                resolved(map@, key) == if names_scan(sources@, key) {
                    new@
                } else {
                    key
                },
    {
        let mut map = GuidMap::new();
        let mut n: usize = 0;
        while n < sources.len()
            invariant
                n <= sources.len(),
                forall|key: Seq<char>|
                    map@.contains_key(key) <==> #[trigger] names_scan(sources@.take(n as int), key),
                forall|key: Seq<char>| #[trigger] map@.contains_key(key) ==> map@[key] == new@,
            decreases sources.len() - n,
        {
            let ghost before = map@;
            match &sources[n] {
                Some(text) => map.insert(text.as_str(), new),
                None => {},
            }
            proof {
                let shorter = sources@.take(n as int);
                let longer = sources@.take(n + 1);
                assert forall|key: Seq<char>|
                    map@.contains_key(key) <==> #[trigger] names_scan(longer, key) by {
                    assert(longer[n as int] == sources@[n as int]);
                    assert(forall|i: int| 0 <= i < n ==> shorter[i] == longer[i]);
                    if names_scan(shorter, key) {
                        let i = choose|i: int|
                            0 <= i < shorter.len() && names_at(shorter, i, key);
                        assert(names_at(longer, i, key));
                    }
                    if names_scan(longer, key) {
                        let i = choose|i: int| 0 <= i < longer.len() && names_at(longer, i, key);
                        if i < n {
                            assert(names_at(shorter, i, key));
                        }
                    }
                    if sources@[n as int] is Some && sources@[n as int]->0@ == key {
                        assert(names_at(longer, n as int, key));
                    }
                    assert(before.contains_key(key) <==> names_scan(shorter, key));
                }
            }
            n = n + 1;
        }
        assert(sources@.take(n as int) =~= sources@);
        map
    }
}

/// Whether the scan at position `i` of a list has this identifier.
pub open spec fn names_at(sources: Seq<Option<String>>, i: int, key: Seq<char>) -> bool {
    sources[i] is Some && sources[i]->0@ == key
}

/// Whether some scan of a list has this identifier.
pub open spec fn names_scan(sources: Seq<Option<String>>, key: Seq<char>) -> bool {
    exists|i: int| 0 <= i < sources.len() && names_at(sources, i, key)
}

/// Once a scan was given a new identifier, every reference to it leads to the new one,
/// and references to anything else lead where they led before.
pub proof fn law_references_follow_their_scan(
    map: Map<Seq<char>, Seq<char>>,
    source: Seq<char>,
    new: Seq<char>,
    reference: Seq<char>,
)
    ensures
        resolved(map.insert(source, new), source) == new,
        reference != source ==> resolved(map.insert(source, new), reference) == resolved(
            map,
            reference,
        ),
{
}

/// A reference leads to what stands for it, and to itself where nothing does.
pub proof fn law_references_lead_somewhere(map: Map<Seq<char>, Seq<char>>, reference: Seq<char>)
    ensures
        map.contains_key(reference) ==> resolved(map, reference) == map[reference],
        !map.contains_key(reference) ==> resolved(map, reference) == reference,
{
}

/// Every scan with an identifier is named by it, wherever it stands in the list, and
/// nothing else is a name of a scan.
pub proof fn law_scans_are_named_by_their_identifiers(
    sources: Seq<Option<String>>,
    key: Seq<char>,
)
    ensures
        names_scan(sources, key) <==> exists|i: int|
            0 <= i < sources.len() && (#[trigger] sources[i]) is Some && sources[i]->0@ == key,
{
    if exists|i: int|
        0 <= i < sources.len() && (#[trigger] sources[i]) is Some && sources[i]->0@ == key {
        let i = choose|i: int|
            0 <= i < sources.len() && (#[trigger] sources[i]) is Some && sources[i]->0@ == key;
        assert(names_at(sources, i, key));
    }
    if names_scan(sources, key) {
        let i = choose|i: int| 0 <= i < sources.len() && names_at(sources, i, key);
        assert(sources[i] is Some && sources[i]->0@ == key);
    }
}

} // verus!
