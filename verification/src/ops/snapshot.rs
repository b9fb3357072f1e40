//! A configuration snapshot: values by key.

use crate::json;
use crate::json::{Json, JsonView, Members};
use crate::model::ConfigEntry;
use crate::text;
use vstd::prelude::*;

verus! {

/// What a snapshot holds.
pub type Values = Map<Seq<char>, JsonView>;

/// The committed (or prospective) snapshot the validator reads.
#[derive(Debug, PartialEq, Eq)]
pub struct Snapshot {
    entries: Vec<(String, Json)>,
}

impl View for Snapshot {
    type V = Values;

    closed spec fn view(&self) -> Values {
        json::to_map(json::members_view(self.entries@))
    }
}

/// The value under `key`, if there is one.
pub open spec fn value_at(values: Values, key: Seq<char>) -> Option<JsonView> {
    if values.dom().contains(key) {
        Some(values[key])
    } else {
        None
    }
}

/// The values with the members laid over them, in order.
pub open spec fn overlay(values: Values, members: Members) -> Values
    decreases members.len(),
{
    if members.len() == 0 {
        values
    } else {
        overlay(values, members.drop_last()).insert(members.last().0, members.last().1)
    }
}

/// The members whose key is not `key`.
spec fn without(members: Members, key: Seq<char>) -> Members
    decreases members.len(),
{
    if members.len() == 0 {
        Seq::empty()
    } else if members.last().0 == key {
        without(members.drop_last(), key)
    } else {
        without(members.drop_last(), key).push(members.last())
    }
}

proof fn lemma_without(members: Members, key: Seq<char>)
    ensures
        json::to_map(without(members, key)) == json::to_map(members).remove(key),
    decreases members.len(),
{
    if members.len() > 0 {
        let head = members.drop_last();
        lemma_without(head, key);
        if members.last().0 != key {
            assert(without(members, key).drop_last() =~= without(head, key));
        }
    }
    assert(json::to_map(without(members, key)) =~= json::to_map(members).remove(key));
}

impl Clone for Snapshot {
    fn clone(&self) -> (r: Self)
        ensures
            r@ == self@,
    {
        let mut entries: Vec<(String, Json)> = Vec::new();
        let mut i: usize = 0;
        while i < self.entries.len()
            invariant
                i <= self.entries@.len(),
                json::members_view(entries@) == json::members_view(self.entries@).take(i as int),
            decreases self.entries.len() - i,
        {
            let ghost kept = json::members_view(entries@);
            entries.push((self.entries[i].0.clone(), self.entries[i].1.clone()));
            assert(json::members_view(entries@) =~= kept.push(
                json::members_view(self.entries@)[i as int],
            ));
            assert(json::members_view(entries@) =~= json::members_view(self.entries@).take(i + 1));
            i += 1;
        }
        assert(json::members_view(entries@) =~= json::members_view(self.entries@));
        Snapshot { entries }
    }
}

impl Snapshot {
    /// A snapshot with nothing in it.
    pub fn new() -> (r: Self)
        ensures
            r@ == Map::<Seq<char>, JsonView>::empty(),
    {
        Snapshot { entries: Vec::new() }
    }

    /// Removes the value under `key`.
    pub fn remove(&mut self, key: &str)
        ensures
            final(self)@ == old(self)@.remove(key@),
    {
        let ghost all = json::members_view(self.entries@);
        let mut rest: Vec<(String, Json)> = Vec::new();
        let mut i: usize = 0;
        while i < self.entries.len()
            invariant
                i <= self.entries@.len(),
                all == json::members_view(self.entries@),
                json::members_view(rest@) == without(all.take(i as int), key@),
            decreases self.entries.len() - i,
        {
            assert(all.take(i + 1).drop_last() =~= all.take(i as int));
            if !text::same_text(self.entries[i].0.as_str(), key) {
                let ghost kept = json::members_view(rest@);
                rest.push((self.entries[i].0.clone(), self.entries[i].1.clone()));
                assert(json::members_view(rest@) =~= kept.push(all[i as int]));
            }
            i += 1;
        }
        proof {
            assert(all.take(i as int) =~= all);
            lemma_without(all, key@);
        }
        self.entries = rest;
    }

    /// Sets the value under `key`.
    pub fn insert(&mut self, key: String, value: Json)
        ensures
            final(self)@ == old(self)@.insert(key@, value@),
    {
        self.remove(key.as_str());
        let ghost kept = json::members_view(self.entries@);
        self.entries.push((key, value));
        proof {
            let now = json::members_view(self.entries@);
            assert(now =~= kept.push((key@, value@)));
            assert(now.drop_last() =~= kept);
            assert(self@ =~= old(self)@.insert(key@, value@));
        }
    }

    /// The value under `key`, if there is one.
    pub fn get(&self, key: &str) -> (r: Option<&Json>)
        ensures
            match r {
                Some(v) => value_at(self@, key@) == Some(v@),
                None => value_at(self@, key@) is None,
            },
    {
        proof {
            json::lemma_member_is_in_map(json::members_view(self.entries@), key@);
        }
        json::find_member(self.entries.as_slice(), key)
    }

    /// Lays some members over the snapshot, in order.
    pub fn extend(&mut self, members: &[(String, Json)])
        ensures
            final(self)@ == overlay(old(self)@, json::members_view(members@)),
    {
        let ghost all = json::members_view(members@);
        let mut i: usize = 0;
        assert(all.take(0) =~= Seq::empty());
        while i < members.len()
            invariant
                i <= members@.len(),
                all == json::members_view(members@),
                self@ == overlay(old(self)@, all.take(i as int)),
            decreases members.len() - i,
        {
            assert(all.take(i + 1).drop_last() =~= all.take(i as int));
            self.insert(members[i].0.clone(), members[i].1.clone());
            i += 1;
        }
        assert(all.take(i as int) =~= all);
    }

    /// The members, one of each key.
    pub fn members(&self) -> (r: &[(String, Json)])
        ensures
            json::to_map(json::members_view(r@)) == self@,
    {
        self.entries.as_slice()
    }
}

/// What some committed entries say.
pub open spec fn entries_view(entries: Seq<ConfigEntry>) -> Members {
    Seq::new(entries.len(), |i: int| (entries[i].key@, entries[i].value@))
}

/// Builds a snapshot from committed entries.
#[must_use]
pub fn snapshot_of(entries: &[ConfigEntry]) -> (r: Snapshot)
    ensures
        r@ == json::to_map(entries_view(entries@)),
{
    let mut out = Snapshot::new();
    let ghost all = entries_view(entries@);
    let mut i: usize = 0;
    assert(all.take(0) =~= Seq::empty());
    while i < entries.len()
        invariant
            i <= entries@.len(),
            all == entries_view(entries@),
            out@ == json::to_map(all.take(i as int)),
        decreases entries.len() - i,
    {
        assert(all.take(i + 1).drop_last() =~= all.take(i as int));
        out.insert(entries[i].key.clone(), entries[i].value.clone());
        i += 1;
    }
    assert(all.take(i as int) =~= all);
    out
}

} // verus!
