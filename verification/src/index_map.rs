//! The ordered index of the children of an array or map value.
//!
//! An index map lists the children of a value in order. Each entry names the
//! child value and, for a map, the key under which the child is stored. A child
//! occurs once, and so does a key: pushing a child or a key that is already
//! listed moves it to the end, which gives arrays insertion order and maps
//! last-write order.

use vstd::prelude::*;
use crate::ids::AttributeValueId;
use crate::text::{copy_text, same_text, text_of};

verus! {

/// One child of an array or map value.
#[derive(Debug, PartialEq, Eq)]
pub struct IndexEntry {
    pub attribute_value_id: AttributeValueId,
    pub key: Option<String>,
}

/// The mathematical value of an index entry.
pub struct IndexEntryView {
    pub attribute_value_id: AttributeValueId,
    pub key: Option<Seq<char>>,
}

impl View for IndexEntry {
    type V = IndexEntryView;

    open spec fn view(&self) -> IndexEntryView {
        IndexEntryView { attribute_value_id: self.attribute_value_id, key: text_of(self.key) }
    }
}

impl IndexEntryView {
    /// Whether this entry names the given child or is stored under the given key.
    pub open spec fn clashes_with(
        self,
        attribute_value_id: Option<AttributeValueId>,
        key: Option<Seq<char>>,
    ) -> bool {
        (attribute_value_id == Some(self.attribute_value_id)) || (key is Some && self.key == key)
    }
}

/// The entries of `entries` that name neither the given child nor the given
/// key, in their order.
pub open spec fn without(
    entries: Seq<IndexEntryView>,
    attribute_value_id: Option<AttributeValueId>,
    key: Option<Seq<char>>,
) -> Seq<IndexEntryView>
    decreases entries.len(),
{
    if entries.len() == 0 {
        entries
    } else {
        let rest = without(entries.drop_last(), attribute_value_id, key);
        if entries.last().clashes_with(attribute_value_id, key) {
            rest
        } else {
            rest.push(entries.last())
        }
    }
}

/// What `push` makes of the entries.
pub open spec fn pushed(
    entries: Seq<IndexEntryView>,
    attribute_value_id: AttributeValueId,
    key: Option<Seq<char>>,
) -> Seq<IndexEntryView> {
    without(entries, Some(attribute_value_id), key).push(
        IndexEntryView { attribute_value_id, key },
    )
}

/// No child and no key occurs in two entries.
pub open spec fn distinct(entries: Seq<IndexEntryView>) -> bool {
    forall|i: int, j: int|
        0 <= i < j < entries.len() ==> {
            &&& (#[trigger] entries[i]).attribute_value_id != (
            #[trigger] entries[j]).attribute_value_id
            &&& (entries[i].key is Some ==> entries[i].key != entries[j].key)
        }
}

/// Every entry that `without` keeps was there before, does not clash, and the
/// entries that do not clash all stay.
pub proof fn lemma_without_members(
    entries: Seq<IndexEntryView>,
    attribute_value_id: Option<AttributeValueId>,
    key: Option<Seq<char>>,
)
    ensures
        without(entries, attribute_value_id, key).len() <= entries.len(),
        forall|e: IndexEntryView| #[trigger]
            without(entries, attribute_value_id, key).contains(e) <==> (entries.contains(e)
                && !e.clashes_with(attribute_value_id, key)),
    decreases entries.len(),
{
    let kept = without(entries, attribute_value_id, key);
    if entries.len() > 0 {
        let front = entries.drop_last();
        lemma_without_members(front, attribute_value_id, key);
        let rest = without(front, attribute_value_id, key);
        assert forall|e: IndexEntryView| #[trigger]
            kept.contains(e) <==> (entries.contains(e) && !e.clashes_with(
                attribute_value_id,
                key,
            )) by {
            if kept.contains(e) {
                let i = choose|i: int| 0 <= i < kept.len() && kept[i] == e;
                if i < rest.len() {
                    assert(rest.contains(e));
                }
            }
            if entries.contains(e) && !e.clashes_with(attribute_value_id, key) {
                let j = choose|j: int| 0 <= j < entries.len() && entries[j] == e;
                if j < front.len() {
                    assert(front[j] == e);
                    assert(rest.contains(e));
                    let i = choose|i: int| 0 <= i < rest.len() && rest[i] == e;
                    assert(kept[i] == e);
                } else {
                    assert(kept[kept.len() - 1] == e);
                }
            }
        }
    }
}

/// Taking entries out leaves the others distinct.
pub proof fn lemma_without_keeps_distinct(
    entries: Seq<IndexEntryView>,
    attribute_value_id: Option<AttributeValueId>,
    key: Option<Seq<char>>,
)
    requires
        distinct(entries),
    ensures
        distinct(without(entries, attribute_value_id, key)),
    decreases entries.len(),
{
    if entries.len() > 0 {
        let front = entries.drop_last();
        let last = entries.last();
        assert(distinct(front));
        lemma_without_keeps_distinct(front, attribute_value_id, key);
        lemma_without_members(front, attribute_value_id, key);
        let rest = without(front, attribute_value_id, key);
        let kept = without(entries, attribute_value_id, key);
        if !last.clashes_with(attribute_value_id, key) {
            assert forall|i: int, j: int| 0 <= i < j < kept.len() implies {
                &&& (#[trigger] kept[i]).attribute_value_id != (#[trigger] kept[j]).attribute_value_id
                &&& (kept[i].key is Some ==> kept[i].key != kept[j].key)
            } by {
                if j == rest.len() {
                    assert(rest.contains(rest[i]));
                }
            }
        }
    }
}

/// Pushing a child keeps the entries distinct.
pub proof fn lemma_pushed_is_distinct(
    entries: Seq<IndexEntryView>,
    attribute_value_id: AttributeValueId,
    key: Option<Seq<char>>,
)
    requires
        distinct(entries),
    ensures
        distinct(pushed(entries, attribute_value_id, key)),
{
    let kept = without(entries, Some(attribute_value_id), key);
    let all = pushed(entries, attribute_value_id, key);
    lemma_without_keeps_distinct(entries, Some(attribute_value_id), key);
    lemma_without_members(entries, Some(attribute_value_id), key);
    assert forall|i: int, j: int| 0 <= i < j < all.len() implies {
        &&& (#[trigger] all[i]).attribute_value_id != (#[trigger] all[j]).attribute_value_id
        &&& (all[i].key is Some ==> all[i].key != all[j].key)
    } by {
        if j == kept.len() {
            assert(kept.contains(kept[i]));
        }
    }
}

/// Two children pushed one after the other into an empty index are listed in
/// that order, and taking the first out again leaves the second alone.
pub proof fn lemma_insertion_order(
    first: AttributeValueId,
    first_key: Option<Seq<char>>,
    second: AttributeValueId,
    second_key: Option<Seq<char>>,
)
    requires
        first != second,
        second_key is Some ==> first_key != second_key,
    ensures
        pushed(pushed(Seq::empty(), first, first_key), second, second_key) == seq![
            IndexEntryView { attribute_value_id: first, key: first_key },
            IndexEntryView { attribute_value_id: second, key: second_key },
        ],
        without(
            pushed(pushed(Seq::empty(), first, first_key), second, second_key),
            Some(first),
            None,
        ) == seq![IndexEntryView { attribute_value_id: second, key: second_key }],
        first_key is Some ==> without(
            pushed(pushed(Seq::empty(), first, first_key), second, second_key),
            None,
            first_key,
        ) == seq![IndexEntryView { attribute_value_id: second, key: second_key }],
{
    let empty = Seq::<IndexEntryView>::empty();
    let one = pushed(empty, first, first_key);
    let both = pushed(one, second, second_key);
    assert(one.drop_last() == empty);
    assert(without(empty, Some(second), second_key) == empty);
    assert(both.drop_last() == one);
    assert(without(empty, Some(first), None) == empty);
    assert(without(one, Some(first), None) == empty);
    if first_key is Some {
        assert(without(empty, None, first_key) == empty);
        assert(without(one, None, first_key) == empty);
    }
}

/// The ordered children of an array or map value. No child and no key
/// occurs in two entries.
#[derive(Debug, PartialEq, Eq)]
pub struct IndexMap {
    entries: Vec<IndexEntry>,
}

/// The mathematical values of the entries.
pub open spec fn entry_views(entries: Seq<IndexEntry>) -> Seq<IndexEntryView> {
    entries.map_values(|entry: IndexEntry| entry@)
}

impl View for IndexMap {
    type V = Seq<IndexEntryView>;

    closed spec fn view(&self) -> Seq<IndexEntryView> {
        entry_views(self.entries@)
    }
}

/// Takes out every entry that names the given child or the given key.
fn discard(
    entries: &mut Vec<IndexEntry>,
    attribute_value_id: Option<AttributeValueId>,
    key: &Option<String>,
)
    ensures
        entry_views(final(entries)@) == without(
            entry_views(old(entries)@),
            attribute_value_id,
            text_of(*key),
        ),
{
    let ghost before = entry_views(entries@);
    let ghost seen: int = 0;
    let mut next: usize = 0;
    assert(before.take(0) == Seq::<IndexEntryView>::empty());
    while next < entries.len()
        invariant
            0 <= seen <= before.len(),
            next == without(before.take(seen), attribute_value_id, text_of(*key)).len(),
            entries@.len() == next + before.len() - seen,
            entry_views(entries@) == without(before.take(seen), attribute_value_id, text_of(*key))
                + before.skip(seen),
        decreases before.len() - seen,
    {
        let ghost current = entry_views(entries@);
        assert(current[next as int] == before.skip(seen)[0]);
        assert(before.take(seen + 1).drop_last() == before.take(seen));
        let id_clash = match attribute_value_id {
            Some(id) => entries[next].attribute_value_id == id,
            None => false,
        };
        let key_clash = key.is_some() && same_text(&entries[next].key, key);
        if id_clash || key_clash {
            entries.remove(next);
            assert(entry_views(entries@) == current.remove(next as int));
        } else {
            next = next + 1;
        }
        proof {
            seen = seen + 1;
        }
    }
}

impl IndexMap {
    /// What holds of every index: no child and no key occurs in two entries.
    #[verifier::type_invariant]
    pub open spec fn entries_are_distinct(self) -> bool {
        distinct(self@)
    }

    /// An index without children.
    pub fn new() -> (index_map: IndexMap)
        ensures
            index_map@ == Seq::<IndexEntryView>::empty(),
    {
        IndexMap { entries: Vec::new() }
    }

    /// The number of children. No child and no key is counted twice.
    pub fn len(&self) -> (len: usize)
        ensures
            len == self@.len(),
            distinct(self@),
    {
        proof {
            use_type_invariant(self);
        }
        self.entries.len()
    }

    /// The entry at a position, if the position is within the index.
    pub fn get(&self, position: usize) -> (entry: Option<&IndexEntry>)
        ensures
            match entry {
                Some(found) => position < self@.len() && found@ == self@[position as int],
                None => position >= self@.len(),
            },
    {
        if position < self.entries.len() {
            Some(&self.entries[position])
        } else {
            None
        }
    }

    /// Lists a child at the end of the index. An entry that already names the
    /// child, or that is stored under the same key, is taken out first.
    pub fn push(&mut self, attribute_value_id: AttributeValueId, key: Option<String>)
        ensures
            final(self)@ == pushed(old(self)@, attribute_value_id, text_of(key)),
            distinct(final(self)@),
    {
        proof {
            use_type_invariant(&*self);
            lemma_pushed_is_distinct(self@, attribute_value_id, text_of(key));
        }
        let mut entries: Vec<IndexEntry> = Vec::new();
        core::mem::swap(&mut entries, &mut self.entries);
        discard(&mut entries, Some(attribute_value_id), &key);
        let ghost kept = entry_views(entries@);
        entries.push(IndexEntry { attribute_value_id, key });
        assert(entry_views(entries@) == kept.push(
            IndexEntryView { attribute_value_id, key: text_of(key) },
        ));
        self.entries = entries;
    }

    /// Takes a child out of the index; the others keep their order.
    pub fn remove(&mut self, attribute_value_id: AttributeValueId)
        ensures
            final(self)@ == without(old(self)@, Some(attribute_value_id), None),
            distinct(final(self)@),
    {
        proof {
            use_type_invariant(&*self);
            lemma_without_keeps_distinct(self@, Some(attribute_value_id), None);
        }
        let mut entries: Vec<IndexEntry> = Vec::new();
        core::mem::swap(&mut entries, &mut self.entries);
        discard(&mut entries, Some(attribute_value_id), &None);
        self.entries = entries;
    }

    /// Takes the child stored under a key out of the index; the others keep their order.
    pub fn remove_key(&mut self, key: String)
        ensures
            final(self)@ == without(old(self)@, None, Some(key@)),
            distinct(final(self)@),
    {
        proof {
            use_type_invariant(&*self);
            lemma_without_keeps_distinct(self@, None, Some(key@));
        }
        let key = Some(key);
        let mut entries: Vec<IndexEntry> = Vec::new();
        core::mem::swap(&mut entries, &mut self.entries);
        discard(&mut entries, None, &key);
        self.entries = entries;
    }

    /// The children in order.
    pub fn order(&self) -> (order: Vec<AttributeValueId>)
        ensures
            order@.len() == self@.len(),
            forall|i: int| 0 <= i < self@.len() ==> order@[i] == self@[i].attribute_value_id,
    {
        let mut order: Vec<AttributeValueId> = Vec::new();
        let mut i: usize = 0;
        while i < self.entries.len()
            invariant
                i <= self.entries.len(),
                order@.len() == i,
                forall|k: int| 0 <= k < i ==> order@[k] == self@[k].attribute_value_id,
            decreases self.entries.len() - i,
        {
            order.push(self.entries[i].attribute_value_id);
            i = i + 1;
        }
        order
    }

    /// The keys of the children in order; an array child has none.
    pub fn keys(&self) -> (keys: Vec<Option<String>>)
        ensures
            keys@.len() == self@.len(),
            forall|i: int| 0 <= i < self@.len() ==> text_of(keys@[i]) == self@[i].key,
    {
        let mut keys: Vec<Option<String>> = Vec::new();
        let mut i: usize = 0;
        while i < self.entries.len()
            invariant
                i <= self.entries.len(),
                keys@.len() == i,
                forall|k: int| 0 <= k < i ==> text_of(keys@[k]) == self@[k].key,
            decreases self.entries.len() - i,
        {
            keys.push(copy_text(&self.entries[i].key));
            i = i + 1;
        }
        keys
    }

    /// The position of a child: how many children come before it.
    pub fn position(&self, attribute_value_id: AttributeValueId) -> (position: Option<usize>)
        ensures
            match position {
                Some(p) => p < self@.len() && self@[p as int].attribute_value_id
                    == attribute_value_id && forall|i: int|
                    0 <= i < p ==> self@[i].attribute_value_id != attribute_value_id,
                None => forall|i: int|
                    0 <= i < self@.len() ==> self@[i].attribute_value_id != attribute_value_id,
            },
    {
        let mut i: usize = 0;
        while i < self.entries.len()
            invariant
                i <= self.entries.len(),
                forall|k: int| 0 <= k < i ==> self@[k].attribute_value_id != attribute_value_id,
            decreases self.entries.len() - i,
        {
            if self.entries[i].attribute_value_id == attribute_value_id {
                return Some(i);
            }
            i = i + 1;
        }
        None
    }
}

impl Clone for IndexEntry {
    fn clone(&self) -> (copy: IndexEntry)
        ensures
            copy@ == self@,
    {
        IndexEntry { attribute_value_id: self.attribute_value_id, key: copy_text(&self.key) }
    }
}

impl Clone for IndexMap {
    /// An index with the same entries.
    fn clone(&self) -> (copy: IndexMap)
        ensures
            copy@ == self@,
            distinct(copy@),
    {
        proof {
            use_type_invariant(self);
        }
        let mut entries: Vec<IndexEntry> = Vec::new();
        let mut i: usize = 0;
        while i < self.entries.len()
            invariant
                i <= self.entries.len(),
                entries@.len() == i,
                forall|k: int| 0 <= k < i ==> entries@[k]@ == self@[k],
            decreases self.entries.len() - i,
        {
            entries.push(self.entries[i].clone());
            i = i + 1;
        }
        assert(entry_views(entries@) =~= self@);
        IndexMap { entries }
    }
}

} // verus!
