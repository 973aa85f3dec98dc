use vstd::prelude::*;

verus! {

/// A value of a configuration document as the library sees it.
#[derive(Debug, PartialEq)]
pub enum Item {
    Text(String),
    Integer(i64),
    /// A floating-point value, kept as its IEEE-754 bit pattern.
    Float(u64),
    Boolean(bool),
    /// A date or time, kept as its textual form.
    Datetime(String),
    Array(Vec<Item>),
    /// A table: its entries in document order. A parsed document has distinct keys;
    /// lookups and keyed inserts go by the first entry under a key.
    Table(Vec<(String, Item)>),
}

/// The mathematical model of an `Item`.
pub enum Tree {
    Text(Seq<char>),
    Integer(int),
    Float(u64),
    Boolean(bool),
    Datetime(Seq<char>),
    Array(Seq<Tree>),
    Table(Seq<(Seq<char>, Tree)>),
}

impl View for Item {
    type V = Tree;

    open spec fn view(&self) -> Tree
        decreases self,
    {
        match self {
            Item::Text(s) => Tree::Text(s@),
            Item::Integer(i) => Tree::Integer(*i as int),
            Item::Float(b) => Tree::Float(*b),
            Item::Boolean(b) => Tree::Boolean(*b),
            Item::Datetime(s) => Tree::Datetime(s@),
            Item::Array(v) => Tree::Array(items_view(v@)),
            Item::Table(v) => Tree::Table(entries_view(v@)),
        }
    }
}

/// The model of a sequence of items, element by element.
pub open spec fn items_view(s: Seq<Item>) -> Seq<Tree>
    decreases s,
{
    if s.len() == 0 {
        Seq::empty()
    } else {
        items_view(s.drop_last()).push(s.last().view())
    }
}

/// The model of a table's entries, entry by entry.
pub open spec fn entries_view(s: Seq<(String, Item)>) -> Seq<(Seq<char>, Tree)>
    decreases s,
{
    if s.len() == 0 {
        Seq::empty()
    } else {
        entries_view(s.drop_last()).push((s.last().0@, s.last().1.view()))
    }
}


/// Whether some entry of `s` has the key `key`.
pub open spec fn has_key(s: Seq<(Seq<char>, Tree)>, key: Seq<char>) -> bool {
    exists|i: int| 0 <= i < s.len() && s[i].0 == key
}

/// The position of the first entry of `s` with the key `key` (meaningful when `has_key`).
pub open spec fn first_index(s: Seq<(Seq<char>, Tree)>, key: Seq<char>) -> int {
    choose|i: int| 0 <= i < s.len() && s[i].0 == key && forall|j: int| 0 <= j < i ==> s[j].0 != key
}

/// The value under `key`, taken from its first entry.
pub open spec fn get_entry(s: Seq<(Seq<char>, Tree)>, key: Seq<char>) -> Option<Tree> {
    if has_key(s, key) {
        Some(s[first_index(s, key)].1)
    } else {
        None
    }
}

/// Map semantics of a keyed insert: the first entry under `key` gets `value` in place;
/// without one, a new entry goes at the end.
pub open spec fn set_entry(s: Seq<(Seq<char>, Tree)>, key: Seq<char>, value: Tree) -> Seq<(Seq<char>, Tree)> {
    if has_key(s, key) {
        s.update(first_index(s, key), (key, value))
    } else {
        s.push((key, value))
    }
}

/// The first entry under a key is well defined once some entry has that key.
pub proof fn lemma_first_index(s: Seq<(Seq<char>, Tree)>, key: Seq<char>, i: int)
    requires
        0 <= i < s.len(),
        s[i].0 == key,
        forall|j: int| 0 <= j < i ==> s[j].0 != key,
    ensures
        has_key(s, key),
        first_index(s, key) == i,
{
    let k = first_index(s, key);
    assert(0 <= k < s.len() && s[k].0 == key && forall|j: int| 0 <= j < k ==> s[j].0 != key);
    if k < i {
        assert(s[k].0 != key);
    } else if k > i {
        assert(s[i].0 != key);
    }
}

/// Indexing the model of a sequence of entries.
pub proof fn lemma_entries_view(s: Seq<(String, Item)>)
    ensures
        entries_view(s).len() == s.len(),
        forall|i: int| 0 <= i < s.len() ==> #[trigger] entries_view(s)[i] == (s[i].0@, s[i].1@),
    decreases s.len(),
{
    if s.len() > 0 {
        lemma_entries_view(s.drop_last());
        assert(entries_view(s) == entries_view(s.drop_last()).push((s.last().0@, s.last().1@)));
        assert forall|i: int| 0 <= i < s.len() - 1 implies s.drop_last()[i] == s[i] by {}
    }
}

/// Indexing the model of a sequence of items.
pub proof fn lemma_items_view(s: Seq<Item>)
    ensures
        items_view(s).len() == s.len(),
        forall|i: int| 0 <= i < s.len() ==> #[trigger] items_view(s)[i] == s[i]@,
    decreases s.len(),
{
    if s.len() > 0 {
        lemma_items_view(s.drop_last());
        assert(items_view(s) == items_view(s.drop_last()).push(s.last()@));
        assert forall|i: int| 0 <= i < s.len() - 1 implies s.drop_last()[i] == s[i] by {}
    }
}

/// Looks up `key` among the entries of a table; returns the position of its first entry.
pub fn find_key(entries: &Vec<(String, Item)>, key: &String) -> (r: Option<usize>)
    ensures
        r.is_none() <==> !has_key(entries_view(entries@), key@),
        r.is_some() ==> entries@[r.unwrap() as int].0@ == key@,
        r.is_some() ==> r.unwrap() < entries.len() && r.unwrap() as int == first_index(
            entries_view(entries@),
            key@,
        ),
{
    proof {
        lemma_entries_view(entries@);
    }
    let ghost s = entries_view(entries@);
    let mut i: usize = 0;
    while i < entries.len()
        invariant
            0 <= i <= entries.len(),
            s == entries_view(entries@),
            s.len() == entries.len(),
            forall|j: int| 0 <= j < i ==> s[j].0 != key@,
        decreases entries.len() - i,
    {
        proof {
            lemma_entries_view(entries@);
        }
        if entries[i].0 == *key {
            proof {
                lemma_first_index(s, key@, i as int);
            }
            return Some(i);
        }
        i = i + 1;
    }
    None
}

/// Inserts `value` under `key` in a table, replacing the value of an entry already there.
pub fn set_key(entries: &mut Vec<(String, Item)>, key: String, value: Item)
    ensures
        entries_view(final(entries)@) == set_entry(entries_view(old(entries)@), key@, value@),
{
    proof {
        lemma_entries_view(old(entries)@);
    }
    let ghost s = entries_view(old(entries)@);
    let ghost kv = key@;
    let ghost vv = value@;
    match find_key(entries, &key) {
        Some(i) => {
            entries.set(i, (key, value));
            proof {
                lemma_entries_view(entries@);
                assert(entries_view(entries@) =~= s.update(i as int, (kv, vv)));
            }
        },
        None => {
            entries.push((key, value));
            proof {
                lemma_entries_view(entries@);
                assert(entries_view(entries@) =~= s.push((kv, vv)));
            }
        },
    }
}


/// Giving the first entry under a key a new value is the keyed insert of the model.
pub proof fn lemma_set_entry_at(before: Seq<(String, Item)>, i: int, value: Item)
    requires
        0 <= i < before.len(),
        has_key(entries_view(before), before[i].0@),
        first_index(entries_view(before), before[i].0@) == i,
    ensures
        entries_view(before.update(i, (before[i].0, value))) == set_entry(
            entries_view(before),
            before[i].0@,
            value@,
        ),
{
    let after = before.update(i, (before[i].0, value));
    lemma_entries_view(before);
    lemma_entries_view(after);
    assert(entries_view(after) =~= entries_view(before).update(i, (before[i].0@, value@)));
}

/// Takes the first entry under `key` out of a table, with its position.
pub fn take_entry(entries: &mut Vec<(String, Item)>, key: &String) -> (r: Option<(usize, String, Item)>)
    ensures
        r.is_none() <==> !has_key(entries_view(old(entries)@), key@),
        r.is_none() ==> final(entries)@ == old(entries)@,
        r.is_some() ==> {
            let (i, k, v) = r.unwrap();
            &&& i < old(entries)@.len()
            &&& old(entries)@[i as int] == (k, v)
            &&& k@ == key@
            &&& i as int == first_index(entries_view(old(entries)@), key@)
            &&& get_entry(entries_view(old(entries)@), key@) == Some(v@)
            &&& final(entries)@ == old(entries)@.remove(i as int)
        },
{
    match find_key(entries, key) {
        Some(i) => {
            proof {
                lemma_entries_view(entries@);
            }
            let (k, v) = entries.remove(i);
            Some((i, k, v))
        },
        None => None,
    }
}

/// Putting back an entry whose value has the same model leaves the model of the table as it was.
pub proof fn lemma_restore_entry(before: Seq<(String, Item)>, i: int, value: Item)
    requires
        0 <= i < before.len(),
        value@ == before[i].1@,
    ensures
        entries_view(before.update(i, (before[i].0, value))) == entries_view(before),
{
    let after = before.update(i, (before[i].0, value));
    lemma_entries_view(before);
    lemma_entries_view(after);
    assert(entries_view(after) =~= entries_view(before));
}

/// Where some entry has the key, the first such entry exists and is where `first_index` points.
pub proof fn lemma_first_index_exists(s: Seq<(Seq<char>, Tree)>, key: Seq<char>)
    requires
        has_key(s, key),
    ensures
        0 <= first_index(s, key) < s.len(),
        s[first_index(s, key)].0 == key,
        forall|j: int| 0 <= j < first_index(s, key) ==> s[j].0 != key,
    decreases s.len(),
{
    let t = s.drop_last();
    if has_key(t, key) {
        lemma_first_index_exists(t, key);
        let i = first_index(t, key);
        assert(s[i] == t[i]);
        assert forall|j: int| 0 <= j < i implies s[j].0 != key by {
            assert(s[j] == t[j]);
        }
        lemma_first_index(s, key, i);
    } else {
        let i = s.len() - 1;
        assert forall|j: int| 0 <= j < i implies s[j].0 != key by {
            assert(s[j] == t[j]);
        }
        if s[i].0 != key {
            let w = choose|w: int| 0 <= w < s.len() && s[w].0 == key;
            assert(t[w] == s[w]);
        }
        lemma_first_index(s, key, i);
    }
}

/// After a keyed insert the key is present and reads back the inserted value.
pub proof fn lemma_set_entry_get(s: Seq<(Seq<char>, Tree)>, key: Seq<char>, value: Tree)
    ensures
        has_key(set_entry(s, key, value), key),
        get_entry(set_entry(s, key, value), key) == Some(value),
        first_index(set_entry(s, key, value), key) == (if has_key(s, key) {
            first_index(s, key)
        } else {
            s.len() as int
        }),
{
    let t = set_entry(s, key, value);
    if has_key(s, key) {
        lemma_first_index_exists(s, key);
        let f = first_index(s, key);
        lemma_first_index(t, key, f);
    } else {
        assert forall|j: int| 0 <= j < s.len() implies t[j].0 != key by {
            assert(t[j] == s[j]);
        }
        lemma_first_index(t, key, s.len() as int);
    }
}

/// A keyed insert repeated with the same key and value changes nothing more.
pub proof fn lemma_set_entry_idempotent(s: Seq<(Seq<char>, Tree)>, key: Seq<char>, value: Tree)
    ensures
        set_entry(set_entry(s, key, value), key, value) == set_entry(s, key, value),
{
    let t = set_entry(s, key, value);
    lemma_set_entry_get(s, key, value);
    lemma_first_index_exists(t, key);
    assert(t.update(first_index(t, key), (key, value)) =~= t);
}

/// Whether no two entries of `s` have the key `key`.
pub open spec fn at_most_once(s: Seq<(Seq<char>, Tree)>, key: Seq<char>) -> bool {
    forall|i: int, j: int|
        0 <= i < s.len() && 0 <= j < s.len() && s[i].0 == key && s[j].0 == key ==> i == j
}

/// A keyed insert never makes a key appear twice.
pub proof fn lemma_set_entry_single(s: Seq<(Seq<char>, Tree)>, key: Seq<char>, value: Tree)
    requires
        at_most_once(s, key),
    ensures
        at_most_once(set_entry(s, key, value), key),
{
    let t = set_entry(s, key, value);
    if has_key(s, key) {
        lemma_first_index_exists(s, key);
        assert forall|i: int| 0 <= i < s.len() implies #[trigger] t[i].0 == s[i].0 by {}
    } else {
        assert forall|i: int| 0 <= i < s.len() implies #[trigger] t[i] == s[i] by {}
    }
}

} // verus!
