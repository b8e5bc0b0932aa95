//! The value tree: keyed nodes, lists, text and scalar leaves.
//!
//! [`Value`] is the executable tree. Its view, [`Tree`], is the mathematical
//! value it stands for: a keyed node is a finite map from key to subtree, so
//! the order in which a [`ValueMap`] happens to hold its entries is not part of
//! the view.
use vstd::prelude::*;

verus! {

/// The flavour of a keyed node. Two keyed nodes are compared entry by entry
/// only when their flavours agree.
#[derive(Clone, Copy, Debug, PartialEq, Eq, Structural)]
pub enum MapType {
    /// An ordinary keyed node.
    Plain,
    /// A keyed node whose backend keeps its keys in order.
    Sorted,
    /// A table of rows.
    Table,
}

/// A position inside a list or text that follows the element it points at.
#[derive(Debug, PartialEq)]
pub struct Cursor {
    /// The index the cursor pointed at when it was last read.
    pub index: u32,
    /// The identifier of the list or text.
    pub object: String,
    /// The identifier of the element.
    pub elem_opid: String,
}

/// What a [`Cursor`] stands for.
pub ghost struct CursorView {
    pub index: u32,
    pub object: Seq<char>,
    pub elem_opid: Seq<char>,
}

impl View for Cursor {
    type V = CursorView;

    open spec fn view(&self) -> CursorView {
        CursorView { index: self.index, object: self.object@, elem_opid: self.elem_opid@ }
    }
}

impl Clone for Cursor {
    fn clone(&self) -> (copy: Self)
        ensures
            copy@ == self@,
    {
        Cursor {
            index: self.index,
            object: self.object.clone(),
            elem_opid: self.elem_opid.clone(),
        }
    }
}

/// A scalar leaf of a value tree. Floating-point numbers are held as the bits
/// of their IEEE-754 encoding.
#[derive(Debug)]
pub enum Primitive {
    Str(String),
    Int(i64),
    Uint(u64),
    F64(u64),
    F32(u32),
    Counter(i64),
    Timestamp(i64),
    Boolean(bool),
    Bytes(Vec<u8>),
    Cursor(Cursor),
    Null,
}

/// What a [`Primitive`] stands for.
pub ghost enum Scalar {
    Str(Seq<char>),
    Int(i64),
    Uint(u64),
    F64(u64),
    F32(u32),
    Counter(i64),
    Timestamp(i64),
    Boolean(bool),
    Bytes(Seq<u8>),
    Cursor(CursorView),
    Null,
}

impl View for Primitive {
    type V = Scalar;

    open spec fn view(&self) -> Scalar {
        match *self {
            Primitive::Str(s) => Scalar::Str(s@),
            Primitive::Int(i) => Scalar::Int(i),
            Primitive::Uint(u) => Scalar::Uint(u),
            Primitive::F64(bits) => Scalar::F64(bits),
            Primitive::F32(bits) => Scalar::F32(bits),
            Primitive::Counter(c) => Scalar::Counter(c),
            Primitive::Timestamp(t) => Scalar::Timestamp(t),
            Primitive::Boolean(b) => Scalar::Boolean(b),
            Primitive::Bytes(bytes) => Scalar::Bytes(bytes@),
            Primitive::Cursor(cursor) => Scalar::Cursor(cursor@),
            Primitive::Null => Scalar::Null,
        }
    }
}

impl Clone for Primitive {
    fn clone(&self) -> (copy: Self)
        ensures
            copy@ == self@,
    {
        match self {
            Primitive::Str(s) => Primitive::Str(s.clone()),
            Primitive::Int(i) => Primitive::Int(*i),
            Primitive::Uint(u) => Primitive::Uint(*u),
            Primitive::F64(bits) => Primitive::F64(*bits),
            Primitive::F32(bits) => Primitive::F32(*bits),
            Primitive::Counter(c) => Primitive::Counter(*c),
            Primitive::Timestamp(t) => Primitive::Timestamp(*t),
            Primitive::Boolean(b) => Primitive::Boolean(*b),
            Primitive::Bytes(bytes) => Primitive::Bytes(clone_bytes(bytes)),
            Primitive::Cursor(cursor) => Primitive::Cursor(cursor.clone()),
            Primitive::Null => Primitive::Null,
        }
    }
}

/// Copies a byte string.
pub fn clone_bytes(bytes: &Vec<u8>) -> (copy: Vec<u8>)
    ensures
        copy@ == bytes@,
{
    let mut copy: Vec<u8> = Vec::new();
    let mut i: usize = 0;
    while i < bytes.len()
        invariant
            i <= bytes.len(),
            copy@ == bytes@.subrange(0, i as int),
        decreases bytes.len() - i,
    {
        copy.push(bytes[i]);
        i += 1;
    }
    copy
}

/// Copies a list of strings.
pub fn clone_strings(strings: &Vec<String>) -> (copy: Vec<String>)
    ensures
        string_views(copy@) == string_views(strings@),
{
    let mut copy: Vec<String> = Vec::new();
    let mut i: usize = 0;
    while i < strings.len()
        invariant
            i <= strings.len(),
            copy.len() == i,
            forall|j: int| 0 <= j < i ==> copy@[j]@ == strings@[j]@,
        decreases strings.len() - i,
    {
        copy.push(strings[i].clone());
        i += 1;
    }
    assert(string_views(copy@) =~= string_views(strings@));
    copy
}

/// The character sequences of a list of strings.
pub open spec fn string_views(strings: Seq<String>) -> Seq<Seq<char>> {
    Seq::new(strings.len(), |i: int| strings[i]@)
}

/// A keyed node's entries. No key occurs twice.
#[derive(Debug)]
pub struct ValueMap {
    entries: Vec<(String, Value)>,
}

/// A value tree.
#[derive(Debug)]
pub enum Value {
    /// A keyed node of the given flavour.
    Mapping(MapType, ValueMap),
    /// An ordered list of subtrees.
    List(Vec<Value>),
    /// Text, one grapheme cluster per element.
    Text(Vec<String>),
    /// A scalar leaf.
    Primitive(Primitive),
}

/// What a [`Value`] stands for.
pub ghost enum Tree {
    Mapping(MapType, Map<Seq<char>, Tree>),
    List(Seq<Tree>),
    Text(Seq<Seq<char>>),
    Primitive(Scalar),
}

/// Some entry of `entries` has the key `key`.
pub open spec fn has_key(entries: Seq<(String, Value)>, key: Seq<char>) -> bool {
    exists|i: int| 0 <= i < entries.len() && #[trigger] entries[i].0@ == key
}

/// The index in `entries` of an entry with the key `key`, where there is one.
pub open spec fn key_index(entries: Seq<(String, Value)>, key: Seq<char>) -> int {
    choose|i: int| 0 <= i < entries.len() && #[trigger] entries[i].0@ == key
}

/// No two entries of `entries` have the same key.
pub open spec fn distinct_keys(entries: Seq<(String, Value)>) -> bool {
    forall|i: int, j: int|
        0 <= i < entries.len() && 0 <= j < entries.len() && #[trigger] entries[i].0@
            == #[trigger] entries[j].0@ ==> i == j
}

/// The tree that a value stands for.
pub open spec fn tree_of(value: Value) -> Tree
    decreases value,
{
    match value {
        Value::Mapping(kind, map) => Tree::Mapping(kind, entries_tree(map.entries())),
        Value::List(items) => Tree::List(items_tree(items@)),
        Value::Text(graphemes) => Tree::Text(string_views(graphemes@)),
        Value::Primitive(primitive) => Tree::Primitive(primitive@),
    }
}

/// The trees of a list's items, in order.
pub open spec fn items_tree(items: Seq<Value>) -> Seq<Tree>
    decreases items,
{
    Seq::new(
        items.len(),
        |i: int|
            if 0 <= i < items.len() {
                tree_of(items[i])
            } else {
                Tree::Primitive(Scalar::Null)
            },
    )
}

/// The map from each key of `entries` to the tree of its value.
pub open spec fn entries_tree(entries: Seq<(String, Value)>) -> Map<Seq<char>, Tree>
    decreases entries,
{
    Map::new(
        |key: Seq<char>| has_key(entries, key),
        |key: Seq<char>|
            if has_key(entries, key) {
                tree_of(entries[key_index(entries, key)].1)
            } else {
                Tree::Primitive(Scalar::Null)
            },
    )
}

/// No keyed node in the value, at any depth, holds a key twice.
pub open spec fn well_formed(value: Value) -> bool
    decreases value,
{
    match value {
        Value::Mapping(_, map) => well_formed_entries(map.entries()),
        Value::List(items) => well_formed_items(items@),
        Value::Text(_) => true,
        Value::Primitive(_) => true,
    }
}

/// Every item of the list is well formed.
pub open spec fn well_formed_items(items: Seq<Value>) -> bool
    decreases items,
{
    forall|i: int| 0 <= i < items.len() ==> well_formed(#[trigger] items[i])
}

/// The keys are distinct and every value is well formed.
pub open spec fn well_formed_entries(entries: Seq<(String, Value)>) -> bool
    decreases entries,
{
    &&& distinct_keys(entries)
    &&& forall|i: int| 0 <= i < entries.len() ==> well_formed((#[trigger] entries[i]).1)
}

/// The keys of the entries, in order.
pub open spec fn keys_of(entries: Seq<(String, Value)>) -> Seq<Seq<char>> {
    Seq::new(entries.len(), |i: int| entries[i].0@)
}

/// A keyed node has finitely many keys.
pub proof fn lemma_entries_tree_finite(entries: Seq<(String, Value)>)
    ensures
        entries_tree(entries).dom().finite(),
{
    let keys = keys_of(entries);
    vstd::seq_lib::seq_to_set_is_finite(keys);
    assert forall|key: Seq<char>| has_key(entries, key) == keys.to_set().contains(key) by {
        if has_key(entries, key) {
            let i = key_index(entries, key);
            assert(keys[i] == key);
        }
        if keys.contains(key) {
            let i = choose|i: int| 0 <= i < keys.len() && keys[i] == key;
            assert(entries[i].0@ == key);
        }
    }
    assert(entries_tree(entries).dom() =~= keys.to_set());
}

/// The subtree under a key of a keyed node with finitely many keys is smaller
/// than the node, so that a recursion over a tree may pass through it.
pub proof fn lemma_mapping_decreases(tree: Tree, key: Seq<char>)
    requires
        tree is Mapping,
        tree->Mapping_1.dom().finite(),
        tree->Mapping_1.dom().contains(key),
    ensures
        decreases_to!(tree => tree->Mapping_1[key]),
{
    vstd::map::axiom_map_index_decreases_finite(tree->Mapping_1, key);
    assert(decreases_to!(tree => tree->Mapping_1));
}

/// Where keys are distinct, the entry at index `i` is the one found by its key.
pub proof fn lemma_key_index(entries: Seq<(String, Value)>, i: int)
    requires
        distinct_keys(entries),
        0 <= i < entries.len(),
    ensures
        has_key(entries, entries[i].0@),
        key_index(entries, entries[i].0@) == i,
        entries_tree(entries).dom().contains(entries[i].0@),
        entries_tree(entries)[entries[i].0@] == tree_of(entries[i].1),
{
    let key = entries[i].0@;
    assert(entries[i].0@ == key);
    let found = key_index(entries, key);
    assert(entries[found].0@ == entries[i].0@);
}

/// A key that the entries hold is held at its index.
pub proof fn lemma_key_found(entries: Seq<(String, Value)>, key: Seq<char>)
    requires
        has_key(entries, key),
    ensures
        0 <= key_index(entries, key) < entries.len(),
        entries[key_index(entries, key)].0@ == key,
        entries_tree(entries).dom().contains(key),
        entries_tree(entries)[key] == tree_of(entries[key_index(entries, key)].1),
{
}

/// Two entry lists with the same keys in the same order, and values that stand
/// for the same trees, stand for the same map.
pub proof fn lemma_entries_tree_pointwise(a: Seq<(String, Value)>, b: Seq<(String, Value)>)
    requires
        distinct_keys(a),
        a.len() == b.len(),
        forall|i: int| 0 <= i < a.len() ==> (#[trigger] a[i]).0@ == b[i].0@,
        forall|i: int| 0 <= i < a.len() ==> tree_of((#[trigger] a[i]).1) == tree_of(b[i].1),
    ensures
        distinct_keys(b),
        entries_tree(a) == entries_tree(b),
{
    assert(distinct_keys(b)) by {
        assert forall|i: int, j: int|
            0 <= i < b.len() && 0 <= j < b.len() && #[trigger] b[i].0@
                == #[trigger] b[j].0@ implies i == j by {
            assert(a[i].0@ == b[i].0@);
            assert(a[j].0@ == b[j].0@);
        }
    }
    assert forall|key: Seq<char>| has_key(a, key) == has_key(b, key) by {
        if has_key(a, key) {
            let i = key_index(a, key);
            assert(a[i].0@ == b[i].0@);
        }
        if has_key(b, key) {
            let i = key_index(b, key);
            assert(a[i].0@ == b[i].0@);
        }
    }
    assert forall|key: Seq<char>| has_key(a, key) implies entries_tree(a)[key] == entries_tree(
        b,
    )[key] by {
        let i = key_index(a, key);
        assert(a[i].0@ == b[i].0@);
        lemma_key_index(b, i);
    }
    assert(entries_tree(a) =~= entries_tree(b));
}

/// Adding an entry under a fresh key adds it to the map.
pub proof fn lemma_entries_tree_push(entries: Seq<(String, Value)>, key: String, value: Value)
    requires
        distinct_keys(entries),
        !has_key(entries, key@),
    ensures
        distinct_keys(entries.push((key, value))),
        entries_tree(entries.push((key, value))) == entries_tree(entries).insert(
            key@,
            tree_of(value),
        ),
{
    let after = entries.push((key, value));
    let last = entries.len() as int;
    assert(distinct_keys(after)) by {
        assert forall|i: int, j: int|
            0 <= i < after.len() && 0 <= j < after.len() && #[trigger] after[i].0@
                == #[trigger] after[j].0@ implies i == j by {
            if i < last && j < last {
                assert(entries[i].0@ == entries[j].0@);
            } else if i < last {
                assert(entries[i].0@ == key@);
            } else if j < last {
                assert(entries[j].0@ == key@);
            }
        }
    }
    assert forall|k: Seq<char>| has_key(after, k) == (k == key@ || has_key(entries, k)) by {
        if has_key(after, k) {
            let i = key_index(after, k);
            if i < last {
                assert(entries[i].0@ == k);
            }
        }
        if has_key(entries, k) {
            let i = key_index(entries, k);
            assert(after[i].0@ == k);
        }
        if k == key@ {
            assert(after[last].0@ == k);
        }
    }
    assert forall|k: Seq<char>| has_key(after, k) implies entries_tree(after)[k]
        == entries_tree(entries).insert(key@, tree_of(value))[k] by {
        let i = key_index(after, k);
        if k == key@ {
            assert(after[last].0@ == k);
            assert(i == last);
        } else {
            let j = key_index(entries, k);
            assert(after[j].0@ == k);
            assert(i == j);
        }
    }
    assert(entries_tree(after) =~= entries_tree(entries).insert(key@, tree_of(value)));
}

/// Replacing the value of the entry at index `i` replaces it in the map.
pub proof fn lemma_entries_tree_update(
    entries: Seq<(String, Value)>,
    i: int,
    key: String,
    value: Value,
)
    requires
        distinct_keys(entries),
        0 <= i < entries.len(),
        entries[i].0@ == key@,
    ensures
        distinct_keys(entries.update(i, (key, value))),
        entries_tree(entries.update(i, (key, value))) == entries_tree(entries).insert(
            key@,
            tree_of(value),
        ),
{
    let after = entries.update(i, (key, value));
    assert forall|j: int| 0 <= j < after.len() implies (#[trigger] after[j]).0@
        == entries[j].0@ by {}
    assert(distinct_keys(after)) by {
        assert forall|a: int, b: int|
            0 <= a < after.len() && 0 <= b < after.len() && #[trigger] after[a].0@
                == #[trigger] after[b].0@ implies a == b by {
            assert(entries[a].0@ == entries[b].0@);
        }
    }
    assert forall|k: Seq<char>| has_key(after, k) == has_key(entries, k) by {
        if has_key(after, k) {
            let j = key_index(after, k);
            assert(entries[j].0@ == k);
        }
        if has_key(entries, k) {
            let j = key_index(entries, k);
            assert(after[j].0@ == k);
        }
    }
    assert(has_key(entries, key@));
    assert forall|k: Seq<char>| has_key(after, k) implies entries_tree(after)[k]
        == entries_tree(entries).insert(key@, tree_of(value))[k] by {
        let j = key_index(after, k);
        let old_j = key_index(entries, k);
        assert(entries[j].0@ == k);
        assert(j == old_j);
        if k == key@ {
            assert(j == i);
        }
    }
    assert(entries_tree(after) =~= entries_tree(entries).insert(key@, tree_of(value)));
}

/// Taking out the entry at index `i` takes its key out of the map.
pub proof fn lemma_entries_tree_remove(entries: Seq<(String, Value)>, i: int)
    requires
        distinct_keys(entries),
        0 <= i < entries.len(),
    ensures
        distinct_keys(entries.remove(i)),
        !has_key(entries.remove(i), entries[i].0@),
        entries_tree(entries.remove(i)) == entries_tree(entries).remove(entries[i].0@),
{
    let after = entries.remove(i);
    let gone = entries[i].0@;
    assert forall|j: int| 0 <= j < after.len() implies (#[trigger] after[j]) == entries[if j
        < i {
        j
    } else {
        j + 1
    }] by {}
    assert(distinct_keys(after)) by {
        assert forall|a: int, b: int|
            0 <= a < after.len() && 0 <= b < after.len() && #[trigger] after[a].0@
                == #[trigger] after[b].0@ implies a == b by {
            let a0 = if a < i { a } else { a + 1 };
            let b0 = if b < i { b } else { b + 1 };
            assert(entries[a0].0@ == entries[b0].0@);
        }
    }
    assert forall|k: Seq<char>| has_key(after, k) == (k != gone && has_key(entries, k)) by {
        if has_key(after, k) {
            let j = key_index(after, k);
            let j0 = if j < i { j } else { j + 1 };
            assert(entries[j0].0@ == k);
            if k == gone {
                assert(entries[j0].0@ == entries[i].0@);
            }
        }
        if k != gone && has_key(entries, k) {
            let j0 = key_index(entries, k);
            let j = if j0 < i { j0 } else { j0 - 1 };
            assert(after[j].0@ == k);
        }
    }
    assert forall|k: Seq<char>| has_key(after, k) implies entries_tree(after)[k]
        == entries_tree(entries).remove(gone)[k] by {
        let j = key_index(after, k);
        let j0 = if j < i { j } else { j + 1 };
        assert(entries[j0].0@ == k);
        assert(key_index(entries, k) == j0);
    }
    assert(entries_tree(after) =~= entries_tree(entries).remove(gone));
}

impl View for ValueMap {
    type V = Map<Seq<char>, Tree>;

    open spec fn view(&self) -> Map<Seq<char>, Tree> {
        entries_tree(self.entries())
    }
}

impl View for Value {
    type V = Tree;

    open spec fn view(&self) -> Tree {
        tree_of(*self)
    }
}

impl ValueMap {
    /// The entries in the order in which the node holds them.
    pub closed spec fn entries(self) -> Seq<(String, Value)> {
        self.entries@
    }

    /// The invariant of the type: no key occurs twice.
    #[verifier::type_invariant]
    pub open spec fn keys_are_distinct(self) -> bool {
        distinct_keys(self.entries())
    }

    /// A node's entries are smaller than the node, so that a recursion over a
    /// value tree may pass through a keyed node.
    pub proof fn lemma_entries_decrease(self)
        ensures
            decreases_to!(self => self.entries()),
    {
    }

    /// A keyed node without entries.
    pub fn new() -> (map: ValueMap)
        ensures
            map.entries() == Seq::<(String, Value)>::empty(),
            map@ == Map::<Seq<char>, Tree>::empty(),
    {
        let map = ValueMap { entries: Vec::new() };
        assert(map@ =~= Map::<Seq<char>, Tree>::empty());
        map
    }

    /// The number of entries.
    pub fn len(&self) -> (n: usize)
        ensures
            n == self.entries().len(),
    {
        self.entries.len()
    }

    /// Whether the node has no entry.
    pub fn is_empty(&self) -> (empty: bool)
        ensures
            empty == (self.entries().len() == 0),
    {
        self.entries.len() == 0
    }

    /// The key of the entry at index `i`.
    pub fn key_at(&self, i: usize) -> (key: &String)
        requires
            i < self.entries().len(),
        ensures
            *key == self.entries()[i as int].0,
    {
        &self.entries[i].0
    }

    /// The value of the entry at index `i`.
    pub fn value_at(&self, i: usize) -> (value: &Value)
        requires
            i < self.entries().len(),
        ensures
            *value == self.entries()[i as int].1,
    {
        &self.entries[i].1
    }

    /// The index of the entry with the key `key`.
    pub fn position(&self, key: &str) -> (found: Option<usize>)
        ensures
            self.keys_are_distinct(),
            match found {
                Some(i) => i < self.entries().len() && has_key(self.entries(), key@)
                    && i == key_index(self.entries(), key@),
                None => !has_key(self.entries(), key@),
            },
    {
        proof {
            use_type_invariant(self);
        }
        let wanted = key.to_owned();
        let mut i: usize = 0;
        while i < self.entries.len()
            invariant
                i <= self.entries.len(),
                wanted@ == key@,
                distinct_keys(self.entries@),
                forall|j: int| 0 <= j < i ==> (#[trigger] self.entries@[j]).0@ != key@,
            decreases self.entries.len() - i,
        {
            if self.entries[i].0 == wanted {
                proof {
                    lemma_key_index(self.entries@, i as int);
                }
                return Some(i);
            }
            i += 1;
        }
        None
    }

    /// The value under `key`, if the node has that key.
    pub fn get(&self, key: &str) -> (found: Option<&Value>)
        ensures
            match found {
                Some(value) => has_key(self.entries(), key@) && *value == self.entries()[key_index(
                    self.entries(),
                    key@,
                )].1 && self@.dom().contains(key@) && self@[key@] == value@,
                None => !has_key(self.entries(), key@) && !self@.dom().contains(key@),
            },
    {
        match self.position(key) {
            Some(i) => Some(&self.entries[i].1),
            None => None,
        }
    }

    /// Whether the node has the key `key`.
    pub fn contains_key(&self, key: &str) -> (found: bool)
        ensures
            found == has_key(self.entries(), key@),
            found == self@.dom().contains(key@),
    {
        self.position(key).is_some()
    }

    /// Moves the entries out and leaves the node empty.
    fn take_entries(&mut self) -> (entries: Vec<(String, Value)>)
        ensures
            entries@ == old(self).entries(),
            distinct_keys(entries@),
    {
        proof {
            use_type_invariant(&*self);
        }
        let mut taken = ValueMap { entries: Vec::new() };
        std::mem::swap(self, &mut taken);
        taken.entries
    }

    /// Puts `value` under `key`. Returns the value that was there before.
    pub fn insert(&mut self, key: String, value: Value) -> (before: Option<Value>)
        ensures
            final(self)@ == old(self)@.insert(key@, value@),
            match before {
                Some(previous) => has_key(old(self).entries(), key@) && previous == old(
                    self,
                ).entries()[key_index(old(self).entries(), key@)].1 && final(self).entries()
                    == old(self).entries().update(
                    key_index(old(self).entries(), key@),
                    (key, value),
                ),
                None => !has_key(old(self).entries(), key@) && final(self).entries() == old(
                    self,
                ).entries().push((key, value)),
            },
    {
        match self.position(key.as_str()) {
            Some(i) => {
                proof {
                    lemma_entries_tree_update(self.entries@, i as int, key, value);
                }
                let mut entries = self.take_entries();
                let mut slot = (key, value);
                std::mem::swap(&mut entries[i], &mut slot);
                *self = ValueMap { entries };
                Some(slot.1)
            },
            None => {
                proof {
                    lemma_entries_tree_push(self.entries@, key, value);
                }
                let mut entries = self.take_entries();
                entries.push((key, value));
                *self = ValueMap { entries };
                None
            },
        }
    }

    /// Takes out the entry under `key`. Returns its value.
    pub fn remove(&mut self, key: &str) -> (before: Option<Value>)
        ensures
            final(self)@ == old(self)@.remove(key@),
            match before {
                Some(previous) => has_key(old(self).entries(), key@) && previous == old(
                    self,
                ).entries()[key_index(old(self).entries(), key@)].1 && final(self).entries()
                    == old(self).entries().remove(key_index(old(self).entries(), key@)),
                None => !has_key(old(self).entries(), key@) && final(self).entries() == old(
                    self,
                ).entries(),
            },
    {
        match self.position(key) {
            Some(i) => {
                proof {
                    lemma_entries_tree_remove(self.entries@, i as int);
                }
                let mut entries = self.take_entries();
                let entry = entries.remove(i);
                *self = ValueMap { entries };
                Some(entry.1)
            },
            None => {
                assert(self@ =~= self@.remove(key@));
                None
            },
        }
    }
}

/// Copies a value tree.
pub fn clone_value(value: &Value) -> (copy: Value)
    ensures
        copy@ == value@,
    decreases value,
{
    match value {
        Value::Mapping(kind, map) => Value::Mapping(*kind, clone_map(map)),
        Value::List(items) => {
            let mut copy: Vec<Value> = Vec::new();
            let mut i: usize = 0;
            while i < items.len()
                invariant
                    i <= items.len(),
                    copy.len() == i,
                    *value == Value::List(*items),
                    forall|j: int| 0 <= j < i ==> tree_of(#[trigger] copy@[j]) == tree_of(items@[j]),
                decreases items.len() - i,
            {
                proof {
                    vstd::std_specs::vec::axiom_vec_index_decreases(*items, i as int);
                    assert(decreases_to!(*value => value->List_0));
                }
                let item = clone_value(&items[i]);
                copy.push(item);
                i += 1;
            }
            assert(items_tree(copy@) =~= items_tree(items@));
            Value::List(copy)
        },
        Value::Text(graphemes) => Value::Text(clone_strings(graphemes)),
        Value::Primitive(primitive) => Value::Primitive(primitive.clone()),
    }
}

/// Copies a keyed node, entry by entry and in the same order.
pub fn clone_map(map: &ValueMap) -> (copy: ValueMap)
    ensures
        copy@ == map@,
        copy.entries().len() == map.entries().len(),
        forall|i: int|
            0 <= i < map.entries().len() ==> (#[trigger] copy.entries()[i]).0@
                == map.entries()[i].0@ && tree_of(copy.entries()[i].1) == tree_of(
                map.entries()[i].1,
            ),
    decreases map,
{
    proof {
        use_type_invariant(map);
    }
    let mut entries: Vec<(String, Value)> = Vec::new();
    let mut i: usize = 0;
    while i < map.entries.len()
        invariant
            i <= map.entries.len(),
            entries.len() == i,
            forall|j: int|
                0 <= j < i ==> (#[trigger] entries@[j]).0@ == map.entries@[j].0@ && tree_of(
                    entries@[j].1,
                ) == tree_of(map.entries@[j].1),
        decreases map.entries.len() - i,
    {
        let key = map.entries[i].0.clone();
        let value = clone_value(&map.entries[i].1);
        entries.push((key, value));
        i += 1;
    }
    proof {
        lemma_entries_tree_pointwise(map.entries@, entries@);
    }
    ValueMap { entries }
}

/// Walks a value and confirms that it is well formed: every keyed node that the
/// program holds has distinct keys, so every value has. A caller that holds
/// a value can so apply to it what is proved of well-formed values.
pub fn confirm_well_formed(value: &Value)
    ensures
        well_formed(*value),
    decreases value,
{
    match value {
        Value::Mapping(_, map) => {
            proof {
                use_type_invariant(map);
            }
            let mut i: usize = 0;
            while i < map.entries.len()
                invariant
                    i <= map.entries.len(),
                    value is Mapping,
                    value->Mapping_1 == *map,
                    forall|j: int| 0 <= j < i ==> well_formed((#[trigger] map.entries@[j]).1),
                decreases map.entries.len() - i,
            {
                proof {
                    assert(decreases_to!(*value => value->Mapping_1));
                    vstd::std_specs::vec::axiom_vec_index_decreases(map.entries, i as int);
                    assert(decreases_to!(map.entries@[i as int] => map.entries@[i as int].1));
                }
                confirm_well_formed(&map.entries[i].1);
                i += 1;
            }
        },
        Value::List(items) => {
            let mut i: usize = 0;
            while i < items.len()
                invariant
                    i <= items.len(),
                    value is List,
                    value->List_0 == *items,
                    forall|j: int| 0 <= j < i ==> well_formed(#[trigger] items@[j]),
                decreases items.len() - i,
            {
                proof {
                    assert(decreases_to!(*value => value->List_0));
                    vstd::std_specs::vec::axiom_vec_index_decreases(*items, i as int);
                }
                confirm_well_formed(&items[i]);
                i += 1;
            }
        },
        Value::Text(_) => {},
        Value::Primitive(_) => {},
    }
}

impl Clone for ValueMap {
    fn clone(&self) -> (copy: Self)
        ensures
            copy@ == self@,
    {
        clone_map(self)
    }
}

impl Clone for Value {
    fn clone(&self) -> (copy: Self)
        ensures
            copy@ == self@,
    {
        clone_value(self)
    }
}

} // verus!
