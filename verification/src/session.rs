//! The session: a bag of named, typed attributes, and the accessor that one
//! request reads and writes it through.
//!
//! The accessor works on a copy that lives as long as the request. Reads are
//! answered from the copy, writes change the copy and mark it, and the store
//! sees the outcome once, when the request is done.

use crate::text_map::{distinct_keys, has_key, index_of, lemma_index_of, without_key, TextMap};
use vstd::prelude::*;

verus! {

/// The value of an attribute.
#[derive(Debug, Clone, PartialEq, Eq)]
pub enum AttrValue {
    Bool(bool),
    Int(i64),
    Text(String),
}

/// What an attribute's value holds.
pub enum Value {
    Bool(bool),
    Int(int),
    Text(Seq<char>),
}

impl View for AttrValue {
    type V = Value;

    open spec fn view(&self) -> Value {
        match self {
            AttrValue::Bool(b) => Value::Bool(*b),
            AttrValue::Int(n) => Value::Int(*n as int),
            AttrValue::Text(s) => Value::Text(s@),
        }
    }
}

impl AttrValue {
    /// A second copy of the value.
    pub fn duplicate(&self) -> (r: AttrValue)
        ensures
            r@ == self@,
    {
        match self {
            AttrValue::Bool(b) => AttrValue::Bool(*b),
            AttrValue::Int(n) => AttrValue::Int(*n),
            AttrValue::Text(s) => AttrValue::Text(s.clone()),
        }
    }
}

/// The attributes of a session, by name.
pub type Attributes = Map<Seq<char>, Value>;

/// The boolean that `name` holds among `attrs`, if it holds one.
pub open spec fn bool_at(attrs: Attributes, name: Seq<char>) -> Option<bool> {
    if attrs.contains_key(name) {
        match attrs[name] {
            Value::Bool(b) => Some(b),
            _ => None,
        }
    } else {
        None
    }
}

/// The integer that `name` holds among `attrs`, if it holds one.
pub open spec fn int_at(attrs: Attributes, name: Seq<char>) -> Option<int> {
    if attrs.contains_key(name) {
        match attrs[name] {
            Value::Int(n) => Some(n),
            _ => None,
        }
    } else {
        None
    }
}

/// The attributes that a map of values stands for.
pub open spec fn attributes_of(map: Map<Seq<char>, AttrValue>) -> Attributes {
    map.map_values(|v: AttrValue| v@)
}

/// The attributes of one session, as the store keeps them.
#[derive(Debug)]
pub struct AttributeBag {
    map: TextMap<AttrValue>,
}

impl View for AttributeBag {
    type V = Attributes;

    closed spec fn view(&self) -> Attributes {
        attributes_of(self.map.map())
    }
}

impl AttributeBag {
    /// The names in the bag, in the order in which they were first set.
    pub closed spec fn names(&self) -> Seq<Seq<char>> {
        self.map.keys()
    }

    /// A bag without attributes.
    pub fn new() -> (r: AttributeBag)
        ensures
            r@ == Attributes::empty(),
            r.names() == Seq::<Seq<char>>::empty(),
    {
        let r = AttributeBag { map: TextMap::new() };
        assert(r@ =~= Attributes::empty());
        assert(r.names() =~= Seq::<Seq<char>>::empty());
        r
    }

    /// How many attributes the bag holds. Each name occurs once, and the names
    /// are those that the bag has a value for.
    pub fn len(&self) -> (n: usize)
        ensures
            n == self.names().len(),
            self.names().no_duplicates(),
            forall|name: Seq<char>| self@.contains_key(name) <==> self.names().contains(name),
    {
        let n = self.map.len();
        proof {
            let entries = self.map.entries();
            assert forall|name: Seq<char>| self@.contains_key(name) <==> self.names().contains(
                name,
            ) by {
                if self@.contains_key(name) {
                    let i = index_of(entries, name);
                    assert(self.names()[i] == name);
                }
                if self.names().contains(name) {
                    let i = choose|i: int| 0 <= i < self.names().len() && self.names()[i] == name;
                    assert(entries[i].key@ == name);
                }
            }
        }
        n
    }

    /// The name of the attribute at `index`.
    pub fn name_at(&self, index: usize) -> (name: &str)
        requires
            index < self.names().len(),
        ensures
            name@ == self.names()[index as int],
            self@.contains_key(name@),
    {
        self.map.key_at(index)
    }

    /// The value of the attribute at `index`.
    pub fn value_at(&self, index: usize) -> (value: &AttrValue)
        requires
            index < self.names().len(),
        ensures
            self@.contains_key(self.names()[index as int]),
            self@[self.names()[index as int]] == value@,
    {
        let _ = self.map.key_at(index);
        self.map.value_at(index)
    }

    /// The value that `name` holds, if it holds one.
    pub fn get(&self, name: &str) -> (r: Option<&AttrValue>)
        ensures
            r is Some == self@.contains_key(name@),
            r matches Some(value) ==> self@[name@] == value@,
    {
        self.map.get(name)
    }

    /// Gives `name` the value `value`, in place of what it held. A name that
    /// the bag has keeps its place, and a new name comes last.
    pub fn insert(&mut self, name: &str, value: AttrValue)
        ensures
            final(self)@ == old(self)@.insert(name@, value@),
            final(self).names() == (if old(self).names().contains(name@) {
                old(self).names()
            } else {
                old(self).names().push(name@)
            }),
    {
        let ghost before = self.map.map();
        self.map.insert(name, value);
        assert(attributes_of(before.insert(name@, value)) =~= attributes_of(before).insert(
            name@,
            value@,
        ));
    }

    /// Takes `name` out of the bag, if it is there. The other names keep their order.
    pub fn remove(&mut self, name: &str)
        ensures
            final(self)@ == old(self)@.remove(name@),
            final(self).names() == without_key(old(self).names(), name@),
    {
        let ghost before = self.map.map();
        self.map.remove(name);
        assert(attributes_of(before.remove(name@)) =~= attributes_of(before).remove(name@));
    }

    /// A second copy of the bag, with the names in the same order.
    pub fn duplicate(&self) -> (r: AttributeBag)
        ensures
            r@ == self@,
            r.names() == self.names(),
    {
        let mut copy = AttributeBag::new();
        let n = self.map.len();
        let mut i: usize = 0;
        while i < n
            invariant
                i <= n,
                n == self.map.entries().len(),
                distinct_keys(self.map.entries()),
                copy.names() == self.names().take(i as int),
                forall|name: Seq<char>|
                    copy@.contains_key(name) <==> has_key(
                        self.map.entries().take(i as int),
                        name,
                    ),
                forall|name: Seq<char>|
                    copy@.contains_key(name) ==> self@.contains_key(name) && copy@[name]
                        == self@[name],
            decreases n - i,
        {
            let ghost entries = self.map.entries();
            let ghost before = copy@;
            let name = self.map.key_at(i);
            let value = self.map.value_at(i).duplicate();
            proof {
                let shown = self.names().take(i as int);
                if shown.contains(name@) {
                    let j = choose|j: int| 0 <= j < shown.len() && shown[j] == name@;
                    assert(entries[j].key@ == entries[i as int].key@);
                }
                assert(self.names().take(i + 1) =~= shown.push(name@));
            }
            copy.insert(name, value);
            proof {
                lemma_index_of(entries, i as int);
                assert forall|other: Seq<char>|
                    copy@.contains_key(other) <==> has_key(entries.take(i + 1), other) by {
                    if has_key(entries.take(i + 1), other) {
                        let j = index_of(entries.take(i + 1), other);
                        if j < i {
                            assert(entries.take(i as int)[j].key@ == other);
                        }
                    }
                    if before.contains_key(other) {
                        let j = index_of(entries.take(i as int), other);
                        assert(entries.take(i + 1)[j].key@ == other);
                    }
                    if other == name@ {
                        assert(entries.take(i + 1)[i as int].key@ == other);
                    }
                }
            }
            i += 1;
        }
        proof {
            assert(self.map.entries().take(n as int) =~= self.map.entries());
            assert(self.names().take(n as int) =~= self.names());
            assert(copy@ =~= self@);
        }
        copy
    }
}

/// What a session holds in the course of one request.
pub struct SessionView {
    /// The identifier that the session is stored under, if it has one yet.
    pub id: Option<Seq<char>>,
    pub attrs: Attributes,
    /// Whether an attribute was written since the session was opened.
    pub dirty: bool,
    /// Whether the session was ended and its record is to be deleted.
    pub ended: bool,
}

/// The accessor through which one request reads and writes its session.
#[derive(Debug)]
pub struct Session {
    id: Option<String>,
    bag: AttributeBag,
    dirty: bool,
    ended: bool,
}

impl View for Session {
    type V = SessionView;

    closed spec fn view(&self) -> SessionView {
        SessionView {
            id: match self.id {
                Some(id) => Some(id@),
                None => None,
            },
            attrs: self.bag@,
            dirty: self.dirty,
            ended: self.ended,
        }
    }
}

impl Session {
    /// A session of a client that presented no valid cookie: no identifier
    /// yet, and no attribute.
    pub fn fresh() -> (r: Session)
        ensures
            r@ == (SessionView {
                id: None,
                attrs: Attributes::empty(),
                dirty: false,
                ended: false,
            }),
    {
        Session { id: None, bag: AttributeBag::new(), dirty: false, ended: false }
    }

    /// The session stored under `id`, with the attributes that the store gave.
    pub fn resume(id: String, bag: AttributeBag) -> (r: Session)
        ensures
            r@ == (SessionView { id: Some(id@), attrs: bag@, dirty: false, ended: false }),
    {
        Session { id: Some(id), bag, dirty: false, ended: false }
    }

    /// The identifier that the session is stored under, if it has one.
    pub fn id(&self) -> (r: Option<&str>)
        ensures
            r is Some == self@.id is Some,
            r matches Some(id) ==> self@.id == Some(id@),
    {
        match &self.id {
            Some(id) => Some(id.as_str()),
            None => None,
        }
    }

    /// Whether an attribute was written since the session was opened.
    pub fn is_dirty(&self) -> (r: bool)
        ensures
            r == self@.dirty,
    {
        self.dirty
    }

    /// Whether the session was ended.
    pub fn is_ended(&self) -> (r: bool)
        ensures
            r == self@.ended,
    {
        self.ended
    }

    /// The attributes as they stand.
    pub fn attributes(&self) -> (r: &AttributeBag)
        ensures
            r@ == self@.attrs,
    {
        &self.bag
    }

    /// The value of `name`, if it has one.
    pub fn get(&self, name: &str) -> (r: Option<&AttrValue>)
        ensures
            r is Some == self@.attrs.contains_key(name@),
            r matches Some(value) ==> self@.attrs[name@] == value@,
    {
        self.bag.get(name)
    }

    /// The boolean that `name` holds, if it holds one.
    pub fn get_bool(&self, name: &str) -> (r: Option<bool>)
        ensures
            r == bool_at(self@.attrs, name@),
    {
        match self.bag.get(name) {
            Some(AttrValue::Bool(b)) => Some(*b),
            _ => None,
        }
    }

    /// The integer that `name` holds, if it holds one.
    pub fn get_int(&self, name: &str) -> (r: Option<i64>)
        ensures
            r is Some == int_at(self@.attrs, name@) is Some,
            r matches Some(n) ==> int_at(self@.attrs, name@) == Some(n as int),
    {
        match self.bag.get(name) {
            Some(AttrValue::Int(n)) => Some(*n),
            _ => None,
        }
    }

    /// Gives `name` the value `value`. The write is seen by every later read
    /// of this accessor, and reaches the store when the request is done.
    pub fn set(&mut self, name: &str, value: AttrValue)
        ensures
            final(self)@ == (SessionView {
                attrs: old(self)@.attrs.insert(name@, value@),
                dirty: true,
                ..old(self)@
            }),
    {
        self.bag.insert(name, value);
        self.dirty = true;
    }

    /// Gives `name` a boolean value.
    pub fn set_bool(&mut self, name: &str, value: bool)
        ensures
            final(self)@ == (SessionView {
                attrs: old(self)@.attrs.insert(name@, Value::Bool(value)),
                dirty: true,
                ..old(self)@
            }),
    {
        self.set(name, AttrValue::Bool(value));
    }

    /// Gives `name` an integer value.
    pub fn set_int(&mut self, name: &str, value: i64)
        ensures
            final(self)@ == (SessionView {
                attrs: old(self)@.attrs.insert(name@, Value::Int(value as int)),
                dirty: true,
                ..old(self)@
            }),
    {
        self.set(name, AttrValue::Int(value));
    }

    /// Takes `name` out of the session.
    pub fn clear(&mut self, name: &str)
        ensures
            final(self)@ == (SessionView {
                attrs: old(self)@.attrs.remove(name@),
                dirty: true,
                ..old(self)@
            }),
    {
        self.bag.remove(name);
        self.dirty = true;
    }

    /// Gives up the accessor for what it holds: the identifier, the attributes
    /// as they stand, and whether they were written and whether the session
    /// was ended.
    pub fn into_parts(self) -> (parts: (Option<String>, AttributeBag, bool, bool))
        ensures
            self@ == (SessionView {
                id: match parts.0 {
                    Some(id) => Some(id@),
                    None => None,
                },
                attrs: parts.1@,
                dirty: parts.2,
                ended: parts.3,
            }),
    {
        (self.id, self.bag, self.dirty, self.ended)
    }

    /// Ends the session: its record is to be deleted when the request is done.
    pub fn end(&mut self)
        ensures
            final(self)@ == (SessionView { ended: true, ..old(self)@ }),
    {
        self.ended = true;
    }
}

/// Read your writes: a boolean that was set is the boolean that is read,
/// whatever the session held before and without the store taking part.
pub proof fn lemma_read_your_writes(attrs: Attributes, name: Seq<char>, value: bool)
    ensures
        bool_at(attrs.insert(name, Value::Bool(value)), name) == Some(value),
{
}

/// A write to one name leaves what is read under another name as it was.
pub proof fn lemma_write_keeps_others(
    attrs: Attributes,
    name: Seq<char>,
    value: Value,
    other: Seq<char>,
)
    requires
        other != name,
    ensures
        bool_at(attrs.insert(name, value), other) == bool_at(attrs, other),
        int_at(attrs.insert(name, value), other) == int_at(attrs, other),
{
}

/// A name that was cleared reads as absent.
pub proof fn lemma_cleared_is_absent(attrs: Attributes, name: Seq<char>)
    ensures
        bool_at(attrs.remove(name), name) is None,
        int_at(attrs.remove(name), name) is None,
{
}

} // verus!
