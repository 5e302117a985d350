use vstd::prelude::*;
use crate::cow_string::{str_eq, CowString};
use crate::value::{SerializeValue, ValueModel};

verus! {

/// A field name with the meaning of its value.
pub type Entry = (Seq<char>, ValueModel);

/// No name occurs twice.
pub open spec fn keys_distinct(s: Seq<Entry>) -> bool {
    forall|i: int, j: int| 0 <= i < j < s.len() ==> s[i].0 != s[j].0
}

pub open spec fn has_key(s: Seq<Entry>, k: Seq<char>) -> bool {
    exists|i: int| 0 <= i < s.len() && s[i].0 == k
}

/// Where `k` stands in `s`, if it does.
pub open spec fn key_index(s: Seq<Entry>, k: Seq<char>) -> int {
    choose|i: int| 0 <= i < s.len() && s[i].0 == k
}

/// Map insertion over an ordered list of entries: a name already there keeps
/// its place and takes the new value; a new name goes at the end.
pub open spec fn insert_entry(s: Seq<Entry>, k: Seq<char>, v: ValueModel) -> Seq<Entry> {
    if has_key(s, k) {
        s.update(key_index(s, k), (k, v))
    } else {
        s.push((k, v))
    }
}

pub proof fn lemma_insert_keeps_distinct(s: Seq<Entry>, k: Seq<char>, v: ValueModel)
    requires
        keys_distinct(s),
    ensures
        keys_distinct(insert_entry(s, k, v)),
        insert_entry(s, k, v).len() == if has_key(s, k) { s.len() } else { s.len() + 1 },
{
    if has_key(s, k) {
        let i = key_index(s, k);
        assert(s[i].0 == k);
    } else {
        let t = s.push((k, v));
        assert forall|i: int, j: int| 0 <= i < j < t.len() implies t[i].0 != t[j].0 by {
            if j == s.len() {
                assert(s[i].0 != k);
            }
        }
    }
}

/// The field values of one record, keyed by name, in the order in which they
/// were first inserted.
///
/// A map made with `bounded` holds at most that many entries and refuses a
/// new name once full, as a fixed-capacity index map does where memory may
/// not grow; one made with `new` grows as needed.
#[derive(Debug)]
pub struct RecordMap<'a> {
    entries: Vec<(CowString<'a>, SerializeValue<'a>)>,
    bound: Option<usize>,
}

pub open spec fn entry_model<'a>(e: (CowString<'a>, SerializeValue<'a>)) -> Entry {
    (e.0@, e.1.model())
}

impl<'a> View for RecordMap<'a> {
    type V = Seq<Entry>;

    closed spec fn view(&self) -> Seq<Entry> {
        self.entries@.map_values(|e: (CowString<'a>, SerializeValue<'a>)| entry_model(e))
    }
}

impl<'a> RecordMap<'a> {
    #[verifier::type_invariant]
    spec fn well_formed(self) -> bool {
        &&& keys_distinct(self@)
        &&& self.bound matches Some(n) ==> self.entries@.len() <= n
    }

    /// The most entries the map may hold, if it is bounded.
    pub closed spec fn bound(&self) -> Option<usize> {
        self.bound
    }

    /// Holds no borrowed text.
    pub closed spec fn is_owned(&self) -> bool {
        forall|i: int|
            0 <= i < self.entries@.len() ==> (#[trigger] self.entries@[i]).0 is Owned
                && self.entries@[i].1.is_owned()
    }

    /// A bounded map that has no room for a new name.
    pub open spec fn is_full(&self) -> bool {
        self.bound() matches Some(n) && self@.len() >= n
    }

    /// An empty map that grows as needed.
    pub fn new() -> (r: Self)
        ensures
            r@ == Seq::<Entry>::empty(),
            r.bound() is None,
            r.is_owned(),
    {
        let r = RecordMap { entries: Vec::new(), bound: None };
        assert(r@ =~= Seq::<Entry>::empty());
        r
    }

    /// An empty map that holds at most `capacity` entries.
    pub fn bounded(capacity: usize) -> (r: Self)
        ensures
            r@ == Seq::<Entry>::empty(),
            r.bound() == Some(capacity),
            r.is_owned(),
    {
        let r = RecordMap { entries: Vec::new(), bound: Some(capacity) };
        assert(r@ =~= Seq::<Entry>::empty());
        r
    }

    /// The number of entries; no two of them have the same name.
    pub fn len(&self) -> (r: usize)
        ensures
            r == self@.len(),
            keys_distinct(self@),
    {
        proof {
            use_type_invariant(self);
        }
        self.entries.len()
    }

    pub fn capacity(&self) -> (r: Option<usize>)
        ensures
            r == self.bound(),
    {
        self.bound
    }

    /// The name and value at position `i`.
    pub fn entry_at(&self, i: usize) -> (r: (&CowString<'a>, &SerializeValue<'a>))
        requires
            i < self@.len(),
        ensures
            r.0@ == self@[i as int].0,
            r.1.model() == self@[i as int].1,
    {
        let e = &self.entries[i];
        (&e.0, &e.1)
    }

    /// The position of `key`, if the map holds it.
    pub fn position(&self, key: &str) -> (r: Option<usize>)
        ensures
            r matches Some(i) ==> i < self@.len() && self@[i as int].0 == key@,
            r is None <==> !has_key(self@, key@),
    {
        let mut i: usize = 0;
        while i < self.entries.len()
            invariant
                i <= self.entries@.len(),
                forall|j: int| 0 <= j < i ==> self@[j].0 != key@,
            decreases self.entries@.len() - i,
        {
            if str_eq(self.entries[i].0.as_str(), key) {
                assert(self@[i as int].0 == key@);
                return Some(i);
            }
            assert(self@[i as int].0 == self.entries@[i as int].0@);
            i = i + 1;
        }
        None
    }

    /// The value stored under `key`, if any.
    pub fn get(&self, key: &str) -> (r: Option<&SerializeValue<'a>>)
        ensures
            r is Some <==> has_key(self@, key@),
            r matches Some(v) ==> v.model() == self@[key_index(self@, key@)].1,
    {
        proof {
            use_type_invariant(self);
        }
        match self.position(key) {
            Some(i) => Some(&self.entries[i].1),
            None => None,
        }
    }

    /// Inserts `value` under `key`.
    ///
    /// A name the map already holds keeps its place, takes the new value and
    /// hands back the old one. A new name goes at the end, unless the map is
    /// bounded and full: then the map is left as it was and the pair comes
    /// back as the error.
    pub fn insert(&mut self, key: CowString<'a>, value: SerializeValue<'a>) -> (r: Result<
        Option<SerializeValue<'a>>,
        (CowString<'a>, SerializeValue<'a>),
    >)
        ensures
            final(self).bound() == old(self).bound(),
            old(self).is_owned() && key is Owned && value.is_owned() ==> final(self).is_owned(),
            has_key(old(self)@, key@) ==> {
                &&& r matches Ok(Some(p)) && p.model() == old(self)@[key_index(
                    old(self)@,
                    key@,
                )].1
                &&& final(self)@ == insert_entry(old(self)@, key@, value.model())
            },
            !has_key(old(self)@, key@) && old(self).is_full() ==> {
                &&& r matches Err(back) && back.0 == key && back.1 == value
                &&& final(self)@ == old(self)@
            },
            !has_key(old(self)@, key@) && !old(self).is_full() ==> {
                &&& r matches Ok(None)
                &&& final(self)@ == insert_entry(old(self)@, key@, value.model())
                &&& final(self)@ == old(self)@.push((key@, value.model()))
            },
    {
        proof {
            use_type_invariant(&*self);
        }
        match self.position(key.as_str()) {
            Some(i) => {
                proof {
                    assert(self@[key_index(self@, key@)].0 == key@);
                    assert(key_index(self@, key@) == i as int);
                }
                let ghost k = key@;
                let ghost m = value.model();
                let mut taken = RecordMap::new();
                core::mem::swap(self, &mut taken);
                let RecordMap { mut entries, bound } = taken;
                let mut v = value;
                let e = &mut entries[i];
                core::mem::swap(&mut e.1, &mut v);
                proof {
                    lemma_insert_keeps_distinct(old(self)@, k, m);
                }
                let ghost vm = entries@.map_values(
                    |e: (CowString<'a>, SerializeValue<'a>)| entry_model(e),
                );
                assert(vm =~= insert_entry(old(self)@, k, m));
                *self = RecordMap { entries, bound };
                Ok(Some(v))
            },
            None => {
                let full = match self.bound {
                    Some(n) => self.entries.len() >= n,
                    None => false,
                };
                if full {
                    Err((key, value))
                } else {
                    let ghost k = key@;
                    let ghost m = value.model();
                    let mut taken = RecordMap::new();
                    core::mem::swap(self, &mut taken);
                    let RecordMap { mut entries, bound } = taken;
                    entries.push((key, value));
                    proof {
                        lemma_insert_keeps_distinct(old(self)@, k, m);
                    }
                    let ghost vm = entries@.map_values(
                        |e: (CowString<'a>, SerializeValue<'a>)| entry_model(e),
                    );
                    assert(vm =~= old(self)@.push((k, m)));
                    *self = RecordMap { entries, bound };
                    Ok(None)
                }
            },
        }
    }
}

} // verus!

verus! {

/// The entries `es`, visited in order, inserted one by one into `m`.
pub open spec fn insert_all(m: Seq<Entry>, es: Seq<Entry>) -> Seq<Entry>
    decreases es.len(),
{
    if es.len() == 0 {
        m
    } else {
        insert_entry(insert_all(m, es.drop_last()), es.last().0, es.last().1)
    }
}

/// Inserting entries with distinct names into an empty map keeps every one of
/// them, in the order they came.
pub proof fn lemma_insert_all_distinct(es: Seq<Entry>)
    requires
        keys_distinct(es),
    ensures
        insert_all(Seq::empty(), es) == es,
    decreases es.len(),
{
    if es.len() > 0 {
        let init = es.drop_last();
        assert(keys_distinct(init));
        lemma_insert_all_distinct(init);
        let k = es.last().0;
        if has_key(init, k) {
            let i = choose|i: int| 0 <= i < init.len() && init[i].0 == k;
            assert(es[i].0 == es[es.len() - 1].0);
        }
        assert(insert_all(Seq::empty(), es) =~= es);
    }
}

impl<'a> RecordMap<'a> {
    /// A deep copy that owns all of its text, with the same entries in the
    /// same order and the same bound.
    pub fn to_owned(&self) -> (r: RecordMap<'static>)
        ensures
            r@ == self@,
            r.bound() == self.bound(),
            r.is_owned(),
    {
        proof {
            use_type_invariant(self);
        }
        let mut entries: Vec<(CowString<'static>, SerializeValue<'static>)> = Vec::new();
        let mut i: usize = 0;
        while i < self.entries.len()
            invariant
                i <= self.entries@.len(),
                entries@.len() == i,
                forall|j: int|
                    0 <= j < i ==> entry_model(#[trigger] entries@[j]) == entry_model(
                        self.entries@[j],
                    ),
                forall|j: int|
                    0 <= j < i ==> (#[trigger] entries@[j]).0 is Owned
                        && entries@[j].1.is_owned(),
            decreases self.entries@.len() - i,
        {
            let e = &self.entries[i];
            entries.push((e.0.to_owned(), e.1.to_owned()));
            i = i + 1;
        }
        let ghost vm = entries@.map_values(
            |e: (CowString<'static>, SerializeValue<'static>)| entry_model(e),
        );
        assert(vm =~= self@);
        RecordMap { entries, bound: self.bound }
    }

    /// The live fields `fields` copied into a fresh, unbounded map that owns
    /// all of its text. A name seen again takes the later value.
    pub fn from_live(fields: &[(&str, SerializeValue<'_>)]) -> (r: RecordMap<'static>)
        ensures
            r@ == insert_all(Seq::empty(), live_model(fields@)),
            r.bound() is None,
            r.is_owned(),
    {
        let mut map = RecordMap::new();
        let mut i: usize = 0;
        while i < fields.len()
            invariant
                i <= fields@.len(),
                map@ == insert_all(Seq::empty(), live_model(fields@).take(i as int)),
                map.bound() is None,
                map.is_owned(),
            decreases fields@.len() - i,
        {
            let f = &fields[i];
            let key = CowString::Owned(f.0.to_owned());
            let value = f.1.to_owned();
            proof {
                use_type_invariant(&map);
                let t = live_model(fields@).take(i as int + 1);
                assert(t.drop_last() =~= live_model(fields@).take(i as int));
            }
            let _ = map.insert(key, value);
            i = i + 1;
        }
        assert(live_model(fields@).take(fields@.len() as int) =~= live_model(fields@));
        map
    }
}

/// The entries of a list of live fields.
pub open spec fn live_model<'a>(fields: Seq<(&'a str, SerializeValue<'a>)>) -> Seq<Entry> {
    fields.map_values(|f: (&'a str, SerializeValue<'a>)| (f.0@, f.1.model()))
}

} // verus!
