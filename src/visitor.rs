use vstd::prelude::*;
use crate::record_map::Entry;
use crate::value::{DebugRecord, SerializeValue, ValueModel};
use crate::cow_string::CowString;

verus! {

/// How a map sink answers an entry, given the entries it was handed before.
pub type EntryAnswers<E> = spec_fn(Seq<Entry>, Entry) -> Result<(), E>;

/// What closing a map sink may give, given every entry it was handed.
pub type MapClosing<O, E> = spec_fn(Seq<Entry>, Result<O, E>) -> bool;

/// An open map being written by a serializer: it takes one entry at a time
/// and is closed once.
///
/// How it answers each entry and what closing gives are fixed when the map
/// is opened and depend only on the entries handed so far, as with any
/// deterministic serializer.
///
/// A verified sink defines the three spec functions; their defaults only
/// let sinks written in plain Rust implement the trait, and nothing is
/// proved of such sinks.
pub trait EntrySink: Sized {
    type Output;

    type Error;

    /// The entries the sink has been handed so far, in order.
    open spec fn handed(&self) -> Seq<Entry> {
        Seq::empty()
    }

    /// The sink's answer to each entry.
    open spec fn answers(&self) -> EntryAnswers<Self::Error> {
        |h: Seq<Entry>, e: Entry| Ok::<(), Self::Error>(())
    }

    /// What closing the sink may give.
    open spec fn closing(&self) -> MapClosing<Self::Output, Self::Error> {
        |h: Seq<Entry>, r: Result<Self::Output, Self::Error>| true
    }

    /// Writes one entry, a field name and its value.
    fn serialize_entry(&mut self, key: &str, value: &SerializeValue<'_>) -> (r: Result<
        (),
        Self::Error,
    >)
        ensures
            final(self).handed() == old(self).handed().push((key@, value.model())),
            final(self).answers() == old(self).answers(),
            final(self).closing() == old(self).closing(),
            r == (old(self).answers())(old(self).handed(), (key@, value.model())),
    ;

    /// Closes the map.
    fn end(self) -> (r: Result<Self::Output, Self::Error>)
        ensures
            (self.closing())(self.handed(), r),
    ;
}

/// Writing the entries `es` after `h`, stopping at the first refusal: the
/// entries handed in the end, and the first refusal if there was one.
pub open spec fn write_entries<E>(answers: EntryAnswers<E>, h: Seq<Entry>, es: Seq<Entry>) -> (
    Seq<Entry>,
    Result<(), E>,
)
    decreases es.len(),
{
    if es.len() == 0 {
        (h, Ok(()))
    } else {
        let prev = write_entries(answers, h, es.drop_last());
        if prev.1 is Err {
            prev
        } else {
            (prev.0.push(es.last()), answers(prev.0, es.last()))
        }
    }
}

/// What writing `es` as one map into the freshly opened sink `s` gives: the
/// first refusal, or else what closing gives once every entry was taken.
pub open spec fn serialized<S: EntrySink>(s: S, es: Seq<Entry>, r: Result<S::Output, S::Error>) -> bool {
    let w = write_entries(s.answers(), s.handed(), es);
    match w.1 {
        Err(e) => r == Err::<S::Output, S::Error>(e),
        Ok(_) => (s.closing())(w.0, r),
    }
}

/// While the sink takes every entry, each is handed in order and writing
/// succeeds.
pub proof fn lemma_all_taken<E>(answers: EntryAnswers<E>, h: Seq<Entry>, es: Seq<Entry>, n: int)
    requires
        0 <= n <= es.len(),
        forall|i: int| 0 <= i < n ==> (#[trigger] answers(h + es.take(i), es[i])) is Ok,
    ensures
        write_entries(answers, h, es.take(n)).0 == h + es.take(n),
        write_entries(answers, h, es.take(n)).1 is Ok,
    decreases n,
{
    if n == 0 {
        assert(es.take(0) =~= Seq::<Entry>::empty());
        assert(h + es.take(0) =~= h);
    } else {
        lemma_all_taken(answers, h, es, n - 1);
        assert(es.take(n).drop_last() =~= es.take(n - 1));
        assert(es.take(n).last() == es[n - 1]);
        assert((h + es.take(n - 1)).push(es[n - 1]) =~= h + es.take(n));
        assert(answers(h + es.take(n - 1), es[n - 1]) is Ok);
    }
}

/// Once writing has stopped at a refusal, further entries change nothing.
pub proof fn lemma_entries_frozen<E>(
    answers: EntryAnswers<E>,
    h: Seq<Entry>,
    es: Seq<Entry>,
    j: int,
    m: int,
)
    requires
        0 <= j <= m <= es.len(),
        write_entries(answers, h, es.take(j)).1 is Err,
    ensures
        write_entries(answers, h, es.take(m)) == write_entries(answers, h, es.take(j)),
    decreases m - j,
{
    if m > j {
        lemma_entries_frozen(answers, h, es, j, m - 1);
        assert(es.take(m).drop_last() =~= es.take(m - 1));
    }
}

/// If the sink takes the entries before `k` and refuses entry `k`, writing
/// stops there: exactly the entries up to `k` are handed, none after it, and
/// the outcome is the sink's answer to entry `k`.
pub proof fn lemma_first_refusal<E>(answers: EntryAnswers<E>, h: Seq<Entry>, es: Seq<Entry>, k: int)
    requires
        0 <= k < es.len(),
        forall|i: int| 0 <= i < k ==> (#[trigger] answers(h + es.take(i), es[i])) is Ok,
        answers(h + es.take(k), es[k]) is Err,
    ensures
        write_entries(answers, h, es) == (h + es.take(k + 1), answers(h + es.take(k), es[k])),
{
    lemma_all_taken(answers, h, es, k);
    assert(es.take(k + 1).drop_last() =~= es.take(k));
    assert(es.take(k + 1).last() == es[k]);
    assert((h + es.take(k)).push(es[k]) =~= h + es.take(k + 1));
    lemma_entries_frozen(answers, h, es, k + 1, es.len() as int);
    assert(es.take(es.len() as int) =~= es);
}

/// Writes pushed fields as entries of an open map.
///
/// The first entry the sink refuses is remembered; from then on every field
/// is skipped and the sink is not touched again.
#[derive(Debug)]
pub struct SerdeMapVisitor<S: EntrySink> {
    serializer: S,
    state: Result<(), S::Error>,
}

impl<S: EntrySink> View for SerdeMapVisitor<S> {
    type V = (S, Result<(), S::Error>);

    /// The sink and the first error it reported, if any.
    closed spec fn view(&self) -> (S, Result<(), S::Error>) {
        (self.serializer, self.state)
    }
}

/// One field pushed into a collector: skipped after an error; otherwise
/// handed to the sink, whose answer becomes the collector's state.
pub open spec fn stepped<S: EntrySink>(
    before: (S, Result<(), S::Error>),
    e: Entry,
    after: (S, Result<(), S::Error>),
) -> bool {
    if before.1 is Err {
        after == before
    } else {
        &&& after.0.handed() == before.0.handed().push(e)
        &&& after.0.answers() == before.0.answers()
        &&& after.0.closing() == before.0.closing()
        &&& after.1 == (before.0.answers())(before.0.handed(), e)
    }
}

/// `h` and `r` are what `w` says was handed and answered.
pub open spec fn same_outcome<T, E>(h: T, r: Result<(), E>, w: (T, Result<(), E>)) -> bool {
    &&& h == w.0
    &&& r is Ok <==> w.1 is Ok
    &&& r is Err ==> r == w.1
}

/// Fields `es` pushed into a collector one by one: nothing happens after an
/// earlier error; otherwise the sink is handed what `write_entries` says and
/// the collector ends in its outcome.
pub open spec fn sent<S: EntrySink>(
    before: (S, Result<(), S::Error>),
    es: Seq<Entry>,
    after: (S, Result<(), S::Error>),
) -> bool {
    if before.1 is Err {
        after == before
    } else {
        &&& after.0.answers() == before.0.answers()
        &&& after.0.closing() == before.0.closing()
        &&& same_outcome(after.0.handed(), after.1, write_entries(before.0.answers(), before.0.handed(), es))
    }
}

/// One more field keeps `sent` going.
pub proof fn lemma_sent_step<S: EntrySink>(
    start: (S, Result<(), S::Error>),
    es: Seq<Entry>,
    i: int,
    mid: (S, Result<(), S::Error>),
    after: (S, Result<(), S::Error>),
)
    requires
        0 <= i < es.len(),
        sent(start, es.take(i), mid),
        stepped(mid, es[i], after),
    ensures
        sent(start, es.take(i + 1), after),
{
    assert(es.take(i + 1).drop_last() =~= es.take(i));
    assert(es.take(i + 1).last() == es[i]);
}

impl<S: EntrySink> SerdeMapVisitor<S> {
    /// A collector over a freshly opened map.
    pub fn new(serializer: S) -> (r: Self)
        ensures
            r@ == (serializer, Ok::<(), S::Error>(())),
    {
        SerdeMapVisitor { serializer, state: Ok(()) }
    }

    /// Whether every field so far was written.
    pub fn is_ok(&self) -> (r: bool)
        ensures
            r == self@.1 is Ok,
    {
        self.state.is_ok()
    }

    /// The sink the fields are written to.
    pub fn sink(&self) -> (r: &S)
        ensures
            *r == self@.0,
    {
        &self.serializer
    }

    /// Writes one field, unless an earlier one failed; the sink's answer
    /// becomes the collector's state.
    pub fn record(&mut self, field: &str, value: &SerializeValue<'_>)
        ensures
            stepped(old(self)@, (field@, value.model()), final(self)@),
    {
        if self.state.is_ok() {
            let r = self.serializer.serialize_entry(field, value);
            self.state = r;
        }
    }

    pub fn record_bool(&mut self, field: &str, value: bool)
        ensures
            stepped(old(self)@, (field@, ValueModel::Bool(value)), final(self)@),
    {
        self.record(field, &SerializeValue::Bool(value))
    }

    pub fn record_i64(&mut self, field: &str, value: i64)
        ensures
            stepped(old(self)@, (field@, ValueModel::I64(value)), final(self)@),
    {
        self.record(field, &SerializeValue::I64(value))
    }

    pub fn record_u64(&mut self, field: &str, value: u64)
        ensures
            stepped(old(self)@, (field@, ValueModel::U64(value)), final(self)@),
    {
        self.record(field, &SerializeValue::U64(value))
    }

    /// Writes a floating-point field, given as its IEEE 754 bit pattern.
    pub fn record_f64(&mut self, field: &str, bits: u64)
        ensures
            stepped(old(self)@, (field@, ValueModel::F64(bits)), final(self)@),
    {
        self.record(field, &SerializeValue::F64(bits))
    }

    pub fn record_str(&mut self, field: &str, value: &str)
        ensures
            stepped(old(self)@, (field@, ValueModel::Str(value@)), final(self)@),
    {
        self.record(field, &SerializeValue::Str(CowString::Borrowed(value)))
    }

    /// Writes a field recorded through its debug formatting, given as the
    /// text it was formatted to.
    pub fn record_debug(&mut self, field: &str, formatted: &str)
        ensures
            stepped(old(self)@, (field@, ValueModel::Debug(formatted@)), final(self)@),
    {
        self.record(field, &SerializeValue::Debug(DebugRecord::Ser(formatted)))
    }

    /// Closes the map, or reports the first field that failed without
    /// closing it.
    pub fn finish(self) -> (r: Result<S::Output, S::Error>)
        ensures
            match self@.1 {
                Err(e) => r == Err::<S::Output, S::Error>(e),
                Ok(_) => (self@.0.closing())(self@.0.handed(), r),
            },
    {
        match self.state {
            Err(e) => Err(e),
            Ok(()) => self.serializer.end(),
        }
    }

    /// Hands the still open map back, or reports the first field that failed.
    pub fn take_serializer(self) -> (r: Result<S, S::Error>)
        ensures
            r == match self@.1 {
                Ok(_) => Ok(self@.0),
                Err(e) => Err::<S, S::Error>(e),
            },
    {
        match self.state {
            Err(e) => Err(e),
            Ok(()) => Ok(self.serializer),
        }
    }
}

/// A sink refused an entry because it was full.
#[derive(Debug, Clone, Copy, PartialEq, Eq, Structural)]
pub struct CapacityError {
    /// How many entries the sink had room for.
    pub capacity: usize,
}

/// The entries of a buffer's contents.
pub open spec fn buffer_model(v: Seq<(String, SerializeValue<'static>)>) -> Seq<Entry> {
    v.map_values(|e: (String, SerializeValue<'static>)| (e.0@, e.1.model()))
}

/// A buffer with room for `capacity` entries refuses each entry handed once
/// it already holds that many.
pub open spec fn buffer_answers(capacity: Option<usize>) -> EntryAnswers<CapacityError> {
    |h: Seq<Entry>, e: Entry|
        match capacity {
            Some(n) => if h.len() >= n {
                Err(CapacityError { capacity: n })
            } else {
                Ok(())
            },
            None => Ok(()),
        }
}

/// Closing a buffer fails exactly when it refused an entry; otherwise it
/// gives back every entry, in order.
pub open spec fn buffer_closing(capacity: Option<usize>) -> MapClosing<
    Vec<(String, SerializeValue<'static>)>,
    CapacityError,
> {
    |h: Seq<Entry>, r: Result<Vec<(String, SerializeValue<'static>)>, CapacityError>|
        match capacity {
            Some(n) => if h.len() > n {
                r == Err::<Vec<(String, SerializeValue<'static>)>, CapacityError>(
                    CapacityError { capacity: n },
                )
            } else {
                r matches Ok(v) && buffer_model(v@) == h
            },
            None => r matches Ok(v) && buffer_model(v@) == h,
        }
}

/// A map serializer that writes into a buffer of entries with room for at
/// most `capacity` of them, when it has a capacity.
///
/// It notes every entry it is handed; one handed when the buffer is already
/// full is refused, and closing a buffer that refused an entry fails.
#[derive(Debug)]
pub struct EntryBuffer {
    handed: Vec<(String, SerializeValue<'static>)>,
    capacity: Option<usize>,
}

impl EntryBuffer {
    /// An empty buffer that takes any number of entries.
    pub fn new() -> (r: Self)
        ensures
            r.handed() == Seq::<Entry>::empty(),
            r.answers() == buffer_answers(None),
            r.closing() == buffer_closing(None),
    {
        let r = EntryBuffer { handed: Vec::new(), capacity: None };
        assert(r.handed() =~= Seq::<Entry>::empty());
        r
    }

    /// An empty buffer with room for `capacity` entries.
    pub fn with_capacity(capacity: usize) -> (r: Self)
        ensures
            r.handed() == Seq::<Entry>::empty(),
            r.answers() == buffer_answers(Some(capacity)),
            r.closing() == buffer_closing(Some(capacity)),
    {
        let r = EntryBuffer { handed: Vec::new(), capacity: Some(capacity) };
        assert(r.handed() =~= Seq::<Entry>::empty());
        r
    }

    /// How many entries the buffer has been handed, refused ones included.
    pub fn handed_len(&self) -> (r: usize)
        ensures
            r == self.handed().len(),
    {
        self.handed.len()
    }

    /// The name and value of the `i`-th entry handed over.
    pub fn handed_at(&self, i: usize) -> (r: (&str, &SerializeValue<'static>))
        requires
            i < self.handed().len(),
        ensures
            r.0@ == self.handed()[i as int].0,
            r.1.model() == self.handed()[i as int].1,
    {
        let e = &self.handed[i];
        (e.0.as_str(), &e.1)
    }
}

impl EntrySink for EntryBuffer {
    type Output = Vec<(String, SerializeValue<'static>)>;

    type Error = CapacityError;

    closed spec fn handed(&self) -> Seq<Entry> {
        buffer_model(self.handed@)
    }

    closed spec fn answers(&self) -> EntryAnswers<CapacityError> {
        buffer_answers(self.capacity)
    }

    closed spec fn closing(&self) -> MapClosing<
        Vec<(String, SerializeValue<'static>)>,
        CapacityError,
    > {
        buffer_closing(self.capacity)
    }

    fn serialize_entry(&mut self, key: &str, value: &SerializeValue<'_>) -> (r: Result<
        (),
        CapacityError,
    >) {
        let full = match self.capacity {
            Some(n) => self.handed.len() >= n,
            None => false,
        };
        let ghost before = self.handed();
        self.handed.push((key.to_owned(), value.to_owned()));
        assert(self.handed() =~= before.push((key@, value.model())));
        match self.capacity {
            Some(n) => {
                if full {
                    Err(CapacityError { capacity: n })
                } else {
                    Ok(())
                }
            },
            None => Ok(()),
        }
    }

    fn end(self) -> (r: Result<Vec<(String, SerializeValue<'static>)>, CapacityError>) {
        match self.capacity {
            Some(n) => {
                if self.handed.len() > n {
                    Err(CapacityError { capacity: n })
                } else {
                    Ok(self.handed)
                }
            },
            None => Ok(self.handed),
        }
    }
}

/// How a sequence sink answers an element, given the elements before it.
pub type ElementAnswers<E> = spec_fn(Seq<Seq<char>>, Seq<char>) -> Result<(), E>;

/// What closing a sequence sink may give, given every element it was handed.
pub type SeqClosing<O, E> = spec_fn(Seq<Seq<char>>, Result<O, E>) -> bool;

/// An open sequence being written by a serializer, one element at a time.
///
/// As with `EntrySink`, its answers and its closing are fixed when it is
/// opened, and a verified sink defines the three spec functions.
pub trait ElementSink: Sized {
    type Output;

    type Error;

    /// The elements the sink has been handed so far, in order.
    open spec fn elements(&self) -> Seq<Seq<char>> {
        Seq::empty()
    }

    /// The sink's answer to each element.
    open spec fn element_answers(&self) -> ElementAnswers<Self::Error> {
        |h: Seq<Seq<char>>, v: Seq<char>| Ok::<(), Self::Error>(())
    }

    /// What closing the sink may give.
    open spec fn seq_closing(&self) -> SeqClosing<Self::Output, Self::Error> {
        |h: Seq<Seq<char>>, r: Result<Self::Output, Self::Error>| true
    }

    /// Writes one string element.
    fn serialize_element(&mut self, value: &str) -> (r: Result<(), Self::Error>)
        ensures
            final(self).elements() == old(self).elements().push(value@),
            final(self).element_answers() == old(self).element_answers(),
            final(self).seq_closing() == old(self).seq_closing(),
            r == (old(self).element_answers())(old(self).elements(), value@),
    ;

    /// Closes the sequence.
    fn end(self) -> (r: Result<Self::Output, Self::Error>)
        ensures
            (self.seq_closing())(self.elements(), r),
    ;
}

/// Writing the elements `vs` after `h`, stopping at the first refusal: the
/// elements handed in the end, and the first refusal if there was one.
pub open spec fn write_elements<E>(
    answers: ElementAnswers<E>,
    h: Seq<Seq<char>>,
    vs: Seq<Seq<char>>,
) -> (Seq<Seq<char>>, Result<(), E>)
    decreases vs.len(),
{
    if vs.len() == 0 {
        (h, Ok(()))
    } else {
        let prev = write_elements(answers, h, vs.drop_last());
        if prev.1 is Err {
            prev
        } else {
            (prev.0.push(vs.last()), answers(prev.0, vs.last()))
        }
    }
}

/// While the sink takes every element, each is handed in order and writing
/// succeeds.
pub proof fn lemma_all_elements_taken<E>(
    answers: ElementAnswers<E>,
    h: Seq<Seq<char>>,
    vs: Seq<Seq<char>>,
    n: int,
)
    requires
        0 <= n <= vs.len(),
        forall|i: int| 0 <= i < n ==> (#[trigger] answers(h + vs.take(i), vs[i])) is Ok,
    ensures
        write_elements(answers, h, vs.take(n)).0 == h + vs.take(n),
        write_elements(answers, h, vs.take(n)).1 is Ok,
    decreases n,
{
    if n == 0 {
        assert(vs.take(0) =~= Seq::<Seq<char>>::empty());
        assert(h + vs.take(0) =~= h);
    } else {
        lemma_all_elements_taken(answers, h, vs, n - 1);
        assert(vs.take(n).drop_last() =~= vs.take(n - 1));
        assert(vs.take(n).last() == vs[n - 1]);
        assert((h + vs.take(n - 1)).push(vs[n - 1]) =~= h + vs.take(n));
        assert(answers(h + vs.take(n - 1), vs[n - 1]) is Ok);
    }
}

/// A list of strings collects the elements of a sequence; it never refuses
/// one, and closing gives it back.
impl ElementSink for Vec<String> {
    type Output = Vec<String>;

    type Error = ();

    closed spec fn elements(&self) -> Seq<Seq<char>> {
        self@.map_values(|s: String| s@)
    }

    open spec fn element_answers(&self) -> ElementAnswers<()> {
        |h: Seq<Seq<char>>, v: Seq<char>| Ok::<(), ()>(())
    }

    open spec fn seq_closing(&self) -> SeqClosing<Vec<String>, ()> {
        |h: Seq<Seq<char>>, r: Result<Vec<String>, ()>|
            r matches Ok(v) && v@.map_values(|s: String| s@) == h
    }

    fn serialize_element(&mut self, value: &str) -> (r: Result<(), ()>) {
        let ghost before = self.elements();
        self.push(value.to_owned());
        assert(self.elements() =~= before.push(value@));
        Ok(())
    }

    fn end(self) -> (r: Result<Vec<String>, ()>) {
        Ok(self)
    }
}

} // verus!
