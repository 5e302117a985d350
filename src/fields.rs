use vstd::prelude::*;
use crate::record_map::{
    Entry, RecordMap, insert_all, keys_distinct, lemma_insert_all_distinct, live_model,
};
use crate::value::SerializeValue;
use crate::visitor::{EntrySink, SerdeMapVisitor, lemma_sent_step, sent, serialized, write_entries};

verus! {

/// Pushes live fields into the collector in the order they were recorded.
pub fn record_live<S: EntrySink>(
    visitor: &mut SerdeMapVisitor<S>,
    fields: &[(&str, SerializeValue<'_>)],
)
    ensures
        sent(old(visitor)@, live_model(fields@), final(visitor)@),
{
    let ghost es = live_model(fields@);
    let ghost start = visitor@;
    assert(es.take(0) =~= Seq::<Entry>::empty());
    assert(write_entries(start.0.answers(), start.0.handed(), es.take(0)).0 == start.0.handed());
    let mut i: usize = 0;
    while i < fields.len()
        invariant
            i <= fields@.len(),
            es == live_model(fields@),
            start == old(visitor)@,
            sent(start, es.take(i as int), visitor@),
        decreases fields@.len() - i,
    {
        let ghost mid = visitor@;
        visitor.record(fields[i].0, &fields[i].1);
        proof {
            assert(es[i as int] == (fields@[i as int].0@, fields@[i as int].1.model()));
            lemma_sent_step(start, es, i as int, mid, visitor@);
        }
        i = i + 1;
    }
    proof {
        assert(es.take(fields@.len() as int) =~= es);
    }
}

/// Pushes the entries of a map into the collector in the map's order.
pub fn record_map<S: EntrySink>(visitor: &mut SerdeMapVisitor<S>, map: &RecordMap<'_>)
    ensures
        sent(old(visitor)@, map@, final(visitor)@),
{
    let ghost es = map@;
    let ghost start = visitor@;
    assert(es.take(0) =~= Seq::<Entry>::empty());
    assert(write_entries(start.0.answers(), start.0.handed(), es.take(0)).0 == start.0.handed());
    let mut i: usize = 0;
    while i < map.len()
        invariant
            i <= map@.len(),
            es == map@,
            start == old(visitor)@,
            sent(start, es.take(i as int), visitor@),
        decreases map@.len() - i,
    {
        let ghost mid = visitor@;
        let (k, v) = map.entry_at(i);
        visitor.record(k.as_str(), v);
        proof {
            lemma_sent_step(start, es, i as int, mid, visitor@);
        }
        i = i + 1;
    }
    proof {
        assert(es.take(map@.len() as int) =~= es);
    }
}

/// The fields of an event: live, borrowed from the event while it is being
/// handled, or materialized into a map of their own.
#[derive(Debug)]
pub enum SerializeRecordFields<'a> {
    Ser(&'a [(&'a str, SerializeValue<'a>)]),
    De(RecordMap<'a>),
}

/// The fields given when a span was created.
#[derive(Debug)]
pub enum SerializeSpanFields<'a> {
    Ser(&'a [(&'a str, SerializeValue<'a>)]),
    De(RecordMap<'a>),
}

/// The fields recorded on a span after it was created.
#[derive(Debug)]
pub enum SerializeRecord<'a> {
    Ser(&'a [(&'a str, SerializeValue<'a>)]),
    De(RecordMap<'a>),
}

/// What a materialized copy of fields with the entries `es` holds: each
/// entry inserted in turn, the later of two equal names winning.
pub open spec fn materialized(es: Seq<Entry>) -> Seq<Entry> {
    insert_all(Seq::empty(), es)
}

} // verus!

verus! {

impl<'a> SerializeRecordFields<'a> {
    /// The entries, in the order they are written.
    pub open spec fn model(&self) -> Seq<Entry> {
        match self {
            SerializeRecordFields::Ser(f) => live_model(f@),
            SerializeRecordFields::De(m) => m@,
        }
    }

    /// Owns all of its text.
    pub open spec fn is_owned(&self) -> bool {
        self matches SerializeRecordFields::De(m) && m.is_owned()
    }

    /// Writes every field into the collector, in order.
    pub fn record_into<S: EntrySink>(&self, visitor: &mut SerdeMapVisitor<S>)
        ensures
            sent(old(visitor)@, self.model(), final(visitor)@),
    {
        match self {
            SerializeRecordFields::Ser(f) => record_live(visitor, f),
            SerializeRecordFields::De(m) => record_map(visitor, m),
        }
    }

    /// Writes the fields as one map: each field is an entry, in order. The
    /// first entry the sink refuses ends the map, unclosed, with that error;
    /// otherwise the result is what closing the map gives.
    pub fn serialize<S: EntrySink>(&self, serializer: S) -> (r: Result<S::Output, S::Error>)
        ensures
            serialized(serializer, self.model(), r),
    {
        let mut visitor = SerdeMapVisitor::new(serializer);
        self.record_into(&mut visitor);
        visitor.finish()
    }

    /// A copy that owns all of its data. Live fields are copied into a fresh
    /// map in the order they were recorded; a map is copied entry by entry.
    pub fn to_owned(&self) -> (r: SerializeRecordFields<'static>)
        ensures
            r.is_owned(),
            r.model() == match self {
                SerializeRecordFields::Ser(_) => materialized(self.model()),
                SerializeRecordFields::De(_) => self.model(),
            },
    {
        match self {
            SerializeRecordFields::Ser(f) => SerializeRecordFields::De(RecordMap::from_live(f)),
            SerializeRecordFields::De(m) => SerializeRecordFields::De(m.to_owned()),
        }
    }
}

impl<'a> From<RecordMap<'a>> for SerializeRecordFields<'a> {
    fn from(other: RecordMap<'a>) -> (r: Self) {
        SerializeRecordFields::De(other)
    }
}

impl<'a> vstd::std_specs::convert::FromSpecImpl<RecordMap<'a>> for SerializeRecordFields<'a> {
    open spec fn obeys_from_spec() -> bool {
        true
    }

    open spec fn from_spec(other: RecordMap<'a>) -> Self {
        SerializeRecordFields::De(other)
    }
}

impl<'a> SerializeSpanFields<'a> {
    /// The entries, in the order they are written.
    pub open spec fn model(&self) -> Seq<Entry> {
        match self {
            SerializeSpanFields::Ser(f) => live_model(f@),
            SerializeSpanFields::De(m) => m@,
        }
    }

    /// Owns all of its text.
    pub open spec fn is_owned(&self) -> bool {
        self matches SerializeSpanFields::De(m) && m.is_owned()
    }

    /// Writes every field into the collector, in order.
    pub fn record_into<S: EntrySink>(&self, visitor: &mut SerdeMapVisitor<S>)
        ensures
            sent(old(visitor)@, self.model(), final(visitor)@),
    {
        match self {
            SerializeSpanFields::Ser(f) => record_live(visitor, f),
            SerializeSpanFields::De(m) => record_map(visitor, m),
        }
    }

    /// Writes the fields as one map: each field is an entry, in order. The
    /// first entry the sink refuses ends the map, unclosed, with that error;
    /// otherwise the result is what closing the map gives.
    pub fn serialize<S: EntrySink>(&self, serializer: S) -> (r: Result<S::Output, S::Error>)
        ensures
            serialized(serializer, self.model(), r),
    {
        let mut visitor = SerdeMapVisitor::new(serializer);
        self.record_into(&mut visitor);
        visitor.finish()
    }

    /// A copy that owns all of its data. Live fields are copied into a fresh
    /// map in the order they were recorded; a map is copied entry by entry.
    pub fn to_owned(&self) -> (r: SerializeSpanFields<'static>)
        ensures
            r.is_owned(),
            r.model() == match self {
                SerializeSpanFields::Ser(_) => materialized(self.model()),
                SerializeSpanFields::De(_) => self.model(),
            },
    {
        match self {
            SerializeSpanFields::Ser(f) => SerializeSpanFields::De(RecordMap::from_live(f)),
            SerializeSpanFields::De(m) => SerializeSpanFields::De(m.to_owned()),
        }
    }
}

impl<'a> From<RecordMap<'a>> for SerializeSpanFields<'a> {
    fn from(other: RecordMap<'a>) -> (r: Self) {
        SerializeSpanFields::De(other)
    }
}

impl<'a> vstd::std_specs::convert::FromSpecImpl<RecordMap<'a>> for SerializeSpanFields<'a> {
    open spec fn obeys_from_spec() -> bool {
        true
    }

    open spec fn from_spec(other: RecordMap<'a>) -> Self {
        SerializeSpanFields::De(other)
    }
}

impl<'a> SerializeRecord<'a> {
    /// The entries, in the order they are written.
    pub open spec fn model(&self) -> Seq<Entry> {
        match self {
            SerializeRecord::Ser(f) => live_model(f@),
            SerializeRecord::De(m) => m@,
        }
    }

    /// Owns all of its text.
    pub open spec fn is_owned(&self) -> bool {
        self matches SerializeRecord::De(m) && m.is_owned()
    }

    /// Writes every field into the collector, in order.
    pub fn record_into<S: EntrySink>(&self, visitor: &mut SerdeMapVisitor<S>)
        ensures
            sent(old(visitor)@, self.model(), final(visitor)@),
    {
        match self {
            SerializeRecord::Ser(f) => record_live(visitor, f),
            SerializeRecord::De(m) => record_map(visitor, m),
        }
    }

    /// Writes the fields as one map: each field is an entry, in order. The
    /// first entry the sink refuses ends the map, unclosed, with that error;
    /// otherwise the result is what closing the map gives.
    pub fn serialize<S: EntrySink>(&self, serializer: S) -> (r: Result<S::Output, S::Error>)
        ensures
            serialized(serializer, self.model(), r),
    {
        let mut visitor = SerdeMapVisitor::new(serializer);
        self.record_into(&mut visitor);
        visitor.finish()
    }

    /// A copy that owns all of its data. Live fields are copied into a fresh
    /// map in the order they were recorded; a map is copied entry by entry.
    pub fn to_owned(&self) -> (r: SerializeRecord<'static>)
        ensures
            r.is_owned(),
            r.model() == match self {
                SerializeRecord::Ser(_) => materialized(self.model()),
                SerializeRecord::De(_) => self.model(),
            },
    {
        match self {
            SerializeRecord::Ser(f) => SerializeRecord::De(RecordMap::from_live(f)),
            SerializeRecord::De(m) => SerializeRecord::De(m.to_owned()),
        }
    }
}

impl<'a> From<RecordMap<'a>> for SerializeRecord<'a> {
    fn from(other: RecordMap<'a>) -> (r: Self) {
        SerializeRecord::De(other)
    }
}

impl<'a> vstd::std_specs::convert::FromSpecImpl<RecordMap<'a>> for SerializeRecord<'a> {
    open spec fn obeys_from_spec() -> bool {
        true
    }

    open spec fn from_spec(other: RecordMap<'a>) -> Self {
        SerializeRecord::De(other)
    }
}

} // verus!

verus! {

/// Serializing live fields and serializing the copy that `to_owned` makes
/// of them give the same result on equal sinks, as long as no field name
/// occurs twice.
pub proof fn lemma_live_and_materialized_agree<'a, S: EntrySink>(
    live: &'a [(&'a str, SerializeValue<'a>)],
    owned: SerializeRecordFields<'static>,
    sink: S,
    r: Result<S::Output, S::Error>,
)
    requires
        keys_distinct(live_model(live@)),
        owned.model() == materialized(SerializeRecordFields::Ser(live).model()),
    ensures
        owned.model() == SerializeRecordFields::Ser(live).model(),
        serialized(sink, SerializeRecordFields::Ser(live).model(), r) == serialized(
            sink,
            owned.model(),
            r,
        ),
{
    lemma_insert_all_distinct(live_model(live@));
}

/// Reading back the entries a materialized record was written as, by
/// inserting them in turn into a fresh map, gives the same entries in the
/// same order; written again, they give the same result as the source did.
pub proof fn lemma_materialized_round_trip<'a, S: EntrySink>(
    source: SerializeRecordFields<'a>,
    read_back: SerializeRecordFields<'static>,
    sink: S,
    r: Result<S::Output, S::Error>,
)
    requires
        source is De,
        keys_distinct(source.model()),
        read_back.model() == materialized(source.model()),
    ensures
        read_back.model() == source.model(),
        serialized(sink, source.model(), r) == serialized(sink, read_back.model(), r),
{
    lemma_insert_all_distinct(source.model());
}

} // verus!
