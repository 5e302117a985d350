use tracing_serde_structured::cow_string::CowString;
use tracing_serde_structured::fields::{SerializeRecord, SerializeRecordFields, SerializeSpanFields};
use tracing_serde_structured::id::SerializeId;
use tracing_serde_structured::level::SerializeLevel;
use tracing_serde_structured::metadata::{SerializeAttributes, SerializeEvent, SerializeFieldSet, SerializeMetadata};
use tracing_serde_structured::record_map::RecordMap;
use tracing_serde_structured::value::{DebugRecord, SerializeValue};
use tracing_serde_structured::visitor::{CapacityError, EntryBuffer, EntrySink, SerdeMapVisitor};

fn same_value(a: &SerializeValue<'_>, b: &SerializeValue<'_>) -> bool {
    match (a, b) {
        (SerializeValue::Bool(x), SerializeValue::Bool(y)) => x == y,
        (SerializeValue::I64(x), SerializeValue::I64(y)) => x == y,
        (SerializeValue::U64(x), SerializeValue::U64(y)) => x == y,
        (SerializeValue::F64(x), SerializeValue::F64(y)) => x == y,
        (SerializeValue::Str(x), SerializeValue::Str(y)) => x == y,
        (SerializeValue::Debug(x), SerializeValue::Debug(y)) => x.as_str() == y.as_str(),
        _ => false,
    }
}

fn same_entries(a: &[(String, SerializeValue<'static>)], b: &[(String, SerializeValue<'static>)]) -> bool {
    a.len() == b.len() && a.iter().zip(b.iter()).all(|(x, y)| x.0 == y.0 && same_value(&x.1, &y.1))
}

fn metadata<'a>(names: &'a [&'a str]) -> SerializeMetadata<'a> {
    SerializeMetadata {
        name: CowString::from("request"),
        target: CowString::from("svc"),
        level: SerializeLevel::Warn,
        module: None,
        file: None,
        line: Some(88),
        fields: SerializeFieldSet::Ser(names),
        is_span: false,
        is_event: true,
    }
}

#[test]
fn event_scenario() {
    let names = ["code", "msg"];
    let live = [
        ("code", SerializeValue::U64(404)),
        ("msg", SerializeValue::Str(CowString::from("not found"))),
    ];
    let event = SerializeEvent {
        fields: SerializeRecordFields::Ser(&live),
        metadata: metadata(&names),
        parent: None,
    };
    let written = event.fields.serialize(EntryBuffer::new()).unwrap();
    assert_eq!(written.len(), 2);
    assert_eq!(written[0].0, "code");
    assert!(matches!(written[0].1, SerializeValue::U64(404)));
    assert_eq!(written[1].0, "msg");
    assert!(same_value(&written[1].1, &SerializeValue::Str(CowString::from("not found"))));
    assert_eq!(event.metadata.name.as_str(), "request");
    assert_eq!(event.metadata.target.as_str(), "svc");
    assert_eq!(event.metadata.level.as_token(), "WARN");
    assert_eq!(event.metadata.line, Some(88));

    let owned = event.to_owned();
    assert_eq!(owned.metadata.level.as_token(), "WARN");
    assert_eq!(owned.metadata.fields.len(), 2);
    assert!(matches!(owned.metadata.name, CowString::Owned(_)));
    let again = owned.fields.serialize(EntryBuffer::new()).unwrap();
    assert!(same_entries(&written, &again));
}

#[test]
fn live_and_materialized_write_the_same() {
    let text = String::from("debugged");
    let live = [
        ("b", SerializeValue::Bool(false)),
        ("a", SerializeValue::I64(-3)),
        ("f", SerializeValue::F64(2.25f64.to_bits())),
        ("d", SerializeValue::Debug(DebugRecord::Ser(text.as_str()))),
    ];
    let fields = SerializeSpanFields::Ser(&live);
    let direct = fields.serialize(EntryBuffer::new()).unwrap();
    let owned = fields.to_owned();
    assert!(matches!(owned, SerializeSpanFields::De(_)));
    let buffered = owned.serialize(EntryBuffer::new()).unwrap();
    assert!(same_entries(&direct, &buffered));
    assert_eq!(buffered[0].0, "b");
    assert_eq!(buffered[3].0, "d");
}

#[test]
fn materialized_round_trip() {
    let mut map = RecordMap::new();
    assert!(map.insert(CowString::from("x"), SerializeValue::U64(1)).is_ok());
    assert!(map.insert(CowString::from("y"), SerializeValue::Str(CowString::from("s"))).is_ok());
    let record = SerializeRecord::from(map);
    let written = record.serialize(EntryBuffer::new()).unwrap();
    let pairs: Vec<(&str, SerializeValue<'_>)> =
        written.iter().map(|(k, v)| (k.as_str(), v.to_owned())).collect();
    let read_back = SerializeRecord::from(RecordMap::from_live(&pairs));
    let rewritten = read_back.serialize(EntryBuffer::new()).unwrap();
    assert!(same_entries(&written, &rewritten));
}

#[test]
fn later_value_wins_when_materializing() {
    let live = [("k", SerializeValue::U64(1)), ("j", SerializeValue::U64(2)), ("k", SerializeValue::U64(3))];
    let map = RecordMap::from_live(&live);
    assert_eq!(map.len(), 2);
    let (k0, v0) = map.entry_at(0);
    assert_eq!(k0.as_str(), "k");
    assert!(matches!(v0, SerializeValue::U64(3)));
}

#[test]
fn first_error_sticks() {
    let live = [
        ("a", SerializeValue::U64(1)),
        ("b", SerializeValue::U64(2)),
        ("c", SerializeValue::U64(3)),
        ("d", SerializeValue::U64(4)),
    ];
    let fields = SerializeRecordFields::Ser(&live);
    let mut visitor = SerdeMapVisitor::new(EntryBuffer::with_capacity(1));
    fields.record_into(&mut visitor);
    assert!(!visitor.is_ok());
    assert_eq!(visitor.sink().handed_len(), 2);
    assert_eq!(visitor.sink().handed_at(1).0, "b");
    assert!(matches!(visitor.take_serializer(), Err(CapacityError { capacity: 1 })));
    assert_eq!(fields.serialize(EntryBuffer::with_capacity(2)).unwrap_err(), CapacityError { capacity: 2 });
}

#[test]
fn collector_records_each_kind() {
    let mut visitor = SerdeMapVisitor::new(EntryBuffer::new());
    visitor.record_bool("b", true);
    visitor.record_i64("i", -1);
    visitor.record_u64("u", 9);
    visitor.record_f64("f", 0.5f64.to_bits());
    visitor.record_str("s", "text");
    visitor.record_debug("d", "Some(1)");
    assert!(visitor.is_ok());
    let out = visitor.finish().unwrap();
    assert_eq!(out.len(), 6);
    assert!(matches!(out[0].1, SerializeValue::Bool(true)));
    assert!(matches!(out[1].1, SerializeValue::I64(-1)));
    assert!(matches!(out[2].1, SerializeValue::U64(9)));
    assert!(matches!(out[3].1, SerializeValue::F64(b) if f64::from_bits(b) == 0.5));
    match &out[5].1 {
        SerializeValue::Debug(d) => assert_eq!(d.as_str(), "Some(1)"),
        _ => panic!("not a debug record"),
    }
    let mut taken = SerdeMapVisitor::new(EntryBuffer::new());
    taken.record_str("s", "v");
    let sink = taken.take_serializer().unwrap();
    assert_eq!(sink.handed_len(), 1);
    assert_eq!(sink.end().unwrap().len(), 1);
}

#[test]
fn bounded_map_refuses_past_capacity() {
    let mut map = RecordMap::bounded(2);
    assert!(matches!(map.insert(CowString::from("a"), SerializeValue::U64(1)), Ok(None)));
    assert!(matches!(map.insert(CowString::from("b"), SerializeValue::U64(2)), Ok(None)));
    match map.insert(CowString::from("c"), SerializeValue::U64(3)) {
        Err((k, v)) => {
            assert_eq!(k.as_str(), "c");
            assert!(matches!(v, SerializeValue::U64(3)));
        }
        Ok(_) => panic!("a full map took a new name"),
    }
    assert_eq!(map.len(), 2);
    assert_eq!(map.capacity(), Some(2));
    assert!(matches!(map.get("a"), Some(SerializeValue::U64(1))));
    assert!(matches!(map.get("b"), Some(SerializeValue::U64(2))));
    assert!(map.get("c").is_none());
    // an existing name may still take a new value
    assert!(matches!(map.insert(CowString::from("a"), SerializeValue::U64(5)), Ok(Some(SerializeValue::U64(1)))));
    assert_eq!(map.position("a"), Some(0));
    let copy = map.to_owned();
    assert_eq!(copy.capacity(), Some(2));
    assert!(matches!(copy.get("a"), Some(SerializeValue::U64(5))));
}

#[test]
fn attributes_and_field_sets_to_owned() {
    let names = ["x", "y"];
    let live = [("x", SerializeValue::Bool(true))];
    let attrs = SerializeAttributes {
        metadata: metadata(&names),
        parent: SerializeId::new(7),
        is_root: false,
        fields: SerializeSpanFields::Ser(&live),
    };
    let owned = attrs.to_owned();
    assert_eq!(owned.parent.map(|p| p.get()), Some(7));
    assert!(!owned.is_root);
    match &owned.metadata.fields {
        SerializeFieldSet::De(v) => {
            assert_eq!(v.len(), 2);
            assert_eq!(v[1].as_str(), "y");
        }
        _ => panic!("field set still borrowed"),
    }
    let set = SerializeFieldSet::from(vec![CowString::from("q")]);
    assert_eq!(set.to_owned().len(), 1);
    let fields = SerializeRecordFields::from(RecordMap::new());
    assert!(fields.serialize(EntryBuffer::new()).unwrap().is_empty());
    let span = SerializeSpanFields::from(RecordMap::new());
    assert!(span.to_owned().serialize(EntryBuffer::with_capacity(0)).unwrap().is_empty());
}

#[test]
fn field_set_written_in_order() {
    let names = ["first", "second", "third"];
    let live = SerializeFieldSet::Ser(&names);
    assert_eq!(live.serialize(Vec::new()).unwrap(), vec!["first".to_string(), "second".to_string(), "third".to_string()]);
    assert_eq!(live.name_at(1), "second");
    let owned = live.to_owned();
    assert!(matches!(&owned, SerializeFieldSet::De(v) if v.iter().all(|n| matches!(n, CowString::Owned(_)))));
    let mut out: Vec<String> = vec!["head".to_string()];
    assert!(owned.write_names(&mut out).is_ok());
    assert_eq!(out, vec!["head", "first", "second", "third"]);
}

#[test]
fn bounded_field_names_refused_whole() {
    let names: Vec<CowString<'static>> = (0..32).map(|i| CowString::Owned(format!("f{}", i))).collect();
    let set = SerializeFieldSet::from_names_bounded(names, 32).unwrap();
    assert_eq!(set.len(), 32);
    let more: Vec<CowString<'static>> = (0..33).map(|i| CowString::Owned(format!("f{}", i))).collect();
    assert_eq!(SerializeFieldSet::from_names_bounded(more, 32).unwrap_err(), CapacityError { capacity: 32 });
}

#[test]
fn refusal_of_first_entry_is_reported() {
    let live = [("code", SerializeValue::U64(404)), ("msg", SerializeValue::Str(CowString::from("not found")))];
    let fields = SerializeRecordFields::Ser(&live);
    assert_eq!(fields.serialize(EntryBuffer::with_capacity(0)).unwrap_err(), CapacityError { capacity: 0 });
    let owned = fields.to_owned();
    assert_eq!(owned.serialize(EntryBuffer::with_capacity(0)).unwrap_err(), CapacityError { capacity: 0 });
}
