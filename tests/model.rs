use std::collections::hash_map::DefaultHasher;
use std::hash::{Hash, Hasher};

use tracing_serde_structured::cow_string::CowString;
use tracing_serde_structured::id::SerializeId;
use tracing_serde_structured::level::SerializeLevel;
use tracing_serde_structured::value::{DebugRecord, SerializeValue};

fn hash_of(s: &CowString<'_>) -> u64 {
    let mut h = DefaultHasher::new();
    s.hash(&mut h);
    h.finish()
}

#[test]
fn borrowed_and_owned_strings_are_equal() {
    let text = String::from("payload");
    let borrowed = CowString::Borrowed(text.as_str());
    let owned = CowString::Owned(String::from("payload"));
    assert!(borrowed == owned);
    assert_eq!(hash_of(&borrowed), hash_of(&owned));
    assert!(borrowed != CowString::Borrowed("other"));
}

#[test]
fn cow_string_as_str_and_to_owned() {
    let b = CowString::from("abc");
    assert!(matches!(b, CowString::Borrowed(_)));
    assert_eq!(b.as_str(), "abc");
    let o = b.to_owned();
    assert!(matches!(o, CowString::Owned(_)));
    assert_eq!(o.as_str(), "abc");
}

#[test]
fn levels_ordered_by_severity() {
    let all = [
        SerializeLevel::Trace,
        SerializeLevel::Debug,
        SerializeLevel::Info,
        SerializeLevel::Warn,
        SerializeLevel::Error,
    ];
    for i in 0..all.len() {
        for j in 0..all.len() {
            assert_eq!(all[i] < all[j], i < j);
            assert_eq!(all[i] == all[j], i == j);
        }
    }
    assert!(SerializeLevel::Trace < SerializeLevel::Debug);
    assert!(SerializeLevel::Debug < SerializeLevel::Info);
    assert!(SerializeLevel::Info < SerializeLevel::Warn);
    assert!(SerializeLevel::Warn < SerializeLevel::Error);
}

#[test]
fn level_tokens_round_trip() {
    assert_eq!(SerializeLevel::Warn.as_token(), "WARN");
    assert_eq!(SerializeLevel::Trace.as_token(), "TRACE");
    assert_eq!(SerializeLevel::Error.severity(), 4);
    for l in [
        SerializeLevel::Trace,
        SerializeLevel::Debug,
        SerializeLevel::Info,
        SerializeLevel::Warn,
        SerializeLevel::Error,
    ] {
        assert_eq!(SerializeLevel::from_token(l.as_token()), Some(l));
        assert_eq!(l.to_owned(), l);
    }
    assert_eq!(SerializeLevel::from_token("warn"), None);
}

#[test]
fn ids_are_nonzero() {
    assert!(SerializeId::new(0).is_none());
    let id = SerializeId::new(42).unwrap();
    assert_eq!(id.get(), 42);
    assert_eq!(id.to_owned(), id);
}

#[test]
fn debug_record_snapshot() {
    let text = String::from("Point { x: 1 }");
    let live = DebugRecord::Ser(text.as_str());
    let owned = live.to_owned();
    assert!(matches!(owned, DebugRecord::De(CowString::Owned(_))));
    assert_eq!(owned.as_str(), "Point { x: 1 }");
    let read = DebugRecord::from(CowString::from("x"));
    assert!(matches!(read, DebugRecord::De(CowString::Borrowed("x"))));
}

#[test]
fn values_keep_their_kind_when_owned() {
    let s = String::from("hi");
    let bits = 1.5f64.to_bits();
    let values = [
        SerializeValue::Bool(true),
        SerializeValue::I64(-7),
        SerializeValue::U64(u64::MAX),
        SerializeValue::F64(bits),
        SerializeValue::Str(CowString::Borrowed(s.as_str())),
        SerializeValue::Debug(DebugRecord::Ser(s.as_str())),
    ];
    let owned: Vec<SerializeValue<'static>> = values.iter().map(|v| v.to_owned()).collect();
    assert!(matches!(owned[0], SerializeValue::Bool(true)));
    assert!(matches!(owned[1], SerializeValue::I64(-7)));
    assert!(matches!(owned[2], SerializeValue::U64(u64::MAX)));
    match &owned[3] {
        SerializeValue::F64(b) => assert_eq!(f64::from_bits(*b), 1.5f64),
        _ => panic!("not a float"),
    }
    match &owned[4] {
        SerializeValue::Str(CowString::Owned(t)) => assert_eq!(t, "hi"),
        _ => panic!("not an owned string"),
    }
    match &owned[5] {
        SerializeValue::Debug(d) => {
            assert!(matches!(d, DebugRecord::De(CowString::Owned(_))));
            assert_eq!(d.as_str(), "hi");
        }
        _ => panic!("not a debug record"),
    }
}
