use client::unique_id::{InternTable, Payload, UniqueId};
use std::collections::hash_map::DefaultHasher;
use std::collections::HashSet;
use std::hash::{Hash, Hasher};

fn hash_of(id: &UniqueId) -> u64 {
    let mut h = DefaultHasher::new();
    id.hash(&mut h);
    h.finish()
}

fn to_value(p: &Payload) -> serde_json::Value {
    match p {
        Payload::Text(s) => serde_json::Value::String(s.clone()),
        Payload::Structured(s) => serde_json::from_str(s).unwrap(),
    }
}

fn from_json(s: &str) -> Payload {
    match serde_json::from_str::<serde_json::Value>(s).unwrap() {
        serde_json::Value::String(s) => Payload::Text(s),
        v => Payload::Structured(serde_json::to_string(&v).unwrap()),
    }
}

#[test]
fn test_unique_id_equality() {
    let mut t = InternTable::new();
    let id1 = UniqueId::from_str(&mut t, "test");
    let id2 = UniqueId::from_str(&mut t, "test");
    let id3 = UniqueId::from_str(&mut t, "test2");

    assert_eq!(id1, id2);
    assert_ne!(id1, id3);
    assert_ne!(id2, id3);
}

#[test]
fn test_unique_id_serialization() {
    let mut t = InternTable::new();
    let id1 = UniqueId::from_str(&mut t, "test");
    let serialized = serde_json::to_string(&to_value(&id1.serialize(&t))).unwrap();
    let deserialized = UniqueId::deserialize(&mut t, from_json(&serialized));
    assert_eq!(id1, deserialized);
}

#[test]
fn test_unique_id_concatenation() {
    let mut t = InternTable::new();
    let id1 = UniqueId::from_str(&mut t, "test1");
    let id2 = UniqueId::from_str(&mut t, "test2");
    let id3 = UniqueId::from_str(&mut t, "test3");

    let res = id1.combine(&mut t, id2).combine(&mut t, id3);
    assert_eq!(res.display(&t), "test1test2test3");
}

#[test]
fn test_unique_id_hash() {
    let mut t = InternTable::new();
    let id1 = UniqueId::from_str(&mut t, "test");
    let id2 = UniqueId::from_str(&mut t, "test");
    let id3 = UniqueId::from_str(&mut t, "test2");

    let mut set = HashSet::new();
    set.insert(id1);
    set.insert(id2);
    set.insert(id3);

    assert_eq!(set.len(), 2);
}

#[test]
fn test_escaped_characters() {
    let mut t = InternTable::new();
    let id = UniqueId::from_str(&mut t, "test\\nline\\ttab\\rreturn");
    assert_eq!(id.display(&t), "test\nline\ttab\rreturn");
}

#[test]
fn test_unique_id() {
    let mut t = InternTable::new();
    let id1 = UniqueId::from_str(&mut t, "test");
    let id2 = UniqueId::from_str(&mut t, "test");
    let id3 = UniqueId::from_str(&mut t, "test2");

    assert_eq!(id1, id2);
    assert_ne!(id1, id3);
    assert_ne!(id2, id3);

    println!("id1: {}", id1.display(&t));
    let serialized = serde_json::to_string_pretty(&to_value(&id1.serialize(&t))).unwrap();
    let deserialized = UniqueId::deserialize(&mut t, from_json(&serialized));
    assert_eq!(id1, deserialized);
}

#[test]
fn test_unique_id_count() {
    let mut t = InternTable::new();
    let id1 = UniqueId::from_str(&mut t, "test");
    let id2 = UniqueId::from_str(&mut t, "test");
    let id3 = UniqueId::from_str(&mut t, "test2");

    let res = id1.combine(&mut t, id2).combine(&mut t, id3);
    assert_eq!(res.display(&t), "testtesttest2");
}

#[test]
fn identity_follows_content() {
    let mut t = InternTable::new();
    let a = UniqueId::from_str(&mut t, "abc");
    let b = UniqueId::from_str(&mut t, "abd");
    let c = UniqueId::from_str(&mut t, "abc");
    assert_eq!(a, c);
    assert_ne!(a, b);
    assert_eq!(a.as_str(&t), "abc");
    assert_eq!(b.as_str(&t), "abd");
}

#[test]
fn repeated_interning_is_stable() {
    let mut t = InternTable::new();
    let first = UniqueId::from_str(&mut t, "AAPL");
    for _ in 0..10 {
        assert_eq!(UniqueId::from_str(&mut t, "AAPL"), first);
    }
    assert_eq!(UniqueId::count(&t), 1);
}

#[test]
fn equal_handles_hash_equal() {
    let mut t = InternTable::new();
    let a = UniqueId::from_str(&mut t, "EURUSD");
    let b = UniqueId::from_str(&mut t, "EURUSD");
    let copy = a;
    assert_eq!(hash_of(&a), hash_of(&b));
    assert_eq!(hash_of(&a), hash_of(&copy));
}

#[test]
fn interleaved_interns_count_distinct_texts() {
    let mut t = InternTable::new();
    let inputs = ["x", "y", "x", "", "y", "z", "x", ""];
    let mut seen: Vec<UniqueId> = Vec::new();
    for s in inputs.iter() {
        seen.push(UniqueId::from_str(&mut t, s));
    }
    assert_eq!(seen[0], seen[2]);
    assert_eq!(seen[0], seen[6]);
    assert_eq!(seen[1], seen[4]);
    assert_eq!(seen[3], seen[7]);
    assert_eq!(UniqueId::count(&t), 4);
}

#[test]
fn combine_foo_bar() {
    let mut t = InternTable::new();
    let foo = UniqueId::from_str(&mut t, "foo");
    let bar = UniqueId::from_str(&mut t, "bar");
    let foobar = foo.combine(&mut t, bar);
    assert_eq!(foobar.as_str(&t), "foobar");
    assert_ne!(foobar, foo);
    assert_ne!(foobar, bar);
    assert_eq!(foobar, UniqueId::from_str(&mut t, "foobar"));
}

#[test]
fn combine_with_text_and_with_empty() {
    let mut t = InternTable::new();
    let foo = UniqueId::from_str(&mut t, "foo");
    let r = foo.combine_str(&mut t, "-1");
    assert_eq!(r.as_str(&t), "foo-1");
    let empty = t.default_handle();
    let same = foo.combine(&mut t, empty);
    assert_eq!(same, foo);
}

#[test]
fn add_and_merged_join_in_order() {
    let mut t = InternTable::new();
    let base = UniqueId::from_str(&mut t, "KRX");
    let parts = vec!["_".to_string(), "005930".to_string()];
    let added = base.add(&mut t, &parts);
    assert_eq!(added.as_str(&t), "KRX_005930");
    let merged = UniqueId::merged(&mut t, &vec!["KRX".to_string(), "_".to_string(), "005930".to_string()]);
    assert_eq!(merged, added);
    let nothing = UniqueId::merged(&mut t, &Vec::new());
    assert_eq!(nothing, t.default_handle());
}

#[test]
fn escapes_shown_but_not_stored() {
    let mut t = InternTable::new();
    let id = UniqueId::from_str(&mut t, "a\\nb");
    assert_eq!(id.display(&t), "a\nb");
    assert_eq!(id.as_str(&t), "a\\nb");
    let other = UniqueId::from_str(&mut t, "x\\qy\\");
    assert_eq!(other.display(&t), "x\\qy\\");
    let double = UniqueId::from_str(&mut t, "\\\\n");
    assert_eq!(double.display(&t), "\\\n");
}

#[test]
fn empty_text_is_default_handle() {
    let mut t = InternTable::new();
    assert_eq!(UniqueId::count(&t), 0);
    let before = UniqueId::from_str(&mut t, "q");
    let empty = UniqueId::from_str(&mut t, "");
    let d = t.default_handle();
    assert_eq!(empty, d);
    assert_ne!(before, d);
    assert_eq!(d.as_str(&t), "");
    assert_eq!(UniqueId::count(&t), 2);
}

#[test]
fn default_handle_counts_once() {
    let mut t = InternTable::new();
    let d = t.default_handle();
    assert_eq!(UniqueId::count(&t), 1);
    let again = d.add(&mut t, &[]);
    assert_eq!(again, d);
    assert_eq!(UniqueId::from_str(&mut t, ""), d);
    assert_eq!(UniqueId::count(&t), 1);
}

#[test]
fn exchange_codes_scenario() {
    let mut t = InternTable::new();
    let a = UniqueId::from_str(&mut t, "KRX");
    let b = UniqueId::from_str(&mut t, "KRX");
    let c = UniqueId::from_str(&mut t, "NASDAQ");
    assert_eq!(UniqueId::count(&t), 2);
    assert_eq!(a, b);
    assert_eq!(hash_of(&a), hash_of(&b));
    assert_ne!(a, c);
    assert_ne!(b, c);
}

#[test]
fn plain_text_round_trips() {
    let mut t = InternTable::new();
    let id = UniqueId::from_str(&mut t, "hello world");
    let p = id.serialize(&t);
    assert!(matches!(p, Payload::Text(ref s) if s == "hello world"));
    let back = UniqueId::deserialize(&mut t, p);
    assert_eq!(back, id);
    assert_eq!(back.as_str(&t), "hello world");
}

#[test]
fn structured_text_is_written_as_value() {
    let mut t = InternTable::new();
    let id = UniqueId::from_str(&mut t, "[1, 2]");
    let p = id.serialize(&t);
    assert!(matches!(p, Payload::Structured(ref s) if s == "[1, 2]"));
    assert_eq!(serde_json::to_string(&to_value(&p)).unwrap(), "[1,2]");
    let wire = serde_json::to_string(&to_value(&p)).unwrap();
    let back = UniqueId::deserialize(&mut t, from_json(&wire));
    assert_eq!(back.as_str(&t), "[1,2]");
    let n = UniqueId::deserialize(&mut t, from_json("123"));
    assert_eq!(n.as_str(&t), "123");
    assert_eq!(n, UniqueId::deserialize(&mut t, Payload::Text("123".to_string())));
    let obj = UniqueId::deserialize(&mut t, from_json("{\"a\": 1}"));
    assert_eq!(obj.as_str(&t), "{\"a\":1}");
    let quoted = UniqueId::from_str(&mut t, "hello");
    assert!(matches!(quoted.serialize(&t), Payload::Text(ref s) if s == "hello"));
}
