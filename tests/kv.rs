use httpie::error::Error;
use httpie::kv::{body_map, parse_kv_pair, KvPair};

fn pair(k: &str, v: &str) -> KvPair {
    KvPair { key: k.into(), value: v.into() }
}

#[test]
fn test_parse_kv_pair() {
    assert!(parse_kv_pair("a").is_err());
    assert_eq!(
        parse_kv_pair("a=1").unwrap(),
        KvPair {
            key: "a".into(),
            value: "1".into()
        }
    );
    assert_eq!(
        parse_kv_pair("b=").unwrap(),
        KvPair {
            key: "b".into(),
            value: "".into()
        }
    );
}

#[test]
fn token_without_separator_is_malformed() {
    assert_eq!(
        parse_kv_pair("abc"),
        Err(Error::MalformedPair("abc".to_string()))
    );
    assert_eq!(parse_kv_pair(""), Err(Error::MalformedPair(String::new())));
}

#[test]
fn split_is_at_the_first_separator() {
    assert_eq!(parse_kv_pair("a=b=c").unwrap(), pair("a", "b=c"));
    assert_eq!(KvPair::parse("x==").unwrap(), pair("x", "="));
    assert_eq!("k=v".parse::<KvPair>().unwrap(), pair("k", "v"));
    assert_eq!("=value".parse::<KvPair>().unwrap(), pair("", "value"));
    assert_eq!("=".parse::<KvPair>().unwrap(), pair("", ""));
    assert_eq!("a=b=c".parse::<KvPair>().unwrap(), pair("a", "b=c"));
    assert_eq!(
        "ab".parse::<KvPair>(),
        Err(Error::MalformedPair("ab".to_string()))
    );
}

#[test]
fn empty_key_is_accepted() {
    assert_eq!(parse_kv_pair("=value").unwrap(), pair("", "value"));
    assert_eq!(parse_kv_pair("=").unwrap(), pair("", ""));
}

#[test]
fn key_and_value_read_back() {
    for (k, v) in [("name", "bob"), ("k", ""), ("a b", "c=d"), ("ключ", "значение")] {
        let token = format!("{}={}", k, v);
        assert_eq!(parse_kv_pair(&token).unwrap(), pair(k, v));
    }
}

#[test]
fn body_map_keeps_the_last_value_of_a_key() {
    let pairs = vec![pair("a", "1"), pair("b", "2"), pair("a", "3")];
    assert_eq!(body_map(&pairs), vec![pair("a", "3"), pair("b", "2")]);
}

#[test]
fn body_map_of_distinct_keys_is_unchanged() {
    let pairs = vec![pair("a", "1"), pair("b", "2")];
    assert_eq!(body_map(&pairs), pairs);
    assert_eq!(body_map(&Vec::new()), Vec::<KvPair>::new());
}

#[test]
fn body_map_round_trips_through_json() {
    let pairs = vec![pair("a", "1"), pair("b", "2")];
    let mut object = serde_json::Map::new();
    for p in body_map(&pairs) {
        object.insert(p.key, serde_json::Value::String(p.value));
    }
    let text = serde_json::to_string(&serde_json::Value::Object(object)).unwrap();
    let back: std::collections::HashMap<String, String> = serde_json::from_str(&text).unwrap();
    let mut expected = std::collections::HashMap::new();
    expected.insert("a".to_string(), "1".to_string());
    expected.insert("b".to_string(), "2".to_string());
    assert_eq!(back, expected);
}

#[test]
fn malformed_pair_message_names_the_token() {
    assert_eq!(
        Error::MalformedPair("zz".to_string()).message(),
        "Failed to parse zz"
    );
    assert_eq!(
        Error::InvalidUrl("abc".to_string()).message(),
        "invalid URL: abc"
    );
}
