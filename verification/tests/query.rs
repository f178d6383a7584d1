use pingora_gateway::query::{parse_query, query_value};

fn pairs(q: &str) -> Vec<(String, String)> {
    parse_query(q)
}

fn owned(v: &[(&str, &str)]) -> Vec<(String, String)> {
    v.iter().map(|(k, v)| (k.to_string(), v.to_string())).collect()
}

#[test]
fn query_pairs_in_order() {
    assert_eq!(pairs("a=1&b=2"), owned(&[("a", "1"), ("b", "2")]));
}

#[test]
fn query_pieces_without_equals_are_dropped() {
    assert_eq!(pairs("a&b=2&c"), owned(&[("b", "2")]));
    assert_eq!(pairs(""), owned(&[]));
    assert_eq!(pairs("&&"), owned(&[]));
}

#[test]
fn query_value_is_split_at_the_first_equals() {
    assert_eq!(pairs("b=c=d"), owned(&[("b", "c=d")]));
    assert_eq!(pairs("=x&y="), owned(&[("", "x"), ("y", "")]));
}

#[test]
fn query_last_value_wins() {
    let p = pairs("a=1&b=2&a=3");
    assert_eq!(query_value(&p, "a").map(|s| s.as_str()), Some("3"));
    assert_eq!(query_value(&p, "b").map(|s| s.as_str()), Some("2"));
    assert_eq!(query_value(&p, "c"), None);
}

#[test]
fn query_handles_non_ascii() {
    assert_eq!(pairs("ключ=значение&é=ü"), owned(&[("ключ", "значение"), ("é", "ü")]));
}

#[test]
fn query_joined_with_ampersand_joins_the_pairs() {
    let mut joined = pairs("a=1&b");
    joined.extend(pairs("c=3=4"));
    assert_eq!(pairs("a=1&b&c=3=4"), joined);
}
