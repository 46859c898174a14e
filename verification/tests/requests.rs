use httpie::{merge_pairs, parse_kv_pair, parse_url, Command, KvPair, Method};

fn pairs(tokens: &[&str]) -> Vec<KvPair> {
    tokens.iter().map(|t| parse_kv_pair(t).unwrap()).collect()
}

fn pair(k: &str, v: &str) -> KvPair {
    KvPair { k: k.into(), v: v.into() }
}

#[test]
fn get_sends_no_body() {
    let command = Command::Get { url: parse_url("https://httpbin.org/get").unwrap() };
    assert_eq!(command.url().as_str(), "https://httpbin.org/get");
    let request = command.request();
    assert_eq!(request.method, Method::Get);
    assert_eq!(request.url, "https://httpbin.org/get");
    assert_eq!(request.json, None);
    assert_eq!(request.content_type(), None);
}

#[test]
fn post_sends_the_pairs_as_one_object() {
    let command = Command::Post {
        url: parse_url("https://httpbin.org/post").unwrap(),
        body: pairs(&["a=1", "b=2"]),
    };
    assert_eq!(command.url().as_str(), "https://httpbin.org/post");
    let request = command.request();
    assert_eq!(request.method, Method::Post);
    assert_eq!(request.url, "https://httpbin.org/post");
    assert_eq!(request.json, Some(vec![pair("a", "1"), pair("b", "2")]));
    assert_eq!(request.content_type(), Some("application/json"));
}

#[test]
fn post_without_pairs_sends_an_empty_object() {
    let command = Command::Post {
        url: parse_url("http://abc.xyz").unwrap(),
        body: Vec::new(),
    };
    let request = command.request();
    assert_eq!(request.method, Method::Post);
    assert_eq!(request.json, Some(Vec::new()));
    assert_eq!(request.content_type(), Some("application/json"));
}

#[test]
fn last_write_wins() {
    let merged = merge_pairs(&pairs(&["a=1", "b=2", "a=3"]));
    assert_eq!(merged, vec![pair("a", "3"), pair("b", "2")]);
    let merged = merge_pairs(&pairs(&["k=", "k=x", "k=y=z"]));
    assert_eq!(merged, vec![pair("k", "y=z")]);
}

#[test]
fn merged_keys_are_distinct_and_keep_first_place() {
    let merged = merge_pairs(&pairs(&["c=1", "a=2", "b=3", "a=4", "c=5", "d=6", "b=7"]));
    assert_eq!(
        merged,
        vec![pair("c", "5"), pair("a", "4"), pair("b", "7"), pair("d", "6")]
    );
    for i in 0..merged.len() {
        for j in 0..i {
            assert_ne!(merged[i].k, merged[j].k);
        }
    }
}

#[test]
fn merging_nothing_gives_nothing() {
    assert_eq!(merge_pairs(&Vec::new()), Vec::<KvPair>::new());
}

#[test]
fn merging_distinct_keys_changes_nothing() {
    let given = pairs(&["x=1", "y=2", "z=3"]);
    assert_eq!(merge_pairs(&given), given);
}

#[test]
fn keys_differ_by_case() {
    let merged = merge_pairs(&pairs(&["a=1", "A=2"]));
    assert_eq!(merged, vec![pair("a", "1"), pair("A", "2")]);
}
