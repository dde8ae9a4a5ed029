use haproxy_spoa_rust::proplists::PropLists;

#[test]
fn test_find_when_value_is_present() {
    let tags = &mut PropLists::new();
    tags.push("http.method", "GET".to_string());
    tags.push("http.version", "HTTP/1.1".to_string());
    let found = tags.first("http.method");
    assert_eq!(found, Some(&"GET".to_string()));
}

#[test]
fn test_find_only_first_occurence_should_be_returned() {
    let tags = &mut PropLists::new();
    tags.push("http.method", "GET".to_string());
    tags.push("http.version", "HTTP/1.1".to_string());
    tags.push("http.method", "POST".to_string());
    tags.push("http.method", "PATCH".to_string());
    let found = tags.first("http.method");
    assert_eq!(found, Some(&"GET".to_string()));
}

#[test]
fn test_find_when_value_is_not_present() {
    let tags = &mut PropLists::new();
    tags.push("http.method", "GET".to_string());
    tags.push("http.version", "HTTP/1.1".to_string());
    let found = tags.first("http.verb");
    assert_eq!(found, None);
}

#[test]
fn test_iter() {
    let mut tags = PropLists::new();
    tags.push("http.method", "GET".to_string());
    tags.push("http.version", "HTTP/1.1".to_string());

    let mut iter = tags.into_iter();
    assert_eq!(
        Some(("http.method".to_string(), "GET".to_string())),
        iter.next()
    );
    assert_eq!(
        Some(("http.version".to_string(), "HTTP/1.1".to_string())),
        iter.next()
    );
    assert_eq!(None, iter.next());
}

#[test]
fn proplist_keeps_order_and_length() {
    let mut tags = PropLists::new();
    assert_eq!(tags.len(), 0);
    tags.push("a", 1u32);
    tags.push("b", 2u32);
    tags.push("a", 3u32);
    assert_eq!(tags.len(), 3);
    assert_eq!(tags.get(2), ("a", &3u32));
    assert_eq!(tags.first("a"), Some(&1u32));
    let all = tags.into_vec();
    assert_eq!(
        all,
        vec![("a".to_string(), 1u32), ("b".to_string(), 2u32), ("a".to_string(), 3u32)]
    );
}
