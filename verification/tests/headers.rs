use http_server::headers::Headers;

#[test]
fn new_headers_hold_nothing() {
    let headers = Headers::new();
    assert_eq!(headers.get(b"Host"), None);
    assert_eq!(headers.get(b""), None);
}

#[test]
fn insert_then_get() {
    let mut headers = Headers::new();
    headers.insert(b"Host".to_vec(), b"localhost:4221".to_vec());
    headers.insert(b"Accept".to_vec(), b"*/*".to_vec());
    assert_eq!(headers.get(b"Host"), Some(&b"localhost:4221".to_vec()));
    assert_eq!(headers.get(b"Accept"), Some(&b"*/*".to_vec()));
    assert_eq!(headers.get(b"User-Agent"), None);
}

#[test]
fn insert_replaces_the_value_of_a_name() {
    let mut headers = Headers::new();
    headers.insert(b"A".to_vec(), b"1".to_vec());
    headers.insert(b"B".to_vec(), b"x".to_vec());
    headers.insert(b"A".to_vec(), b"2".to_vec());
    assert_eq!(headers.get(b"A"), Some(&b"2".to_vec()));
    assert_eq!(headers.get(b"B"), Some(&b"x".to_vec()));
}

#[test]
fn names_are_compared_byte_for_byte() {
    let mut headers = Headers::new();
    headers.insert(b"User-Agent".to_vec(), b"curl".to_vec());
    assert_eq!(headers.get(b"user-agent"), None);
    assert_eq!(headers.get(b"User-Agent "), None);
    assert_eq!(headers.get(b"User-Agen"), None);
    headers.insert(b"user-agent".to_vec(), b"other".to_vec());
    assert_eq!(headers.get(b"User-Agent"), Some(&b"curl".to_vec()));
    assert_eq!(headers.get(b"user-agent"), Some(&b"other".to_vec()));
}

#[test]
fn the_empty_name_is_a_name() {
    let mut headers = Headers::new();
    headers.insert(Vec::new(), b"v".to_vec());
    assert_eq!(headers.get(b""), Some(&b"v".to_vec()));
}
