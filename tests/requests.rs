use cargo_prebuilt::request::{parse_package_list, PackageRequest};

#[test]
fn package_list_splits_and_dedups() {
    let s: Vec<String> = parse_package_list("foo,bar@1.0.0,foo,baz").into_iter().collect();
    assert_eq!(s, vec!["foo", "bar@1.0.0", "baz"]);
}

#[test]
fn package_list_keeps_empty_pieces_once() {
    let s: Vec<String> = parse_package_list("a,,b,").into_iter().collect();
    assert_eq!(s, vec!["a", "", "b"]);
    let e: Vec<String> = parse_package_list("").into_iter().collect();
    assert_eq!(e, vec![""]);
}

#[test]
fn request_with_version() {
    let r = PackageRequest::parse("ripgrep@13.0.0");
    assert_eq!(r.id, "ripgrep");
    assert_eq!(r.version.as_deref(), Some("13.0.0"));
    let r2 = PackageRequest::parse("a@b@c");
    assert_eq!(r2.id, "a");
    assert_eq!(r2.version.as_deref(), Some("b@c"));
}

#[test]
fn request_without_version() {
    let r = PackageRequest::parse("foo");
    assert_eq!(r.id, "foo");
    assert_eq!(r.version, None);
}
