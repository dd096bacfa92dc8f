use validated_struct::split::split_once;

#[test]
fn split_once_at_first_separator() {
    assert_eq!(split_once("b/c/d", '/'), ("b", "c/d"));
}

#[test]
fn split_once_without_separator() {
    assert_eq!(split_once("abc", '/'), ("abc", ""));
}

#[test]
fn split_once_separator_last() {
    assert_eq!(split_once("a/", '/'), ("a", ""));
}

#[test]
fn split_once_separator_first() {
    assert_eq!(split_once("/a", '/'), ("", "a"));
}

#[test]
fn split_once_empty_text() {
    assert_eq!(split_once("", '/'), ("", ""));
}

#[test]
fn split_once_dot_separator() {
    assert_eq!(split_once("outer.inner", '.'), ("outer", "inner"));
}

#[test]
fn split_once_text_with_wide_characters() {
    assert_eq!(split_once("héllo/wörld", '/'), ("héllo", "wörld"));
}

#[test]
fn split_once_wide_pattern_absent() {
    assert_eq!(split_once("plain", 'é'), ("plain", ""));
}

#[test]
fn split_once_reassembles() {
    let s = "key/sub/rest";
    let (l, r) = split_once(s, '/');
    assert_eq!(format!("{}/{}", l, r), s);
    assert!(!l.contains('/'));
}
