use validated_struct::{accept_if, set_if};

#[test]
fn accept_if_valid_value() {
    assert_eq!(accept_if(String::from("hi"), true), Ok(String::from("hi")));
}

#[test]
fn accept_if_invalid_value() {
    assert_eq!(accept_if(3u8, false), Err(3u8));
}

#[test]
fn set_if_accepts_and_returns_old() {
    let mut slot = String::from("old");
    let r = set_if(&mut slot, String::from("new"), true);
    assert_eq!(r, Ok(String::from("old")));
    assert_eq!(slot, "new");
}

#[test]
fn set_if_rejects_and_keeps_slot() {
    let mut slot = 5usize;
    let r = set_if(&mut slot, 9, false);
    assert_eq!(r, Err(9));
    assert_eq!(slot, 5);
}
