use teamauth::data::States;

#[test]
fn issued_token_redeems_exactly_once() {
    let mut states = States::new();
    let token = states.add();
    assert!(states.check(&token));
    assert!(!states.check(&token));
}

#[test]
fn never_issued_token_never_redeems() {
    let mut states = States::new();
    assert!(!states.check(&String::from("nope")));
    let _other = states.add();
    assert!(!states.check(&String::from("nope")));
}

#[test]
fn issued_tokens_are_ten_alphanumeric_characters() {
    let mut states = States::new();
    for _ in 0..20 {
        let token = states.add();
        assert_eq!(token.chars().count(), 10);
        assert!(token.chars().all(|c| c.is_ascii_alphanumeric()));
    }
}

#[test]
fn each_outstanding_token_redeems_independently() {
    let mut states = States::new();
    let a = states.add();
    let b = states.add();
    assert!(states.check(&b));
    assert!(states.check(&a));
    assert!(!states.check(&a));
    assert!(!states.check(&b));
}
