use rdesk::login::{admitted, helper_args, helper_input, Login, Verdict};

fn login(user: &str, pass: &str) -> Login {
    Login::new(user.to_string(), pass.to_string())
}

#[test]
fn fixed_password_decides() {
    let l = login("ann", "secret");
    assert!(matches!(l.validate("ann", "secret"), Verdict::Accept));
    assert!(matches!(l.validate("ann", "Secret"), Verdict::Reject));
    assert!(matches!(l.validate("ann", ""), Verdict::Reject));
}

#[test]
fn without_one_the_system_is_asked() {
    match login("Ann", "").validate("ann", "pw") {
        Verdict::AskSystem { user, password } => {
            assert_eq!(user, "Ann");
            assert_eq!(password, "pw");
        }
        _ => panic!("the system decides"),
    }
}

#[test]
fn other_users_are_turned_away() {
    assert!(matches!(login("ann", "secret").validate("bob", "secret"), Verdict::Reject));
    assert!(matches!(login("ann", "").validate("bob", "pw"), Verdict::Reject));
    assert!(matches!(login("ann", "").validate("", "pw"), Verdict::Reject));
}

#[test]
fn domain_realm_and_case_do_not_matter() {
    let l = login("Ann", "s");
    for name in ["ANN", "DOMAIN\\ann", "ann@domain", "A\\B\\Ann@x@y"] {
        assert!(matches!(l.validate(name, "s"), Verdict::Accept));
    }
    assert!(matches!(login("\u{c5}SE", "s").validate("\u{e5}se", "s"), Verdict::Accept));
    assert!(matches!(l.validate("ann@x\\bob", "s"), Verdict::Reject));
}

#[test]
fn accounts_are_compared_as_given() {
    let l = login("ann", "s");
    assert!(matches!(l.decide("ann", "ann", "s"), Verdict::Accept));
    assert!(matches!(l.decide("ann", "bob", "s"), Verdict::Reject));
}

#[test]
fn helper_gets_the_password_and_a_zero() {
    assert_eq!(helper_input("p\u{e5}"), vec![b'p', 0xc3, 0xa5, 0]);
    assert_eq!(helper_input(""), vec![0]);
    assert_eq!(helper_args("ann"), vec!["ann".to_string(), "nullok".to_string()]);
}

#[test]
fn helper_counts_only_where_it_was_asked() {
    let ask = || Verdict::AskSystem { user: "a".to_string(), password: "p".to_string() };
    assert!(admitted(&ask(), true));
    assert!(!admitted(&ask(), false));
    assert!(admitted(&Verdict::Accept, false));
    assert!(!admitted(&Verdict::Reject, true));
}
