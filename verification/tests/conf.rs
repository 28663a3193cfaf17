use memthol::conf::{parse_usize, socket_address, socket_port, usize_validator, ADDR, DIR, PORT};

#[test]
fn defaults() {
    assert_eq!(ADDR, "localhost");
    assert_eq!(PORT, "7878");
    assert_eq!(DIR, ".");
    assert_eq!(usize_validator(String::from(PORT)), Ok(()));
}

#[test]
fn numbers_are_accepted() {
    assert_eq!(usize_validator(String::from("0")), Ok(()));
    assert_eq!(usize_validator(String::from("7878")), Ok(()));
    assert_eq!(usize_validator(String::from("+12")), Ok(()));
    assert_eq!(usize_validator(String::from("007")), Ok(()));
    assert_eq!(usize_validator(usize::MAX.to_string()), Ok(()));
}

#[test]
fn other_text_is_refused() {
    assert_eq!(
        usize_validator(String::from("abc")),
        Err(String::from("expected integer, found `abc`"))
    );
    assert_eq!(usize_validator(String::new()), Err(String::from("expected integer, found ``")));
    assert_eq!(usize_validator(String::from("+")), Err(String::from("expected integer, found `+`")));
    assert_eq!(usize_validator(String::from("-1")), Err(String::from("expected integer, found `-1`")));
    assert_eq!(
        usize_validator(String::from("12 ")),
        Err(String::from("expected integer, found `12 `"))
    );
    assert_eq!(
        usize_validator(String::from("++1")),
        Err(String::from("expected integer, found `++1`"))
    );
    assert_eq!(
        usize_validator(String::from("1e3")),
        Err(String::from("expected integer, found `1e3`"))
    );
    assert_eq!(
        usize_validator(String::from("٣")),
        Err(String::from("expected integer, found `٣`"))
    );
    assert!(usize_validator(String::from("99999999999999999999999999")).is_err());
    assert!(usize_validator(format!("{}0", usize::MAX)).is_err());
}

#[test]
fn parsing_agrees_with_the_standard_library() {
    let samples = [
        "", "0", "1", "+1", "-1", "+", "12345", "0012", "18446744073709551615",
        "18446744073709551616", "4294967295", "4294967296", "1_000", " 1", "1 ", "+-1", "é1", "1é",
    ];
    for sample in samples {
        assert_eq!(parse_usize(sample), sample.parse::<usize>().ok());
    }
    assert_eq!(parse_usize("7878"), Some(7878));
    assert_eq!(parse_usize("+42"), Some(42));
    assert_eq!(parse_usize("x"), None);
}

#[test]
fn address_of_the_socket_server() {
    assert_eq!(socket_address("localhost", 7879), "localhost:7879");
    assert_eq!(socket_address("127.0.0.1", 0), "127.0.0.1:0");
    assert_eq!(socket_port(7878), Some(7879));
    assert_eq!(socket_port(0), Some(1));
    assert_eq!(socket_port(usize::MAX), None);
}
