use headcat::parsing::parse_positive_int;

#[test]
fn test_parse_positive_int() {
    let res = parse_positive_int("3");
    assert!(res.is_ok());
    assert_eq!(res.unwrap(), 3);

    let res = parse_positive_int("foo");
    assert!(res.is_err());
    assert_eq!(res.unwrap_err().to_string(), "foo".to_string());

    let res = parse_positive_int("0");
    assert!(res.is_err());
    assert_eq!(res.unwrap_err().to_string(), "0".to_string());
}

#[test]
fn lib_test_parse_positive_int() {
    let res = parse_positive_int("3");
    assert!(res.is_ok());
    assert_eq!(res.unwrap(), 3);

    let res = parse_positive_int("foo");
    assert!(res.is_err());
    assert_eq!(res.unwrap_err().to_string(), "foo".to_string());

    let res = parse_positive_int("0");
    assert!(res.is_err());
    assert_eq!(res.unwrap_err().to_string(), "0".to_string());
}

#[test]
fn parse_accepts_leading_zeros() {
    let res = parse_positive_int("007");
    assert!(res.is_ok());
    assert_eq!(res.unwrap(), 7);
}

#[test]
fn parse_rejects_empty_sign_and_overflow() {
    assert_eq!(parse_positive_int("").unwrap_err(), "");
    assert_eq!(parse_positive_int("+3").unwrap_err(), "+3");
    assert_eq!(parse_positive_int("3.5").unwrap_err(), "3.5");
    assert_eq!(
        parse_positive_int("99999999999999999999999999").unwrap_err(),
        "99999999999999999999999999"
    );
}
