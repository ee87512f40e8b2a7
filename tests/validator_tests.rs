use nazonazo::validators::{
    language_validator, language_verdict, parse_validator, prefix_validator, range_validator,
};

#[test]
fn round_count_checks() {
    assert_eq!(range_validator(1, 100, "10"), Ok(()));
    assert_eq!(range_validator(1, 100, "+100"), Ok(()));
    assert_eq!(range_validator(1, 100, "1"), Ok(()));
    assert_eq!(range_validator(1, 100, "0"), Err("too small number.".to_string()));
    assert_eq!(range_validator(1, 100, "101"), Err("too large number.".to_string()));
    let not_a_number = Err("please specify unsigned integer after '~contest'.".to_string());
    assert_eq!(range_validator(1, 100, "ten"), not_a_number);
    assert_eq!(range_validator(1, 100, "-3"), not_a_number);
    assert_eq!(range_validator(1, 100, ""), not_a_number);
    assert_eq!(range_validator(1, 100, "4294967296"), not_a_number);
}

#[test]
fn hint_length_checks() {
    assert_eq!(parse_validator("3"), Ok(()));
    assert_eq!(parse_validator("x3"), Err("`x3` is invalid.".to_string()));
    assert_eq!(parse_validator(" 3"), Err("` 3` is invalid.".to_string()));
}

#[test]
fn language_checks() {
    assert_eq!(language_validator("en"), Ok(()));
    assert_eq!(language_validator("eo"), Ok(()));
    assert_eq!(language_validator("contest"), Err("unexpected language 'contest'.".to_string()));
    assert_eq!(language_validator("xen"), Err("unexpected language 'xen'.".to_string()));
    assert_eq!(language_validator("eng"), Err("unexpected language 'eng'.".to_string()));
    assert_eq!(language_validator("xx"), Err("unexpected language 'xx'.".to_string()));
    assert_eq!(language_verdict(Some(true), "fr"), Ok(()));
    assert_eq!(language_verdict(None, "fr"), Err("unexpected language 'fr'.".to_string()));
}

#[test]
fn prefix_checks() {
    assert_eq!(prefix_validator("~"), Ok(()));
    assert_eq!(prefix_validator("!!!!!"), Ok(()));
    assert_eq!(
        prefix_validator("!!!!!!"),
        Err("Please specify an ASCII string that less than or equal to 5 characters".to_string())
    );
    assert_eq!(prefix_validator("なぞなぞなぞ"), Ok(()));
}
