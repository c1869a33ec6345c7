use x402_gate::args::{
    extract_facilitator_fee, extract_price, extract_recipient, extract_token, extract_value,
    parse_gate_args, trim_class, CharClass, DEFAULT_PRICE,
};

#[test]
fn reads_every_argument() {
    let args = "price = 5000, token = \"So11111111111111111111111111111111111111112\", facilitator_fee = 3, recipient = \"Abc\"";
    assert_eq!(extract_price(args), Some(5000));
    assert_eq!(extract_token(args), Some("So11111111111111111111111111111111111111112".to_string()));
    assert_eq!(extract_facilitator_fee(args), Some(3));
    assert_eq!(extract_recipient(args), Some("Abc".to_string()));
}

#[test]
fn missing_arguments_are_none() {
    assert_eq!(extract_price(""), None);
    assert_eq!(extract_token("price = 1"), None);
    assert_eq!(extract_facilitator_fee("price = 1"), None);
    assert_eq!(extract_recipient("price"), None);
}

#[test]
fn unreadable_numbers_are_none() {
    assert_eq!(extract_price("price = 1_000_000"), None);
    assert_eq!(extract_price("price = abc"), None);
    assert_eq!(extract_price("price = 18446744073709551616"), None);
    assert_eq!(extract_price("price = 18446744073709551615"), Some(u64::MAX));
    assert_eq!(extract_price("price = +7"), Some(7));
    assert_eq!(extract_facilitator_fee("facilitator_fee = 256"), None);
    assert_eq!(extract_facilitator_fee("facilitator_fee = 255"), Some(255));
}

#[test]
fn value_ends_at_comma_or_next_equals() {
    assert_eq!(extract_value("price=12,x=3", "price"), Some("12"));
    assert_eq!(extract_value("price = 12 x = 3", "price"), Some("12 x"));
    assert_eq!(extract_value("price 12", "price"), None);
    assert_eq!(extract_value("a = 1, price = 2 , price = 3", "price"), Some("2"));
}

#[test]
fn trims_whitespace_and_quotes() {
    assert_eq!(trim_class(" \t\u{3000}ab c\n ", CharClass::Whitespace), "ab c");
    assert_eq!(trim_class("\"\"x\"y\"", CharClass::Quote), "x\"y");
    assert_eq!(trim_class("   ", CharClass::Whitespace), "");
}

#[test]
fn gate_args_defaults() {
    let g = parse_gate_args("price = 1_000_000", "11111111111111111111111111111111");
    assert_eq!(g.price, DEFAULT_PRICE);
    assert_eq!(g.token, "11111111111111111111111111111111");
    assert_eq!(g.facilitator_fee, 0);
    assert_eq!(g.recipient, None);
    let g = parse_gate_args("price = 5000000, facilitator_fee = 2, recipient = \"R\"", "T");
    assert_eq!(g.price, 5_000_000);
    assert_eq!(g.token, "T");
    assert_eq!(g.facilitator_fee, 2);
    assert_eq!(g.recipient, Some("R".to_string()));
}
