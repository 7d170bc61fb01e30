use deet::location::{parse_address, parse_dec, parse_hex};
use deet::symbols::{FunctionEntry, LineEntry, SymbolTable};

fn demo_symbols() -> SymbolTable {
    let mut t = SymbolTable::new();
    t.functions.push(FunctionEntry { name: String::from("main"), low: 0x1000, high: 0x1100 });
    t.functions.push(FunctionEntry { name: String::from("helper"), low: 0x2000, high: 0x2100 });
    t.lines.push(LineEntry { file: String::from("demo.c"), line: 42, addr: 0x1010 });
    t.lines.push(LineEntry { file: String::from("demo.c"), line: 57, addr: 0x2020 });
    t
}

#[test]
fn literal_address_wins_outright() {
    let t = demo_symbols();
    assert_eq!(parse_address(&t, "*0x1040"), Some(0x1040));
    // the prefix form resolves to the address itself even when a line or
    // function of the same digits exists
    assert_eq!(parse_address(&t, "*0X2a"), Some(0x2a));
    // a prefixed token that is not hex resolves to nothing
    assert_eq!(parse_address(&t, "*0xzz"), None);
    assert_eq!(parse_address(&t, "*0x"), None);
}

#[test]
fn plain_integer_is_a_line_first() {
    let t = demo_symbols();
    // line 42 exists: the line lookup wins
    assert_eq!(parse_address(&t, "42"), Some(0x1010));
    // line 57 exists too
    assert_eq!(parse_address(&t, "57"), Some(0x2020));
    // no such line: falls through function names to a bare hex parse
    assert_eq!(parse_address(&t, "99"), Some(0x99));
}

#[test]
fn other_tokens_are_function_names_then_hex() {
    let t = demo_symbols();
    assert_eq!(parse_address(&t, "main"), Some(0x1000));
    assert_eq!(parse_address(&t, "helper"), Some(0x2000));
    // not a function, but valid bare hex
    assert_eq!(parse_address(&t, "ff"), Some(0xff));
    // an unresolvable token resolves to nothing, it does not panic
    assert_eq!(parse_address(&t, "no_such_fn"), None);
    assert_eq!(parse_address(&t, ""), None);
}

#[test]
fn integer_parsers_handle_edges() {
    assert_eq!(parse_dec("0"), Some(0));
    assert_eq!(parse_dec("18446744073709551615"), Some(usize::MAX));
    assert_eq!(parse_dec("18446744073709551616"), None);
    assert_eq!(parse_dec("12a"), None);
    assert_eq!(parse_dec(""), None);
    assert_eq!(parse_hex("Ff"), Some(0xff));
    assert_eq!(parse_hex("ffffffffffffffff"), Some(usize::MAX));
    assert_eq!(parse_hex("10000000000000000"), None);
    assert_eq!(parse_hex("g"), None);
}
