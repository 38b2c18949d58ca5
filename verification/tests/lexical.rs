use recorder::directive::Directive;
use recorder::lexical::{is_readable, is_safe, is_sole_literal, literal_is_known};
use recorder::reader::{read_argument, read_declaration, read_directive};

#[test]
fn kinds_of_literal_are_told_by_their_first_characters() {
    for known in ["\"s\"", "r\"s\"", "r#\"s\"#", "'c'", "0", "9u8", "1.5", "0x1f", "b\"s\"", "br\"s\"", "br#\"s\"#", "b'c'", "\"\"suffix"] {
        assert!(literal_is_known(known));
    }
    for unknown in ["", "c\"s\"", "cr\"s\"", "cr#\"s\"#", "(/*ERROR*/)", "b", "bx", "b1", "-1", "true", "a", "_", "é"] {
        assert!(!literal_is_known(unknown));
    }
}

#[test]
fn text_is_safe_when_all_its_literals_are_known() {
    assert!(is_safe(""));
    assert!(is_safe("struct S { a: [u8; 4], b: &'static str }"));
    assert!(is_safe("a(\"s\", b('c', 1.0), c = b\"x\")"));
    assert!(!is_safe("c\"x\""));
    assert!(!is_safe("a(c\"x\")"));
    assert!(!is_safe("a = cr#\"x\"#"));
    assert!(!is_safe("struct S { a: [u8; { (/*ERROR*/) }] }"));
    assert!(!is_safe("[c\"x\"]"));
    assert!(!is_safe("#![c\"x\"]"));
}

#[test]
fn inside_of_an_attribute_is_passed_over() {
    assert!(is_safe("#[a(c\"x\")]"));
    assert!(is_safe("#[doc = c\"x\"] struct S { #[b = (/*ERROR*/)] a: u8 }"));
    assert!(is_safe("struct S<#[a(c\"x\")] T> { a: [T; { #[b(c\"y\")] 1 }] }"));
    assert!(!is_safe("#(c\"x\")"));
    assert!(!is_safe("# a [c\"x\"]"));
    assert!(!is_safe("#[a] [c\"x\"]"));
}

#[test]
fn text_that_does_not_lex_is_not_safe() {
    assert!(!is_safe("\"open"));
    assert!(!is_safe("a("));
    assert!(!is_safe("a)"));
    assert!(!is_safe("(a]"));
    assert!(!is_safe("'"));
}

#[test]
fn groups_are_looked_into_to_the_given_depth() {
    assert!(is_readable("a b 1", 0));
    assert!(!is_readable("a(b)", 0));
    assert!(is_readable("a(b)", 1));
    assert!(!is_readable("a(b[c])", 1));
    assert!(is_readable("a(b[c])", 2));
    assert!(is_readable("#[a(b(c))] d", 0));
    assert!(!is_readable("c\"x\"", 5));
    let mut deep = String::new();
    for _ in 0..60 {
        deep.push_str("(a ");
    }
    deep.push_str("1");
    for _ in 0..60 {
        deep.push(')');
    }
    assert!(is_safe(&deep));
    assert!(!is_readable(&deep, 59));
    assert!(is_readable(&deep, 60));
}

#[test]
fn sole_literal_is_one_literal_token() {
    assert!(is_sole_literal("1"));
    assert!(is_sole_literal(" \"s\" "));
    assert!(is_sole_literal("c\"x\""));
    assert!(is_sole_literal("cr\"x\""));
    assert!(is_sole_literal("(/*ERROR*/)"));
    assert!(!is_sole_literal(""));
    assert!(!is_sole_literal("true"));
    assert!(!is_sole_literal("-1"));
    assert!(!is_sole_literal("1 2"));
    assert!(!is_sole_literal("(1)"));
    assert!(!is_sole_literal("\"open"));
}

#[test]
fn reader_does_not_show_the_parser_what_it_cannot_take() {
    assert_eq!(read_directive("c\"x\"", 4), Some(Directive::Literal));
    assert_eq!(read_directive("cr\"x\"", 0), Some(Directive::Literal));
    assert_eq!(read_directive("(/*ERROR*/)", 4), Some(Directive::Literal));
    assert_eq!(read_directive("all(c\"x\")", 4), None);
    assert_eq!(read_directive("key = c\"x\"", 4), None);
    assert_eq!(read_directive("key = (/*ERROR*/)", 4), None);
    assert_eq!(read_directive("all(skip, any(cr\"x\"))", 4), None);
    assert_eq!(read_argument("#[record(c\"x\")]"), Some(Directive::Literal));
    assert_eq!(read_argument("#[record(all(c\"x\"))]"), None);
    assert_eq!(read_argument("#[record(key = c\"x\")]"), None);
    assert_eq!(read_declaration("struct S { a: [u8; c\"x\"] }"), None);
    assert_eq!(read_declaration("struct S { a: Wrap<cr\"x\"> }"), None);
    assert_eq!(read_declaration("struct S((/*ERROR*/));"), None);
    assert!(read_declaration("struct S { #[record(c\"x\")] a: u8 }").is_some());
}
