use recorder::declaration::{Attribute, Declaration, Field, Form};
use recorder::directive::Directive;
use recorder::emit::emit;
use recorder::reader::{
    read_argument, read_attributes, read_declaration, read_directive, read_fields,
};

fn attribute(name: &str, text: &str, argument: Option<Directive>) -> Attribute {
    Attribute { name: String::from(name), text: String::from(text), argument }
}

fn bare(name: &str) -> Directive {
    Directive::Flag(vec![String::from(name)])
}

#[test]
fn declaration_is_read_part_by_part() {
    let text = "#[allow(dead_code)] pub(crate) struct Pair<T> { #[record(skip)] left: T, pub right: Vec<T> }";
    let read = read_declaration(text).unwrap();
    let expected = Declaration {
        attrs: vec![attribute("allow", "# [allow (dead_code)]", None)],
        vis: String::from("pub (crate)"),
        name: String::from("Pair"),
        generics: String::from("< T >"),
        form: Form::Named,
        fields: vec![
            Field {
                attrs: vec![attribute("record", "# [record (skip)]", Some(bare("skip")))],
                vis: String::new(),
                name: Some(String::from("left")),
                ty: String::from("T"),
            },
            Field {
                attrs: vec![],
                vis: String::from("pub"),
                name: Some(String::from("right")),
                ty: String::from("Vec < T >"),
            },
        ],
        terminator: false,
    };
    assert_eq!(read, expected);
}

#[test]
fn positional_declaration_is_read_with_its_semicolon() {
    let read = read_declaration("struct Id(pub u64, String);").unwrap();
    assert_eq!(read.form, Form::Positional);
    assert!(read.terminator);
    assert_eq!(read.vis, "");
    assert_eq!(read.generics, "");
    assert_eq!(read.fields.len(), 2);
    assert_eq!(read.fields[0].name, None);
    assert_eq!(read.fields[0].vis, "pub");
    assert_eq!(read.fields[0].ty, "u64");
    assert_eq!(read.fields[1].vis, "");
    assert_eq!(read.fields[1].ty, "String");
}

#[test]
fn unit_declaration_is_read_as_unit() {
    let read = read_declaration("pub struct Nothing;").unwrap();
    assert_eq!(read.form, Form::Unit);
    assert!(read.terminator);
    assert!(read.fields.is_empty());
    assert_eq!(emit(&read), "pub struct Nothing ;");
}

#[test]
fn braces_and_parentheses_without_fields_are_not_unit() {
    assert_eq!(read_declaration("struct S {}").unwrap().form, Form::Named);
    assert!(!read_declaration("struct S {}").unwrap().terminator);
    assert_eq!(read_declaration("struct S();").unwrap().form, Form::Positional);
    assert!(read_declaration("struct S();").unwrap().terminator);
}

#[test]
fn what_is_no_struct_is_not_read() {
    assert_eq!(read_declaration("enum E { A }"), None);
    assert_eq!(read_declaration("struct"), None);
    assert_eq!(read_declaration("struct S { a: }"), None);
    assert_eq!(read_declaration("struct S { a: u8 } ;"), None);
    assert_eq!(read_declaration("struct S(\"unterminated);"), None);
}

#[test]
fn directive_arguments_are_read_on_fields_only() {
    let read = read_declaration("#[record(skip)] struct S { #[record(skip)] #[other(skip)] a: u8 }").unwrap();
    assert_eq!(read.attrs, vec![attribute("record", "# [record (skip)]", None)]);
    assert_eq!(
        read.fields[0].attrs,
        vec![
            attribute("record", "# [record (skip)]", Some(bare("skip"))),
            attribute("other", "# [other (skip)]", None),
        ]
    );
}

#[test]
fn directive_shapes_are_told_apart() {
    let text = "struct S {
        #[record(a::b)] #[record(::c)] #[record(g(x, h(), 1, k = 2))] #[record(\"s\")] #[record(n = 1)]
        #[record(true)] #[record] #[record(a, b)] #[record[skip]] #[record{skip}] #[record = 1]
        f: u8,
    }";
    let read = read_declaration(text).unwrap();
    let arguments: Vec<Option<Directive>> =
        read.fields[0].attrs.iter().map(|a| a.argument.clone()).collect();
    let path = |names: &[&str]| Directive::Flag(names.iter().map(|n| String::from(*n)).collect());
    assert_eq!(
        arguments,
        vec![
            Some(path(&["a", "b"])),
            Some(path(&["c"])),
            Some(Directive::Group(vec![
                bare("x"),
                Directive::Group(vec![]),
                Directive::Literal,
                Directive::KeyValue,
            ])),
            Some(Directive::Literal),
            Some(Directive::KeyValue),
            Some(Directive::Literal),
            None,
            None,
            Some(bare("skip")),
            Some(bare("skip")),
            None,
        ]
    );
}

#[test]
fn attributes_that_are_no_directives_are_left_as_they_are() {
    let attrs = vec![
        attribute("doc", "# [doc = \"x\"]", None),
        attribute("record", "# [record (skip)]", None),
        attribute("serde", "# [record (skip)]", Some(Directive::Literal)),
        attribute("record", "not an attribute", Some(bare("skip"))),
    ];
    let read = read_attributes(&attrs);
    assert_eq!(
        read,
        vec![
            attribute("doc", "# [doc = \"x\"]", None),
            attribute("record", "# [record (skip)]", Some(bare("skip"))),
            attribute("serde", "# [record (skip)]", Some(Directive::Literal)),
            attribute("record", "not an attribute", None),
        ]
    );
}

#[test]
fn fields_keep_all_but_the_arguments() {
    let fields = vec![Field {
        attrs: vec![attribute("record", "#[record(all(skip))]", None)],
        vis: String::from("pub(crate)"),
        name: Some(String::from("a")),
        ty: String::from("u8"),
    }];
    let read = read_fields(&fields);
    assert_eq!(
        read,
        vec![Field {
            attrs: vec![attribute(
                "record",
                "#[record(all(skip))]",
                Some(Directive::Group(vec![bare("skip")]))
            )],
            vis: String::from("pub(crate)"),
            name: Some(String::from("a")),
            ty: String::from("u8"),
        }]
    );
    assert_eq!(read_fields(&vec![]), vec![]);
}

#[test]
fn what_is_read_is_well_formed() {
    for text in ["struct S;", "pub struct S {}", "struct S();", "struct S { a: u8, b: u8 }", "struct S(u8, u16);"] {
        assert!(read_declaration(text).unwrap().is_well_formed());
    }
}

#[test]
fn directive_is_read_level_by_level() {
    let path = Directive::Flag(vec![String::from("a"), String::from("skip")]);
    assert_eq!(read_directive("skip", 0), Some(bare("skip")));
    assert_eq!(read_directive("a::skip", 0), Some(path));
    assert_eq!(read_directive("\"skip\"", 0), Some(Directive::Literal));
    assert_eq!(read_directive("skip = 1", 0), Some(Directive::KeyValue));
    assert_eq!(read_directive("all()", 1), Some(Directive::Group(vec![])));
    assert_eq!(
        read_directive("all(skip, any(x::y, 1), z = 2,)", 2),
        Some(Directive::Group(vec![
            bare("skip"),
            Directive::Group(vec![
                Directive::Flag(vec![String::from("x"), String::from("y")]),
                Directive::Literal,
            ]),
            Directive::KeyValue,
        ]))
    );
}

#[test]
fn what_is_no_meta_item_is_no_directive() {
    assert_eq!(read_directive("", 8), None);
    assert_eq!(read_directive("a b", 8), None);
    assert_eq!(read_directive("a, b", 8), None);
    assert_eq!(read_directive("(a)", 8), None);
    assert_eq!(read_directive("a(b c)", 8), None);
    assert_eq!(read_directive("a(", 8), None);
    assert_eq!(read_directive("a = b", 8), None);
    assert_eq!(read_directive("a[b]", 8), None);
}

#[test]
fn lists_are_read_to_the_given_depth() {
    assert_eq!(read_directive("all()", 0), None);
    assert_eq!(read_directive("all(skip)", 0), None);
    assert_eq!(read_directive("all(skip)", 1), Some(Directive::Group(vec![bare("skip")])));
    assert_eq!(read_directive("a(b(c))", 1), None);
    assert_eq!(read_directive("a(x, b(c))", 1), None);
    assert_eq!(
        read_directive("a(b(c))", 2),
        Some(Directive::Group(vec![Directive::Group(vec![bare("c")])]))
    );
    assert_eq!(
        read_directive("a(b(c))", 200),
        Some(Directive::Group(vec![Directive::Group(vec![bare("c")])]))
    );
}

#[test]
fn argument_is_what_stands_between_the_delimiters() {
    assert_eq!(read_argument("#[record(skip)]"), Some(bare("skip")));
    assert_eq!(read_argument("#[other(skip)]"), Some(bare("skip")));
    assert_eq!(read_argument("# [record [skip]]"), Some(bare("skip")));
    assert_eq!(read_argument("#[record{all(skip)}]"), Some(Directive::Group(vec![bare("skip")])));
    assert_eq!(read_argument("#[record(a::b::c::d::e::f::g::h)]").map(|d| d == bare("a")), Some(false));
    assert_eq!(read_argument("#[record]"), None);
    assert_eq!(read_argument("#[record()]"), None);
    assert_eq!(read_argument("#[record(a, b)]"), None);
    assert_eq!(read_argument("#[record(a,)]"), None);
    assert_eq!(read_argument("#[record = \"skip\"]"), None);
    assert_eq!(read_argument("#[record(skip)] struct S;"), None);
    assert_eq!(read_argument("record(skip)"), None);
    assert_eq!(read_argument(""), None);
}

#[test]
fn argument_is_read_however_deep_its_lists_go() {
    let mut text = String::from("#[record(");
    let mut expected = bare("skip");
    for _ in 0..40 {
        text.push_str("a(");
        expected = Directive::Group(vec![expected]);
    }
    text.push_str("skip");
    for _ in 0..40 {
        text.push(')');
    }
    text.push_str(")]");
    assert_eq!(read_argument(&text), Some(expected));
    let wide = "#[record(a(b::c::d::e::f, g(h::i::j::k::l(m::n::o::p::q))))]";
    assert!(read_argument(wide).is_some());
}
