//! The boundary to the Rust parser: text in, parts out.
//!
//! Parsing Rust is the work of `syn`, and printing a piece of syntax back
//! into text that of `quote`. Neither is proved here. Each function below
//! hands one text to the parser and copies what comes back into this crate's
//! own types, and each is kept small enough to be read against the parser's
//! source at a glance: that is why a declaration is read in three parts, and
//! a meta item one level at a time.
//!
//! The parser does not return on every text: it panics on a literal of a
//! kind that it does not know, and the lexer under it knows more kinds than
//! it. So every function that lets the parser see a literal asks that the
//! text be [`safe`], which the verified callers test first with [`lex`].
//!
//! What the parser answers is given a name, one for each of its entry
//! points, so that the contracts of the verified functions can speak of it.
//! Of those names nothing is assumed but that they depend on the text alone.
//! To make that so, every function first switches `proc-macro2` to its own
//! lexer and printer with `proc_macro2::fallback::force`: left alone it would
//! use the compiler's where a compiler runs the process, and the compiler
//! prints the same tokens with other spaces. The switch is one for the whole
//! process and stays on: a caller inside a macro undoes it with
//! `proc_macro2::fallback::unforce` when the library has returned, and no
//! other thread may undo it while the library runs.

use vstd::prelude::*;
use std::str::FromStr;
use proc_macro2::{Delimiter, TokenStream, TokenTree};
use quote::ToTokens;
use crate::declaration::{
    attribute_views, field_views, Attribute, Declaration, DeclarationView, Field, Form,
};
use crate::directive::string_views;
use crate::lexical::safe;

verus! {

/// One token of a text, as far as the library looks at it: of a literal its
/// text, of punctuation its character, of a group what stands between its
/// delimiters, printed.
#[derive(Debug, PartialEq, Eq)]
pub enum TokenShape {
    Literal(String),
    Punct(char),
    Ident,
    /// A group in square brackets.
    Bracket(String),
    /// A group in braces.
    Brace(String),
    /// A group in parentheses.
    Parenthesis(String),
    /// A group without delimiters of its own.
    Unmarked(String),
}

/// The mathematical form of a [`TokenShape`].
pub enum TokenShapeView {
    Literal(Seq<char>),
    Punct(char),
    Ident,
    Bracket(Seq<char>),
    Brace(Seq<char>),
    Parenthesis(Seq<char>),
    Unmarked(Seq<char>),
}

impl View for TokenShape {
    type V = TokenShapeView;

    open spec fn view(&self) -> TokenShapeView {
        match self {
            TokenShape::Literal(text) => TokenShapeView::Literal(text@),
            TokenShape::Punct(mark) => TokenShapeView::Punct(*mark),
            TokenShape::Ident => TokenShapeView::Ident,
            TokenShape::Bracket(inner) => TokenShapeView::Bracket(inner@),
            TokenShape::Brace(inner) => TokenShapeView::Brace(inner@),
            TokenShape::Parenthesis(inner) => TokenShapeView::Parenthesis(inner@),
            TokenShape::Unmarked(inner) => TokenShapeView::Unmarked(inner@),
        }
    }
}

/// The views of a row of tokens, in order.
pub open spec fn token_views(tokens: Seq<TokenShape>) -> Seq<TokenShapeView> {
    Seq::new(tokens.len(), |i: int| tokens[i]@)
}

/// One level of a meta item: what it is, and of a list its members as
/// texts still to be read.
#[derive(Debug, PartialEq, Eq)]
pub enum MetaShape {
    /// A bare path, one text per segment.
    Path(Vec<String>),
    /// A list, one text per member.
    List(Vec<String>),
    /// A `key = value` pair.
    NameValue,
    /// A literal.
    Literal,
}

/// The mathematical form of a [`MetaShape`].
pub enum MetaShapeView {
    Path(Seq<Seq<char>>),
    List(Seq<Seq<char>>),
    NameValue,
    Literal,
}

impl View for MetaShape {
    type V = MetaShapeView;

    open spec fn view(&self) -> MetaShapeView {
        match self {
            MetaShape::Path(path) => MetaShapeView::Path(string_views(path@)),
            MetaShape::List(members) => MetaShapeView::List(string_views(members@)),
            MetaShape::NameValue => MetaShapeView::NameValue,
            MetaShape::Literal => MetaShapeView::Literal,
        }
    }
}

/// The tokens that the lexer reads from `text`, the groups not entered.
/// `None` where `text` does not lex.
pub uninterp spec fn lexed(text: Seq<char>) -> Option<Seq<TokenShapeView>>;

/// Whether the parser reads `text` as the arguments of an attribute macro:
/// meta items with commas between them.
pub uninterp spec fn parsed_arguments(text: Seq<char>) -> bool;

/// What the parser reads from the struct declaration `text`: its
/// attributes, visibility, name, generics, form, fields and terminator, no
/// attribute with an argument yet. `None` where `text` is no struct
/// declaration.
pub uninterp spec fn parsed_struct(text: Seq<char>) -> Option<DeclarationView>;

/// Two declarations agree in all that is no list.
pub open spec fn same_outline(one: DeclarationView, other: DeclarationView) -> bool {
    &&& one.vis == other.vis
    &&& one.name == other.name
    &&& one.generics == other.generics
    &&& one.form == other.form
    &&& one.terminator == other.terminator
}

/// What the parser finds between the delimiters of the attribute `text`,
/// printed. `None` where `text` is no attribute or has no delimiters with
/// nothing behind them.
pub uninterp spec fn parsed_argument(text: Seq<char>) -> Option<Seq<char>>;

/// The shape of the meta item that the parser reads from `text`. `None`
/// where `text` is no single meta item.
pub uninterp spec fn parsed_meta(text: Seq<char>) -> Option<MetaShapeView>;

/// The tokens of `text`, one level of them.
///
/// Calls `proc_macro2::fallback::force`, then
/// `<proc_macro2::TokenStream as FromStr>::from_str`, which lexes and hands
/// back an error where `text` does not lex; no parser sees the tokens. Each
/// token tree is copied variant by variant, a literal and the inside of a
/// group as `to_string` prints them. The contract gives the result its name
/// and claims nothing else.
#[verifier::external_body]
pub(crate) fn lex(text: &str) -> (tokens: Option<Vec<TokenShape>>)
    ensures
        tokens.is_some() == lexed(text@).is_some(),
        tokens matches Some(row) ==> token_views(row@) == lexed(text@)->0,
{
    proc_macro2::fallback::force();
    let stream = TokenStream::from_str(text).ok()?;
    Some(stream.into_iter().map(|tree| match tree {
        TokenTree::Literal(literal) => TokenShape::Literal(literal.to_string()),
        TokenTree::Punct(punct) => TokenShape::Punct(punct.as_char()),
        TokenTree::Ident(_) => TokenShape::Ident,
        TokenTree::Group(group) => match group.delimiter() {
            Delimiter::Bracket => TokenShape::Bracket(group.stream().to_string()),
            Delimiter::Brace => TokenShape::Brace(group.stream().to_string()),
            Delimiter::Parenthesis => TokenShape::Parenthesis(group.stream().to_string()),
            Delimiter::None => TokenShape::Unmarked(group.stream().to_string()),
        },
    }).collect())
}

/// Whether `text` holds the arguments of an attribute macro.
///
/// Calls `proc_macro2::fallback::force`, then `syn::parse::Parser::parse_str`
/// with `syn::punctuated::Punctuated::<NestedMeta, Comma>::parse_terminated`,
/// and tells whether that succeeded. The parser panics on a literal that
/// it does not know, so `text` has to be safe. The contract gives the answer
/// its name and claims nothing else.
#[verifier::external_body]
pub(crate) fn arguments_parse(text: &str) -> (ok: bool)
    requires
        safe(text@),
    ensures
        ok == parsed_arguments(text@),
{
    proc_macro2::fallback::force();
    let parser = syn::punctuated::Punctuated::<syn::NestedMeta, syn::token::Comma>::parse_terminated;
    syn::parse::Parser::parse_str(parser, text).is_ok()
}

/// The outline of the struct declaration `text`, both its lists left empty.
///
/// Calls `proc_macro2::fallback::force`, then
/// `syn::parse_str::<syn::ItemStruct>`. Of the struct that comes back it
/// prints the visibility and the generic parameters with
/// `quote::ToTokens::to_token_stream`, takes the name as text, and notes
/// which kind of field list there is and whether a semicolon is. The parser
/// panics on a literal that it does not know, so `text` has to be safe. The
/// contract says that these are the outline of what the parser reads, and
/// claims nothing else.
#[verifier::external_body]
pub(crate) fn parse_outline(text: &str) -> (parsed: Option<Declaration>)
    requires
        safe(text@),
    ensures
        parsed.is_some() == parsed_struct(text@).is_some(),
        parsed matches Some(outline) ==> same_outline(outline@, parsed_struct(text@)->0),
{
    proc_macro2::fallback::force();
    let item = syn::parse_str::<syn::ItemStruct>(text).ok()?;
    let form = match &item.fields {
        syn::Fields::Named(_) => Form::Named,
        syn::Fields::Unnamed(_) => Form::Positional,
        syn::Fields::Unit => Form::Unit,
    };
    let vis = item.vis.to_token_stream().to_string();
    let generics = item.generics.to_token_stream().to_string();
    let name = item.ident.to_string();
    let terminator = item.semi_token.is_some();
    Some(Declaration { attrs: Vec::new(), vis, name, generics, form, fields: Vec::new(), terminator })
}

/// The attributes in front of the struct declaration `text`.
///
/// Calls `proc_macro2::fallback::force`, then
/// `syn::parse_str::<syn::ItemStruct>`. Of each attribute of the struct it
/// takes the first segment of the path as the name, which every parsed
/// attribute has, and prints the whole with
/// `quote::ToTokens::to_token_stream`. No argument is read. The parser
/// panics on a literal that it does not know, so `text` has to be safe. The
/// contract says that these are the attributes of what the parser reads, and
/// claims nothing else.
#[verifier::external_body]
pub(crate) fn parse_attributes(text: &str) -> (parsed: Option<Vec<Attribute>>)
    requires
        safe(text@),
    ensures
        parsed.is_some() == parsed_struct(text@).is_some(),
        parsed matches Some(attrs) ==> attribute_views(attrs@) == parsed_struct(text@)->0.attrs,
{
    proc_macro2::fallback::force();
    let item = syn::parse_str::<syn::ItemStruct>(text).ok()?;
    Some(item.attrs.iter().map(|a| Attribute {
        name: a.path.segments[0].ident.to_string(),
        text: a.to_token_stream().to_string(),
        argument: None,
    }).collect())
}

/// The fields of the struct declaration `text`, in order.
///
/// Calls `proc_macro2::fallback::force`, then
/// `syn::parse_str::<syn::ItemStruct>`. Of each field it copies the
/// attributes as [`parse_attributes`] does, prints the visibility and the
/// type with `quote::ToTokens::to_token_stream`, and takes the name, if
/// there is one, as text. The parser panics on a literal that it does not
/// know, so `text` has to be safe. The contract says that these are the
/// fields of what the parser reads, and claims nothing else.
#[verifier::external_body]
pub(crate) fn parse_fields(text: &str) -> (parsed: Option<Vec<Field>>)
    requires
        safe(text@),
    ensures
        parsed.is_some() == parsed_struct(text@).is_some(),
        parsed matches Some(fields) ==> field_views(fields@) == parsed_struct(text@)->0.fields,
{
    proc_macro2::fallback::force();
    let item = syn::parse_str::<syn::ItemStruct>(text).ok()?;
    Some(item.fields.iter().map(|f| Field {
        attrs: f.attrs.iter().map(|a| Attribute {
            name: a.path.segments[0].ident.to_string(),
            text: a.to_token_stream().to_string(),
            argument: None,
        }).collect(),
        vis: f.vis.to_token_stream().to_string(),
        name: f.ident.as_ref().map(|i| i.to_string()),
        ty: f.ty.to_token_stream().to_string(),
    }).collect())
}

/// What stands between the delimiters of the attribute `text`.
///
/// Calls `proc_macro2::fallback::force`, then `syn::parse::Parser::parse_str`
/// with `syn::Attribute::parse_outer` to read `text`, then
/// `syn::Attribute::parse_args::<proc_macro2::TokenStream>` on the first
/// attribute read, which hands back all that stands between its delimiters,
/// and prints that. No literal is parsed on the way: the tokens are taken as
/// they are. The contract gives the result its name and claims nothing
/// else.
#[verifier::external_body]
pub(crate) fn attribute_argument(text: &str) -> (argument: Option<String>)
    ensures
        argument.is_some() == parsed_argument(text@).is_some(),
        argument matches Some(printed) ==> parsed_argument(text@) == Some(printed@),
{
    proc_macro2::fallback::force();
    let attrs = syn::parse::Parser::parse_str(syn::Attribute::parse_outer, text).ok()?;
    let inner = attrs.first()?.parse_args::<TokenStream>().ok()?;
    Some(inner.to_string())
}

/// The shape of the meta item `text`.
///
/// Calls `proc_macro2::fallback::force`, then
/// `syn::parse_str::<syn::NestedMeta>`, and tells the four variants of the
/// result apart: of a path it takes the segments as texts, of a list it
/// prints each member with `quote::ToTokens::to_token_stream`, of a pair or
/// a literal it keeps only that it is one. The parser panics on a literal
/// that it does not know, so `text` has to be safe. The contract gives the
/// result its name and claims nothing else.
#[verifier::external_body]
pub(crate) fn parse_meta(text: &str) -> (parsed: Option<MetaShape>)
    requires
        safe(text@),
    ensures
        parsed.is_some() == parsed_meta(text@).is_some(),
        parsed matches Some(shape) ==> parsed_meta(text@) == Some(shape@),
{
    proc_macro2::fallback::force();
    Some(match syn::parse_str::<syn::NestedMeta>(text).ok()? {
        syn::NestedMeta::Meta(syn::Meta::Path(path)) => {
            MetaShape::Path(path.segments.iter().map(|s| s.ident.to_string()).collect())
        },
        syn::NestedMeta::Meta(syn::Meta::List(list)) => {
            MetaShape::List(list.nested.iter().map(|m| m.to_token_stream().to_string()).collect())
        },
        syn::NestedMeta::Meta(syn::Meta::NameValue(_)) => MetaShape::NameValue,
        syn::NestedMeta::Lit(_) => MetaShape::Literal,
    })
}

} // verus!
