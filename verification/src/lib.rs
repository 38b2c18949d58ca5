//! Rewrites a struct declaration: attaches derived capabilities and makes
//! every field public unless the field opts out with `#[record(skip)]`.
//!
//! [`record`] is the whole of it, from text to text. Its parts:
//!
//! - [`directive`]: the arguments of a `#[record(..)]` attribute as a tree,
//!   and what such a tree resolves to;
//! - [`declaration`]: a struct declaration as data;
//! - [`rewrite`]: the rewriter itself, from declaration to declaration;
//! - [`emit`]: the text of a declaration;
//! - [`reader`]: from text to a declaration, by way of
//! - [`syntax`], the calls into the Rust parser, which are believed and not
//!   proved, and
//! - [`lexical`], which looks a text through before the parser sees it;
//! - [`laws`]: what holds of every rewrite;
//! - [`error`]: the ways to fail.

use vstd::prelude::*;

pub mod declaration;
pub mod directive;
pub mod emit;
pub mod error;
pub mod laws;
pub mod lexical;
pub mod reader;
pub mod rewrite;
pub mod syntax;

use crate::emit::{declaration_text, emit};
use crate::error::RecordError;
use crate::lexical::{is_safe, safe};
use crate::reader::{declaration_of, read_declaration};
use crate::rewrite::rewrite;
use crate::syntax::{arguments_parse, parsed_arguments};

verus! {

/// What [`record`] makes of its input: the text of the rewritten
/// declaration, or the first failure on the way to it.
pub open spec fn record_spec(raw_args: Seq<char>, raw_input: Seq<char>, serde: bool) -> Result<
    Seq<char>,
    RecordError,
> {
    if !(safe(raw_args) && parsed_arguments(raw_args)) {
        Err(RecordError::MalformedArguments)
    } else {
        match declaration_of(raw_input) {
            None => Err(RecordError::MalformedDeclaration),
            Some(decl) => match decl.rewrite(serde) {
                Err(e) => Err(e),
                Ok(rewritten) => Ok(declaration_text(rewritten)),
            },
        }
    }
}

/// The view of what [`record`] returns.
pub open spec fn record_view(result: Result<String, RecordError>) -> Result<
    Seq<char>,
    RecordError,
> {
    match result {
        Ok(text) => Ok(text@),
        Err(e) => Err(e),
    }
}

/// Rewrites the struct declaration `raw_input`.
///
/// `raw_args` holds the arguments of the invoking attribute; they have to
/// parse and are otherwise not consulted. `serde` says whether the
/// serialization capabilities are attached beside debug formatting.
///
/// The declaration comes back with `#[derive(..)]` behind its own
/// attributes, with every `#[record(..)]` removed, and with each field public
/// unless it was marked `#[record(skip)]`.
///
/// A text with a literal of a kind that the parser does not know is never
/// shown to the parser: such arguments and such a declaration are malformed,
/// such a directive is unsupported where it is that literal alone and
/// malformed otherwise. Inside other attributes such a literal is carried
/// along unread.
///
/// The result depends on the three arguments alone. The call has one effect
/// besides: it switches `proc-macro2` to its own lexer and printer, for the
/// whole process, and leaves it so. A caller inside a macro that wants the
/// compiler's back calls `proc_macro2::fallback::unforce` afterwards, and
/// lets no other thread call it while `record` runs.
pub fn record(raw_args: &str, raw_input: &str, serde: bool) -> (result: Result<
    String,
    RecordError,
>)
    ensures
        record_view(result) == record_spec(raw_args@, raw_input@, serde),
{
    if !is_safe(raw_args) || !arguments_parse(raw_args) {
        return Err(RecordError::MalformedArguments);
    }
    let decl = match read_declaration(raw_input) {
        Some(decl) => decl,
        None => { return Err(RecordError::MalformedDeclaration); },
    };
    match rewrite(&decl, serde) {
        Err(e) => Err(e),
        Ok(rewritten) => Ok(emit(&rewritten)),
    }
}

} // verus!
