//! A struct declaration as data: what the rewriter reads and what it
//! produces.

use vstd::prelude::*;
use crate::directive::{Directive, DirectiveTree};

verus! {

/// One attribute of a declaration or of a field.
#[derive(Debug, PartialEq, Eq)]
pub struct Attribute {
    /// The first segment of the attribute's path.
    pub name: String,
    /// The attribute as it is written, from `#` to `]`.
    pub text: String,
    /// The directive in the parentheses of a directive attribute, or `None`
    /// where they do not hold exactly one. Not read on other attributes.
    pub argument: Option<Directive>,
}

/// The mathematical form of an [`Attribute`].
pub struct AttributeView {
    pub name: Seq<char>,
    pub text: Seq<char>,
    pub argument: Option<DirectiveTree>,
}

impl View for Attribute {
    type V = AttributeView;

    open spec fn view(&self) -> AttributeView {
        AttributeView {
            name: self.name@,
            text: self.text@,
            argument: match self.argument {
                Some(directive) => Some(directive@),
                None => None,
            },
        }
    }
}

impl Clone for Attribute {
    fn clone(&self) -> (copy: Self)
        ensures
            copy@ == self@,
    {
        Attribute {
            name: self.name.clone(),
            text: self.text.clone(),
            argument: match &self.argument {
                Some(directive) => Some(directive.clone()),
                None => None,
            },
        }
    }
}

/// One field of a declaration.
#[derive(Debug, PartialEq, Eq)]
pub struct Field {
    pub attrs: Vec<Attribute>,
    /// The visibility qualifier as written; empty for a private field.
    pub vis: String,
    /// The field's name; `None` in a positional declaration.
    pub name: Option<String>,
    /// The field's type as written.
    pub ty: String,
}

/// The mathematical form of a [`Field`].
pub struct FieldView {
    pub attrs: Seq<AttributeView>,
    pub vis: Seq<char>,
    pub name: Option<Seq<char>>,
    pub ty: Seq<char>,
}

impl View for Field {
    type V = FieldView;

    open spec fn view(&self) -> FieldView {
        FieldView {
            attrs: attribute_views(self.attrs@),
            vis: self.vis@,
            name: match self.name {
                Some(name) => Some(name@),
                None => None,
            },
            ty: self.ty@,
        }
    }
}

/// Copies a list of attributes, member by member.
pub fn clone_attributes(attrs: &Vec<Attribute>) -> (copies: Vec<Attribute>)
    ensures
        attribute_views(copies@) == attribute_views(attrs@),
{
    let mut copies: Vec<Attribute> = Vec::new();
    let mut i: usize = 0;
    while i < attrs.len()
        invariant
            i <= attrs.len(),
            copies@.len() == i,
            forall|j: int| 0 <= j < i ==> copies@[j]@ == attrs@[j]@,
        decreases attrs.len() - i,
    {
        copies.push(attrs[i].clone());
        i += 1;
    }
    copies
}

/// Copies an optional text.
pub fn clone_name(name: &Option<String>) -> (copy: Option<String>)
    ensures
        copy.is_some() == name.is_some(),
        copy matches Some(text) ==> text@ == name->0@,
{
    match name {
        Some(text) => Some(text.clone()),
        None => None,
    }
}

impl Clone for Field {
    fn clone(&self) -> (copy: Self)
        ensures
            copy@ == self@,
    {
        Field {
            attrs: clone_attributes(&self.attrs),
            vis: self.vis.clone(),
            name: clone_name(&self.name),
            ty: self.ty.clone(),
        }
    }
}

/// How a declaration lists its fields.
#[derive(Clone, Copy, Debug, PartialEq, Eq, Structural)]
pub enum Form {
    /// `struct S { a: A }`
    Named,
    /// `struct S(A);`
    Positional,
    /// `struct S;`
    Unit,
}

/// A struct declaration.
#[derive(Debug, PartialEq, Eq)]
pub struct Declaration {
    pub attrs: Vec<Attribute>,
    /// The visibility qualifier as written; empty for a private struct.
    pub vis: String,
    pub name: String,
    /// The generic parameters with their angle brackets; empty if there are
    /// none.
    pub generics: String,
    pub form: Form,
    pub fields: Vec<Field>,
    /// Whether a semicolon ends the declaration.
    pub terminator: bool,
}

/// The mathematical form of a [`Declaration`].
pub struct DeclarationView {
    pub attrs: Seq<AttributeView>,
    pub vis: Seq<char>,
    pub name: Seq<char>,
    pub generics: Seq<char>,
    pub form: Form,
    pub fields: Seq<FieldView>,
    pub terminator: bool,
}

impl View for Declaration {
    type V = DeclarationView;

    open spec fn view(&self) -> DeclarationView {
        DeclarationView {
            attrs: attribute_views(self.attrs@),
            vis: self.vis@,
            name: self.name@,
            generics: self.generics@,
            form: self.form,
            fields: field_views(self.fields@),
            terminator: self.terminator,
        }
    }
}

/// The views of a list of attributes, in order.
pub open spec fn attribute_views(attrs: Seq<Attribute>) -> Seq<AttributeView> {
    Seq::new(attrs.len(), |i: int| attrs[i]@)
}

/// The views of a list of fields, in order.
pub open spec fn field_views(fields: Seq<Field>) -> Seq<FieldView> {
    Seq::new(fields.len(), |i: int| fields[i]@)
}

impl DeclarationView {
    /// The parts of the declaration agree with its form: a semicolon ends
    /// it exactly when it has no braces, a unit struct has no fields, and the
    /// fields have names exactly in a named declaration.
    pub open spec fn well_formed(self) -> bool {
        &&& self.terminator == (self.form != Form::Named)
        &&& self.form == Form::Unit ==> self.fields.len() == 0
        &&& forall|i: int|
            0 <= i < self.fields.len() ==> ((#[trigger] self.fields[i]).name is Some) == (self.form
                == Form::Named)
    }
}

impl Declaration {
    /// Whether the parts of the declaration agree with its form.
    pub fn is_well_formed(&self) -> (ok: bool)
        ensures
            ok == self@.well_formed(),
    {
        if self.terminator == (self.form == Form::Named) {
            return false;
        }
        if self.form == Form::Unit && self.fields.len() != 0 {
            return false;
        }
        let named = self.form == Form::Named;
        let mut i: usize = 0;
        while i < self.fields.len()
            invariant
                i <= self.fields.len(),
                named == (self.form == Form::Named),
                forall|j: int|
                    0 <= j < i ==> ((#[trigger] self@.fields[j]).name is Some) == named,
            decreases self.fields.len() - i,
        {
            assert(self@.fields[i as int] == self.fields@[i as int]@);
            if self.fields[i].name.is_some() != named {
                return false;
            }
            i += 1;
        }
        true
    }
}

} // verus!
