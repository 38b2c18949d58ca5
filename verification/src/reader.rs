//! Reading: from the text of a declaration to a [`Declaration`].
//!
//! The parser is asked for one thing at a time, and what it answers is put
//! together here: the parts of a declaration into a [`Declaration`], the
//! levels of a meta item into a [`Directive`]. What comes out is checked
//! against the form of the declaration before it is handed on.
//!
//! Every function here that takes a text asks the lexer or the parser, and
//! with that switches `proc-macro2` to its own lexer and printer for the
//! whole process and leaves it so. A caller inside a macro undoes the switch
//! with `proc_macro2::fallback::unforce` when it has its answer.

use vstd::prelude::*;
use crate::declaration::{
    attribute_views, clone_name, field_views, Attribute, AttributeView, Declaration,
    DeclarationView, Field, FieldView,
};
use crate::directive::{lemma_group_view, Directive, DirectiveTree};
use crate::lexical::{is_safe, is_sole_literal, safe, sole_literal};
use crate::rewrite::is_directive;
use crate::syntax::{
    attribute_argument, parse_attributes, parse_fields, parse_meta, parse_outline,
    parsed_argument, parsed_meta, parsed_struct, MetaShape, MetaShapeView,
};

verus! {

/// The directive that `text` holds: the tree of the meta item that the
/// parser reads from it, level by level, with at most `depth` lists one
/// inside the other. `None` where the parser reads no meta item from `text`
/// or from a member of a list in it, or where the lists go deeper.
///
/// A text that is one literal is a literal, of whatever kind, and the parser
/// is not asked. Any other text with a literal of a kind that the parser
/// does not know cannot be shown to it and holds no directive.
pub open spec fn directive_in(text: Seq<char>, depth: nat) -> Option<DirectiveTree>
    decreases depth, 1nat,
{
    if sole_literal(text) {
        Some(DirectiveTree::Literal)
    } else if !safe(text) {
        None
    } else {
        directive_parsed(text, depth)
    }
}

/// The directive that the parser reads from a text that is safe to show
/// it, as [`directive_in`] has it.
pub open spec fn directive_parsed(text: Seq<char>, depth: nat) -> Option<DirectiveTree>
    decreases depth, 0nat,
{
    match parsed_meta(text) {
        None => None,
        Some(MetaShapeView::Path(path)) => Some(DirectiveTree::Flag(path)),
        Some(MetaShapeView::List(members)) => {
            if depth == 0 {
                None
            } else if forall|i: int|
                0 <= i < members.len() ==> directive_in(#[trigger] members[i], (depth - 1) as nat)
                    is Some {
                Some(
                    DirectiveTree::Group(
                        Seq::new(
                            members.len(),
                            |i: int| directive_in(members[i], (depth - 1) as nat)->0,
                        ),
                    ),
                )
            } else {
                None
            }
        },
        Some(MetaShapeView::NameValue) => Some(DirectiveTree::KeyValue),
        Some(MetaShapeView::Literal) => Some(DirectiveTree::Literal),
    }
}

/// The directive in the argument of the attribute `text`. The depth to
/// which it is read is the length of the argument: every list takes up some
/// of the text, so no text holds more lists than it has characters.
pub open spec fn argument_of(text: Seq<char>) -> Option<DirectiveTree> {
    match parsed_argument(text) {
        Some(argument) => directive_in(argument, argument.len()),
        None => None,
    }
}

/// A field's attribute as the rewriter wants it: a directive carries what
/// its argument holds, any other attribute is left as it was read.
pub open spec fn attribute_read(attr: AttributeView) -> AttributeView {
    if attr.is_directive() {
        AttributeView { name: attr.name, text: attr.text, argument: argument_of(attr.text) }
    } else {
        attr
    }
}

/// The attributes of a field, each as [`attribute_read`] gives it.
pub open spec fn attributes_read(attrs: Seq<AttributeView>) -> Seq<AttributeView> {
    Seq::new(attrs.len(), |i: int| attribute_read(attrs[i]))
}

/// A field with the arguments of its directives read.
pub open spec fn field_read(field: FieldView) -> FieldView {
    FieldView {
        attrs: attributes_read(field.attrs),
        vis: field.vis,
        name: field.name,
        ty: field.ty,
    }
}

/// The fields of a declaration, each as [`field_read`] gives it.
pub open spec fn fields_read(fields: Seq<FieldView>) -> Seq<FieldView> {
    Seq::new(fields.len(), |i: int| field_read(fields[i]))
}

/// A declaration with the arguments of the directives on its fields read.
pub open spec fn declaration_read(decl: DeclarationView) -> DeclarationView {
    DeclarationView {
        attrs: decl.attrs,
        vis: decl.vis,
        name: decl.name,
        generics: decl.generics,
        form: decl.form,
        fields: fields_read(decl.fields),
        terminator: decl.terminator,
    }
}

/// The declaration that `text` holds: what the parser reads of it, with the
/// directives on its fields, as long as the parts agree with the form. A
/// text that cannot be shown to the parser holds none.
pub open spec fn declaration_of(text: Seq<char>) -> Option<DeclarationView> {
    if !safe(text) {
        None
    } else {
        match parsed_struct(text) {
            Some(decl) => if declaration_read(decl).well_formed() {
                Some(declaration_read(decl))
            } else {
                None
            },
            None => None,
        }
    }
}

/// The view of what [`read_declaration`] returns.
pub open spec fn declaration_view(read: Option<Declaration>) -> Option<DeclarationView> {
    match read {
        Some(decl) => Some(decl@),
        None => None,
    }
}

/// The view of a directive that was read, if one was.
pub open spec fn directive_view(read: Option<Directive>) -> Option<DirectiveTree> {
    match read {
        Some(directive) => Some(directive@),
        None => None,
    }
}

/// Reads a directive from its text: asks the parser for the shape of the
/// meta item, and for a list goes on with each member, as long as `depth`
/// allows another list. A text that is one literal is a literal without the
/// parser being asked; any other text is shown to the parser only if it is
/// safe.
///
/// Leaves `proc-macro2` switched to its own lexer.
pub fn read_directive(text: &str, depth: usize) -> (read: Option<Directive>)
    ensures
        directive_view(read) == directive_in(text@, depth as nat),
    decreases depth,
{
    if is_sole_literal(text) {
        return Some(Directive::Literal);
    }
    if !is_safe(text) {
        return None;
    }
    match parse_meta(text) {
        None => None,
        Some(MetaShape::Path(path)) => Some(Directive::Flag(path)),
        Some(MetaShape::List(members)) => {
            if depth == 0 {
                return None;
            }
            let ghost texts = parsed_meta(text@)->0->List_0;
            let mut items: Vec<Directive> = Vec::new();
            let mut i: usize = 0;
            while i < members.len()
                invariant
                    i <= members.len(),
                    depth > 0,
                    !sole_literal(text@),
                    safe(text@),
                    parsed_meta(text@) == Some(MetaShapeView::List(texts)),
                    texts.len() == members.len(),
                    forall|j: int| 0 <= j < members.len() ==> texts[j] == (#[trigger] members[j])@,
                    items.len() == i,
                    forall|j: int|
                        0 <= j < i ==> directive_in(texts[j], (depth - 1) as nat) == Some(
                            (#[trigger] items[j])@,
                        ),
                decreases members.len() - i,
            {
                match read_directive(members[i].as_str(), depth - 1) {
                    None => {
                        assert(directive_in(texts[i as int], (depth - 1) as nat) is None);
                        return None;
                    },
                    Some(item) => {
                        items.push(item);
                    },
                }
                i += 1;
            }
            let group = Directive::Group(items);
            proof {
                lemma_group_view(group);
                assert forall|j: int| 0 <= j < texts.len() implies directive_in(
                    #[trigger] texts[j],
                    (depth - 1) as nat,
                ) == Some(items[j]@) by {}
                assert(directive_parsed(text@, depth as nat)->0->Group_0 =~= group@->Group_0);
            }
            Some(group)
        },
        Some(MetaShape::NameValue) => Some(Directive::KeyValue),
        Some(MetaShape::Literal) => Some(Directive::Literal),
    }
}

/// Reads the directive in the argument of the attribute `text`.
///
/// Leaves `proc-macro2` switched to its own lexer.
pub fn read_argument(text: &str) -> (read: Option<Directive>)
    ensures
        directive_view(read) == argument_of(text@),
{
    match attribute_argument(text) {
        Some(argument) => {
            let depth = argument.as_str().unicode_len();
            read_directive(argument.as_str(), depth)
        },
        None => None,
    }
}

/// Reads the arguments of the directives among a field's attributes.
///
/// Leaves `proc-macro2` switched to its own lexer.
pub fn read_attributes(attrs: &Vec<Attribute>) -> (read: Vec<Attribute>)
    ensures
        attribute_views(read@) == attributes_read(attribute_views(attrs@)),
{
    let mut read: Vec<Attribute> = Vec::new();
    let mut i: usize = 0;
    while i < attrs.len()
        invariant
            i <= attrs.len(),
            read@.len() == i,
            forall|j: int| 0 <= j < i ==> (#[trigger] read@[j])@ == attribute_read(attrs@[j]@),
        decreases attrs.len() - i,
    {
        let attr = &attrs[i];
        if is_directive(attr) {
            let argument = read_argument(attr.text.as_str());
            read.push(Attribute { name: attr.name.clone(), text: attr.text.clone(), argument });
        } else {
            read.push(attr.clone());
        }
        i += 1;
    }
    read
}

/// Reads the arguments of the directives on every field.
///
/// Leaves `proc-macro2` switched to its own lexer.
pub fn read_fields(fields: &Vec<Field>) -> (read: Vec<Field>)
    ensures
        field_views(read@) == fields_read(field_views(fields@)),
{
    let mut read: Vec<Field> = Vec::new();
    let mut i: usize = 0;
    while i < fields.len()
        invariant
            i <= fields.len(),
            read@.len() == i,
            forall|j: int| 0 <= j < i ==> (#[trigger] read@[j])@ == field_read(fields@[j]@),
        decreases fields.len() - i,
    {
        let field = &fields[i];
        read.push(
            Field {
                attrs: read_attributes(&field.attrs),
                vis: field.vis.clone(),
                name: clone_name(&field.name),
                ty: field.ty.clone(),
            },
        );
        i += 1;
    }
    read
}

/// Reads a struct declaration from its text. The argument of every
/// directive on a field is read as well; one that cannot be read leaves its
/// attribute without an argument, which the rewriter then refuses.
///
/// The text is shown to the parser only if it is safe, and what the parser
/// hands over is not taken on trust: a declaration whose parts do not agree
/// with its form is not returned.
///
/// Leaves `proc-macro2` switched to its own lexer.
pub fn read_declaration(text: &str) -> (read: Option<Declaration>)
    ensures
        declaration_view(read) == declaration_of(text@),
        read matches Some(decl) ==> decl@.well_formed(),
{
    if !is_safe(text) {
        return None;
    }
    let outline = match parse_outline(text) {
        Some(outline) => outline,
        None => { return None; },
    };
    let attrs = match parse_attributes(text) {
        Some(attrs) => attrs,
        None => { return None; },
    };
    let fields = match parse_fields(text) {
        Some(fields) => fields,
        None => { return None; },
    };
    let decl = Declaration {
        attrs,
        vis: outline.vis,
        name: outline.name,
        generics: outline.generics,
        form: outline.form,
        fields: read_fields(&fields),
        terminator: outline.terminator,
    };
    if decl.is_well_formed() {
        Some(decl)
    } else {
        None
    }
}

} // verus!
