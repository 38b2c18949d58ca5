//! Emission: the text of a declaration.
//!
//! A declaration is written as a row of words, its attributes, qualifiers,
//! names, types and punctuation, with one space between each two. A word that
//! is empty, such as the visibility of a private field, is left out.

use vstd::prelude::*;
use crate::declaration::{
    attribute_views, field_views, Attribute, AttributeView, Declaration, DeclarationView, Field,
    FieldView, Form,
};

verus! {

/// `text` with `word` behind it, a space between the two. An empty word
/// adds nothing, and the first word gets no space in front.
pub open spec fn append_word(text: Seq<char>, word: Seq<char>) -> Seq<char> {
    if word.len() == 0 {
        text
    } else if text.len() == 0 {
        word
    } else {
        text + " "@ + word
    }
}

/// `text` with each of `words` behind it, in order.
pub open spec fn append_words(text: Seq<char>, words: Seq<Seq<char>>) -> Seq<char>
    decreases words.len(),
{
    if words.len() == 0 {
        text
    } else {
        append_word(append_words(text, words.drop_last()), words.last())
    }
}

/// The words of a list of attributes: the text of each.
pub open spec fn attribute_words(attrs: Seq<AttributeView>) -> Seq<Seq<char>> {
    Seq::new(attrs.len(), |i: int| attrs[i].text)
}

/// The words of a field's name: the name and a colon, or nothing for a
/// field without a name.
pub open spec fn name_words(name: Option<Seq<char>>) -> Seq<Seq<char>> {
    match name {
        Some(text) => seq![text, ":"@],
        None => Seq::empty(),
    }
}

/// The words of a field: its attributes, its visibility, its name if it has
/// one, its type.
pub open spec fn field_words(field: FieldView) -> Seq<Seq<char>> {
    attribute_words(field.attrs) + seq![field.vis] + name_words(field.name) + seq![field.ty]
}

/// The words of a field list: the fields in order, a comma between each
/// two.
pub open spec fn fields_words(fields: Seq<FieldView>) -> Seq<Seq<char>>
    decreases fields.len(),
{
    if fields.len() == 0 {
        Seq::empty()
    } else if fields.len() == 1 {
        field_words(fields[0])
    } else {
        fields_words(fields.drop_last()) + seq![","@] + field_words(fields.last())
    }
}

/// The words of the body: the field list in braces or in parentheses, as
/// the form has it; nothing for a unit struct.
pub open spec fn body_words(form: Form, fields: Seq<FieldView>) -> Seq<Seq<char>> {
    match form {
        Form::Named => seq!["{"@] + fields_words(fields) + seq!["}"@],
        Form::Positional => seq!["("@] + fields_words(fields) + seq![")"@],
        Form::Unit => Seq::empty(),
    }
}

/// The semicolon that ends a declaration, if it has one.
pub open spec fn terminator_words(terminator: bool) -> Seq<Seq<char>> {
    if terminator {
        seq![";"@]
    } else {
        Seq::empty()
    }
}

/// The words of a declaration: its attributes, its visibility, the
/// keyword, its name and generics, its body, its terminator.
pub open spec fn declaration_words(decl: DeclarationView) -> Seq<Seq<char>> {
    attribute_words(decl.attrs) + seq![decl.vis, "struct"@, decl.name, decl.generics] + body_words(
        decl.form,
        decl.fields,
    ) + terminator_words(decl.terminator)
}

/// The text of a declaration: its words with single spaces between them.
pub open spec fn declaration_text(decl: DeclarationView) -> Seq<char> {
    append_words(Seq::empty(), declaration_words(decl))
}

/// Appending two rows of words one after the other is appending them as one
/// row.
pub proof fn lemma_append_words_concat(text: Seq<char>, first: Seq<Seq<char>>, second: Seq<Seq<char>>)
    ensures
        append_words(text, first + second) == append_words(append_words(text, first), second),
    decreases second.len(),
{
    if second.len() == 0 {
        assert(first + second =~= first);
    } else {
        assert((first + second).drop_last() =~= first + second.drop_last());
        assert((first + second).last() == second.last());
        lemma_append_words_concat(text, first, second.drop_last());
    }
}

/// Appending a row of one word is appending that word.
pub proof fn lemma_append_words_one(text: Seq<char>, word: Seq<char>)
    ensures
        append_words(text, seq![word]) == append_word(text, word),
{
    assert(seq![word].drop_last() =~= Seq::<Seq<char>>::empty());
    assert(append_words(text, seq![word].drop_last()) == text);
}

/// Appends one word to `out`.
pub fn emit_word(out: &mut String, word: &str)
    ensures
        final(out)@ == append_word(old(out)@, word@),
{
    if word.is_empty() {
        return ;
    }
    if !out.as_str().is_empty() {
        out.append(" ");
    }
    out.append(word);
}

/// Appends the attributes to `out`.
pub fn emit_attributes(out: &mut String, attrs: &Vec<Attribute>)
    ensures
        final(out)@ == append_words(old(out)@, attribute_words(attribute_views(attrs@))),
{
    let ghost start = out@;
    let ghost words = attribute_words(attribute_views(attrs@));
    let mut i: usize = 0;
    assert(words.take(0) =~= Seq::<Seq<char>>::empty());
    while i < attrs.len()
        invariant
            i <= attrs.len(),
            words == attribute_words(attribute_views(attrs@)),
            out@ == append_words(start, words.take(i as int)),
        decreases attrs.len() - i,
    {
        proof {
            assert(words.take(i + 1).drop_last() =~= words.take(i as int));
            assert(words.take(i + 1).last() == attrs@[i as int]@.text);
        }
        emit_word(out, attrs[i].text.as_str());
        i += 1;
    }
    assert(words.take(attrs.len() as int) =~= words);
}

/// Appends one field to `out`.
pub fn emit_field(out: &mut String, field: &Field)
    ensures
        final(out)@ == append_words(old(out)@, field_words(field@)),
{
    let ghost start = out@;
    let ghost attrs = attribute_words(field@.attrs);
    emit_attributes(out, &field.attrs);
    emit_word(out, field.vis.as_str());
    match &field.name {
        Some(name) => {
            emit_word(out, name.as_str());
            emit_word(out, ":");
        },
        None => {},
    }
    emit_word(out, field.ty.as_str());
    proof {
        let head = attrs + seq![field@.vis];
        let named = head + name_words(field@.name);
        lemma_append_words_concat(start, attrs, seq![field@.vis]);
        lemma_append_words_one(append_words(start, attrs), field@.vis);
        lemma_append_words_concat(start, head, name_words(field@.name));
        if field@.name is Some {
            let name = field@.name->0;
            assert(name_words(field@.name) =~= seq![name] + seq![":"@]);
            lemma_append_words_concat(append_words(start, head), seq![name], seq![":"@]);
            lemma_append_words_one(append_words(start, head), name);
            lemma_append_words_one(append_word(append_words(start, head), name), ":"@);
        }
        lemma_append_words_concat(start, named, seq![field@.ty]);
        lemma_append_words_one(append_words(start, named), field@.ty);
    }
}

/// Appends the fields to `out`, with a comma between each two.
pub fn emit_fields(out: &mut String, fields: &Vec<Field>)
    ensures
        final(out)@ == append_words(old(out)@, fields_words(field_views(fields@))),
{
    let ghost start = out@;
    let ghost views = field_views(fields@);
    let mut i: usize = 0;
    assert(views.take(0) =~= Seq::<FieldView>::empty());
    while i < fields.len()
        invariant
            i <= fields.len(),
            views == field_views(fields@),
            out@ == append_words(start, fields_words(views.take(i as int))),
        decreases fields.len() - i,
    {
        let ghost before = fields_words(views.take(i as int));
        proof {
            assert(views.take(i + 1).drop_last() =~= views.take(i as int));
            assert(views.take(i + 1).last() == fields@[i as int]@);
            assert(views.take(i + 1)[0] == views[0]);
        }
        if i > 0 {
            emit_word(out, ",");
            proof {
                lemma_append_words_concat(start, before, seq![","@]);
                lemma_append_words_one(append_words(start, before), ","@);
                lemma_append_words_concat(start, before + seq![","@], field_words(fields@[i as int]@));
            }
        } else {
            assert(before =~= Seq::<Seq<char>>::empty());
        }
        emit_field(out, &fields[i]);
        i += 1;
    }
    assert(views.take(fields.len() as int) =~= views);
}

/// Appends the body of a declaration to `out`.
pub fn emit_body(out: &mut String, form: Form, fields: &Vec<Field>)
    ensures
        final(out)@ == append_words(old(out)@, body_words(form, field_views(fields@))),
{
    let ghost start = out@;
    let ghost inner = fields_words(field_views(fields@));
    match form {
        Form::Named => {
            emit_word(out, "{");
            emit_fields(out, fields);
            emit_word(out, "}");
            proof {
                lemma_append_words_one(start, "{"@);
                lemma_append_words_concat(start, seq!["{"@], inner);
                lemma_append_words_one(append_words(start, seq!["{"@] + inner), "}"@);
                lemma_append_words_concat(start, seq!["{"@] + inner, seq!["}"@]);
            }
        },
        Form::Positional => {
            emit_word(out, "(");
            emit_fields(out, fields);
            emit_word(out, ")");
            proof {
                lemma_append_words_one(start, "("@);
                lemma_append_words_concat(start, seq!["("@], inner);
                lemma_append_words_one(append_words(start, seq!["("@] + inner), ")"@);
                lemma_append_words_concat(start, seq!["("@] + inner, seq![")"@]);
            }
        },
        Form::Unit => {},
    }
}

/// Writes a declaration out as text: its words in order, one space between
/// each two.
pub fn emit(decl: &Declaration) -> (text: String)
    ensures
        text@ == declaration_text(decl@),
{
    let mut out = String::new();
    let ghost start = out@;
    let ghost attrs = attribute_words(decl@.attrs);
    let ghost head = seq![decl@.vis, "struct"@, decl@.name, decl@.generics];
    let ghost body = body_words(decl@.form, decl@.fields);
    emit_attributes(&mut out, &decl.attrs);
    let ghost after_attrs = out@;
    emit_word(&mut out, decl.vis.as_str());
    emit_word(&mut out, "struct");
    emit_word(&mut out, decl.name.as_str());
    emit_word(&mut out, decl.generics.as_str());
    proof {
        let one = seq![decl@.vis];
        let two = one + seq!["struct"@];
        let three = two + seq![decl@.name];
        assert(head =~= three + seq![decl@.generics]);
        lemma_append_words_one(after_attrs, decl@.vis);
        lemma_append_words_concat(after_attrs, one, seq!["struct"@]);
        lemma_append_words_one(append_words(after_attrs, one), "struct"@);
        lemma_append_words_concat(after_attrs, two, seq![decl@.name]);
        lemma_append_words_one(append_words(after_attrs, two), decl@.name);
        lemma_append_words_concat(after_attrs, three, seq![decl@.generics]);
        lemma_append_words_one(append_words(after_attrs, three), decl@.generics);
        lemma_append_words_concat(start, attrs, head);
    }
    emit_body(&mut out, decl.form, &decl.fields);
    proof {
        lemma_append_words_concat(start, attrs + head, body);
    }
    if decl.terminator {
        emit_word(&mut out, ";");
        proof {
            lemma_append_words_one(append_words(start, attrs + head + body), ";"@);
        }
    }
    proof {
        lemma_append_words_concat(start, attrs + head + body, terminator_words(decl@.terminator));
    }
    out
}

} // verus!
