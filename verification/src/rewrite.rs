//! The rewriter: strips directive attributes, resolves each field's policy,
//! makes fields public, and attaches the derived capabilities.

use vstd::prelude::*;
use crate::declaration::{
    attribute_views, clone_name, Attribute, AttributeView, Declaration, DeclarationView, Field,
    FieldView, Form,
};
use crate::directive::{resolve_directive, InnerAttrArgs};
use crate::error::RecordError;

verus! {

/// The name by which an attribute is one of this crate's directives.
pub open spec fn directive_name() -> Seq<char> {
    "record"@
}

/// The visibility that a field gets unless it is skipped.
pub open spec fn public_qualifier() -> Seq<char> {
    "pub"@
}

/// The attribute that attaches the derived capabilities: debug formatting
/// always, serialization in both directions when `serde` is on.
pub open spec fn capability_attribute(serde: bool) -> AttributeView {
    AttributeView {
        name: "derive"@,
        text: if serde {
            "#[derive(Debug, serde::Serialize, serde::Deserialize)]"@
        } else {
            "#[derive(Debug)]"@
        },
        argument: None,
    }
}

impl AttributeView {
    /// The attribute is one of this crate's directives.
    pub open spec fn is_directive(self) -> bool {
        self.name == directive_name()
    }

    /// What a directive attribute resolves to.
    pub open spec fn options(self) -> Result<InnerAttrArgs, RecordError> {
        match self.argument {
            None => Err(RecordError::MalformedDirective),
            Some(tree) => tree.resolve(),
        }
    }

    /// Why the attribute stops the rewrite, if it does. Only a directive
    /// can.
    pub open spec fn failure(self) -> Option<RecordError> {
        if self.is_directive() {
            match self.options() {
                Ok(_) => None,
                Err(e) => Some(e),
            }
        } else {
            None
        }
    }

    /// The attribute is a directive that asks to skip its field.
    pub open spec fn sets_skip(self) -> bool {
        self.is_directive() && self.options() == Ok::<InnerAttrArgs, RecordError>(
            InnerAttrArgs { skip: true },
        )
    }
}

/// The attributes that stay: all but the directives, in their order.
pub open spec fn retained(attrs: Seq<AttributeView>) -> Seq<AttributeView> {
    attrs.filter(|a: AttributeView| !a.is_directive())
}

/// The failure of the first attribute that has one.
pub open spec fn first_failure(attrs: Seq<AttributeView>) -> Option<RecordError>
    decreases attrs.len(),
{
    if attrs.len() == 0 {
        None
    } else {
        match first_failure(attrs.drop_last()) {
            Some(e) => Some(e),
            None => attrs.last().failure(),
        }
    }
}

/// Some attribute asks to skip the field.
pub open spec fn skips(attrs: Seq<AttributeView>) -> bool {
    exists|i: int| 0 <= i < attrs.len() && (#[trigger] attrs[i]).sets_skip()
}

/// What the attributes of a field resolve to: the failure of the first
/// directive that fails, else whether any directive skips the field.
pub open spec fn policy(attrs: Seq<AttributeView>) -> Result<InnerAttrArgs, RecordError> {
    match first_failure(attrs) {
        Some(e) => Err(e),
        None => Ok(InnerAttrArgs { skip: skips(attrs) }),
    }
}

impl FieldView {
    /// The field after the rewrite: without its directives, and public
    /// unless a directive skips it.
    pub open spec fn rewritten(self) -> FieldView {
        FieldView {
            attrs: retained(self.attrs),
            vis: if skips(self.attrs) {
                self.vis
            } else {
                public_qualifier()
            },
            name: self.name,
            ty: self.ty,
        }
    }

    /// The outcome of rewriting the field: the failure of its first
    /// directive that fails, else the field rewritten.
    pub open spec fn rewrite(self) -> Result<FieldView, RecordError> {
        match first_failure(self.attrs) {
            Some(e) => Err(e),
            None => Ok(self.rewritten()),
        }
    }
}

/// The view of the outcome of rewriting a field.
pub open spec fn field_outcome_view(outcome: Result<Field, RecordError>) -> Result<
    FieldView,
    RecordError,
> {
    match outcome {
        Ok(field) => Ok(field@),
        Err(e) => Err(e),
    }
}

/// The failure of the first field that has one.
pub open spec fn first_field_failure(fields: Seq<FieldView>) -> Option<RecordError>
    decreases fields.len(),
{
    if fields.len() == 0 {
        None
    } else {
        match first_field_failure(fields.drop_last()) {
            Some(e) => Some(e),
            None => first_failure(fields.last().attrs),
        }
    }
}

/// Every field rewritten, in order.
pub open spec fn rewritten_fields(fields: Seq<FieldView>) -> Seq<FieldView> {
    Seq::new(fields.len(), |i: int| fields[i].rewritten())
}

impl DeclarationView {
    /// Why the declaration is not rewritten, if it is not: it is a unit
    /// struct, or else one of its fields carries a directive that fails.
    pub open spec fn rejection(self) -> Option<RecordError> {
        if self.form == Form::Unit {
            Some(RecordError::UnitStruct)
        } else {
            first_field_failure(self.fields)
        }
    }

    /// The declaration after the rewrite.
    pub open spec fn rewritten(self, serde: bool) -> DeclarationView {
        DeclarationView {
            attrs: retained(self.attrs).push(capability_attribute(serde)),
            vis: self.vis,
            name: self.name,
            generics: self.generics,
            form: self.form,
            fields: rewritten_fields(self.fields),
            terminator: self.terminator,
        }
    }

    /// The outcome of the rewrite.
    pub open spec fn rewrite(self, serde: bool) -> Result<DeclarationView, RecordError> {
        match self.rejection() {
            Some(e) => Err(e),
            None => Ok(self.rewritten(serde)),
        }
    }
}

/// The view of a rewrite's outcome.
pub open spec fn outcome_view(outcome: Result<Declaration, RecordError>) -> Result<
    DeclarationView,
    RecordError,
> {
    match outcome {
        Ok(decl) => Ok(decl@),
        Err(e) => Err(e),
    }
}

/// Whether `attr` is one of this crate's directives.
pub fn is_directive(attr: &Attribute) -> (owned: bool)
    ensures
        owned == attr@.is_directive(),
{
    let name = String::from_str("record");
    attr.name == name
}

/// Builds the attribute that attaches the derived capabilities.
pub fn make_capability_attribute(serde: bool) -> (attr: Attribute)
    ensures
        attr@ == capability_attribute(serde),
{
    let text = if serde {
        String::from_str("#[derive(Debug, serde::Serialize, serde::Deserialize)]")
    } else {
        String::from_str("#[derive(Debug)]")
    };
    Attribute { name: String::from_str("derive"), text, argument: None }
}

/// Copies the attributes that are no directives, in their order.
pub fn retain_attributes(attrs: &Vec<Attribute>) -> (kept: Vec<Attribute>)
    ensures
        attribute_views(kept@) == retained(attribute_views(attrs@)),
{
    let ghost views = attribute_views(attrs@);
    let mut kept: Vec<Attribute> = Vec::new();
    let mut i: usize = 0;
    assert(attribute_views(kept@) == retained(views.take(0))) by {
        reveal(Seq::filter);
    }
    while i < attrs.len()
        invariant
            i <= attrs.len(),
            views == attribute_views(attrs@),
            attribute_views(kept@) == retained(views.take(i as int)),
        decreases attrs.len() - i,
    {
        let ghost before = attribute_views(kept@);
        proof {
            reveal(Seq::filter);
            assert(views.take(i + 1).drop_last() =~= views.take(i as int));
            assert(views.take(i + 1).last() == attrs@[i as int]@);
        }
        if !is_directive(&attrs[i]) {
            kept.push(attrs[i].clone());
            assert(attribute_views(kept@) =~= before.push(attrs@[i as int]@));
        }
        i += 1;
    }
    assert(views.take(attrs.len() as int) =~= views);
    kept
}

/// Resolves the directives of one field, attribute by attribute, and stops
/// at the first that fails.
pub fn field_policy(field: &Field) -> (result: Result<InnerAttrArgs, RecordError>)
    ensures
        result == policy(field@.attrs),
{
    let ghost views = field@.attrs;
    let mut skip = false;
    let mut i: usize = 0;
    assert(views.take(0) =~= Seq::<AttributeView>::empty());
    while i < field.attrs.len()
        invariant
            i <= field.attrs.len(),
            views == attribute_views(field.attrs@),
            first_failure(views.take(i as int)) is None,
            skip == skips(views.take(i as int)),
        decreases field.attrs.len() - i,
    {
        let attr = &field.attrs[i];
        proof {
            assert(views.take(i + 1).drop_last() =~= views.take(i as int));
            assert(views.take(i + 1).last() == attr@);
        }
        let mut now = false;
        if is_directive(attr) {
            match &attr.argument {
                None => {
                    proof {
                        lemma_failure_stays(views, i + 1);
                    }
                    return Err(RecordError::MalformedDirective);
                },
                Some(directive) => match resolve_directive(directive) {
                    Err(e) => {
                        proof {
                            lemma_failure_stays(views, i + 1);
                        }
                        return Err(e);
                    },
                    Ok(options) => {
                        now = options.skip;
                    },
                },
            }
        }
        proof {
            lemma_skips_push(views.take(i as int), attr@);
            assert(views.take(i + 1) =~= views.take(i as int).push(attr@));
        }
        if now {
            skip = true;
        }
        i += 1;
    }
    assert(views.take(field.attrs.len() as int) =~= views);
    Ok(InnerAttrArgs { skip })
}

/// A failure among the first `n` attributes is the failure of the whole
/// list.
pub proof fn lemma_failure_stays(attrs: Seq<AttributeView>, n: int)
    requires
        0 <= n <= attrs.len(),
        first_failure(attrs.take(n)) is Some,
    ensures
        first_failure(attrs) == first_failure(attrs.take(n)),
    decreases attrs.len() - n,
{
    if n < attrs.len() {
        assert(attrs.take(n + 1).drop_last() =~= attrs.take(n));
        lemma_failure_stays(attrs, n + 1);
    } else {
        assert(attrs.take(n) =~= attrs);
    }
}

/// A list with one more attribute skips when the list did or the new
/// attribute does.
pub proof fn lemma_skips_push(attrs: Seq<AttributeView>, last: AttributeView)
    ensures
        skips(attrs.push(last)) == (skips(attrs) || last.sets_skip()),
{
    let longer = attrs.push(last);
    if skips(attrs) {
        let i = choose|i: int| 0 <= i < attrs.len() && (#[trigger] attrs[i]).sets_skip();
        assert(longer[i].sets_skip());
    }
    if last.sets_skip() {
        assert(longer[attrs.len() as int].sets_skip());
    }
    if skips(longer) {
        let i = choose|i: int| 0 <= i < longer.len() && (#[trigger] longer[i]).sets_skip();
        if i < attrs.len() {
            assert(attrs[i].sets_skip());
        }
    }
}

/// Rewrites one field: drops its directives and makes it public unless one
/// of them skips it.
pub fn rewrite_field(field: &Field) -> (result: Result<Field, RecordError>)
    ensures
        field_outcome_view(result) == field@.rewrite(),
{
    match field_policy(field) {
        Err(e) => Err(e),
        Ok(options) => {
            let vis = if options.skip {
                field.vis.clone()
            } else {
                String::from_str("pub")
            };
            Ok(
                Field {
                    attrs: retain_attributes(&field.attrs),
                    vis,
                    name: clone_name(&field.name),
                    ty: field.ty.clone(),
                },
            )
        },
    }
}

/// A failure among the first `n` fields is the failure of the whole list.
pub proof fn lemma_field_failure_stays(fields: Seq<FieldView>, n: int)
    requires
        0 <= n <= fields.len(),
        first_field_failure(fields.take(n)) is Some,
    ensures
        first_field_failure(fields) == first_field_failure(fields.take(n)),
    decreases fields.len() - n,
{
    if n < fields.len() {
        assert(fields.take(n + 1).drop_last() =~= fields.take(n));
        lemma_field_failure_stays(fields, n + 1);
    } else {
        assert(fields.take(n) =~= fields);
    }
}

/// Rewrites a declaration. A unit struct is refused before any field is
/// looked at; otherwise the fields are rewritten in order, and the first
/// directive that fails stops the rewrite. Nothing of the declaration is
/// returned on failure.
pub fn rewrite(decl: &Declaration, serde: bool) -> (result: Result<Declaration, RecordError>)
    ensures
        outcome_view(result) == decl@.rewrite(serde),
        result matches Ok(out) ==> (decl@.well_formed() ==> out@.well_formed()),
{
    if decl.form == Form::Unit {
        return Err(RecordError::UnitStruct);
    }
    let ghost views = decl@.fields;
    let mut fields: Vec<Field> = Vec::new();
    let mut i: usize = 0;
    assert(views.take(0) =~= Seq::<FieldView>::empty());
    while i < decl.fields.len()
        invariant
            i <= decl.fields.len(),
            decl.form != Form::Unit,
            views == decl@.fields,
            first_field_failure(views.take(i as int)) is None,
            fields@.len() == i,
            forall|j: int| 0 <= j < i ==> (#[trigger] fields@[j])@ == views[j].rewritten(),
        decreases decl.fields.len() - i,
    {
        proof {
            assert(views.take(i + 1).drop_last() =~= views.take(i as int));
            assert(views.take(i + 1).last() == decl.fields@[i as int]@);
        }
        match rewrite_field(&decl.fields[i]) {
            Err(e) => {
                proof {
                    lemma_field_failure_stays(views, i + 1);
                }
                return Err(e);
            },
            Ok(field) => {
                fields.push(field);
            },
        }
        i += 1;
    }
    assert(views.take(decl.fields.len() as int) =~= views);
    let mut attrs = retain_attributes(&decl.attrs);
    let ghost kept = attribute_views(attrs@);
    attrs.push(make_capability_attribute(serde));
    let out = Declaration {
        attrs,
        vis: decl.vis.clone(),
        name: decl.name.clone(),
        generics: decl.generics.clone(),
        form: decl.form,
        fields,
        terminator: decl.terminator,
    };
    proof {
        assert(out@.attrs =~= kept.push(capability_attribute(serde)));
        assert(out@.fields =~= rewritten_fields(views));
    }
    Ok(out)
}

} // verus!
