//! What holds of every rewrite.

use vstd::prelude::*;
use crate::declaration::{AttributeView, DeclarationView, FieldView, Form};
use crate::error::RecordError;
use crate::rewrite::{
    capability_attribute, first_failure, first_field_failure, public_qualifier, retained, skips,
};

verus! {

/// No attribute of the list is a directive.
pub open spec fn free_of_directives(attrs: Seq<AttributeView>) -> bool {
    forall|k: int| 0 <= k < attrs.len() ==> !(#[trigger] attrs[k]).is_directive()
}

/// No attribute of the list fails.
pub open spec fn free_of_failures(attrs: Seq<AttributeView>) -> bool {
    forall|k: int| 0 <= k < attrs.len() ==> (#[trigger] attrs[k]).failure() is None
}

/// A list of attributes has a first failure exactly when one of them fails,
/// and then it is the failure of the first that does.
pub proof fn lemma_first_failure(attrs: Seq<AttributeView>)
    ensures
        first_failure(attrs) is None <==> free_of_failures(attrs),
        first_failure(attrs) matches Some(e) ==> exists|k: int|
            0 <= k < attrs.len() && (#[trigger] attrs[k]).failure() == Some(e)
                && free_of_failures(attrs.take(k)),
    decreases attrs.len(),
{
    if attrs.len() > 0 {
        let front = attrs.drop_last();
        lemma_first_failure(front);
        match first_failure(front) {
            Some(e) => {
                let k = choose|k: int|
                    0 <= k < front.len() && (#[trigger] front[k]).failure() == Some(e)
                        && free_of_failures(front.take(k));
                assert(attrs[k] == front[k]);
                assert(attrs.take(k) =~= front.take(k));
            },
            None => {
                assert forall|k: int| 0 <= k < front.len() implies (#[trigger] attrs[k]).failure()
                    is None by {
                    assert(attrs[k] == front[k]);
                }
                if attrs.last().failure() is Some {
                    let k = attrs.len() - 1;
                    assert(attrs[k] == attrs.last());
                    assert(attrs.take(k) =~= front);
                }
            },
        }
        if free_of_failures(attrs) {
            assert forall|k: int| 0 <= k < front.len() implies (#[trigger] front[k]).failure()
                is None by {
                assert(attrs[k] == front[k]);
            }
            assert(attrs[attrs.len() - 1].failure() is None);
        }
    }
}

/// A declaration is rewritten exactly when it is no unit struct and no
/// directive on any of its fields fails. A unit struct is refused as such,
/// whatever its fields hold; any other failure is that of the first field
/// that has one.
pub proof fn law_rewrite_succeeds(decl: DeclarationView, serde: bool)
    ensures
        decl.rewrite(serde) is Ok <==> decl.form != Form::Unit && forall|i: int|
            0 <= i < decl.fields.len() ==> free_of_failures((#[trigger] decl.fields[i]).attrs),
        decl.form == Form::Unit ==> decl.rewrite(serde) == Err::<DeclarationView, RecordError>(
            RecordError::UnitStruct,
        ),
        decl.form != Form::Unit ==> (decl.rewrite(serde) matches Err(e) ==> exists|i: int|
            0 <= i < decl.fields.len() && first_failure((#[trigger] decl.fields[i]).attrs) == Some(e)
                && first_field_failure(decl.fields.take(i)) is None),
{
    lemma_first_field_failure(decl.fields);
}

/// A list of fields has a first failure exactly when a directive on one of
/// them fails, and then it is the first failure of the first such field.
pub proof fn lemma_first_field_failure(fields: Seq<FieldView>)
    ensures
        first_field_failure(fields) is None <==> forall|i: int|
            0 <= i < fields.len() ==> free_of_failures((#[trigger] fields[i]).attrs),
        first_field_failure(fields) matches Some(e) ==> exists|i: int|
            0 <= i < fields.len() && first_failure((#[trigger] fields[i]).attrs) == Some(e)
                && first_field_failure(fields.take(i)) is None,
    decreases fields.len(),
{
    if fields.len() > 0 {
        let front = fields.drop_last();
        lemma_first_field_failure(front);
        lemma_first_failure(fields.last().attrs);
        match first_field_failure(front) {
            Some(e) => {
                let i = choose|i: int|
                    0 <= i < front.len() && first_failure((#[trigger] front[i]).attrs) == Some(e)
                        && first_field_failure(front.take(i)) is None;
                assert(fields[i] == front[i]);
                assert(fields.take(i) =~= front.take(i));
            },
            None => {
                assert forall|i: int| 0 <= i < front.len() implies free_of_failures(
                    (#[trigger] fields[i]).attrs,
                ) by {
                    assert(fields[i] == front[i]);
                }
                if first_failure(fields.last().attrs) is Some {
                    let i = fields.len() - 1;
                    assert(fields[i] == fields.last());
                    assert(fields.take(i) =~= front);
                }
            },
        }
        if forall|i: int| 0 <= i < fields.len() ==> free_of_failures((#[trigger] fields[i]).attrs) {
            assert forall|i: int| 0 <= i < front.len() implies free_of_failures(
                (#[trigger] front[i]).attrs,
            ) by {
                assert(fields[i] == front[i]);
            }
            assert(free_of_failures(fields[fields.len() - 1].attrs));
        }
    }
}

/// A field that no directive skips comes out public, whatever its
/// visibility was.
pub proof fn law_unskipped_field_is_public(decl: DeclarationView, serde: bool, i: int)
    requires
        decl.rewrite(serde) is Ok,
        0 <= i < decl.fields.len(),
        !skips(decl.fields[i].attrs),
    ensures
        decl.rewrite(serde)->Ok_0.fields[i].vis == public_qualifier(),
{
}

/// A field that a directive skips keeps the visibility it was written with.
pub proof fn law_skipped_field_keeps_visibility(decl: DeclarationView, serde: bool, i: int)
    requires
        decl.rewrite(serde) is Ok,
        0 <= i < decl.fields.len(),
        skips(decl.fields[i].attrs),
    ensures
        decl.rewrite(serde)->Ok_0.fields[i].vis == decl.fields[i].vis,
{
}

/// What is retained of a list of attributes holds no directive.
pub proof fn lemma_retained_free_of_directives(attrs: Seq<AttributeView>)
    ensures
        free_of_directives(retained(attrs)),
{
    let keep = |a: AttributeView| !a.is_directive();
    assert forall|k: int| 0 <= k < retained(attrs).len() implies !(#[trigger] retained(
        attrs,
    )[k]).is_directive() by {
        attrs.lemma_filter_pred(keep, k);
    }
}

/// A list without directives is retained whole.
pub proof fn lemma_retained_whole(attrs: Seq<AttributeView>)
    requires
        free_of_directives(attrs),
    ensures
        retained(attrs) == attrs,
    decreases attrs.len(),
{
    reveal(Seq::filter);
    if attrs.len() > 0 {
        let front = attrs.drop_last();
        assert forall|k: int| 0 <= k < front.len() implies !(#[trigger] front[k]).is_directive() by {
            assert(front[k] == attrs[k]);
        }
        lemma_retained_whole(front);
        assert(!attrs[attrs.len() - 1].is_directive());
        assert(front.push(attrs.last()) =~= attrs);
    }
}

/// Rewriting settles a field that is not skipped: rewritten once more, it
/// stays as it is, public and without directives.
pub proof fn law_unskipped_field_is_settled(field: FieldView)
    requires
        !skips(field.attrs),
    ensures
        field.rewritten().rewritten() == field.rewritten(),
        field.rewritten().rewrite() == Ok::<FieldView, RecordError>(field.rewritten()),
{
    let once = field.rewritten();
    lemma_retained_free_of_directives(field.attrs);
    lemma_retained_whole(once.attrs);
    assert(!skips(once.attrs)) by {
        if skips(once.attrs) {
            let i = choose|i: int| 0 <= i < once.attrs.len() && (#[trigger] once.attrs[i]).sets_skip();
            assert(!once.attrs[i].is_directive());
        }
    }
    lemma_first_failure(once.attrs);
}

/// No directive is left in a rewritten declaration: not among its own
/// attributes, not among those of any field.
pub proof fn law_no_directive_survives(decl: DeclarationView, serde: bool)
    requires
        decl.rewrite(serde) is Ok,
    ensures
        free_of_directives(decl.rewrite(serde)->Ok_0.attrs),
        forall|i: int|
            0 <= i < decl.fields.len() ==> free_of_directives(
                (#[trigger] decl.rewrite(serde)->Ok_0.fields[i]).attrs,
            ),
{
    let out = decl.rewrite(serde)->Ok_0;
    lemma_retained_free_of_directives(decl.attrs);
    assert(!capability_attribute(serde).is_directive()) by {
        reveal_strlit("derive");
        reveal_strlit("record");
        assert("derive"@.len() != "record"@.len() || "derive"@[0] != "record"@[0]);
    }
    assert forall|k: int| 0 <= k < out.attrs.len() implies !(#[trigger] out.attrs[k]).is_directive() by {
        if k < retained(decl.attrs).len() {
            assert(out.attrs[k] == retained(decl.attrs)[k]);
        }
    }
    assert forall|i: int| 0 <= i < decl.fields.len() implies free_of_directives(
        (#[trigger] out.fields[i]).attrs,
    ) by {
        lemma_retained_free_of_directives(decl.fields[i].attrs);
    }
}

/// `at` places the members of `part` in `whole`, one after the other: each
/// member at its index, and the indices rising.
pub open spec fn placed_in_order(part: Seq<AttributeView>, whole: Seq<AttributeView>, at: Seq<int>) -> bool {
    &&& at.len() == part.len()
    &&& forall|k: int| 0 <= k < at.len() ==> 0 <= #[trigger] at[k] < whole.len() && whole[at[k]] == part[k]
    &&& forall|j: int, k: int| 0 <= j < k < at.len() ==> #[trigger] at[j] < #[trigger] at[k]
}

/// The retained attributes are those of the input that are no directives,
/// each once and in the order of the input. The result gives, for each
/// retained attribute, its index in the input.
pub proof fn law_retained_keeps_order(attrs: Seq<AttributeView>) -> (at: Seq<int>)
    ensures
        placed_in_order(retained(attrs), attrs, at),
        forall|p: int| 0 <= p < attrs.len() && !attrs[p].is_directive() ==> at.contains(p),
    decreases attrs.len(),
{
    reveal(Seq::filter);
    if attrs.len() == 0 {
        Seq::empty()
    } else {
        let front = attrs.drop_last();
        let before = law_retained_keeps_order(front);
        let last = attrs.len() - 1;
        assert forall|k: int| 0 <= k < before.len() implies attrs[#[trigger] before[k]]
            == retained(front)[k] by {
            assert(front[before[k]] == attrs[before[k]]);
        }
        if attrs.last().is_directive() {
            assert forall|p: int| 0 <= p < attrs.len() && !attrs[p].is_directive() implies before.contains(p) by {
                assert(front[p] == attrs[p]);
                assert(before.contains(p));
            }
            before
        } else {
            let at = before.push(last);
            assert(retained(attrs) == retained(front).push(attrs.last()));
            assert forall|p: int| 0 <= p < attrs.len() && !attrs[p].is_directive() implies at.contains(p) by {
                if p < last {
                    assert(front[p] == attrs[p]);
                    assert(before.contains(p));
                    let k = choose|k: int| 0 <= k < before.len() && before[k] == p;
                    assert(at[k] == p);
                } else {
                    assert(at[before.len() as int] == p);
                }
            }
            at
        }
    }
}

/// The attributes that a rewrite keeps stand in the order in which they
/// were written: on the declaration, where the capabilities follow them, and
/// on every field.
pub proof fn law_attribute_order(decl: DeclarationView, serde: bool)
    requires
        decl.rewrite(serde) is Ok,
    ensures
        decl.rewrite(serde)->Ok_0.attrs.drop_last() == retained(decl.attrs),
        exists|at: Seq<int>| placed_in_order(retained(decl.attrs), decl.attrs, at),
        forall|i: int|
            0 <= i < decl.fields.len() ==> (#[trigger] decl.rewrite(serde)->Ok_0.fields[i]).attrs
                == retained(decl.fields[i].attrs),
        forall|i: int|
            0 <= i < decl.fields.len() ==> exists|at: Seq<int>|
                placed_in_order(
                    retained((#[trigger] decl.fields[i]).attrs),
                    decl.fields[i].attrs,
                    at,
                ),
{
    let out = decl.rewrite(serde)->Ok_0;
    assert(out.attrs.drop_last() =~= retained(decl.attrs));
    let at = law_retained_keeps_order(decl.attrs);
    assert forall|i: int| 0 <= i < decl.fields.len() implies exists|at: Seq<int>|
        placed_in_order(retained((#[trigger] decl.fields[i]).attrs), decl.fields[i].attrs, at) by {
        let at = law_retained_keeps_order(decl.fields[i].attrs);
    }
}

/// A rewrite changes neither the form of a declaration nor its terminator:
/// named fields stay named, positional fields stay positional and keep their
/// semicolon. The fields stay as many, each with its name and type.
pub proof fn law_form_is_preserved(decl: DeclarationView, serde: bool)
    requires
        decl.rewrite(serde) is Ok,
    ensures
        decl.rewrite(serde)->Ok_0.form == decl.form,
        decl.rewrite(serde)->Ok_0.terminator == decl.terminator,
        decl.well_formed() ==> decl.rewrite(serde)->Ok_0.well_formed(),
        decl.rewrite(serde)->Ok_0.vis == decl.vis,
        decl.rewrite(serde)->Ok_0.name == decl.name,
        decl.rewrite(serde)->Ok_0.generics == decl.generics,
        decl.rewrite(serde)->Ok_0.fields.len() == decl.fields.len(),
        forall|i: int|
            0 <= i < decl.fields.len() ==> (#[trigger] decl.rewrite(serde)->Ok_0.fields[i]).name
                == decl.fields[i].name && decl.rewrite(serde)->Ok_0.fields[i].ty
                == decl.fields[i].ty,
{
}

/// Which capabilities are attached depends on the flag alone: any two
/// declarations rewritten under the same flag end in the same attribute, the
/// only one that the rewrite adds.
pub proof fn law_capabilities_follow_the_flag(
    first: DeclarationView,
    second: DeclarationView,
    serde: bool,
)
    requires
        first.rewrite(serde) is Ok,
        second.rewrite(serde) is Ok,
    ensures
        first.rewrite(serde)->Ok_0.attrs.last() == capability_attribute(serde),
        second.rewrite(serde)->Ok_0.attrs.last() == first.rewrite(serde)->Ok_0.attrs.last(),
        first.rewrite(serde)->Ok_0.attrs.len() == retained(first.attrs).len() + 1,
{
}

} // verus!
