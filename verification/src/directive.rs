//! Directives: the arguments of a `record` attribute, and what they resolve
//! to.
//!
//! A directive is a bare flag, `skip`, or a group of directives,
//! `all(skip, other)`. Resolving walks the whole tree: a flag named `skip`
//! anywhere in it sets the option, and a part of any other shape fails the
//! lot.

use vstd::prelude::*;
use crate::error::RecordError;

verus! {

/// One argument of a directive attribute.
#[derive(Debug, PartialEq, Eq)]
pub enum Directive {
    /// A bare path such as `skip`, one text per path segment.
    Flag(Vec<String>),
    /// A list such as `all(skip, other)`. Only its members are read, never
    /// the name in front of the parentheses.
    Group(Vec<Directive>),
    /// A `key = value` pair.
    KeyValue,
    /// A literal.
    Literal,
}

/// The mathematical form of a [`Directive`].
pub enum DirectiveTree {
    Flag(Seq<Seq<char>>),
    Group(Seq<DirectiveTree>),
    KeyValue,
    Literal,
}

/// What the directives of one field resolve to.
#[derive(Clone, Copy, Debug, PartialEq, Eq, Structural)]
pub struct InnerAttrArgs {
    /// The field keeps the visibility it was written with.
    pub skip: bool,
}

impl Default for InnerAttrArgs {
    fn default() -> (args: Self)
        ensures
            args == (InnerAttrArgs { skip: false }),
    {
        InnerAttrArgs { skip: false }
    }
}

/// The name of the only flag there is.
pub open spec fn skip_flag() -> Seq<char> {
    "skip"@
}

/// The texts of a list of strings, in order.
pub open spec fn string_views(strings: Seq<String>) -> Seq<Seq<char>> {
    Seq::new(strings.len(), |i: int| strings[i]@)
}

/// The trees of a list of directives, in order.
pub open spec fn directive_trees(directives: Seq<Directive>) -> Seq<DirectiveTree> {
    Seq::new(directives.len(), |i: int| directives[i]@)
}

impl View for Directive {
    type V = DirectiveTree;

    open spec fn view(&self) -> DirectiveTree
        decreases self,
    {
        match self {
            Directive::Flag(path) => DirectiveTree::Flag(string_views(path@)),
            Directive::Group(items) => DirectiveTree::Group(
                Seq::new(
                    items.len() as nat,
                    |i: int|
                        if 0 <= i < items.len() {
                            items[i].view()
                        } else {
                            DirectiveTree::Literal
                        },
                ),
            ),
            Directive::KeyValue => DirectiveTree::KeyValue,
            Directive::Literal => DirectiveTree::Literal,
        }
    }
}

impl DirectiveTree {
    /// The tree holds bare flags and groups only.
    pub open spec fn supported(self) -> bool
        decreases self,
    {
        match self {
            DirectiveTree::Flag(_) => true,
            DirectiveTree::Group(items) => forall|i: int|
                0 <= i < items.len() ==> (#[trigger] items[i]).supported(),
            DirectiveTree::KeyValue => false,
            DirectiveTree::Literal => false,
        }
    }

    /// Some bare flag in the tree has a path segment `skip`.
    pub open spec fn sets_skip(self) -> bool
        decreases self,
    {
        match self {
            DirectiveTree::Flag(path) => path.contains(skip_flag()),
            DirectiveTree::Group(items) => exists|i: int|
                0 <= i < items.len() && (#[trigger] items[i]).sets_skip(),
            DirectiveTree::KeyValue => false,
            DirectiveTree::Literal => false,
        }
    }

    /// What the tree resolves to: a failure if any part of it has an
    /// unsupported shape, else whether `skip` occurs in it.
    pub open spec fn resolve(self) -> Result<InnerAttrArgs, RecordError> {
        if self.supported() {
            Ok(InnerAttrArgs { skip: self.sets_skip() })
        } else {
            Err(RecordError::UnsupportedArgument)
        }
    }
}

/// Every directive of the list has a supported shape.
pub open spec fn all_supported(directives: Seq<DirectiveTree>) -> bool {
    forall|i: int| 0 <= i < directives.len() ==> (#[trigger] directives[i]).supported()
}

/// Some directive of the list sets `skip`.
pub open spec fn any_sets_skip(directives: Seq<DirectiveTree>) -> bool {
    exists|i: int| 0 <= i < directives.len() && (#[trigger] directives[i]).sets_skip()
}

/// What a list of directives resolves to: a failure if any of them has an
/// unsupported shape anywhere, else whether any of them sets `skip`.
pub open spec fn resolve_all(directives: Seq<DirectiveTree>) -> Result<InnerAttrArgs, RecordError> {
    if all_supported(directives) {
        Ok(InnerAttrArgs { skip: any_sets_skip(directives) })
    } else {
        Err(RecordError::UnsupportedArgument)
    }
}

/// A list with one more directive is supported when the list and the new
/// directive are, and sets `skip` when the list or the new directive does.
pub proof fn lemma_one_more(directives: Seq<DirectiveTree>, last: DirectiveTree)
    ensures
        all_supported(directives.push(last)) == (all_supported(directives) && last.supported()),
        any_sets_skip(directives.push(last)) == (any_sets_skip(directives) || last.sets_skip()),
{
    let longer = directives.push(last);
    assert(longer[directives.len() as int] == last);
    assert forall|i: int| 0 <= i < directives.len() implies longer[i] == directives[i] by {}
    if any_sets_skip(directives) {
        let i = choose|i: int| 0 <= i < directives.len() && (#[trigger] directives[i]).sets_skip();
        assert(longer[i].sets_skip());
    }
    if all_supported(longer) {
        assert forall|i: int| 0 <= i < directives.len() implies (#[trigger] directives[i]).supported() by {
            assert(longer[i].supported());
        }
    }
}

/// A group resolves as the list of its members does.
pub proof fn lemma_group_resolves_as_members(items: Seq<DirectiveTree>)
    ensures
        DirectiveTree::Group(items).supported() == all_supported(items),
        DirectiveTree::Group(items).sets_skip() == any_sets_skip(items),
        DirectiveTree::Group(items).resolve() == resolve_all(items),
{
    assert(DirectiveTree::Group(items)->Group_0 == items);
}

/// The tree of a group holds the trees of its members.
pub proof fn lemma_group_view(group: Directive)
    requires
        group is Group,
    ensures
        group@ == DirectiveTree::Group(directive_trees(group->Group_0@)),
{
    assert(group@->Group_0 =~= directive_trees(group->Group_0@));
}

/// Whether some segment of `path` is the flag `skip`.
pub fn path_sets_skip(path: &Vec<String>) -> (found: bool)
    ensures
        found == string_views(path@).contains(skip_flag()),
{
    let flag = String::from_str("skip");
    let ghost segments = string_views(path@);
    let mut found = false;
    let mut i: usize = 0;
    while i < path.len()
        invariant
            i <= path.len(),
            flag@ == skip_flag(),
            segments == string_views(path@),
            found == exists|j: int| 0 <= j < i && segments[j] == skip_flag(),
        decreases path.len() - i,
    {
        if path[i] == flag {
            assert(segments[i as int] == skip_flag());
            found = true;
        }
        i += 1;
    }
    found
}

/// Resolves one directive.
pub fn resolve_directive(directive: &Directive) -> (result: Result<InnerAttrArgs, RecordError>)
    ensures
        result == directive@.resolve(),
    decreases directive, 0nat,
{
    match directive {
        Directive::Flag(path) => Ok(InnerAttrArgs { skip: path_sets_skip(path) }),
        Directive::Group(items) => {
            proof {
                lemma_group_view(*directive);
                lemma_group_resolves_as_members(directive_trees(items@));
            }
            parse_inner_attr_args(items)
        },
        Directive::KeyValue => Err(RecordError::UnsupportedArgument),
        Directive::Literal => Err(RecordError::UnsupportedArgument),
    }
}

/// Resolves the directives collected from one attribute. Flags are only ever
/// set: a repeated `skip` changes nothing, and nothing clears it.
pub fn parse_inner_attr_args(raw_args: &Vec<Directive>) -> (result: Result<
    InnerAttrArgs,
    RecordError,
>)
    ensures
        result == resolve_all(directive_trees(raw_args@)),
    decreases raw_args, 1nat,
{
    let ghost trees = directive_trees(raw_args@);
    let mut args = InnerAttrArgs::default();
    let mut i: usize = 0;
    while i < raw_args.len()
        invariant
            i <= raw_args.len(),
            trees == directive_trees(raw_args@),
            all_supported(trees.take(i as int)),
            args.skip == any_sets_skip(trees.take(i as int)),
        decreases raw_args.len() - i,
    {
        match resolve_directive(&raw_args[i]) {
            Ok(inner) => {
                if inner.skip {
                    args.skip = true;
                }
            },
            Err(e) => {
                return Err(e);
            },
        }
        proof {
            lemma_one_more(trees.take(i as int), trees[i as int]);
            assert(trees.take(i + 1) =~= trees.take(i as int).push(trees[i as int]));
        }
        i += 1;
    }
    assert(trees.take(raw_args.len() as int) =~= trees);
    Ok(args)
}

/// Copies a path, segment by segment.
pub fn clone_path(path: &Vec<String>) -> (copy: Vec<String>)
    ensures
        string_views(copy@) == string_views(path@),
{
    let mut copy: Vec<String> = Vec::new();
    let mut i: usize = 0;
    while i < path.len()
        invariant
            i <= path.len(),
            copy@.len() == i,
            forall|j: int| 0 <= j < i ==> copy@[j]@ == path@[j]@,
        decreases path.len() - i,
    {
        copy.push(path[i].clone());
        i += 1;
    }
    copy
}

/// Copies a list of directives, member by member.
pub fn clone_directives(items: &Vec<Directive>) -> (copies: Vec<Directive>)
    ensures
        directive_trees(copies@) == directive_trees(items@),
    decreases items, 1nat,
{
    let mut copies: Vec<Directive> = Vec::new();
    let mut i: usize = 0;
    while i < items.len()
        invariant
            i <= items.len(),
            copies@.len() == i,
            forall|j: int| 0 <= j < i ==> copies@[j]@ == items@[j]@,
        decreases items.len() - i,
    {
        copies.push(items[i].clone());
        i += 1;
    }
    copies
}

impl Clone for Directive {
    fn clone(&self) -> (copy: Self)
        ensures
            copy@ == self@,
        decreases self, 0nat,
    {
        match self {
            Directive::Flag(path) => Directive::Flag(clone_path(path)),
            Directive::Group(items) => {
                let copy = Directive::Group(clone_directives(items));
                proof {
                    lemma_group_view(copy);
                    lemma_group_view(*self);
                }
                copy
            },
            Directive::KeyValue => Directive::KeyValue,
            Directive::Literal => Directive::Literal,
        }
    }
}

} // verus!
