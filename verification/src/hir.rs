//! What semantic analysis says of an `impl` block and of the items that it lacks.

use crate::declaration::{ItemSyntax, ItemView};
use crate::syntax::Impl;
use vstd::prelude::*;

verus! {

/// A name, as it is and as it has to be written where it is also a keyword.
#[derive(Debug, PartialEq, Eq)]
pub struct Name {
    pub text: String,
    pub escaped: String,
}

/// The declaration of an item in its trait, and whether a macro wrote it.
#[derive(Debug, PartialEq, Eq)]
pub struct Source {
    pub value: ItemSyntax,
    pub file_is_macro: bool,
}

/// An associated function. Its parameters are counted with `self`.
#[derive(Debug, PartialEq, Eq)]
pub struct Function {
    pub name: Name,
    pub param_count: usize,
    pub has_self_param: bool,
    pub docs: Option<String>,
    pub source: Option<Source>,
}

/// An associated type.
#[derive(Debug, PartialEq, Eq)]
pub struct TypeAlias {
    pub name: Name,
    pub docs: Option<String>,
}

/// An associated constant.
#[derive(Debug, PartialEq, Eq)]
pub struct Const {
    pub name: Option<Name>,
    pub docs: Option<String>,
    pub source: Option<Source>,
}

/// An associated item of a trait.
#[derive(Debug, PartialEq, Eq)]
pub enum AssocItem {
    Function(Function),
    TypeAlias(TypeAlias),
    Const(Const),
}

/// A resolved `impl` block: whether its trait, its own source and the scope of that source are
/// known, and the items of the trait that it does not implement yet.
#[derive(Debug, PartialEq, Eq)]
pub struct ImplDef {
    pub syntax: Impl,
    pub has_trait: bool,
    pub has_source: bool,
    pub has_scope: bool,
    pub missing_assoc_items: Vec<AssocItem>,
}

impl ImplDef {
    /// All is known that it takes to see an item of the trait from the `impl` block.
    pub open spec fn can_transform(&self) -> bool {
        self.has_trait && self.has_source && self.has_scope
    }
}

/// The first of `impls` that `impl_` resolves to.
pub open spec fn resolved(impls: Seq<ImplDef>, impl_: Impl) -> Option<ImplDef>
    decreases impls.len(),
{
    if impls.len() == 0 {
        None
    } else if impls[0].syntax == impl_ {
        Some(impls[0])
    } else {
        resolved(impls.drop_first(), impl_)
    }
}

/// The answers of semantic analysis: the `impl` blocks that resolve, and two transformations of
/// items. `path_transform` writes an item of a trait as the given `impl` block sees it, with the
/// generics of the trait replaced; `insert_ws` puts white space between tokens that a macro left
/// without any.
pub struct Semantics<T, W> {
    pub impls: Vec<ImplDef>,
    pub path_transform: T,
    pub insert_ws: W,
}

impl<T: Fn(Impl, ItemSyntax) -> ItemSyntax, W: Fn(ItemSyntax) -> ItemSyntax> Semantics<T, W> {
    /// Both transformations take any item.
    pub open spec fn wf(&self) -> bool {
        &&& forall|impl_: Impl, asked: ItemSyntax|
            call_requires(self.path_transform, (impl_, asked))
        &&& forall|asked: ItemSyntax| call_requires(self.insert_ws, (asked,))
    }

    /// What `impl_` resolves to.
    pub fn to_def(&self, impl_: Impl) -> (def: Option<&ImplDef>)
        ensures
            def is Some <==> resolved(self.impls@, impl_) is Some,
            def matches Some(def) ==> resolved(self.impls@, impl_) == Some(*def),
            def is None <==> forall|i: int|
                0 <= i < self.impls@.len() ==> (#[trigger] self.impls@[i]).syntax != impl_,
            def matches Some(def) ==> exists|i: int|
                {
                    &&& 0 <= i < self.impls@.len()
                    &&& #[trigger] self.impls@[i] == *def
                    &&& def.syntax == impl_
                    &&& forall|j: int| 0 <= j < i ==> (#[trigger] self.impls@[j]).syntax != impl_
                },
    {
        let mut i: usize = 0;
        assert(self.impls@.skip(0) =~= self.impls@);
        while i < self.impls.len()
            invariant
                i <= self.impls.len(),
                resolved(self.impls@, impl_) == resolved(self.impls@.skip(i as int), impl_),
                forall|j: int| 0 <= j < i ==> (#[trigger] self.impls@[j]).syntax != impl_,
            decreases self.impls.len() - i,
        {
            if self.impls[i].syntax == impl_ {
                assert(self.impls@[i as int].syntax == impl_);
                return Some(&self.impls[i]);
            }
            assert(self.impls@.skip(i as int).drop_first() =~= self.impls@.skip(i + 1));
            i += 1;
        }
        None
    }
}

/// `inlined` is an answer of `path_transform` to `item`, seen from `impl_`.
pub open spec fn is_inlined<T: Fn(Impl, ItemSyntax) -> ItemSyntax>(
    path_transform: T,
    impl_: Impl,
    item: ItemView,
    inlined: ItemView,
) -> bool {
    exists|asked: ItemSyntax, answer: ItemSyntax|
        asked@ == item && #[trigger] call_ensures(path_transform, (impl_, asked), answer)
            && answer@ == inlined
}

} // verus!
