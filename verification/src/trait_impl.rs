//! Completion for associated items in a trait implementation.
//!
//! This module adds the completion items related to implementing associated items within an
//! `impl Trait for Struct` block. The cursor is in a function, a type alias or a constant that is
//! an item of the block, or directly in the block.
//!
//! In
//!
//! ```ignore
//! trait SomeTrait {
//!     fn foo();
//! }
//!
//! impl SomeTrait for () {
//!     fn f$0
//! }
//! ```
//!
//! the completion `fn foo` gives
//!
//! ```ignore
//! impl SomeTrait for () {
//!     fn foo() {
//!     $0
//! }
//! }
//! ```

use crate::completion::{
    copy_text, text_view, CompletionContext, CompletionItem, CompletionItemKind,
    CompletionItemView, CompletionRelevance, Completions, PathCompletionCtx, SymbolKind,
};
use crate::declaration::{
    function_declaration, is_const_compl_syntax, is_function_declaration, make_const_compl_syntax,
    without_attrs_and_docs, ItemSyntax, ItemView,
};
use crate::hir::{is_inlined, resolved, AssocItem, Const, Function, ImplDef, Source, TypeAlias};
use crate::syntax::{element_wf, is_child, prev_token, Element, Impl, SyntaxKind, SyntaxTree};
use crate::text::{join, TextEdit, TextEditView, TextRange};
use vstd::prelude::*;

verus! {

/// Which associated items are asked for.
#[derive(Copy, Clone, Debug, PartialEq, Eq, Structural)]
pub enum ImplCompletionKind {
    All,
    Fn,
    TypeAlias,
    Const,
}

/// The syntax of an associated item, by its kind.
#[derive(Debug, PartialEq, Eq)]
pub enum AssocItemSyntax {
    Fn(ItemSyntax),
    TypeAlias(ItemSyntax),
    Const(ItemSyntax),
    MacroCall(ItemSyntax),
}

impl AssocItemSyntax {
    /// The item.
    pub open spec fn item(self) -> ItemSyntax {
        match self {
            AssocItemSyntax::Fn(item) => item,
            AssocItemSyntax::TypeAlias(item) => item,
            AssocItemSyntax::Const(item) => item,
            AssocItemSyntax::MacroCall(item) => item,
        }
    }

    /// The two are items of one kind.
    pub open spec fn has_kind_of(self, other: AssocItemSyntax) -> bool {
        match other {
            AssocItemSyntax::Fn(_) => self is Fn,
            AssocItemSyntax::TypeAlias(_) => self is TypeAlias,
            AssocItemSyntax::Const(_) => self is Const,
            AssocItemSyntax::MacroCall(_) => self is MacroCall,
        }
    }
}

/// Every completion here is an item of the trait, and ranks as one.
pub open spec fn trait_item_relevance() -> CompletionRelevance {
    CompletionRelevance { is_item_from_trait: true }
}

/// The edit of a completion: `snippet` where the editor takes snippets, else `plain`.
pub open spec fn edit_of(
    snippets: bool,
    range: TextRange,
    snippet: Seq<char>,
    plain: Seq<char>,
) -> TextEditView {
    TextEditView {
        delete: range,
        insert: if snippets {
            snippet
        } else {
            plain
        },
    }
}

/// The completion for `func` with `declaration` for its head.
pub open spec fn function_item(
    snippets: bool,
    range: TextRange,
    func: Function,
    declaration: Seq<char>,
) -> CompletionItemView {
    CompletionItemView {
        kind: if func.has_self_param {
            CompletionItemKind::Method
        } else {
            CompletionItemKind::SymbolKind(SymbolKind::Function)
        },
        source_range: range,
        label: "fn "@ + func.name.text@ + (if func.param_count == 0 {
            "()"@
        } else {
            "(..)"@
        }),
        lookup: "fn "@ + func.name.text@,
        documentation: text_view(func.docs),
        relevance: trait_item_relevance(),
        is_snippet: snippets,
        text_edit: edit_of(
            snippets,
            range,
            declaration + " {\n    $0\n}"@,
            declaration + " {"@,
        ),
    }
}

/// The completion for `type_alias`.
pub open spec fn type_alias_item(
    snippets: bool,
    range: TextRange,
    type_alias: TypeAlias,
) -> CompletionItemView {
    let replacement = "type "@ + type_alias.name.escaped@ + " = "@;
    CompletionItemView {
        kind: CompletionItemKind::SymbolKind(SymbolKind::TypeAlias),
        source_range: range,
        label: "type "@ + type_alias.name.text@ + " ="@,
        lookup: "type "@ + type_alias.name.text@,
        documentation: text_view(type_alias.docs),
        relevance: trait_item_relevance(),
        is_snippet: snippets,
        text_edit: edit_of(snippets, range, replacement + "$0;"@, replacement),
    }
}

/// The completion for the constant `const_` called `name`, with `label` for its head.
pub open spec fn const_item(
    snippets: bool,
    range: TextRange,
    const_: Const,
    name: Seq<char>,
    label: Seq<char>,
) -> CompletionItemView {
    let replacement = label + " "@;
    CompletionItemView {
        kind: CompletionItemKind::SymbolKind(SymbolKind::Const),
        source_range: range,
        label,
        lookup: "const "@ + name,
        documentation: text_view(const_.docs),
        relevance: trait_item_relevance(),
        is_snippet: snippets,
        text_edit: edit_of(snippets, range, replacement + "$0;"@, replacement),
    }
}

/// `item` is a completion for `func`, whose declaration is `source`.
pub open spec fn completes_function<
    T: Fn(Impl, ItemSyntax) -> ItemSyntax,
    W: Fn(ItemSyntax) -> ItemSyntax,
>(
    ctx: CompletionContext<T, W>,
    range: TextRange,
    impl_: Impl,
    func: Function,
    source: Source,
    item: CompletionItemView,
) -> bool {
    exists|inlined: ItemView, declaration: Seq<char>|
        {
            &&& #[trigger] is_inlined(ctx.sema.path_transform, impl_, source.value@, inlined)
            &&& #[trigger] is_function_declaration(
                ctx.sema.insert_ws,
                source.file_is_macro,
                without_attrs_and_docs(inlined),
                declaration,
            )
            &&& item == function_item(ctx.snippet_cap is Some, range, func, declaration)
        }
}

/// `item` is a completion for `const_`, whose declaration is `source` and which is called `name`.
pub open spec fn completes_const<
    T: Fn(Impl, ItemSyntax) -> ItemSyntax,
    W: Fn(ItemSyntax) -> ItemSyntax,
>(
    ctx: CompletionContext<T, W>,
    range: TextRange,
    impl_: Impl,
    const_: Const,
    name: Seq<char>,
    source: Source,
    item: CompletionItemView,
) -> bool {
    exists|inlined: ItemView, label: Seq<char>|
        {
            &&& #[trigger] is_inlined(ctx.sema.path_transform, impl_, source.value@, inlined)
            &&& #[trigger] is_const_compl_syntax(
                ctx.sema.insert_ws,
                source.file_is_macro,
                without_attrs_and_docs(inlined),
                label,
            )
            &&& item == const_item(ctx.snippet_cap is Some, range, const_, name, label)
        }
}

/// `item` is a completion for `assoc_item`.
pub open spec fn completes<
    T: Fn(Impl, ItemSyntax) -> ItemSyntax,
    W: Fn(ItemSyntax) -> ItemSyntax,
>(
    ctx: CompletionContext<T, W>,
    range: TextRange,
    impl_: Impl,
    assoc_item: AssocItem,
    item: CompletionItemView,
) -> bool {
    match assoc_item {
        AssocItem::Function(func) => completes_function(
            ctx,
            range,
            impl_,
            func,
            func.source->0,
            item,
        ),
        AssocItem::TypeAlias(type_alias) => item == type_alias_item(
            ctx.snippet_cap is Some,
            range,
            type_alias,
        ),
        AssocItem::Const(const_) => completes_const(
            ctx,
            range,
            impl_,
            const_,
            const_.name->0.text@,
            const_.source->0,
            item,
        ),
    }
}

/// A completion for `func` can be made: its declaration is known, and can be seen from the
/// `impl` block.
pub open spec fn offers_function(func: Function, impl_def: ImplDef) -> bool {
    func.source is Some && impl_def.can_transform()
}

/// A completion for `const_` can be made: it has a name, its declaration is known, and can be
/// seen from the `impl` block.
pub open spec fn offers_const(const_: Const, impl_def: ImplDef) -> bool {
    const_.name is Some && const_.source is Some && impl_def.can_transform()
}

/// `kind` asks for items like `assoc_item`.
pub open spec fn asks_for(kind: ImplCompletionKind, assoc_item: AssocItem) -> bool {
    ||| kind == ImplCompletionKind::All
    ||| match assoc_item {
        AssocItem::Function(_) => kind == ImplCompletionKind::Fn,
        AssocItem::TypeAlias(_) => kind == ImplCompletionKind::TypeAlias,
        AssocItem::Const(_) => kind == ImplCompletionKind::Const,
    }
}

/// `kind` asks for `assoc_item`, and a completion for it can be made.
pub open spec fn offers(
    kind: ImplCompletionKind,
    impl_def: ImplDef,
    assoc_item: AssocItem,
) -> bool {
    &&& asks_for(kind, assoc_item)
    &&& match assoc_item {
        AssocItem::Function(func) => offers_function(func, impl_def),
        AssocItem::TypeAlias(_) => true,
        AssocItem::Const(const_) => offers_const(const_, impl_def),
    }
}

/// The ones of `assoc_items` that become completions, in their order.
pub open spec fn offered(
    kind: ImplCompletionKind,
    impl_def: ImplDef,
    assoc_items: Seq<AssocItem>,
) -> Seq<AssocItem>
    decreases assoc_items.len(),
{
    if assoc_items.len() == 0 {
        seq![]
    } else {
        let front = offered(kind, impl_def, assoc_items.drop_last());
        if offers(kind, impl_def, assoc_items.last()) {
            front.push(assoc_items.last())
        } else {
            front
        }
    }
}

/// `after` is `before` with a completion for each of `assoc_items` behind it, in their order.
pub open spec fn completes_all<
    T: Fn(Impl, ItemSyntax) -> ItemSyntax,
    W: Fn(ItemSyntax) -> ItemSyntax,
>(
    ctx: CompletionContext<T, W>,
    range: TextRange,
    impl_: Impl,
    assoc_items: Seq<AssocItem>,
    before: Seq<CompletionItemView>,
    after: Seq<CompletionItemView>,
) -> bool {
    &&& after.len() == before.len() + assoc_items.len()
    &&& after.take(before.len() as int) == before
    &&& forall|i: int|
        0 <= i < assoc_items.len() ==> completes(
            ctx,
            range,
            impl_,
            #[trigger] assoc_items[i],
            after[before.len() + i],
        )
}

/// `after` is `before` with the completions for the `impl` block `impl_` behind it.
pub open spec fn completes_impl<
    T: Fn(Impl, ItemSyntax) -> ItemSyntax,
    W: Fn(ItemSyntax) -> ItemSyntax,
>(
    ctx: CompletionContext<T, W>,
    kind: ImplCompletionKind,
    range: TextRange,
    impl_: Impl,
    before: Seq<CompletionItemView>,
    after: Seq<CompletionItemView>,
) -> bool {
    match resolved(ctx.sema.impls@, impl_) {
        Some(def) => completes_all(
            ctx,
            range,
            impl_,
            offered(kind, def, def.missing_assoc_items@),
            before,
            after,
        ),
        None => after == before,
    }
}

/// `item` with generics inlined as `impl_` sees them, and without attributes and docs.
fn transform<T: Fn(Impl, ItemSyntax) -> ItemSyntax, W: Fn(ItemSyntax) -> ItemSyntax>(
    ctx: &CompletionContext<T, W>,
    item: ItemSyntax,
    impl_: Impl,
) -> (transformed: ItemSyntax)
    requires
        ctx.sema.wf(),
    ensures
        exists|inlined: ItemView| #[trigger]
            is_inlined(ctx.sema.path_transform, impl_, item@, inlined) && transformed@
                == without_attrs_and_docs(inlined),
        exists|asked: ItemSyntax, answer: ItemSyntax|
            {
                &&& asked@ == item@
                &&& #[trigger] call_ensures(ctx.sema.path_transform, (impl_, asked), answer)
                &&& transformed@ == without_attrs_and_docs(answer@)
            },
{
    let apply = &ctx.sema.path_transform;
    let mut transformed = apply(impl_, item);
    assert(is_inlined(ctx.sema.path_transform, impl_, item@, transformed@));
    transformed.remove_attrs_and_docs();
    transformed
}

/// Transform a relevant associated item to inline generics from the impl, remove attrs and docs,
/// etc.
pub fn get_transformed_assoc_item<
    T: Fn(Impl, ItemSyntax) -> ItemSyntax,
    W: Fn(ItemSyntax) -> ItemSyntax,
>(
    ctx: &CompletionContext<T, W>,
    assoc_item: AssocItemSyntax,
    impl_def: &ImplDef,
) -> (transformed: Option<AssocItemSyntax>)
    requires
        ctx.sema.wf(),
    ensures
        transformed is Some <==> impl_def.can_transform(),
        transformed matches Some(transformed) ==> {
            &&& transformed.has_kind_of(assoc_item)
            &&& exists|inlined: ItemView| #[trigger]
                is_inlined(ctx.sema.path_transform, impl_def.syntax, assoc_item.item()@, inlined)
                    && transformed.item()@ == without_attrs_and_docs(inlined)
            &&& exists|asked: ItemSyntax, answer: ItemSyntax|
                {
                    &&& asked@ == assoc_item.item()@
                    &&& #[trigger] call_ensures(
                        ctx.sema.path_transform,
                        (impl_def.syntax, asked),
                        answer,
                    )
                    &&& transformed.item()@ == without_attrs_and_docs(answer@)
                }
        },
{
    if !impl_def.has_trait || !impl_def.has_source || !impl_def.has_scope {
        return None;
    }
    let transformed = match assoc_item {
        AssocItemSyntax::Fn(item) => AssocItemSyntax::Fn(transform(ctx, item, impl_def.syntax)),
        AssocItemSyntax::TypeAlias(item) => AssocItemSyntax::TypeAlias(
            transform(ctx, item, impl_def.syntax),
        ),
        AssocItemSyntax::Const(item) => AssocItemSyntax::Const(
            transform(ctx, item, impl_def.syntax),
        ),
        AssocItemSyntax::MacroCall(item) => AssocItemSyntax::MacroCall(
            transform(ctx, item, impl_def.syntax),
        ),
    };
    Some(transformed)
}

/// Adds the completion for the function `func`.
pub fn add_function_impl<
    T: Fn(Impl, ItemSyntax) -> ItemSyntax,
    W: Fn(ItemSyntax) -> ItemSyntax,
>(
    acc: &mut Completions,
    ctx: &CompletionContext<T, W>,
    replacement_range: TextRange,
    func: &Function,
    impl_def: &ImplDef,
)
    requires
        ctx.sema.wf(),
    ensures
        !offers_function(*func, *impl_def) ==> final(acc)@ == old(acc)@,
        offers_function(*func, *impl_def) ==> {
            &&& final(acc)@ == old(acc)@.push(final(acc)@.last())
            &&& completes_function(
                *ctx,
                replacement_range,
                impl_def.syntax,
                *func,
                func.source->0,
                final(acc)@.last(),
            )
        },
{
    let lookup = join("fn ", func.name.text.as_str());
    let label = join(
        lookup.as_str(),
        if func.param_count == 0 {
            "()"
        } else {
            "(..)"
        },
    );
    let kind = if func.has_self_param {
        CompletionItemKind::Method
    } else {
        CompletionItemKind::SymbolKind(SymbolKind::Function)
    };
    if let Some(source) = &func.source {
        let assoc_item = AssocItemSyntax::Fn(source.value.copy());
        if let Some(AssocItemSyntax::Fn(transformed_fn)) = get_transformed_assoc_item(
            ctx,
            assoc_item,
            impl_def,
        ) {
            let mut node = transformed_fn;
            let declaration = function_declaration(
                &mut node,
                source.file_is_macro,
                &ctx.sema.insert_ws,
            );
            let (is_snippet, text) = match ctx.snippet_cap {
                Some(_) => (true, join(declaration.as_str(), " {\n    $0\n}")),
                None => (false, join(declaration.as_str(), " {")),
            };
            let item = CompletionItem {
                kind,
                source_range: replacement_range,
                label,
                lookup,
                documentation: copy_text(&func.docs),
                relevance: CompletionRelevance { is_item_from_trait: true },
                is_snippet,
                text_edit: TextEdit::replace(replacement_range, text),
            };
            assert(item@ =~= function_item(
                ctx.snippet_cap is Some,
                replacement_range,
                *func,
                declaration@,
            ));
            acc.add(item);
        }
    }
}

/// Adds the completion for the associated type `type_alias`.
pub fn add_type_alias_impl<T, W>(
    acc: &mut Completions,
    ctx: &CompletionContext<T, W>,
    replacement_range: TextRange,
    type_alias: &TypeAlias,
)
    ensures
        final(acc)@ == old(acc)@.push(
            type_alias_item(ctx.snippet_cap is Some, replacement_range, *type_alias),
        ),
{
    let lookup = join("type ", type_alias.name.text.as_str());
    let label = join(lookup.as_str(), " =");
    let mut replacement = join("type ", type_alias.name.escaped.as_str());
    replacement.append(" = ");
    let (is_snippet, text) = match ctx.snippet_cap {
        Some(_) => (true, join(replacement.as_str(), "$0;")),
        None => (false, replacement),
    };
    let item = CompletionItem {
        kind: CompletionItemKind::SymbolKind(SymbolKind::TypeAlias),
        source_range: replacement_range,
        label,
        lookup,
        documentation: copy_text(&type_alias.docs),
        relevance: CompletionRelevance { is_item_from_trait: true },
        is_snippet,
        text_edit: TextEdit::replace(replacement_range, text),
    };
    assert(item@ =~= type_alias_item(ctx.snippet_cap is Some, replacement_range, *type_alias));
    acc.add(item);
}

/// Adds the completion for the constant `const_`.
pub fn add_const_impl<
    T: Fn(Impl, ItemSyntax) -> ItemSyntax,
    W: Fn(ItemSyntax) -> ItemSyntax,
>(
    acc: &mut Completions,
    ctx: &CompletionContext<T, W>,
    replacement_range: TextRange,
    const_: &Const,
    impl_def: &ImplDef,
)
    requires
        ctx.sema.wf(),
    ensures
        !offers_const(*const_, *impl_def) ==> final(acc)@ == old(acc)@,
        offers_const(*const_, *impl_def) ==> {
            &&& final(acc)@ == old(acc)@.push(final(acc)@.last())
            &&& completes_const(
                *ctx,
                replacement_range,
                impl_def.syntax,
                *const_,
                const_.name->0.text@,
                const_.source->0,
                final(acc)@.last(),
            )
        },
{
    if let Some(const_name) = &const_.name {
        if let Some(source) = &const_.source {
            let assoc_item = AssocItemSyntax::Const(source.value.copy());
            if let Some(AssocItemSyntax::Const(transformed_const)) = get_transformed_assoc_item(
                ctx,
                assoc_item,
                impl_def,
            ) {
                let mut node = transformed_const;
                let label = make_const_compl_syntax(
                    &mut node,
                    source.file_is_macro,
                    &ctx.sema.insert_ws,
                );
                let ghost head = label@;
                let replacement = join(label.as_str(), " ");
                let (is_snippet, text) = match ctx.snippet_cap {
                    Some(_) => (true, join(replacement.as_str(), "$0;")),
                    None => (false, replacement),
                };
                let item = CompletionItem {
                    kind: CompletionItemKind::SymbolKind(SymbolKind::Const),
                    source_range: replacement_range,
                    label,
                    lookup: join("const ", const_name.text.as_str()),
                    documentation: copy_text(&const_.docs),
                    relevance: CompletionRelevance { is_item_from_trait: true },
                    is_snippet,
                    text_edit: TextEdit::replace(replacement_range, text),
                };
                assert(item@ =~= const_item(
                    ctx.snippet_cap is Some,
                    replacement_range,
                    *const_,
                    const_name.text@,
                    head,
                ));
                acc.add(item);
            }
        }
    }
}

proof fn lemma_resolved(impls: Seq<ImplDef>, impl_: Impl)
    ensures
        resolved(impls, impl_) matches Some(def) ==> def.syntax == impl_,
    decreases impls.len(),
{
    if impls.len() > 0 {
        lemma_resolved(impls.drop_first(), impl_);
    }
}

/// Adds the completions for the items of `kind` that the `impl` block `impl_` lacks.
pub fn complete_trait_impl<
    T: Fn(Impl, ItemSyntax) -> ItemSyntax,
    W: Fn(ItemSyntax) -> ItemSyntax,
>(
    acc: &mut Completions,
    ctx: &CompletionContext<T, W>,
    kind: ImplCompletionKind,
    replacement_range: TextRange,
    impl_: Impl,
)
    requires
        ctx.sema.wf(),
    ensures
        completes_impl(*ctx, kind, replacement_range, impl_, old(acc)@, final(acc)@),
{
    let ghost before = acc@;
    if let Some(impl_def) = ctx.sema.to_def(impl_) {
        proof {
            lemma_resolved(ctx.sema.impls@, impl_);
        }
        let items = &impl_def.missing_assoc_items;
        let mut i: usize = 0;
        assert(before.take(before.len() as int) =~= before);
        while i < items.len()
            invariant
                i <= items.len(),
                ctx.sema.wf(),
                impl_def.syntax == impl_,
                completes_all(
                    *ctx,
                    replacement_range,
                    impl_,
                    offered(kind, *impl_def, items@.take(i as int)),
                    before,
                    acc@,
                ),
            decreases items.len() - i,
        {
            let ghost done = offered(kind, *impl_def, items@.take(i as int));
            let ghost so_far = acc@;
            assert(items@.take(i + 1).drop_last() =~= items@.take(i as int));
            match (&items[i], kind) {
                (
                    AssocItem::Function(func),
                    ImplCompletionKind::All | ImplCompletionKind::Fn,
                ) => add_function_impl(acc, ctx, replacement_range, func, impl_def),
                (
                    AssocItem::TypeAlias(type_alias),
                    ImplCompletionKind::All | ImplCompletionKind::TypeAlias,
                ) => add_type_alias_impl(acc, ctx, replacement_range, type_alias),
                (
                    AssocItem::Const(const_),
                    ImplCompletionKind::All | ImplCompletionKind::Const,
                ) => add_const_impl(acc, ctx, replacement_range, const_, impl_def),
                _ => {},
            }
            proof {
                if offers(kind, *impl_def, items@[i as int]) {
                    let now = offered(kind, *impl_def, items@.take(i + 1));
                    assert(now == done.push(items@[i as int]));
                    assert(acc@ == so_far.push(acc@.last()));
                    assert(acc@.take(before.len() as int) =~= so_far.take(before.len() as int));
                    assert forall|j: int| 0 <= j < now.len() implies completes(
                        *ctx,
                        replacement_range,
                        impl_,
                        #[trigger] now[j],
                        acc@[before.len() + j],
                    ) by {
                        if j < done.len() {
                            assert(now[j] == done[j]);
                            assert(acc@[before.len() + j] == so_far[before.len() + j]);
                        }
                    }
                }
            }
            i += 1;
        }
        assert(items@.take(i as int) =~= items@);
    }
}

/// Comments, white space and attributes, which a completion in an item leaves in place.
pub open spec fn is_left_in_place(kind: SyntaxKind) -> bool {
    kind == SyntaxKind::Comment || kind == SyntaxKind::Whitespace || kind == SyntaxKind::Attr
}

/// The first of `children` that a completion replaces.
pub open spec fn first_replaced(elements: Seq<Element>, children: Seq<usize>) -> Option<usize>
    decreases children.len(),
{
    if children.len() == 0 {
        None
    } else if is_left_in_place(elements[children[0] as int].kind) {
        first_replaced(elements, children.drop_first())
    } else {
        Some(children[0])
    }
}

/// Where a completion in `item` starts to replace: at the first child that is not left in place
/// or, where there is none, at the start of `item`.
pub open spec fn replacement_start(elements: Seq<Element>, item: int) -> u32 {
    match first_replaced(elements, elements[item].children@) {
        Some(child) => elements[child as int].range.start,
        None => elements[item].range.start,
    }
}

/// The element whose parent is completed: the name at the cursor, or else the token there or, if
/// that is white space, the one in front of it.
pub open spec fn anchor(
    elements: Seq<Element>,
    token: usize,
    name: Option<usize>,
) -> Option<usize> {
    match name {
        Some(name) => Some(name),
        None => if elements[token as int].kind == SyntaxKind::Whitespace {
            prev_token(elements, token as int)
        } else {
            Some(token)
        },
    }
}

/// The item that is completed.
pub open spec fn completed_item(
    elements: Seq<Element>,
    token: usize,
    name: Option<usize>,
) -> Option<usize> {
    match anchor(elements, token, name) {
        Some(i) => elements[i as int].parent,
        None => None,
    }
}

/// The `impl` block that `item` is an item of: its grandparent, with the item list in between.
pub open spec fn enclosing_impl(elements: Seq<Element>, item: usize) -> Option<Impl> {
    match elements[item as int].parent {
        Some(list) => match elements[list as int].parent {
            Some(node) => Impl::spec_cast(elements, node),
            None => None,
        },
        None => None,
    }
}

/// The name, where there is one, is an element of the tree, and the replaced range in the item
/// that is completed does not end in front of its start.
pub open spec fn can_complete_name<
    T: Fn(Impl, ItemSyntax) -> ItemSyntax,
    W: Fn(ItemSyntax) -> ItemSyntax,
>(ctx: CompletionContext<T, W>, name: Option<usize>) -> bool {
    &&& ctx.wf()
    &&& name matches Some(name) ==> name < ctx.tree@.len()
    &&& completed_item(ctx.tree@, ctx.token, name) matches Some(item) ==> replacement_start(
        ctx.tree@,
        item as int,
    ) <= ctx.source_range.end
}

/// `after` and `result` are what completion of the item at `name`, or at the cursor, makes of
/// `before`.
pub open spec fn completes_name<
    T: Fn(Impl, ItemSyntax) -> ItemSyntax,
    W: Fn(ItemSyntax) -> ItemSyntax,
>(
    ctx: CompletionContext<T, W>,
    name: Option<usize>,
    kind: ImplCompletionKind,
    before: Seq<CompletionItemView>,
    after: Seq<CompletionItemView>,
    result: Option<()>,
) -> bool {
    match completed_item(ctx.tree@, ctx.token, name) {
        Some(item) => match enclosing_impl(ctx.tree@, item) {
            Some(impl_) => {
                &&& result == Some(())
                &&& completes_impl(
                    ctx,
                    kind,
                    TextRange {
                        start: replacement_start(ctx.tree@, item as int),
                        end: ctx.source_range.end,
                    },
                    impl_,
                    before,
                    after,
                )
            },
            None => result is None && after == before,
        },
        None => result is None && after == before,
    }
}

/// `after` is what completion of a path, or of nothing yet, directly in the `impl` block `impl_`
/// makes of `before`.
pub open spec fn completes_item_by_name<
    T: Fn(Impl, ItemSyntax) -> ItemSyntax,
    W: Fn(ItemSyntax) -> ItemSyntax,
>(
    ctx: CompletionContext<T, W>,
    path_ctx: PathCompletionCtx,
    name_ref: Option<usize>,
    impl_: Option<Impl>,
    before: Seq<CompletionItemView>,
    after: Seq<CompletionItemView>,
) -> bool {
    let range = match name_ref {
        Some(name) => ctx.tree@[name as int].range,
        None => ctx.source_range,
    };
    match impl_ {
        Some(impl_) if path_ctx.trivial_path => completes_impl(
            ctx,
            ImplCompletionKind::All,
            range,
            impl_,
            before,
            after,
        ),
        _ => after == before,
    }
}

/// Where a completion in `item` starts to replace.
pub fn find_replacement_start(tree: &SyntaxTree, item: usize) -> (start: u32)
    requires
        tree.wf(),
        item < tree@.len(),
    ensures
        start == replacement_start(tree@, item as int),
{
    let children = &tree.element(item).children;
    let mut k: usize = 0;
    proof {
        assert(element_wf(tree@, item as int));
        assert(children@.skip(0) =~= children@);
    }
    while k < children.len()
        invariant
            element_wf(tree@, item as int),
            *children == tree@[item as int].children,
            k <= children.len(),
            first_replaced(tree@, children@) == first_replaced(tree@, children@.skip(k as int)),
        decreases children.len() - k,
    {
        assert(is_child(tree@, item as int, children@, k as int));
        let child = tree.element(children[k]);
        match child.kind {
            SyntaxKind::Comment | SyntaxKind::Whitespace | SyntaxKind::Attr => {},
            _ => {
                return child.range.start;
            },
        }
        assert(children@.skip(k as int).drop_first() =~= children@.skip(k + 1));
        k += 1;
    }
    tree.element(item).range.start
}

/// The range that a completion in `item` replaces: from the first child of `item` that is no
/// comment, white space or attribute up to the end of the range at the cursor.
pub fn replacement_range<
    T: Fn(Impl, ItemSyntax) -> ItemSyntax,
    W: Fn(ItemSyntax) -> ItemSyntax,
>(ctx: &CompletionContext<T, W>, item: usize) -> (range: TextRange)
    requires
        ctx.tree.wf(),
        item < ctx.tree@.len(),
        replacement_start(ctx.tree@, item as int) <= ctx.source_range.end,
    ensures
        range == (TextRange {
            start: replacement_start(ctx.tree@, item as int),
            end: ctx.source_range.end,
        }),
{
    TextRange::new(find_replacement_start(&ctx.tree, item), ctx.source_range.end)
}

/// The item that is completed.
pub fn find_completed_item<T, W>(
    ctx: &CompletionContext<T, W>,
    name: Option<usize>,
) -> (item: Option<usize>)
    requires
        ctx.tree.wf(),
        ctx.token < ctx.tree@.len(),
        name matches Some(name) ==> name < ctx.tree@.len(),
    ensures
        item == completed_item(ctx.tree@, ctx.token, name),
        name matches Some(name) ==> item == ctx.tree@[name as int].parent,
        name is None && ctx.tree@[ctx.token as int].kind != SyntaxKind::Whitespace ==> item
            == ctx.tree@[ctx.token as int].parent,
        item matches Some(item) ==> item < ctx.tree@.len(),
{
    match name {
        Some(name) => ctx.tree.parent(name),
        None => {
            if ctx.tree.element(ctx.token).kind == SyntaxKind::Whitespace {
                match ctx.tree.prev_token(ctx.token) {
                    Some(token) => ctx.tree.parent(token),
                    None => None,
                }
            } else {
                ctx.tree.parent(ctx.token)
            }
        },
    }
}

/// Adds the completions of `kind` for the `impl` block around the item at `name` or, without a
/// name, at the cursor. There is no result where that item is not an item of an `impl` block.
pub fn complete_trait_impl_name<
    T: Fn(Impl, ItemSyntax) -> ItemSyntax,
    W: Fn(ItemSyntax) -> ItemSyntax,
>(
    acc: &mut Completions,
    ctx: &CompletionContext<T, W>,
    name: Option<usize>,
    kind: ImplCompletionKind,
) -> (result: Option<()>)
    requires
        can_complete_name(*ctx, name),
    ensures
        completes_name(*ctx, name, kind, old(acc)@, final(acc)@, result),
{
    let item: usize = match find_completed_item(ctx, name) {
        Some(item) => item,
        None => {
            return None;
        },
    };
    let range = replacement_range(ctx, item);
    // item -> item list -> impl
    let list: usize = match ctx.tree.parent(item) {
        Some(list) => list,
        None => {
            return None;
        },
    };
    let node: usize = match ctx.tree.parent(list) {
        Some(node) => node,
        None => {
            return None;
        },
    };
    match Impl::cast(&ctx.tree, node) {
        Some(impl_) => {
            complete_trait_impl(acc, ctx, kind, range, impl_);
            Some(())
        },
        None => None,
    }
}

/// Adds the completions for a constant of an `impl` block.
pub fn complete_trait_impl_const<
    T: Fn(Impl, ItemSyntax) -> ItemSyntax,
    W: Fn(ItemSyntax) -> ItemSyntax,
>(acc: &mut Completions, ctx: &CompletionContext<T, W>, name: Option<usize>) -> (result: Option<()>)
    requires
        can_complete_name(*ctx, name),
    ensures
        completes_name(*ctx, name, ImplCompletionKind::Const, old(acc)@, final(acc)@, result),
{
    complete_trait_impl_name(acc, ctx, name, ImplCompletionKind::Const)
}

/// Adds the completions for an associated type of an `impl` block.
pub fn complete_trait_impl_type_alias<
    T: Fn(Impl, ItemSyntax) -> ItemSyntax,
    W: Fn(ItemSyntax) -> ItemSyntax,
>(acc: &mut Completions, ctx: &CompletionContext<T, W>, name: Option<usize>) -> (result: Option<()>)
    requires
        can_complete_name(*ctx, name),
    ensures
        completes_name(*ctx, name, ImplCompletionKind::TypeAlias, old(acc)@, final(acc)@, result),
{
    complete_trait_impl_name(acc, ctx, name, ImplCompletionKind::TypeAlias)
}

/// Adds the completions for a function of an `impl` block.
pub fn complete_trait_impl_fn<
    T: Fn(Impl, ItemSyntax) -> ItemSyntax,
    W: Fn(ItemSyntax) -> ItemSyntax,
>(acc: &mut Completions, ctx: &CompletionContext<T, W>, name: Option<usize>) -> (result: Option<()>)
    requires
        can_complete_name(*ctx, name),
    ensures
        completes_name(*ctx, name, ImplCompletionKind::Fn, old(acc)@, final(acc)@, result),
{
    complete_trait_impl_name(acc, ctx, name, ImplCompletionKind::Fn)
}

/// Adds the completions of every kind for a bare name, or for nothing yet, directly in the `impl`
/// block `impl_`.
pub fn complete_trait_impl_item_by_name<
    T: Fn(Impl, ItemSyntax) -> ItemSyntax,
    W: Fn(ItemSyntax) -> ItemSyntax,
>(
    acc: &mut Completions,
    ctx: &CompletionContext<T, W>,
    path_ctx: &PathCompletionCtx,
    name_ref: Option<usize>,
    impl_: Option<Impl>,
)
    requires
        ctx.sema.wf(),
        name_ref matches Some(name) ==> name < ctx.tree@.len(),
    ensures
        path_ctx.trivial_path && impl_ is Some ==> completes_impl(
            *ctx,
            ImplCompletionKind::All,
            match name_ref {
                Some(name) => ctx.tree@[name as int].range,
                None => ctx.source_range,
            },
            impl_->0,
            old(acc)@,
            final(acc)@,
        ),
        !path_ctx.trivial_path || impl_ is None ==> final(acc)@ == old(acc)@,
        completes_item_by_name(*ctx, *path_ctx, name_ref, impl_, old(acc)@, final(acc)@),
{
    if !path_ctx.is_trivial_path() {
        return;
    }
    if let Some(impl_) = impl_ {
        let range = match name_ref {
            Some(name) => ctx.tree.element(name).range,
            None => ctx.source_range,
        };
        complete_trait_impl(acc, ctx, ImplCompletionKind::All, range, impl_);
    }
}

} // verus!
