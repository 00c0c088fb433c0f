//! What holds of all completions in trait implementations.

use crate::completion::{
    CompletionContext, CompletionItem, CompletionItemKind, CompletionItemView, Completions,
    PathCompletionCtx, SymbolKind,
};
use crate::declaration::{
    const_head, ends_const_head, function_head, is_attr_or_comment, is_const_compl_syntax,
    is_function_declaration, is_kept, is_spaced, kept, lemma_const_head_len, lemma_node_view,
    text_of, without_attrs_and_docs, ElementView, ItemSyntax, ItemView, SyntaxElement,
};
use crate::hir::{
    is_inlined, resolved, AssocItem, Const, Function, ImplDef, Source, TypeAlias,
};
use crate::syntax::{
    adjoins, element_wf, is_child, last_token, lemma_place, prev_token, tree_wf, Element, Impl,
    SyntaxKind,
};
use crate::text::{is_white_space, trimmed, TextRange};
use crate::trait_impl::{
    anchor, asks_for, can_complete_name, completed_item, completes, completes_const,
    completes_function, completes_impl, completes_item_by_name, completes_name, const_item,
    enclosing_impl, first_replaced, function_item, is_left_in_place, offered, offers, offers_const,
    offers_function, replacement_start, trait_item_relevance, type_alias_item, AssocItemSyntax,
    ImplCompletionKind,
};
use vstd::prelude::*;

verus! {

// Attributes and docs.

/// An item without attributes and docs has no attribute and no comment directly under it, and
/// all that it has stood in the item before.
pub proof fn law_no_attrs_or_docs(item: ItemView, i: int)
    requires
        0 <= i < without_attrs_and_docs(item).children.len(),
    ensures
        !is_attr_or_comment(without_attrs_and_docs(item).children[i].kind()),
        item.children.contains(without_attrs_and_docs(item).children[i]),
{
    lemma_kept(item.children, i);
}

proof fn lemma_kept(children: Seq<ElementView>, i: int)
    requires
        0 <= i < kept(children).len(),
    ensures
        !is_attr_or_comment(kept(children)[i].kind()),
        children.contains(kept(children)[i]),
    decreases children.len(),
{
    let front = kept(children.drop_last());
    if i < front.len() {
        lemma_kept(children.drop_last(), i);
        let j = choose|j: int|
            0 <= j < children.drop_last().len() && children.drop_last()[j] == front[i];
        assert(children[j] == front[i]);
    } else {
        assert(children[children.len() - 1] == children.last());
    }
}

/// An item that has neither attributes nor comments stays as it is.
pub proof fn law_plain_items_stay(item: ItemView)
    requires
        forall|i: int|
            0 <= i < item.children.len() ==> !is_attr_or_comment(
                (#[trigger] item.children[i]).kind(),
            ),
    ensures
        without_attrs_and_docs(item) == item,
{
    lemma_all_kept(item.children);
}

proof fn lemma_all_kept(children: Seq<ElementView>)
    requires
        forall|i: int|
            0 <= i < children.len() ==> !is_attr_or_comment((#[trigger] children[i]).kind()),
    ensures
        kept(children) == children,
    decreases children.len(),
{
    if children.len() > 0 {
        let front = children.drop_last();
        assert forall|i: int| 0 <= i < front.len() implies !is_attr_or_comment(
            (#[trigger] front[i]).kind(),
        ) by {
            assert(front[i] == children[i]);
        }
        lemma_all_kept(front);
        assert(!is_attr_or_comment(children[children.len() - 1].kind()));
        if children.len() > 1 {
            assert(!is_attr_or_comment(children[children.len() - 2].kind()));
        }
        assert(kept(children) =~= children);
    }
}

/// Removing attributes and docs a second time changes nothing.
pub proof fn law_removing_twice_is_removing_once(item: ItemView)
    ensures
        without_attrs_and_docs(without_attrs_and_docs(item)) == without_attrs_and_docs(item),
{
    let once = without_attrs_and_docs(item);
    assert forall|i: int| 0 <= i < once.children.len() implies !is_attr_or_comment(
        (#[trigger] once.children[i]).kind(),
    ) by {
        law_no_attrs_or_docs(item, i);
    }
    law_plain_items_stay(once);
}

/// It makes no difference to a declaration whether attributes and docs were removed before.
pub proof fn law_declaration_of_a_stripped_function<W: Fn(ItemSyntax) -> ItemSyntax>(
    insert_ws: W,
    needs_whitespace: bool,
    item: ItemView,
    text: Seq<char>,
)
    ensures
        is_function_declaration(insert_ws, needs_whitespace, without_attrs_and_docs(item), text)
            == is_function_declaration(insert_ws, needs_whitespace, item, text),
{
    law_removing_twice_is_removing_once(item);
}

// Declarations.

/// The trimmed text is the front of the text, does not end in white space, and all that it leaves
/// out is white space.
pub proof fn law_trimmed(text: Seq<char>)
    ensures
        trimmed(text).len() <= text.len(),
        trimmed(text) == text.take(trimmed(text).len() as int),
        trimmed(text).len() > 0 ==> !is_white_space(trimmed(text).last()),
        forall|i: int| trimmed(text).len() <= i < text.len() ==> is_white_space(#[trigger] text[i]),
    decreases text.len(),
{
    if text.len() > 0 && is_white_space(text.last()) {
        let front = text.drop_last();
        law_trimmed(front);
        assert(front.take(trimmed(front).len() as int) =~= text.take(trimmed(front).len() as int));
        assert forall|i: int| trimmed(text).len() <= i < text.len() implies is_white_space(
            #[trigger] text[i],
        ) by {
            if i < front.len() {
                assert(front[i] == text[i]);
            }
        }
    } else {
        assert(text.take(text.len() as int) =~= text);
    }
}

/// A function that the trait provides is declared like one that it requires: the declaration
/// ends in front of the body or the semicolon, and without white space there.
pub proof fn law_body_is_left_out(kind: SyntaxKind, head: Seq<ElementView>, end: ElementView)
    requires
        end.kind() == SyntaxKind::Semicolon || end.kind() == SyntaxKind::BlockExpr,
    ensures
        ({
            let declaration = function_head(ItemView { kind, children: head.push(end) });
            &&& declaration == trimmed(text_of(head))
            &&& declaration.len() > 0 ==> !is_white_space(declaration.last())
        }),
{
    assert(head.push(end).take(head.len() as int) =~= head);
    law_trimmed(text_of(head));
}

/// A constant with a default value is written like one without: what stands behind the first
/// `=` or `;` has no part in it.
pub proof fn law_default_value_is_left_out(
    kind: SyntaxKind,
    head: Seq<ElementView>,
    end: ElementView,
    rest: Seq<ElementView>,
)
    requires
        forall|i: int| 0 <= i < head.len() ==> !ends_const_head((#[trigger] head[i]).kind()),
        ends_const_head(end.kind()),
    ensures
        const_head(ItemView { kind, children: head.push(end) + rest }) == trimmed(text_of(head))
            + " ="@,
{
    let children = head.push(end) + rest;
    assert forall|i: int| 0 <= i < head.len() implies !ends_const_head(
        (#[trigger] children[i]).kind(),
    ) by {
        assert(children[i] == head[i]);
    }
    lemma_const_head_len(children, head.len() as int);
    assert(children.take(head.len() as int) =~= head);
}

/// White space is inserted into declarations that a macro wrote, and into no others.
pub proof fn law_written_declarations_keep_their_white_space<
    V: Fn(ItemSyntax) -> ItemSyntax,
    W: Fn(ItemSyntax) -> ItemSyntax,
>(insert_ws: V, other: W, item: ItemView, text: Seq<char>)
    ensures
        is_function_declaration(insert_ws, false, item, text) == (text == function_head(
            without_attrs_and_docs(item),
        )),
        is_function_declaration(insert_ws, false, item, text) == is_function_declaration(
            other,
            false,
            item,
            text,
        ),
        is_const_compl_syntax(insert_ws, false, item, text) == (text == const_head(
            without_attrs_and_docs(item),
        )),
        is_const_compl_syntax(insert_ws, false, item, text) == is_const_compl_syntax(
            other,
            false,
            item,
            text,
        ),
{
    let stripped = without_attrs_and_docs(item);
    assert(is_spaced(insert_ws, false, stripped, stripped));
    assert(is_spaced(other, false, stripped, stripped));
}

// Completion items.

/// Every completion replaces the range that it was asked to replace, ranks as an item of the
/// trait, is a snippet exactly where the editor takes snippets, and is of the kind of the item
/// that it completes.
pub proof fn law_completion_fits_its_item<
    T: Fn(Impl, ItemSyntax) -> ItemSyntax,
    W: Fn(ItemSyntax) -> ItemSyntax,
>(
    ctx: CompletionContext<T, W>,
    range: TextRange,
    impl_: Impl,
    assoc_item: AssocItem,
    item: CompletionItemView,
)
    requires
        completes(ctx, range, impl_, assoc_item, item),
    ensures
        item.source_range == range,
        item.text_edit.delete == range,
        item.relevance == trait_item_relevance(),
        item.is_snippet == ctx.snippet_cap is Some,
        item.kind == match assoc_item {
            AssocItem::Function(func) => if func.has_self_param {
                CompletionItemKind::Method
            } else {
                CompletionItemKind::SymbolKind(SymbolKind::Function)
            },
            AssocItem::TypeAlias(_) => CompletionItemKind::SymbolKind(SymbolKind::TypeAlias),
            AssocItem::Const(_) => CompletionItemKind::SymbolKind(SymbolKind::Const),
        },
{
}

/// Completions are added behind those that are there, which stay as they are, and all that are
/// added replace the given range.
pub proof fn law_completions_are_added<
    T: Fn(Impl, ItemSyntax) -> ItemSyntax,
    W: Fn(ItemSyntax) -> ItemSyntax,
>(
    ctx: CompletionContext<T, W>,
    kind: ImplCompletionKind,
    range: TextRange,
    impl_: Impl,
    before: Seq<CompletionItemView>,
    after: Seq<CompletionItemView>,
)
    requires
        completes_impl(ctx, kind, range, impl_, before, after),
    ensures
        before.is_prefix_of(after),
        forall|i: int|
            before.len() <= i < after.len() ==> (#[trigger] after[i]).text_edit.delete == range
                && after[i].source_range == range && after[i].relevance == trait_item_relevance(),
{
    if let Some(def) = resolved(ctx.sema.impls@, impl_) {
        let items = offered(kind, def, def.missing_assoc_items@);
        assert(before =~= after.subrange(0, before.len() as int));
        assert forall|i: int| before.len() <= i < after.len() implies (
        #[trigger] after[i]).text_edit.delete == range && after[i].source_range == range
            && after[i].relevance == trait_item_relevance() by {
            let assoc_item = items[i - before.len()];
            assert(completes(ctx, range, impl_, assoc_item, after[i]));
            law_completion_fits_its_item(ctx, range, impl_, assoc_item, after[i]);
        }
    }
}

/// To ask for one kind of items gives the items of that kind that asking for all gives, in the
/// same order.
pub proof fn law_one_kind_is_part_of_all(
    kind: ImplCompletionKind,
    impl_def: ImplDef,
    assoc_items: Seq<AssocItem>,
)
    ensures
        offered(kind, impl_def, assoc_items) == offered(
            ImplCompletionKind::All,
            impl_def,
            assoc_items,
        ).filter(|assoc_item: AssocItem| asks_for(kind, assoc_item)),
    decreases assoc_items.len(),
{
    let pred = |assoc_item: AssocItem| asks_for(kind, assoc_item);
    if assoc_items.len() > 0 {
        let front = assoc_items.drop_last();
        let last = assoc_items.last();
        law_one_kind_is_part_of_all(kind, impl_def, front);
        let all_front = offered(ImplCompletionKind::All, impl_def, front);
        if offers(ImplCompletionKind::All, impl_def, last) {
            assert(all_front.push(last).drop_last() =~= all_front);
            reveal(Seq::filter);
        }
    } else {
        reveal(Seq::filter);
    }
}

/// An item is offered exactly where it is missing, asked for, and a completion for it can be
/// made. Of an associated type, one always can.
pub proof fn law_missing_items_are_offered(
    kind: ImplCompletionKind,
    impl_def: ImplDef,
    assoc_items: Seq<AssocItem>,
    assoc_item: AssocItem,
)
    ensures
        offered(kind, impl_def, assoc_items).contains(assoc_item) <==> assoc_items.contains(
            assoc_item,
        ) && offers(kind, impl_def, assoc_item),
    decreases assoc_items.len(),
{
    if assoc_items.len() > 0 {
        let front = assoc_items.drop_last();
        let last = assoc_items.last();
        law_missing_items_are_offered(kind, impl_def, front, assoc_item);
        assert(assoc_items =~= front.push(last));
        lemma_push_contains(front, last, assoc_item);
        lemma_push_contains(offered(kind, impl_def, front), last, assoc_item);
    }
}

proof fn lemma_push_contains<A>(items: Seq<A>, last: A, item: A)
    ensures
        items.push(last).contains(item) <==> items.contains(item) || last == item,
{
    if items.contains(item) {
        let i = choose|i: int| 0 <= i < items.len() && items[i] == item;
        assert(items.push(last)[i] == item);
    }
    if last == item {
        assert(items.push(last)[items.len() as int] == item);
    }
    if items.push(last).contains(item) && last != item {
        let i = choose|i: int| 0 <= i < items.push(last).len() && items.push(last)[i] == item;
        assert(items[i] == item);
    }
}

/// Whether the editor takes snippets changes the inserted text alone. Behind the text without
/// snippets, a function gets the rest of its block, and a type or constant gets its semicolon,
/// each with the place for the cursor.
pub proof fn law_snippets_only_add_text(
    range: TextRange,
    func: Function,
    declaration: Seq<char>,
    type_alias: TypeAlias,
    const_: Const,
    name: Seq<char>,
    label: Seq<char>,
)
    ensures
        extends_plain(
            function_item(false, range, func, declaration),
            function_item(true, range, func, declaration),
            "\n    $0\n}"@,
        ),
        extends_plain(
            type_alias_item(false, range, type_alias),
            type_alias_item(true, range, type_alias),
            "$0;"@,
        ),
        extends_plain(
            const_item(false, range, const_, name, label),
            const_item(true, range, const_, name, label),
            "$0;"@,
        ),
{
    reveal_strlit(" {");
    reveal_strlit("\n    $0\n}");
    reveal_strlit(" {\n    $0\n}");
    let plain = function_item(false, range, func, declaration).text_edit.insert;
    let snippet = function_item(true, range, func, declaration).text_edit.insert;
    assert(snippet =~= plain + "\n    $0\n}"@);
}

/// `snippet` differs from `plain` in being a snippet and in inserting `rest` behind the same text.
pub open spec fn extends_plain(
    plain: CompletionItemView,
    snippet: CompletionItemView,
    rest: Seq<char>,
) -> bool {
    &&& plain.kind == snippet.kind
    &&& plain.source_range == snippet.source_range
    &&& plain.label == snippet.label
    &&& plain.lookup == snippet.lookup
    &&& plain.documentation == snippet.documentation
    &&& plain.relevance == snippet.relevance
    &&& !plain.is_snippet
    &&& snippet.is_snippet
    &&& plain.text_edit.delete == snippet.text_edit.delete
    &&& snippet.text_edit.insert == plain.text_edit.insert + rest
}

/// Functions and associated types are looked up by the front of their labels, whether or not
/// their names have to be escaped.
pub proof fn law_labels_start_with_lookups(
    snippets: bool,
    range: TextRange,
    func: Function,
    declaration: Seq<char>,
    type_alias: TypeAlias,
)
    ensures
        function_item(snippets, range, func, declaration).lookup.is_prefix_of(
            function_item(snippets, range, func, declaration).label,
        ),
        type_alias_item(snippets, range, type_alias).lookup.is_prefix_of(
            type_alias_item(snippets, range, type_alias).label,
        ),
{
    let item = function_item(snippets, range, func, declaration);
    assert(item.lookup =~= item.label.subrange(0, item.lookup.len() as int));
    let item = type_alias_item(snippets, range, type_alias);
    assert(item.lookup =~= item.label.subrange(0, item.lookup.len() as int));
}

/// A function that no macro wrote is completed to its declaration in the trait, with generics
/// inlined, without attributes, docs and body, and with an open block behind it.
pub proof fn law_function_is_written_as_declared<
    T: Fn(Impl, ItemSyntax) -> ItemSyntax,
    W: Fn(ItemSyntax) -> ItemSyntax,
>(
    ctx: CompletionContext<T, W>,
    range: TextRange,
    impl_: Impl,
    func: Function,
    source: Source,
    item: CompletionItemView,
)
    requires
        completes_function(ctx, range, impl_, func, source, item),
        !source.file_is_macro,
    ensures
        exists|inlined: ItemView|
            {
                &&& #[trigger] is_inlined(ctx.sema.path_transform, impl_, source.value@, inlined)
                &&& item.text_edit.insert == function_head(without_attrs_and_docs(inlined)) + (
                if ctx.snippet_cap is Some {
                    " {\n    $0\n}"@
                } else {
                    " {"@
                })
            },
{
    let (inlined, declaration) = choose|inlined: ItemView, declaration: Seq<char>|
        {
            &&& #[trigger] is_inlined(ctx.sema.path_transform, impl_, source.value@, inlined)
            &&& #[trigger] is_function_declaration(
                ctx.sema.insert_ws,
                source.file_is_macro,
                without_attrs_and_docs(inlined),
                declaration,
            )
            &&& item == function_item(ctx.snippet_cap is Some, range, func, declaration)
        };
    law_removing_twice_is_removing_once(inlined);
}

/// A constant that no macro wrote is completed to its declaration in the trait, with generics
/// inlined, without attributes, docs and value, and with an equals sign behind it.
pub proof fn law_const_is_written_as_declared<
    T: Fn(Impl, ItemSyntax) -> ItemSyntax,
    W: Fn(ItemSyntax) -> ItemSyntax,
>(
    ctx: CompletionContext<T, W>,
    range: TextRange,
    impl_: Impl,
    const_: Const,
    name: Seq<char>,
    source: Source,
    item: CompletionItemView,
)
    requires
        completes_const(ctx, range, impl_, const_, name, source, item),
        !source.file_is_macro,
    ensures
        exists|inlined: ItemView|
            {
                &&& #[trigger] is_inlined(ctx.sema.path_transform, impl_, source.value@, inlined)
                &&& item.label == const_head(without_attrs_and_docs(inlined))
                &&& item.text_edit.insert == item.label + " "@ + (if ctx.snippet_cap is Some {
                    "$0;"@
                } else {
                    ""@
                })
            },
{
    reveal_strlit("");
    let (inlined, label) = choose|inlined: ItemView, label: Seq<char>|
        {
            &&& #[trigger] is_inlined(ctx.sema.path_transform, impl_, source.value@, inlined)
            &&& #[trigger] is_const_compl_syntax(
                ctx.sema.insert_ws,
                source.file_is_macro,
                without_attrs_and_docs(inlined),
                label,
            )
            &&& item == const_item(ctx.snippet_cap is Some, range, const_, name, label)
        };
    law_removing_twice_is_removing_once(inlined);
    assert(item.label + " "@ + ""@ =~= item.label + " "@);
    assert(item.label == const_head(without_attrs_and_docs(inlined)));
}

// Places in the file.

proof fn lemma_children_abut(elements: Seq<Element>, item: int, j: int, k: int)
    requires
        tree_wf(elements),
        0 <= item < elements.len(),
        0 <= j < k < elements[item].children@.len(),
    ensures
        elements[elements[item].children@[j] as int].range.end
            <= elements[elements[item].children@[k] as int].range.start,
    decreases k - j,
{
    let children = elements[item].children@;
    assert(element_wf(elements, item));
    assert(adjoins(elements, children, k));
    if j < k - 1 {
        lemma_children_abut(elements, item, j, k - 1);
        assert(is_child(elements, item, children, k - 1));
        assert(element_wf(elements, children[k - 1] as int));
    }
}

proof fn lemma_first_replaced(elements: Seq<Element>, children: Seq<usize>) -> (k: int)
    ensures
        0 <= k <= children.len(),
        forall|j: int| 0 <= j < k ==> is_left_in_place(elements[#[trigger] children[j] as int].kind),
        k < children.len() ==> !is_left_in_place(elements[children[k] as int].kind),
        first_replaced(elements, children) == if k < children.len() {
            Some(children[k])
        } else {
            None
        },
    decreases children.len(),
{
    if children.len() == 0 || !is_left_in_place(elements[children[0] as int].kind) {
        0
    } else {
        let rest = children.drop_first();
        let k = lemma_first_replaced(elements, rest);
        assert forall|j: int| 0 <= j < k + 1 implies is_left_in_place(
            elements[#[trigger] children[j] as int].kind,
        ) by {
            if j > 0 {
                assert(rest[j - 1] == children[j]);
            }
        }
        k + 1
    }
}

/// Completions do not overwrite the comments and attributes in front of an item: where child `j`
/// of the completed item and all children in front of it are comments, attributes or white space,
/// and not all the children are, every completion that is added starts to replace behind it.
pub proof fn law_comments_and_attrs_stay<
    T: Fn(Impl, ItemSyntax) -> ItemSyntax,
    W: Fn(ItemSyntax) -> ItemSyntax,
>(
    ctx: CompletionContext<T, W>,
    name: Option<usize>,
    kind: ImplCompletionKind,
    before: Seq<CompletionItemView>,
    after: Seq<CompletionItemView>,
    result: Option<()>,
    item: usize,
    j: int,
    i: int,
)
    requires
        ctx.wf(),
        name matches Some(name) ==> name < ctx.tree@.len(),
        completed_item(ctx.tree@, ctx.token, name) == Some(item),
        completes_name(ctx, name, kind, before, after, result),
        0 <= j < ctx.tree@[item as int].children@.len(),
        forall|l: int|
            0 <= l <= j ==> is_left_in_place(
                ctx.tree@[#[trigger] ctx.tree@[item as int].children@[l] as int].kind,
            ),
        first_replaced(ctx.tree@, ctx.tree@[item as int].children@) is Some,
        before.len() <= i < after.len(),
    ensures
        ctx.tree@[ctx.tree@[item as int].children@[j] as int].range.end
            <= after[i].text_edit.delete.start,
{
    let elements = ctx.tree@;
    let children = elements[item as int].children@;
    lemma_completed_item(elements, ctx.token, name);
    let k = lemma_first_replaced(elements, children);
    if k <= j {
        assert(is_left_in_place(elements[children[k] as int].kind));
    }
    lemma_children_abut(elements, item as int, j, k);
    if let Some(impl_) = enclosing_impl(elements, item) {
        let range = TextRange {
            start: replacement_start(elements, item as int),
            end: ctx.source_range.end,
        };
        law_completions_are_added(ctx, kind, range, impl_, before, after);
    }
}

proof fn lemma_last_token(elements: Seq<Element>, i: int)
    requires
        tree_wf(elements),
        0 <= i < elements.len(),
    ensures
        last_token(elements, i) matches Some(t) ==> {
            &&& t < elements.len()
            &&& elements[t as int].is_token
            &&& elements[t as int].range.end == elements[i].range.end
        },
    decreases elements.len() - i,
{
    assert(element_wf(elements, i));
    let children = elements[i].children@;
    if !elements[i].is_token && children.len() > 0 {
        assert(is_child(elements, i, children, children.len() - 1));
        lemma_last_token(elements, children.last() as int);
    }
}

/// The token in front of an element is a token, and ends where the element starts.
pub proof fn law_prev_token_adjoins(elements: Seq<Element>, i: int)
    requires
        tree_wf(elements),
        0 <= i < elements.len(),
    ensures
        prev_token(elements, i) matches Some(t) ==> {
            &&& t < elements.len()
            &&& elements[t as int].is_token
            &&& elements[t as int].range.end == elements[i].range.start
        },
    decreases i,
{
    assert(element_wf(elements, i));
    if let Some(p) = elements[i].parent {
        let children = elements[p as int].children@;
        let k = choose|k: int| 0 <= k < children.len() && children[k] == i as usize;
        lemma_place(elements, p as int, k);
        assert(element_wf(elements, p as int));
        if k > 0 {
            lemma_place(elements, p as int, k - 1);
            assert(adjoins(elements, children, k));
            lemma_last_token(elements, children[k - 1] as int);
        } else {
            law_prev_token_adjoins(elements, p as int);
        }
    }
}

proof fn lemma_completed_item(elements: Seq<Element>, token: usize, name: Option<usize>)
    requires
        tree_wf(elements),
        token < elements.len(),
        name matches Some(name) ==> name < elements.len(),
    ensures
        anchor(elements, token, name) matches Some(a) ==> a < elements.len(),
        completed_item(elements, token, name) matches Some(item) ==> item < elements.len(),
{
    law_prev_token_adjoins(elements, token as int);
    if let Some(a) = anchor(elements, token, name) {
        assert(element_wf(elements, a as int));
    }
}

/// The replaced range reaches back to the name or token that the completed item was found by, if
/// that is no comment, attribute or white space: the range is in order wherever the cursor is at
/// or behind the start of that name or token.
pub proof fn law_replacement_starts_in_front(
    elements: Seq<Element>,
    token: usize,
    name: Option<usize>,
    found_by: usize,
    item: usize,
)
    requires
        tree_wf(elements),
        token < elements.len(),
        name matches Some(name) ==> name < elements.len(),
        anchor(elements, token, name) == Some(found_by),
        completed_item(elements, token, name) == Some(item),
        !is_left_in_place(elements[found_by as int].kind),
    ensures
        elements[item as int].range.start <= replacement_start(elements, item as int)
            <= elements[found_by as int].range.start,
{
    lemma_completed_item(elements, token, name);
    assert(element_wf(elements, found_by as int));
    assert(element_wf(elements, item as int));
    let children = elements[item as int].children@;
    let k = lemma_first_replaced(elements, children);
    let n = choose|n: int| 0 <= n < children.len() && children[n] == found_by;
    if n < k {
        assert(is_left_in_place(elements[children[n] as int].kind));
    }
    assert(is_child(elements, item as int, children, k));
    assert(element_wf(elements, children[k] as int));
    if k < n {
        lemma_children_abut(elements, item as int, k, n);
    }
    if 0 < k {
        lemma_children_abut(elements, item as int, 0, k);
        assert(is_child(elements, item as int, children, 0));
        assert(element_wf(elements, children[0] as int));
    }
}

// Plain values.

/// White space is the twenty-five characters that Unicode counts to it.
pub proof fn law_white_space(c: char)
    ensures
        is_white_space(c) <==> set![
            '\u{9}', '\u{a}', '\u{b}', '\u{c}', '\u{d}', '\u{20}', '\u{85}', '\u{a0}', '\u{1680}',
            '\u{2000}', '\u{2001}', '\u{2002}', '\u{2003}', '\u{2004}', '\u{2005}', '\u{2006}',
            '\u{2007}', '\u{2008}', '\u{2009}', '\u{200a}', '\u{2028}', '\u{2029}', '\u{202f}',
            '\u{205f}', '\u{3000}',
        ].contains(c),
{
}

/// A completion item is seen with all of its fields, and its edit with range and text.
pub proof fn law_views_of_completions(item: CompletionItem)
    ensures
        item@.kind == item.kind,
        item@.source_range == item.source_range,
        item@.label == item.label@,
        item@.lookup == item.lookup@,
        item@.documentation is Some <==> item.documentation is Some,
        item.documentation matches Some(text) ==> item@.documentation == Some(text@),
        item@.relevance == item.relevance,
        item@.is_snippet == item.is_snippet,
        item@.text_edit.delete == item.text_edit.delete,
        item@.text_edit.insert == item.text_edit.insert@,
{
}

/// Completions are seen one by one, in their order.
pub proof fn law_view_of_accumulator(acc: Completions)
    ensures
        acc@.len() == acc.items@.len(),
        forall|i: int| 0 <= i < acc.items@.len() ==> #[trigger] acc@[i] == acc.items@[i]@,
{
}

/// An item is seen with its kind and each of its children, a node with its kind and each of its
/// children, and a token with its kind and text.
pub proof fn law_views_of_items(item: ItemSyntax, element: SyntaxElement)
    ensures
        item@.kind == item.kind,
        item@.children.len() == item.children@.len(),
        forall|i: int|
            0 <= i < item.children@.len() ==> #[trigger] item@.children[i] == item.children@[i]@,
        element matches SyntaxElement::Token { kind, text } ==> element@ == (ElementView::Token {
            kind,
            text: text@,
        }),
        element matches SyntaxElement::Node { kind, children } ==> {
            &&& element@ is Node
            &&& element@->Node_kind == kind
            &&& element@->children.len() == children@.len()
            &&& forall|i: int|
                0 <= i < children@.len() ==> #[trigger] element@->children[i] == children@[i]@
        },
{
    lemma_node_view(element);
}

/// The kind of an element is the one that it was made with.
pub proof fn law_kinds_of_elements(
    kind: SyntaxKind,
    text: Seq<char>,
    children: Seq<ElementView>,
)
    ensures
        (ElementView::Token { kind, text }).kind() == kind,
        (ElementView::Node { kind, children }).kind() == kind,
{
}

/// The text of a token is its text, whatever its kind, and the text of a node is the text of its
/// children. The text of elements is that of each, one behind the other: no token is lost,
/// changed or moved.
pub proof fn law_texts_are_joined(
    kind: SyntaxKind,
    text: Seq<char>,
    element: ElementView,
    front: Seq<ElementView>,
    back: Seq<ElementView>,
)
    ensures
        (ElementView::Token { kind, text }).text() == text,
        (ElementView::Node { kind, children: front }).text() == text_of(front),
        text_of(Seq::<ElementView>::empty()) == Seq::<char>::empty(),
        text_of(seq![element]) == element.text(),
        text_of(front + back) == text_of(front) + text_of(back),
    decreases back.len(),
{
    let one = seq![element];
    assert(one.drop_last() =~= Seq::<ElementView>::empty());
    assert(text_of(one.drop_last()) =~= Seq::<char>::empty());
    assert(text_of(one) =~= element.text());
    if back.len() == 0 {
        assert(front + back =~= front);
        assert(text_of(front) + text_of(back) =~= text_of(front));
    } else {
        law_texts_are_joined(kind, text, element, front, back.drop_last());
        assert((front + back).drop_last() =~= front + back.drop_last());
        assert((front + back).last() == back.last());
        assert(text_of(front + back) =~= text_of(front) + text_of(back));
    }
}

/// Of the children of an item, the ones at the places `at` stay, in their order: all but the
/// attributes, the comments, and white space directly behind one of these. Nothing else changes.
pub proof fn law_what_stays_without_attrs_and_docs(item: ItemView) -> (at: Seq<int>)
    ensures
        without_attrs_and_docs(item).kind == item.kind,
        without_attrs_and_docs(item).children.len() == at.len(),
        forall|i: int|
            0 <= i < at.len() ==> 0 <= #[trigger] at[i] < item.children.len()
                && without_attrs_and_docs(item).children[i] == item.children[at[i]],
        forall|i: int, j: int| 0 <= i < j < at.len() ==> #[trigger] at[i] < #[trigger] at[j],
        forall|j: int|
            0 <= j < item.children.len() ==> (#[trigger] at.contains(j) <==> {
                let kind = item.children[j].kind();
                let kind_in_front = item.children[j - 1].kind();
                &&& kind != SyntaxKind::Attr
                &&& kind != SyntaxKind::Comment
                &&& !(kind == SyntaxKind::Whitespace && j > 0 && (kind_in_front == SyntaxKind::Attr
                    || kind_in_front == SyntaxKind::Comment))
            }),
{
    lemma_kept_places(item.children)
}

proof fn lemma_kept_places(children: Seq<ElementView>) -> (at: Seq<int>)
    ensures
        kept(children).len() == at.len(),
        forall|i: int|
            0 <= i < at.len() ==> 0 <= #[trigger] at[i] < children.len() && kept(children)[i]
                == children[at[i]],
        forall|i: int, j: int| 0 <= i < j < at.len() ==> #[trigger] at[i] < #[trigger] at[j],
        forall|j: int|
            0 <= j < children.len() ==> (#[trigger] at.contains(j) <==> is_kept(children, j)),
    decreases children.len(),
{
    if children.len() == 0 {
        seq![]
    } else {
        let last = children.len() - 1;
        let front = children.drop_last();
        let before = lemma_kept_places(front);
        let at = if is_kept(children, last) {
            before.push(last)
        } else {
            before
        };
        assert forall|j: int| 0 <= j < children.len() implies (#[trigger] at.contains(j) <==>
        is_kept(children, j)) by {
            lemma_push_contains(before, last, j);
            if j < last {
                assert(before.contains(j) <==> is_kept(front, j));
                assert(front[j] == children[j]);
                if j > 0 {
                    assert(front[j - 1] == children[j - 1]);
                }
            } else if before.contains(j) {
                let i = choose|i: int| 0 <= i < before.len() && before[i] == j;
                assert(before[i] < front.len());
            }
        }
        at
    }
}

/// A function ends in front of a last child that is a semicolon or a block, and is written whole
/// where its last child is neither. A constant ends in front of the first of its children that is
/// a semicolon or an equals sign, and is written whole where none is.
pub proof fn law_heads_end_in_front_of_bodies_and_values(item: ItemView, n: int)
    requires
        0 <= n < item.children.len(),
    ensures
        item.children.last().kind() == SyntaxKind::Semicolon || item.children.last().kind()
            == SyntaxKind::BlockExpr ==> function_head(item) == trimmed(
            text_of(item.children.drop_last()),
        ),
        item.children.last().kind() != SyntaxKind::Semicolon && item.children.last().kind()
            != SyntaxKind::BlockExpr ==> function_head(item) == trimmed(text_of(item.children)),
        (item.children[n].kind() == SyntaxKind::Semicolon || item.children[n].kind()
            == SyntaxKind::Eq) && (forall|i: int|
            0 <= i < n ==> (#[trigger] item.children[i]).kind() != SyntaxKind::Semicolon
                && item.children[i].kind() != SyntaxKind::Eq) ==> const_head(item) == trimmed(
            text_of(item.children.take(n)),
        ) + " ="@,
        (forall|i: int|
            0 <= i < item.children.len() ==> (#[trigger] item.children[i]).kind()
                != SyntaxKind::Semicolon && item.children[i].kind() != SyntaxKind::Eq)
            ==> const_head(item) == trimmed(text_of(item.children)) + " ="@,
{
    let children = item.children;
    let len = children.len() as int;
    assert(children.take(len) =~= children);
    assert(children.take(len - 1) =~= children.drop_last());
    if ends_const_head(children[n].kind()) && (forall|i: int|
        0 <= i < n ==> !ends_const_head((#[trigger] children[i]).kind())) {
        lemma_const_head_len(children, n);
    }
    if forall|i: int| 0 <= i < len ==> !ends_const_head((#[trigger] children[i]).kind()) {
        lemma_const_head_len(children, len);
    }
}

/// An item without children has an empty head, ended by an equals sign for a constant.
pub proof fn law_heads_of_empty_items(kind: SyntaxKind)
    ensures
        function_head(ItemView { kind, children: seq![] }) == Seq::<char>::empty(),
        const_head(ItemView { kind, children: seq![] }) == " ="@,
{
    let none = Seq::<ElementView>::empty();
    assert(none.take(0) =~= none);
    assert(Seq::<char>::empty() + " ="@ =~= " ="@);
}

/// A declaration that a macro wrote is the head of an answer that `insert_ws` gave to the item
/// without attributes and docs; any other is the head of that item itself.
pub proof fn law_declarations_come_from_answers<W: Fn(ItemSyntax) -> ItemSyntax>(
    insert_ws: W,
    item: ItemView,
    text: Seq<char>,
)
    ensures
        is_function_declaration(insert_ws, false, item, text) <==> text == function_head(
            without_attrs_and_docs(item),
        ),
        is_function_declaration(insert_ws, true, item, text) <==> exists|
            asked: ItemSyntax,
            answer: ItemSyntax,
        |
            {
                &&& asked@ == without_attrs_and_docs(item)
                &&& #[trigger] call_ensures(insert_ws, (asked,), answer)
                &&& text == function_head(answer@)
            },
        is_const_compl_syntax(insert_ws, false, item, text) <==> text == const_head(
            without_attrs_and_docs(item),
        ),
        is_const_compl_syntax(insert_ws, true, item, text) <==> exists|
            asked: ItemSyntax,
            answer: ItemSyntax,
        |
            {
                &&& asked@ == without_attrs_and_docs(item)
                &&& #[trigger] call_ensures(insert_ws, (asked,), answer)
                &&& text == const_head(answer@)
            },
{
    law_written_declarations_keep_their_white_space(insert_ws, insert_ws, item, text);
    let stripped = without_attrs_and_docs(item);
    assert forall|asked: ItemSyntax, answer: ItemSyntax|
        asked@ == stripped && #[trigger] call_ensures(insert_ws, (asked,), answer) implies is_spaced(
        insert_ws,
        true,
        stripped,
        answer@,
    ) by {}
}

// What analysis answers.

/// An `impl` block resolves exactly where analysis knows it, and to the first that is known of it.
pub proof fn law_known_impls_resolve(impls: Seq<ImplDef>, impl_: Impl)
    ensures
        resolved(impls, impl_) is Some <==> exists|i: int|
            0 <= i < impls.len() && (#[trigger] impls[i]).syntax == impl_,
        forall|i: int|
            0 <= i < impls.len() && (#[trigger] impls[i]).syntax == impl_ && (forall|j: int|
                0 <= j < i ==> (#[trigger] impls[j]).syntax != impl_) ==> resolved(impls, impl_)
                == Some(impls[i]),
{
    let k = lemma_resolved_place(impls, impl_);
    if k < impls.len() {
        assert(impls[k].syntax == impl_);
    }
    assert forall|i: int|
        0 <= i < impls.len() && (#[trigger] impls[i]).syntax == impl_ && (forall|j: int|
            0 <= j < i ==> (#[trigger] impls[j]).syntax != impl_) implies resolved(impls, impl_)
        == Some(impls[i]) by {
        if k < i {
            assert(impls[k].syntax != impl_);
        }
    }
}

proof fn lemma_resolved_place(impls: Seq<ImplDef>, impl_: Impl) -> (k: int)
    ensures
        0 <= k <= impls.len(),
        forall|j: int| 0 <= j < k ==> (#[trigger] impls[j]).syntax != impl_,
        k < impls.len() ==> impls[k].syntax == impl_,
        resolved(impls, impl_) == if k < impls.len() {
            Some(impls[k])
        } else {
            None
        },
    decreases impls.len(),
{
    if impls.len() == 0 || impls[0].syntax == impl_ {
        0
    } else {
        let rest = impls.drop_first();
        let k = lemma_resolved_place(rest, impl_);
        assert forall|j: int| 0 <= j < k + 1 implies (#[trigger] impls[j]).syntax != impl_ by {
            if j > 0 {
                assert(rest[j - 1] == impls[j]);
            }
        }
        k + 1
    }
}

/// Every item, with or without a body or a value, is inlined by an answer that `path_transform`
/// gave to it for the `impl` block.
pub proof fn law_inlined_items_are_answers<T: Fn(Impl, ItemSyntax) -> ItemSyntax>(
    path_transform: T,
    impl_: Impl,
    item: ItemView,
    inlined: ItemView,
)
    ensures
        is_inlined(path_transform, impl_, item, inlined) <==> exists|
            asked: ItemSyntax,
            answer: ItemSyntax,
        |
            {
                &&& asked@ == item
                &&& #[trigger] call_ensures(path_transform, (impl_, asked), answer)
                &&& answer@ == inlined
            },
{
}

/// What completion asks for beforehand: a well-formed tree, a token and a name in it,
/// transformations that take any item, and a cursor that is not in front of what is replaced.
pub proof fn law_what_completion_asks_for<
    T: Fn(Impl, ItemSyntax) -> ItemSyntax,
    W: Fn(ItemSyntax) -> ItemSyntax,
>(ctx: CompletionContext<T, W>, name: Option<usize>)
    ensures
        ctx.tree.wf() <==> tree_wf(ctx.tree@),
        ctx.sema.wf() <==> {
            &&& forall|impl_: Impl, asked: ItemSyntax|
                call_requires(ctx.sema.path_transform, (impl_, asked))
            &&& forall|asked: ItemSyntax| call_requires(ctx.sema.insert_ws, (asked,))
        },
        ctx.wf() <==> ctx.tree.wf() && ctx.token < ctx.tree@.len() && ctx.sema.wf(),
        can_complete_name(ctx, name) <==> {
            &&& ctx.wf()
            &&& name matches Some(name) ==> name < ctx.tree@.len()
            &&& completed_item(ctx.tree@, ctx.token, name) matches Some(item)
                ==> replacement_start(ctx.tree@, item as int) <= ctx.source_range.end
        },
{
}

/// The kind of an item and its syntax come apart and together again.
pub proof fn law_syntax_of_items(item: ItemSyntax, other: ItemSyntax)
    ensures
        AssocItemSyntax::Fn(item).item() == item,
        AssocItemSyntax::TypeAlias(item).item() == item,
        AssocItemSyntax::Const(item).item() == item,
        AssocItemSyntax::MacroCall(item).item() == item,
        forall|a: AssocItemSyntax| #[trigger]
            a.has_kind_of(AssocItemSyntax::Fn(other)) <==> a is Fn,
        forall|a: AssocItemSyntax| #[trigger]
            a.has_kind_of(AssocItemSyntax::TypeAlias(other)) <==> a is TypeAlias,
        forall|a: AssocItemSyntax| #[trigger]
            a.has_kind_of(AssocItemSyntax::Const(other)) <==> a is Const,
        forall|a: AssocItemSyntax| #[trigger]
            a.has_kind_of(AssocItemSyntax::MacroCall(other)) <==> a is MacroCall,
{
}

// Completions from the sources of their items.

/// The completion for a function shows its name and whether it has parameters, is found by its
/// name, carries its docs, and inserts a declaration with an open block behind it. The declaration
/// is the head of an answer that `path_transform` gave to the function for the `impl` block,
/// whether or not the function has a body; if a macro wrote the function, `insert_ws` has answered
/// in between.
pub proof fn law_function_completion<
    T: Fn(Impl, ItemSyntax) -> ItemSyntax,
    W: Fn(ItemSyntax) -> ItemSyntax,
>(
    ctx: CompletionContext<T, W>,
    range: TextRange,
    impl_: Impl,
    func: Function,
    source: Source,
    item: CompletionItemView,
)
    requires
        completes_function(ctx, range, impl_, func, source, item),
    ensures
        item.kind == if func.has_self_param {
            CompletionItemKind::Method
        } else {
            CompletionItemKind::SymbolKind(SymbolKind::Function)
        },
        item.source_range == range,
        item.text_edit.delete == range,
        func.param_count == 0 ==> item.label == "fn "@ + func.name.text@ + "()"@,
        func.param_count > 0 ==> item.label == "fn "@ + func.name.text@ + "(..)"@,
        item.lookup == "fn "@ + func.name.text@,
        item.documentation is Some <==> func.docs is Some,
        func.docs matches Some(docs) ==> item.documentation == Some(docs@),
        item.relevance.is_item_from_trait,
        item.is_snippet <==> ctx.snippet_cap is Some,
        !source.file_is_macro ==> exists|asked: ItemSyntax, answer: ItemSyntax|
            {
                &&& asked@ == source.value@
                &&& #[trigger] call_ensures(ctx.sema.path_transform, (impl_, asked), answer)
                &&& item.text_edit.insert == function_head(without_attrs_and_docs(answer@)) + (
                if ctx.snippet_cap is Some {
                    " {\n    $0\n}"@
                } else {
                    " {"@
                })
            },
        source.file_is_macro ==> exists|
            asked: ItemSyntax,
            answer: ItemSyntax,
            bare: ItemSyntax,
            spaced: ItemSyntax,
        |
            {
                &&& asked@ == source.value@
                &&& #[trigger] call_ensures(ctx.sema.path_transform, (impl_, asked), answer)
                &&& bare@ == without_attrs_and_docs(answer@)
                &&& #[trigger] call_ensures(ctx.sema.insert_ws, (bare,), spaced)
                &&& item.text_edit.insert == function_head(spaced@) + (if ctx.snippet_cap is Some {
                    " {\n    $0\n}"@
                } else {
                    " {"@
                })
            },
{
    let (inlined, declaration) = choose|inlined: ItemView, declaration: Seq<char>|
        {
            &&& #[trigger] is_inlined(ctx.sema.path_transform, impl_, source.value@, inlined)
            &&& #[trigger] is_function_declaration(
                ctx.sema.insert_ws,
                source.file_is_macro,
                without_attrs_and_docs(inlined),
                declaration,
            )
            &&& item == function_item(ctx.snippet_cap is Some, range, func, declaration)
        };
    law_removing_twice_is_removing_once(inlined);
    law_declarations_come_from_answers(
        ctx.sema.insert_ws,
        without_attrs_and_docs(inlined),
        declaration,
    );
    let (asked, answer) = choose|asked: ItemSyntax, answer: ItemSyntax|
        asked@ == source.value@ && #[trigger] call_ensures(
            ctx.sema.path_transform,
            (impl_, asked),
            answer,
        ) && answer@ == inlined;
    assert(call_ensures(ctx.sema.path_transform, (impl_, asked), answer));
}

/// The completion for a constant shows its head up to the value, is found by its name, carries its
/// docs, and inserts the head and a space. The head is that of an answer that `path_transform`
/// gave to the constant for the `impl` block, whether or not the constant has a value; if a macro
/// wrote the constant, `insert_ws` has answered in between.
pub proof fn law_const_completion<
    T: Fn(Impl, ItemSyntax) -> ItemSyntax,
    W: Fn(ItemSyntax) -> ItemSyntax,
>(
    ctx: CompletionContext<T, W>,
    range: TextRange,
    impl_: Impl,
    const_: Const,
    name: Seq<char>,
    source: Source,
    item: CompletionItemView,
)
    requires
        completes_const(ctx, range, impl_, const_, name, source, item),
    ensures
        item.kind == CompletionItemKind::SymbolKind(SymbolKind::Const),
        item.source_range == range,
        item.text_edit.delete == range,
        item.lookup == "const "@ + name,
        item.documentation is Some <==> const_.docs is Some,
        const_.docs matches Some(docs) ==> item.documentation == Some(docs@),
        item.relevance.is_item_from_trait,
        item.is_snippet <==> ctx.snippet_cap is Some,
        ctx.snippet_cap is None ==> item.text_edit.insert == item.label + " "@,
        ctx.snippet_cap is Some ==> item.text_edit.insert == item.label + " $0;"@,
        !source.file_is_macro ==> exists|asked: ItemSyntax, answer: ItemSyntax|
            {
                &&& asked@ == source.value@
                &&& #[trigger] call_ensures(ctx.sema.path_transform, (impl_, asked), answer)
                &&& item.label == const_head(without_attrs_and_docs(answer@))
            },
        source.file_is_macro ==> exists|
            asked: ItemSyntax,
            answer: ItemSyntax,
            bare: ItemSyntax,
            spaced: ItemSyntax,
        |
            {
                &&& asked@ == source.value@
                &&& #[trigger] call_ensures(ctx.sema.path_transform, (impl_, asked), answer)
                &&& bare@ == without_attrs_and_docs(answer@)
                &&& #[trigger] call_ensures(ctx.sema.insert_ws, (bare,), spaced)
                &&& item.label == const_head(spaced@)
            },
{
    reveal_strlit(" ");
    reveal_strlit("$0;");
    reveal_strlit(" $0;");
    assert(item.label + " "@ + "$0;"@ =~= item.label + " $0;"@);
    let (inlined, label) = choose|inlined: ItemView, label: Seq<char>|
        {
            &&& #[trigger] is_inlined(ctx.sema.path_transform, impl_, source.value@, inlined)
            &&& #[trigger] is_const_compl_syntax(
                ctx.sema.insert_ws,
                source.file_is_macro,
                without_attrs_and_docs(inlined),
                label,
            )
            &&& item == const_item(ctx.snippet_cap is Some, range, const_, name, label)
        };
    law_removing_twice_is_removing_once(inlined);
    law_declarations_come_from_answers(
        ctx.sema.insert_ws,
        without_attrs_and_docs(inlined),
        label,
    );
    let (asked, answer) = choose|asked: ItemSyntax, answer: ItemSyntax|
        asked@ == source.value@ && #[trigger] call_ensures(
            ctx.sema.path_transform,
            (impl_, asked),
            answer,
        ) && answer@ == inlined;
    assert(call_ensures(ctx.sema.path_transform, (impl_, asked), answer));
}

/// The completion for an associated type shows its name and is found by it, carries its docs, and
/// inserts the name as it has to be written.
pub proof fn law_type_alias_completion(snippets: bool, range: TextRange, type_alias: TypeAlias)
    ensures
        ({
            let item = type_alias_item(snippets, range, type_alias);
            &&& item.kind == CompletionItemKind::SymbolKind(SymbolKind::TypeAlias)
            &&& item.source_range == range
            &&& item.text_edit.delete == range
            &&& item.label == "type "@ + type_alias.name.text@ + " ="@
            &&& item.lookup == "type "@ + type_alias.name.text@
            &&& item.documentation is Some <==> type_alias.docs is Some
            &&& type_alias.docs matches Some(docs) ==> item.documentation == Some(docs@)
            &&& item.relevance.is_item_from_trait
            &&& item.is_snippet <==> snippets
            &&& !snippets ==> item.text_edit.insert == "type "@ + type_alias.name.escaped@ + " = "@
            &&& snippets ==> item.text_edit.insert == "type "@ + type_alias.name.escaped@
                + " = $0;"@
        }),
{
    reveal_strlit(" = ");
    reveal_strlit("$0;");
    reveal_strlit(" = $0;");
    let front = "type "@ + type_alias.name.escaped@;
    assert(front + " = "@ + "$0;"@ =~= front + " = $0;"@);
}

/// An item is completed as what it is: a function from its source, a type by its name, and a
/// constant from its source and by its name.
pub proof fn law_items_are_completed_as_what_they_are<
    T: Fn(Impl, ItemSyntax) -> ItemSyntax,
    W: Fn(ItemSyntax) -> ItemSyntax,
>(
    ctx: CompletionContext<T, W>,
    range: TextRange,
    impl_: Impl,
    func: Function,
    type_alias: TypeAlias,
    const_: Const,
    item: CompletionItemView,
)
    ensures
        func.source matches Some(source) ==> (completes(
            ctx,
            range,
            impl_,
            AssocItem::Function(func),
            item,
        ) <==> completes_function(ctx, range, impl_, func, source, item)),
        completes(ctx, range, impl_, AssocItem::TypeAlias(type_alias), item) <==> item
            == type_alias_item(ctx.snippet_cap is Some, range, type_alias),
        const_.name matches Some(name) ==> (const_.source matches Some(source) ==> (completes(
            ctx,
            range,
            impl_,
            AssocItem::Const(const_),
            item,
        ) <==> completes_const(ctx, range, impl_, const_, name.text@, source, item))),
{
}

/// A function can be offered where its source is known, and a constant where its name and source
/// are, if trait, source and scope of the `impl` block are known too.
pub proof fn law_what_can_be_offered(func: Function, const_: Const, impl_def: ImplDef)
    ensures
        impl_def.can_transform() <==> impl_def.has_trait && impl_def.has_source
            && impl_def.has_scope,
        offers_function(func, impl_def) <==> func.source is Some && impl_def.has_trait
            && impl_def.has_source && impl_def.has_scope,
        offers_const(const_, impl_def) <==> const_.name is Some && const_.source is Some
            && impl_def.has_trait && impl_def.has_source && impl_def.has_scope,
{
}

/// Of the items that the first known `impl` block of this place lacks, the ones at the places
/// `at` get a completion each, in their order, behind what was there: all that are asked for and
/// can be offered, and no others.
pub proof fn law_missing_items_get_completions<
    T: Fn(Impl, ItemSyntax) -> ItemSyntax,
    W: Fn(ItemSyntax) -> ItemSyntax,
>(
    ctx: CompletionContext<T, W>,
    kind: ImplCompletionKind,
    range: TextRange,
    impl_: Impl,
    first: int,
    before: Seq<CompletionItemView>,
    after: Seq<CompletionItemView>,
) -> (at: Seq<int>)
    requires
        completes_impl(ctx, kind, range, impl_, before, after),
        0 <= first < ctx.sema.impls@.len(),
        ctx.sema.impls@[first].syntax == impl_,
        forall|j: int| 0 <= j < first ==> (#[trigger] ctx.sema.impls@[j]).syntax != impl_,
    ensures
        ({
            let def = ctx.sema.impls@[first];
            let missing = def.missing_assoc_items@;
            let known = def.has_trait && def.has_source && def.has_scope;
            &&& after.len() == before.len() + at.len()
            &&& forall|i: int| 0 <= i < before.len() ==> #[trigger] after[i] == before[i]
            &&& forall|i: int|
                0 <= i < at.len() ==> 0 <= #[trigger] at[i] < missing.len() && completes(
                    ctx,
                    range,
                    impl_,
                    missing[at[i]],
                    after[before.len() + i],
                )
            &&& forall|i: int, j: int|
                0 <= i < j < at.len() ==> #[trigger] at[i] < #[trigger] at[j]
            &&& forall|j: int|
                0 <= j < missing.len() ==> (#[trigger] at.contains(j) <==> match missing[j] {
                    AssocItem::Function(func) => {
                        &&& kind == ImplCompletionKind::All || kind == ImplCompletionKind::Fn
                        &&& func.source is Some
                        &&& known
                    },
                    AssocItem::TypeAlias(_) => kind == ImplCompletionKind::All || kind
                        == ImplCompletionKind::TypeAlias,
                    AssocItem::Const(const_) => {
                        &&& kind == ImplCompletionKind::All || kind == ImplCompletionKind::Const
                        &&& const_.name is Some
                        &&& const_.source is Some
                        &&& known
                    },
                })
        }),
{
    law_known_impls_resolve(ctx.sema.impls@, impl_);
    let def = ctx.sema.impls@[first];
    let missing = def.missing_assoc_items@;
    let items = offered(kind, def, missing);
    let at = lemma_offered_places(kind, def, missing);
    assert forall|i: int| 0 <= i < before.len() implies #[trigger] after[i] == before[i] by {
        assert(after.take(before.len() as int)[i] == after[i]);
    }
    assert forall|i: int| 0 <= i < at.len() implies 0 <= #[trigger] at[i] < missing.len()
        && completes(ctx, range, impl_, missing[at[i]], after[before.len() + i]) by {
        assert(completes(ctx, range, impl_, items[i], after[before.len() + i]));
    }
    at
}

proof fn lemma_offered_places(
    kind: ImplCompletionKind,
    impl_def: ImplDef,
    assoc_items: Seq<AssocItem>,
) -> (at: Seq<int>)
    ensures
        offered(kind, impl_def, assoc_items).len() == at.len(),
        forall|i: int|
            0 <= i < at.len() ==> 0 <= #[trigger] at[i] < assoc_items.len() && offered(
                kind,
                impl_def,
                assoc_items,
            )[i] == assoc_items[at[i]],
        forall|i: int, j: int| 0 <= i < j < at.len() ==> #[trigger] at[i] < #[trigger] at[j],
        forall|j: int|
            0 <= j < assoc_items.len() ==> (#[trigger] at.contains(j) <==> offers(
                kind,
                impl_def,
                assoc_items[j],
            )),
    decreases assoc_items.len(),
{
    if assoc_items.len() == 0 {
        seq![]
    } else {
        let last = assoc_items.len() - 1;
        let front = assoc_items.drop_last();
        let before = lemma_offered_places(kind, impl_def, front);
        let at = if offers(kind, impl_def, assoc_items[last]) {
            before.push(last)
        } else {
            before
        };
        assert forall|j: int| 0 <= j < assoc_items.len() implies (#[trigger] at.contains(j) <==>
        offers(kind, impl_def, assoc_items[j])) by {
            lemma_push_contains(before, last, j);
            if j < last {
                assert(before.contains(j) <==> offers(kind, impl_def, front[j]));
            } else if before.contains(j) {
                let i = choose|i: int| 0 <= i < before.len() && before[i] == j;
                assert(before[i] < front.len());
            }
        }
        at
    }
}

/// For an `impl` block that analysis does not know, nothing is added.
pub proof fn law_unknown_impls_get_nothing<
    T: Fn(Impl, ItemSyntax) -> ItemSyntax,
    W: Fn(ItemSyntax) -> ItemSyntax,
>(
    ctx: CompletionContext<T, W>,
    kind: ImplCompletionKind,
    range: TextRange,
    impl_: Impl,
    before: Seq<CompletionItemView>,
    after: Seq<CompletionItemView>,
)
    requires
        completes_impl(ctx, kind, range, impl_, before, after),
        forall|j: int|
            0 <= j < ctx.sema.impls@.len() ==> (#[trigger] ctx.sema.impls@[j]).syntax != impl_,
    ensures
        after == before,
{
    law_known_impls_resolve(ctx.sema.impls@, impl_);
}

// Items at the cursor.

/// In a well-formed tree every range is in order, tokens have no children, the children of a node
/// cover its range without gaps, and parents and children name one another: the parent stands in
/// front of element `i`, and child `k` of element `i` behind it and behind the child before.
pub proof fn law_elements_of_well_formed_trees(elements: Seq<Element>, i: int, k: int)
    requires
        tree_wf(elements),
        0 <= i < elements.len(),
    ensures
        elements[i].range.start <= elements[i].range.end,
        elements[i].is_token ==> elements[i].children@.len() == 0,
        !elements[i].is_token && elements[i].children@.len() == 0 ==> elements[i].range.start
            == elements[i].range.end,
        elements[i].children@.len() > 0 ==> {
            let children = elements[i].children@;
            &&& elements[children[0] as int].range.start == elements[i].range.start
            &&& elements[children.last() as int].range.end == elements[i].range.end
        },
        elements[i].parent matches Some(p) ==> p < i && elements[p as int].children@.contains(
            i as usize,
        ),
        0 <= k < elements[i].children@.len() ==> {
            let child = elements[i].children@[k];
            &&& i < child < elements.len()
            &&& elements[child as int].parent == Some(i as usize)
        },
        0 < k < elements[i].children@.len() ==> {
            let child = elements[i].children@[k];
            let child_before = elements[i].children@[k - 1];
            &&& child_before < child
            &&& elements[child_before as int].range.end == elements[child as int].range.start
        },
{
    let children = elements[i].children@;
    assert(element_wf(elements, i));
    if 0 <= k < children.len() {
        assert(is_child(elements, i, children, k));
        if k > 0 {
            assert(adjoins(elements, children, k));
        }
    }
}

/// Nothing more than that is asked of a well-formed tree.
pub proof fn law_trees_are_well_formed(elements: Seq<Element>)
    requires
        elements.len() <= usize::MAX,
        forall|i: int|
            0 <= i < elements.len() ==> (#[trigger] elements[i]).range.start
                <= elements[i].range.end,
        forall|i: int|
            0 <= i < elements.len() && (#[trigger] elements[i]).is_token
                ==> elements[i].children@.len() == 0,
        forall|i: int|
            0 <= i < elements.len() && !(#[trigger] elements[i]).is_token
                && elements[i].children@.len() == 0 ==> elements[i].range.start
                == elements[i].range.end,
        forall|i: int|
            0 <= i < elements.len() && (#[trigger] elements[i]).children@.len() > 0 ==> {
                let children = elements[i].children@;
                &&& elements[children[0] as int].range.start == elements[i].range.start
                &&& elements[children.last() as int].range.end == elements[i].range.end
            },
        forall|i: int|
            0 <= i < elements.len() ==> ((#[trigger] elements[i]).parent matches Some(p) ==> p < i
                && elements[p as int].children@.contains(i as usize)),
        forall|i: int, k: int|
            0 <= i < elements.len() && 0 <= k < elements[i].children@.len() ==> {
                let child = #[trigger] elements[i].children@[k];
                &&& i < child < elements.len()
                &&& elements[child as int].parent == Some(i as usize)
            },
        forall|i: int, k: int|
            0 <= i < elements.len() && 0 < k < elements[i].children@.len() ==> {
                let child = #[trigger] elements[i].children@[k];
                let child_before = elements[i].children@[k - 1];
                &&& child_before < child
                &&& elements[child_before as int].range.end == elements[child as int].range.start
            },
    ensures
        tree_wf(elements),
{
    assert forall|i: int| 0 <= i < elements.len() implies #[trigger] element_wf(elements, i) by {
        let children = elements[i].children@;
        assert forall|k: int| 0 <= k < children.len() implies #[trigger] is_child(
            elements,
            i,
            children,
            k,
        ) by {
            assert(elements[i].children@[k] == children[k]);
        }
        assert forall|k: int| 1 <= k < children.len() implies #[trigger] adjoins(
            elements,
            children,
            k,
        ) by {
            assert(elements[i].children@[k] == children[k]);
        }
    }
}

/// The last token of a token is itself, a node without children has none, and a node has that of
/// its last child.
pub proof fn law_last_tokens(elements: Seq<Element>, i: int)
    requires
        tree_wf(elements),
        0 <= i < elements.len(),
    ensures
        elements[i].is_token ==> last_token(elements, i) == Some(i as usize),
        !elements[i].is_token && elements[i].children@.len() == 0 ==> last_token(elements, i)
            is None,
        elements[i].children@.len() > 0 ==> last_token(elements, i) == last_token(
            elements,
            elements[i].children@.last() as int,
        ),
{
    assert(element_wf(elements, i));
    let children = elements[i].children@;
    if children.len() > 0 {
        assert(is_child(elements, i, children, children.len() - 1));
    }
}

/// In front of a first child stands the token in front of its parent, in front of another child
/// the last token of the child before it, and in front of a root nothing.
pub proof fn law_tokens_in_front(elements: Seq<Element>, p: int, k: int)
    requires
        tree_wf(elements),
        0 <= p < elements.len(),
    ensures
        elements[p].parent is None ==> prev_token(elements, p) is None,
        k == 0 && elements[p].children@.len() > 0 ==> prev_token(
            elements,
            elements[p].children@[k] as int,
        ) == prev_token(elements, p),
        0 < k < elements[p].children@.len() ==> prev_token(
            elements,
            elements[p].children@[k] as int,
        ) == last_token(elements, elements[p].children@[k - 1] as int),
{
    if 0 <= k < elements[p].children@.len() {
        lemma_place(elements, p, k);
    }
}

/// The completed item is the parent of the name, where there is one, or else of the token at the
/// cursor or, if that is white space, of the token in front of it.
pub proof fn law_completed_items(elements: Seq<Element>, token: usize, name: usize)
    ensures
        completed_item(elements, token, Some(name)) == elements[name as int].parent,
        elements[token as int].kind != SyntaxKind::Whitespace ==> completed_item(
            elements,
            token,
            None,
        ) == elements[token as int].parent,
        elements[token as int].kind == SyntaxKind::Whitespace ==> match prev_token(
            elements,
            token as int,
        ) {
            Some(in_front) => completed_item(elements, token, None)
                == elements[in_front as int].parent,
            None => completed_item(elements, token, None) is None,
        },
{
}

/// A completion in an item starts to replace at child `k`, where that is the first which is no
/// comment, white space or attribute, and at the start of the item where there is none.
pub proof fn law_where_replacement_starts(elements: Seq<Element>, item: int, k: int)
    ensures
        ({
            let children = elements[item].children@;
            &&& 0 <= k < children.len() && elements[children[k] as int].kind != SyntaxKind::Comment
                && elements[children[k] as int].kind != SyntaxKind::Whitespace
                && elements[children[k] as int].kind != SyntaxKind::Attr && (forall|j: int|
                0 <= j < k ==> {
                    let kind = elements[#[trigger] children[j] as int].kind;
                    kind == SyntaxKind::Comment || kind == SyntaxKind::Whitespace || kind
                        == SyntaxKind::Attr
                }) ==> replacement_start(elements, item) == elements[children[k] as int].range.start
            &&& (forall|j: int|
                0 <= j < children.len() ==> {
                    let kind = elements[#[trigger] children[j] as int].kind;
                    kind == SyntaxKind::Comment || kind == SyntaxKind::Whitespace || kind
                        == SyntaxKind::Attr
                }) ==> replacement_start(elements, item) == elements[item].range.start
        }),
{
    let children = elements[item].children@;
    let first = lemma_first_replaced(elements, children);
    if first < children.len() {
        assert(!is_left_in_place(elements[children[first] as int].kind));
    }
    if 0 <= k < first {
        assert(is_left_in_place(elements[children[k] as int].kind));
    }
}

/// The `impl` block of an item is its grandparent, wherever that stands, if that is an `impl`
/// block, and there is none if not.
pub proof fn law_impls_are_grandparents(elements: Seq<Element>, item: usize, list: usize, node: usize)
    ensures
        Impl::spec_cast(elements, node) is Some <==> elements[node as int].kind
            == SyntaxKind::Impl,
        elements[item as int].parent is None ==> enclosing_impl(elements, item) is None,
        elements[item as int].parent == Some(list) && elements[list as int].parent is None
            ==> enclosing_impl(elements, item) is None,
        elements[item as int].parent == Some(list) && elements[list as int].parent == Some(node)
            ==> enclosing_impl(elements, item) == if elements[node as int].kind
            == SyntaxKind::Impl {
            Some(Impl { syntax: node })
        } else {
            None
        },
{
}

/// Whether an item is completed depends on its grandparent alone: if that is an `impl` block,
/// wherever it stands, the block is completed, from where replacement starts in the item up to
/// the end of the range at the cursor.
pub proof fn law_items_of_impls_are_completed<
    T: Fn(Impl, ItemSyntax) -> ItemSyntax,
    W: Fn(ItemSyntax) -> ItemSyntax,
>(
    ctx: CompletionContext<T, W>,
    name: Option<usize>,
    kind: ImplCompletionKind,
    before: Seq<CompletionItemView>,
    after: Seq<CompletionItemView>,
    result: Option<()>,
    item: usize,
    list: usize,
    node: usize,
)
    requires
        completes_name(ctx, name, kind, before, after, result),
        completed_item(ctx.tree@, ctx.token, name) == Some(item),
        ctx.tree@[item as int].parent == Some(list),
        ctx.tree@[list as int].parent == Some(node),
        ctx.tree@[node as int].kind == SyntaxKind::Impl,
    ensures
        result == Some(()),
        completes_impl(
            ctx,
            kind,
            (TextRange {
                start: replacement_start(ctx.tree@, item as int),
                end: ctx.source_range.end,
            }),
            (Impl { syntax: node }),
            before,
            after,
        ),
{
}

/// Where there is no item at the cursor, or its grandparent is no `impl` block, there is no
/// result, and nothing is added.
pub proof fn law_other_items_are_not_completed<
    T: Fn(Impl, ItemSyntax) -> ItemSyntax,
    W: Fn(ItemSyntax) -> ItemSyntax,
>(
    ctx: CompletionContext<T, W>,
    name: Option<usize>,
    kind: ImplCompletionKind,
    before: Seq<CompletionItemView>,
    after: Seq<CompletionItemView>,
    result: Option<()>,
)
    requires
        completes_name(ctx, name, kind, before, after, result),
        completed_item(ctx.tree@, ctx.token, name) matches Some(item) ==> (
        ctx.tree@[item as int].parent matches Some(list) ==> (
        ctx.tree@[list as int].parent matches Some(node) ==> ctx.tree@[node as int].kind
            != SyntaxKind::Impl)),
    ensures
        result is None,
        after == before,
{
}

/// A bare name directly in an `impl` block is replaced by items of every kind, and where there is
/// no name yet, the range at the cursor is. Any other path is left alone, and so is a path that
/// stands in no `impl` block.
pub proof fn law_bare_names_complete_to_every_kind<
    T: Fn(Impl, ItemSyntax) -> ItemSyntax,
    W: Fn(ItemSyntax) -> ItemSyntax,
>(
    ctx: CompletionContext<T, W>,
    path_ctx: PathCompletionCtx,
    name_ref: Option<usize>,
    impl_: Option<Impl>,
    before: Seq<CompletionItemView>,
    after: Seq<CompletionItemView>,
)
    requires
        completes_item_by_name(ctx, path_ctx, name_ref, impl_, before, after),
    ensures
        !path_ctx.trivial_path || impl_ is None ==> after == before,
        path_ctx.trivial_path && impl_ is Some && name_ref is Some ==> completes_impl(
            ctx,
            ImplCompletionKind::All,
            ctx.tree@[name_ref->0 as int].range,
            impl_->0,
            before,
            after,
        ),
        path_ctx.trivial_path && impl_ is Some && name_ref is None ==> completes_impl(
            ctx,
            ImplCompletionKind::All,
            ctx.source_range,
            impl_->0,
            before,
            after,
        ),
{
}

} // verus!
