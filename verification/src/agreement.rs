//! How the completions of several calls agree.
//!
//! The two transformations that are passed in may answer as they like. What is said here of two
//! calls rests on their answering equal items equally.

use crate::completion::{CompletionContext, CompletionItemKind, CompletionItemView, SymbolKind};
use crate::declaration::{
    const_head, function_head, is_const_compl_syntax, is_function_declaration, is_spaced,
    without_attrs_and_docs, ItemSyntax, ItemView,
};
use crate::hir::{is_inlined, resolved, AssocItem, Const, Function, ImplDef, Source};
use crate::laws::{
    extends_plain, law_completion_fits_its_item, law_removing_twice_is_removing_once,
    law_snippets_only_add_text,
};
use crate::syntax::Impl;
use crate::text::TextRange;
use crate::trait_impl::{
    asks_for, completes, completes_const, completes_function, completes_impl, const_item,
    function_item, offered, offers, ImplCompletionKind,
};
use vstd::prelude::*;

verus! {

/// `insert_ws` and `other` answer equal items equally.
pub open spec fn space_alike<V: Fn(ItemSyntax) -> ItemSyntax, W: Fn(ItemSyntax) -> ItemSyntax>(
    insert_ws: V,
    other: W,
) -> bool {
    forall|a: ItemSyntax, b: ItemSyntax, x: ItemSyntax, y: ItemSyntax|
        a@ == b@ && #[trigger] call_ensures(insert_ws, (a,), x) && #[trigger] call_ensures(
            other,
            (b,),
            y,
        ) ==> x@ == y@
}

/// `path_transform`, from `impl_`, and `other`, from `other_impl`, answer equal items equally.
pub open spec fn transform_alike<
    T: Fn(Impl, ItemSyntax) -> ItemSyntax,
    U: Fn(Impl, ItemSyntax) -> ItemSyntax,
>(path_transform: T, impl_: Impl, other: U, other_impl: Impl) -> bool {
    forall|a: ItemSyntax, b: ItemSyntax, x: ItemSyntax, y: ItemSyntax|
        a@ == b@ && #[trigger] call_ensures(path_transform, (impl_, a), x)
            && #[trigger] call_ensures(other, (other_impl, b), y) ==> x@ == y@
}

/// Seen from `impl_` in `ctx` and from `other_impl` in `other`, items are transformed alike.
pub open spec fn analyse_alike<
    T: Fn(Impl, ItemSyntax) -> ItemSyntax,
    W: Fn(ItemSyntax) -> ItemSyntax,
    U: Fn(Impl, ItemSyntax) -> ItemSyntax,
    V: Fn(ItemSyntax) -> ItemSyntax,
>(
    ctx: CompletionContext<T, W>,
    impl_: Impl,
    other: CompletionContext<U, V>,
    other_impl: Impl,
) -> bool {
    &&& transform_alike(ctx.sema.path_transform, impl_, other.sema.path_transform, other_impl)
    &&& space_alike(ctx.sema.insert_ws, other.sema.insert_ws)
}

/// What `after` has behind `before`.
pub open spec fn added(
    before: Seq<CompletionItemView>,
    after: Seq<CompletionItemView>,
) -> Seq<CompletionItemView> {
    after.skip(before.len() as int)
}

/// The completions are one for each of `assoc_items`, in their order.
pub open spec fn complete_each<
    T: Fn(Impl, ItemSyntax) -> ItemSyntax,
    W: Fn(ItemSyntax) -> ItemSyntax,
>(
    ctx: CompletionContext<T, W>,
    range: TextRange,
    impl_: Impl,
    assoc_items: Seq<AssocItem>,
    completions: Seq<CompletionItemView>,
) -> bool {
    &&& completions.len() == assoc_items.len()
    &&& forall|i: int|
        0 <= i < assoc_items.len() ==> completes(
            ctx,
            range,
            impl_,
            #[trigger] assoc_items[i],
            completions[i],
        )
}

/// `item` is a completion for the items that `kind` asks for.
pub open spec fn is_of_kind(kind: ImplCompletionKind, item: CompletionItemView) -> bool {
    match kind {
        ImplCompletionKind::All => true,
        ImplCompletionKind::Fn => item.kind == CompletionItemKind::Method || item.kind
            == CompletionItemKind::SymbolKind(SymbolKind::Function),
        ImplCompletionKind::TypeAlias => item.kind == CompletionItemKind::SymbolKind(
            SymbolKind::TypeAlias,
        ),
        ImplCompletionKind::Const => item.kind == CompletionItemKind::SymbolKind(
            SymbolKind::Const,
        ),
    }
}

// Two calls of the functions for one item.

/// The declaration of a function, and its declaration once more after attributes and docs were
/// removed, are one text; and so is the declaration of an equal function.
pub proof fn law_second_declaration_is_the_first<
    V: Fn(ItemSyntax) -> ItemSyntax,
    W: Fn(ItemSyntax) -> ItemSyntax,
>(
    insert_ws: V,
    other: W,
    needs_whitespace: bool,
    item: ItemView,
    first: Seq<char>,
    again: Seq<char>,
)
    requires
        space_alike(insert_ws, other),
        is_function_declaration(insert_ws, needs_whitespace, item, first),
        is_function_declaration(other, needs_whitespace, item, again) || is_function_declaration(
            other,
            needs_whitespace,
            without_attrs_and_docs(item),
            again,
        ),
    ensures
        first == again,
{
    law_removing_twice_is_removing_once(item);
    let stripped = without_attrs_and_docs(item);
    let a = choose|a: ItemView| #[trigger]
        is_spaced(insert_ws, needs_whitespace, stripped, a) && first
            == function_head(a);
    let b = choose|b: ItemView| #[trigger]
        is_spaced(other, needs_whitespace, stripped, b) && again
            == function_head(b);
    lemma_spaced_once(insert_ws, other, needs_whitespace, stripped, a, b);
}

/// What is written of a constant, and what is written once more after attributes and docs were
/// removed, are one text; and so is what is written of an equal constant.
pub proof fn law_second_const_syntax_is_the_first<
    V: Fn(ItemSyntax) -> ItemSyntax,
    W: Fn(ItemSyntax) -> ItemSyntax,
>(
    insert_ws: V,
    other: W,
    needs_whitespace: bool,
    item: ItemView,
    first: Seq<char>,
    again: Seq<char>,
)
    requires
        space_alike(insert_ws, other),
        is_const_compl_syntax(insert_ws, needs_whitespace, item, first),
        is_const_compl_syntax(other, needs_whitespace, item, again) || is_const_compl_syntax(
            other,
            needs_whitespace,
            without_attrs_and_docs(item),
            again,
        ),
    ensures
        first == again,
{
    law_removing_twice_is_removing_once(item);
    let stripped = without_attrs_and_docs(item);
    let a = choose|a: ItemView| #[trigger]
        is_spaced(insert_ws, needs_whitespace, stripped, a) && first
            == const_head(a);
    let b = choose|b: ItemView| #[trigger]
        is_spaced(other, needs_whitespace, stripped, b) && again
            == const_head(b);
    lemma_spaced_once(insert_ws, other, needs_whitespace, stripped, a, b);
}

proof fn lemma_spaced_once<V: Fn(ItemSyntax) -> ItemSyntax, W: Fn(ItemSyntax) -> ItemSyntax>(
    insert_ws: V,
    other: W,
    needs_whitespace: bool,
    item: ItemView,
    a: ItemView,
    b: ItemView,
)
    requires
        space_alike(insert_ws, other),
        is_spaced(insert_ws, needs_whitespace, item, a),
        is_spaced(other, needs_whitespace, item, b),
    ensures
        a == b,
{
}

proof fn lemma_inlined_once<
    T: Fn(Impl, ItemSyntax) -> ItemSyntax,
    U: Fn(Impl, ItemSyntax) -> ItemSyntax,
>(
    path_transform: T,
    impl_: Impl,
    other: U,
    other_impl: Impl,
    item: ItemView,
    a: ItemView,
    b: ItemView,
)
    requires
        transform_alike(path_transform, impl_, other, other_impl),
        is_inlined(path_transform, impl_, item, a),
        is_inlined(other, other_impl, item, b),
    ensures
        a == b,
{
}

/// Two completions for one function differ at most in what snippets make of its declaration.
proof fn lemma_function_twice<
    T: Fn(Impl, ItemSyntax) -> ItemSyntax,
    W: Fn(ItemSyntax) -> ItemSyntax,
    U: Fn(Impl, ItemSyntax) -> ItemSyntax,
    V: Fn(ItemSyntax) -> ItemSyntax,
>(
    ctx: CompletionContext<T, W>,
    impl_: Impl,
    other: CompletionContext<U, V>,
    other_impl: Impl,
    range: TextRange,
    func: Function,
    source: Source,
    a: CompletionItemView,
    b: CompletionItemView,
) -> (declaration: Seq<char>)
    requires
        analyse_alike(ctx, impl_, other, other_impl),
        completes_function(ctx, range, impl_, func, source, a),
        completes_function(other, range, other_impl, func, source, b),
    ensures
        a == function_item(ctx.snippet_cap is Some, range, func, declaration),
        b == function_item(other.snippet_cap is Some, range, func, declaration),
{
    let (x, p) = choose|x: ItemView, p: Seq<char>|
        {
            &&& #[trigger] is_inlined(ctx.sema.path_transform, impl_, source.value@, x)
            &&& #[trigger] is_function_declaration(
                ctx.sema.insert_ws,
                source.file_is_macro,
                without_attrs_and_docs(x),
                p,
            )
            &&& a == function_item(ctx.snippet_cap is Some, range, func, p)
        };
    let (y, q) = choose|y: ItemView, q: Seq<char>|
        {
            &&& #[trigger] is_inlined(other.sema.path_transform, other_impl, source.value@, y)
            &&& #[trigger] is_function_declaration(
                other.sema.insert_ws,
                source.file_is_macro,
                without_attrs_and_docs(y),
                q,
            )
            &&& b == function_item(other.snippet_cap is Some, range, func, q)
        };
    lemma_inlined_once(
        ctx.sema.path_transform,
        impl_,
        other.sema.path_transform,
        other_impl,
        source.value@,
        x,
        y,
    );
    law_second_declaration_is_the_first(
        ctx.sema.insert_ws,
        other.sema.insert_ws,
        source.file_is_macro,
        without_attrs_and_docs(x),
        p,
        q,
    );
    p
}

/// Two completions for one constant differ at most in what snippets make of its head.
proof fn lemma_const_twice<
    T: Fn(Impl, ItemSyntax) -> ItemSyntax,
    W: Fn(ItemSyntax) -> ItemSyntax,
    U: Fn(Impl, ItemSyntax) -> ItemSyntax,
    V: Fn(ItemSyntax) -> ItemSyntax,
>(
    ctx: CompletionContext<T, W>,
    impl_: Impl,
    other: CompletionContext<U, V>,
    other_impl: Impl,
    range: TextRange,
    const_: Const,
    name: Seq<char>,
    source: Source,
    a: CompletionItemView,
    b: CompletionItemView,
) -> (label: Seq<char>)
    requires
        analyse_alike(ctx, impl_, other, other_impl),
        completes_const(ctx, range, impl_, const_, name, source, a),
        completes_const(other, range, other_impl, const_, name, source, b),
    ensures
        a == const_item(ctx.snippet_cap is Some, range, const_, name, label),
        b == const_item(other.snippet_cap is Some, range, const_, name, label),
{
    let (x, p) = choose|x: ItemView, p: Seq<char>|
        {
            &&& #[trigger] is_inlined(ctx.sema.path_transform, impl_, source.value@, x)
            &&& #[trigger] is_const_compl_syntax(
                ctx.sema.insert_ws,
                source.file_is_macro,
                without_attrs_and_docs(x),
                p,
            )
            &&& a == const_item(ctx.snippet_cap is Some, range, const_, name, p)
        };
    let (y, q) = choose|y: ItemView, q: Seq<char>|
        {
            &&& #[trigger] is_inlined(other.sema.path_transform, other_impl, source.value@, y)
            &&& #[trigger] is_const_compl_syntax(
                other.sema.insert_ws,
                source.file_is_macro,
                without_attrs_and_docs(y),
                q,
            )
            &&& b == const_item(other.snippet_cap is Some, range, const_, name, q)
        };
    lemma_inlined_once(
        ctx.sema.path_transform,
        impl_,
        other.sema.path_transform,
        other_impl,
        source.value@,
        x,
        y,
    );
    law_second_const_syntax_is_the_first(
        ctx.sema.insert_ws,
        other.sema.insert_ws,
        source.file_is_macro,
        without_attrs_and_docs(x),
        p,
        q,
    );
    p
}

/// A function is completed with and without snippets to items that are alike but for the edit;
/// the snippet inserts the plain text and, behind it, the rest of the block with the cursor in it.
pub proof fn law_function_with_and_without_snippets<
    T: Fn(Impl, ItemSyntax) -> ItemSyntax,
    W: Fn(ItemSyntax) -> ItemSyntax,
    U: Fn(Impl, ItemSyntax) -> ItemSyntax,
    V: Fn(ItemSyntax) -> ItemSyntax,
>(
    with: CompletionContext<T, W>,
    without: CompletionContext<U, V>,
    range: TextRange,
    impl_: Impl,
    func: Function,
    source: Source,
    snippet: CompletionItemView,
    plain: CompletionItemView,
)
    requires
        analyse_alike(with, impl_, without, impl_),
        with.snippet_cap is Some,
        without.snippet_cap is None,
        completes_function(with, range, impl_, func, source, snippet),
        completes_function(without, range, impl_, func, source, plain),
    ensures
        extends_plain(plain, snippet, "\n    $0\n}"@),
{
    let declaration = lemma_function_twice(
        with,
        impl_,
        without,
        impl_,
        range,
        func,
        source,
        snippet,
        plain,
    );
    law_snippets_only_add_text(
        range,
        func,
        declaration,
        arbitrary(),
        arbitrary(),
        seq![],
        seq![],
    );
}

/// A constant is completed with and without snippets to items that are alike but for the edit:
/// the plain text is the label and a space, the snippet has the cursor and a semicolon behind it.
pub proof fn law_const_with_and_without_snippets<
    T: Fn(Impl, ItemSyntax) -> ItemSyntax,
    W: Fn(ItemSyntax) -> ItemSyntax,
    U: Fn(Impl, ItemSyntax) -> ItemSyntax,
    V: Fn(ItemSyntax) -> ItemSyntax,
>(
    with: CompletionContext<T, W>,
    without: CompletionContext<U, V>,
    range: TextRange,
    impl_: Impl,
    const_: Const,
    name: Seq<char>,
    source: Source,
    snippet: CompletionItemView,
    plain: CompletionItemView,
)
    requires
        analyse_alike(with, impl_, without, impl_),
        with.snippet_cap is Some,
        without.snippet_cap is None,
        completes_const(with, range, impl_, const_, name, source, snippet),
        completes_const(without, range, impl_, const_, name, source, plain),
    ensures
        extends_plain(plain, snippet, "$0;"@),
        plain.text_edit.insert == plain.label + " "@,
        snippet.text_edit.insert == snippet.label + " $0;"@,
{
    let label = lemma_const_twice(
        with,
        impl_,
        without,
        impl_,
        range,
        const_,
        name,
        source,
        snippet,
        plain,
    );
    law_snippets_only_add_text(range, arbitrary(), seq![], arbitrary(), const_, name, label);
    reveal_strlit(" ");
    reveal_strlit("$0;");
    reveal_strlit(" $0;");
    assert(snippet.text_edit.insert =~= snippet.label + " $0;"@);
}

/// Where snippets are taken in both contexts or in neither, one item has one completion.
pub proof fn law_one_item_has_one_completion<
    T: Fn(Impl, ItemSyntax) -> ItemSyntax,
    W: Fn(ItemSyntax) -> ItemSyntax,
    U: Fn(Impl, ItemSyntax) -> ItemSyntax,
    V: Fn(ItemSyntax) -> ItemSyntax,
>(
    ctx: CompletionContext<T, W>,
    impl_: Impl,
    other: CompletionContext<U, V>,
    other_impl: Impl,
    range: TextRange,
    assoc_item: AssocItem,
    a: CompletionItemView,
    b: CompletionItemView,
)
    requires
        analyse_alike(ctx, impl_, other, other_impl),
        ctx.snippet_cap is Some == other.snippet_cap is Some,
        completes(ctx, range, impl_, assoc_item, a),
        completes(other, range, other_impl, assoc_item, b),
    ensures
        a == b,
{
    match assoc_item {
        AssocItem::Function(func) => {
            let _ = lemma_function_twice(
                ctx,
                impl_,
                other,
                other_impl,
                range,
                func,
                func.source->0,
                a,
                b,
            );
        },
        AssocItem::TypeAlias(_) => {},
        AssocItem::Const(const_) => {
            let _ = lemma_const_twice(
                ctx,
                impl_,
                other,
                other_impl,
                range,
                const_,
                const_.name->0.text@,
                const_.source->0,
                a,
                b,
            );
        },
    }
}

// Several calls for a whole `impl` block.

proof fn lemma_added<T: Fn(Impl, ItemSyntax) -> ItemSyntax, W: Fn(ItemSyntax) -> ItemSyntax>(
    ctx: CompletionContext<T, W>,
    kind: ImplCompletionKind,
    range: TextRange,
    impl_: Impl,
    before: Seq<CompletionItemView>,
    after: Seq<CompletionItemView>,
)
    requires
        completes_impl(ctx, kind, range, impl_, before, after),
    ensures
        after == before + added(before, after),
        match resolved(ctx.sema.impls@, impl_) {
            Some(def) => complete_each(
                ctx,
                range,
                impl_,
                offered(kind, def, def.missing_assoc_items@),
                added(before, after),
            ),
            None => added(before, after) == Seq::<CompletionItemView>::empty(),
        },
{
    let new = added(before, after);
    match resolved(ctx.sema.impls@, impl_) {
        Some(def) => {
            let items = offered(kind, def, def.missing_assoc_items@);
            assert(after =~= after.take(before.len() as int) + new);
            assert forall|i: int| 0 <= i < items.len() implies completes(
                ctx,
                range,
                impl_,
                #[trigger] items[i],
                new[i],
            ) by {
                assert(new[i] == after[before.len() + i]);
            }
        },
        None => {
            assert(new =~= Seq::<CompletionItemView>::empty());
            assert(after =~= before + new);
        },
    }
}

proof fn lemma_each_twice<
    T: Fn(Impl, ItemSyntax) -> ItemSyntax,
    W: Fn(ItemSyntax) -> ItemSyntax,
    U: Fn(Impl, ItemSyntax) -> ItemSyntax,
    V: Fn(ItemSyntax) -> ItemSyntax,
>(
    ctx: CompletionContext<T, W>,
    impl_: Impl,
    other: CompletionContext<U, V>,
    other_impl: Impl,
    range: TextRange,
    assoc_items: Seq<AssocItem>,
    a: Seq<CompletionItemView>,
    b: Seq<CompletionItemView>,
)
    requires
        analyse_alike(ctx, impl_, other, other_impl),
        ctx.snippet_cap is Some == other.snippet_cap is Some,
        complete_each(ctx, range, impl_, assoc_items, a),
        complete_each(other, range, other_impl, assoc_items, b),
    ensures
        a == b,
{
    assert forall|i: int| 0 <= i < assoc_items.len() implies a[i] == b[i] by {
        assert(completes(ctx, range, impl_, assoc_items[i], a[i]));
        assert(completes(other, range, other_impl, assoc_items[i], b[i]));
        law_one_item_has_one_completion(
            ctx,
            impl_,
            other,
            other_impl,
            range,
            assoc_items[i],
            a[i],
            b[i],
        );
    }
    assert(a =~= b);
}

/// Two calls that ask for the same add the same completions, whatever was there before: nothing
/// that was there is removed or moved, and nothing is left out because it was there. Two calls in
/// a row add them twice.
pub proof fn law_two_calls_add_the_same<
    T: Fn(Impl, ItemSyntax) -> ItemSyntax,
    W: Fn(ItemSyntax) -> ItemSyntax,
>(
    ctx: CompletionContext<T, W>,
    kind: ImplCompletionKind,
    range: TextRange,
    impl_: Impl,
    before: Seq<CompletionItemView>,
    after: Seq<CompletionItemView>,
    other_before: Seq<CompletionItemView>,
    other_after: Seq<CompletionItemView>,
)
    requires
        analyse_alike(ctx, impl_, ctx, impl_),
        completes_impl(ctx, kind, range, impl_, before, after),
        completes_impl(ctx, kind, range, impl_, other_before, other_after),
    ensures
        added(before, after) == added(other_before, other_after),
        after == before + added(before, after),
        other_after == other_before + added(before, after),
        other_before == after ==> other_after == before + added(before, after) + added(
            before,
            after,
        ),
{
    lemma_added(ctx, kind, range, impl_, before, after);
    lemma_added(ctx, kind, range, impl_, other_before, other_after);
    if let Some(def) = resolved(ctx.sema.impls@, impl_) {
        lemma_each_twice(
            ctx,
            impl_,
            ctx,
            impl_,
            range,
            offered(kind, def, def.missing_assoc_items@),
            added(before, after),
            added(other_before, other_after),
        );
    }
}

/// What is added for one kind is what is added for all, without the completions of other kinds.
pub proof fn law_one_kind_adds_its_part_of_all<
    T: Fn(Impl, ItemSyntax) -> ItemSyntax,
    W: Fn(ItemSyntax) -> ItemSyntax,
>(
    ctx: CompletionContext<T, W>,
    kind: ImplCompletionKind,
    range: TextRange,
    impl_: Impl,
    before: Seq<CompletionItemView>,
    after: Seq<CompletionItemView>,
    all_before: Seq<CompletionItemView>,
    all_after: Seq<CompletionItemView>,
)
    requires
        analyse_alike(ctx, impl_, ctx, impl_),
        completes_impl(ctx, kind, range, impl_, before, after),
        completes_impl(ctx, ImplCompletionKind::All, range, impl_, all_before, all_after),
    ensures
        added(before, after) == added(all_before, all_after).filter(
            |item: CompletionItemView| is_of_kind(kind, item),
        ),
{
    lemma_added(ctx, kind, range, impl_, before, after);
    lemma_added(ctx, ImplCompletionKind::All, range, impl_, all_before, all_after);
    match resolved(ctx.sema.impls@, impl_) {
        Some(def) => lemma_part_of_all(
            ctx,
            kind,
            range,
            impl_,
            def,
            def.missing_assoc_items@,
            added(before, after),
            added(all_before, all_after),
        ),
        None => {
            reveal(Seq::filter);
        },
    }
}

proof fn lemma_part_of_all<T: Fn(Impl, ItemSyntax) -> ItemSyntax, W: Fn(ItemSyntax) -> ItemSyntax>(
    ctx: CompletionContext<T, W>,
    kind: ImplCompletionKind,
    range: TextRange,
    impl_: Impl,
    def: ImplDef,
    assoc_items: Seq<AssocItem>,
    part: Seq<CompletionItemView>,
    all: Seq<CompletionItemView>,
)
    requires
        analyse_alike(ctx, impl_, ctx, impl_),
        complete_each(ctx, range, impl_, offered(kind, def, assoc_items), part),
        complete_each(ctx, range, impl_, offered(ImplCompletionKind::All, def, assoc_items), all),
    ensures
        part == all.filter(|item: CompletionItemView| is_of_kind(kind, item)),
    decreases assoc_items.len(),
{
    reveal(Seq::filter);
    if assoc_items.len() == 0 {
        assert(part =~= all);
    } else {
        let front = assoc_items.drop_last();
        let last = assoc_items.last();
        let front_items = offered(kind, def, front);
        let all_front_items = offered(ImplCompletionKind::All, def, front);
        if offers(ImplCompletionKind::All, def, last) {
            let all_items = all_front_items.push(last);
            assert(all_items[all_front_items.len() as int] == last);
            assert(completes(ctx, range, impl_, last, all.last()));
            law_completion_fits_its_item(ctx, range, impl_, last, all.last());
            lemma_front_completes(ctx, range, impl_, all_front_items, last, all);
            if asks_for(kind, last) {
                let items = front_items.push(last);
                assert(items[front_items.len() as int] == last);
                assert(completes(ctx, range, impl_, last, part.last()));
                lemma_front_completes(ctx, range, impl_, front_items, last, part);
                lemma_part_of_all(
                    ctx,
                    kind,
                    range,
                    impl_,
                    def,
                    front,
                    part.drop_last(),
                    all.drop_last(),
                );
                law_one_item_has_one_completion(
                    ctx,
                    impl_,
                    ctx,
                    impl_,
                    range,
                    last,
                    part.last(),
                    all.last(),
                );
                assert(part =~= part.drop_last().push(part.last()));
            } else {
                lemma_part_of_all(ctx, kind, range, impl_, def, front, part, all.drop_last());
            }
        } else {
            lemma_part_of_all(ctx, kind, range, impl_, def, front, part, all);
        }
    }
}

proof fn lemma_front_completes<
    T: Fn(Impl, ItemSyntax) -> ItemSyntax,
    W: Fn(ItemSyntax) -> ItemSyntax,
>(
    ctx: CompletionContext<T, W>,
    range: TextRange,
    impl_: Impl,
    front: Seq<AssocItem>,
    last: AssocItem,
    completions: Seq<CompletionItemView>,
)
    requires
        complete_each(ctx, range, impl_, front.push(last), completions),
    ensures
        complete_each(ctx, range, impl_, front, completions.drop_last()),
{
    assert forall|i: int| 0 <= i < front.len() implies completes(
        ctx,
        range,
        impl_,
        #[trigger] front[i],
        completions.drop_last()[i],
    ) by {
        assert(front.push(last)[i] == front[i]);
    }
}

/// The completions for all kinds are an interleaving of those for functions, for types and for
/// constants: each of the three is the part of its kind, in the same order, they make up the
/// whole, and no two have a completion in common.
pub proof fn law_all_interleaves_the_kinds<
    T: Fn(Impl, ItemSyntax) -> ItemSyntax,
    W: Fn(ItemSyntax) -> ItemSyntax,
>(
    ctx: CompletionContext<T, W>,
    range: TextRange,
    impl_: Impl,
    before: Seq<CompletionItemView>,
    functions: Seq<CompletionItemView>,
    types: Seq<CompletionItemView>,
    constants: Seq<CompletionItemView>,
    all: Seq<CompletionItemView>,
)
    requires
        analyse_alike(ctx, impl_, ctx, impl_),
        completes_impl(ctx, ImplCompletionKind::Fn, range, impl_, before, functions),
        completes_impl(ctx, ImplCompletionKind::TypeAlias, range, impl_, before, types),
        completes_impl(ctx, ImplCompletionKind::Const, range, impl_, before, constants),
        completes_impl(ctx, ImplCompletionKind::All, range, impl_, before, all),
    ensures
        added(before, functions) == added(before, all).filter(
            |item: CompletionItemView| is_of_kind(ImplCompletionKind::Fn, item),
        ),
        added(before, types) == added(before, all).filter(
            |item: CompletionItemView| is_of_kind(ImplCompletionKind::TypeAlias, item),
        ),
        added(before, constants) == added(before, all).filter(
            |item: CompletionItemView| is_of_kind(ImplCompletionKind::Const, item),
        ),
        added(before, all).len() == added(before, functions).len() + added(before, types).len()
            + added(before, constants).len(),
        forall|item: CompletionItemView| #[trigger]
            added(before, all).contains(item) ==> {
                ||| added(before, functions).contains(item)
                ||| added(before, types).contains(item)
                ||| added(before, constants).contains(item)
            },
        forall|item: CompletionItemView|
            {
                &&& !(#[trigger] added(before, functions).contains(item) && added(
                    before,
                    types,
                ).contains(item))
                &&& !(added(before, functions).contains(item) && added(before, constants).contains(
                    item,
                ))
            },
        forall|item: CompletionItemView|
            !(#[trigger] added(before, types).contains(item) && added(before, constants).contains(
                item,
            )),
{
    let kinds = (ImplCompletionKind::Fn, ImplCompletionKind::TypeAlias, ImplCompletionKind::Const);
    law_one_kind_adds_its_part_of_all(ctx, kinds.0, range, impl_, before, functions, before, all);
    law_one_kind_adds_its_part_of_all(ctx, kinds.1, range, impl_, before, types, before, all);
    law_one_kind_adds_its_part_of_all(ctx, kinds.2, range, impl_, before, constants, before, all);
    let whole = added(before, all);
    lemma_kinds_make_up_the_whole(whole);
    assert forall|kind: ImplCompletionKind, item: CompletionItemView| #[trigger]
        of_kind(whole, kind).contains(item) == (whole.contains(item) && is_of_kind(kind, item)) by {
        lemma_filter_contains(whole, kind, item);
    }
    assert(added(before, functions) == of_kind(whole, kinds.0));
    assert(added(before, types) == of_kind(whole, kinds.1));
    assert(added(before, constants) == of_kind(whole, kinds.2));
    assert forall|item: CompletionItemView| #[trigger] whole.contains(item) implies {
        ||| added(before, functions).contains(item)
        ||| added(before, types).contains(item)
        ||| added(before, constants).contains(item)
    } by {
        lemma_filter_contains(whole, kinds.0, item);
        lemma_filter_contains(whole, kinds.1, item);
        lemma_filter_contains(whole, kinds.2, item);
    }
}

/// The completions of `kind` among `items`.
pub open spec fn of_kind(
    items: Seq<CompletionItemView>,
    kind: ImplCompletionKind,
) -> Seq<CompletionItemView> {
    items.filter(|item: CompletionItemView| is_of_kind(kind, item))
}

proof fn lemma_filter_contains(
    items: Seq<CompletionItemView>,
    kind: ImplCompletionKind,
    item: CompletionItemView,
)
    ensures
        of_kind(items, kind).contains(item) == (items.contains(item) && is_of_kind(kind, item)),
    decreases items.len(),
{
    reveal(Seq::filter);
    if items.len() > 0 {
        let front = items.drop_last();
        lemma_filter_contains(front, kind, item);
        assert(items =~= front.push(items.last()));
        lemma_push_contains(front, items.last(), item);
        lemma_push_contains(of_kind(front, kind), items.last(), item);
    }
}

proof fn lemma_push_contains(
    items: Seq<CompletionItemView>,
    last: CompletionItemView,
    item: CompletionItemView,
)
    ensures
        items.push(last).contains(item) == (items.contains(item) || last == item),
{
    if items.contains(item) {
        let i = choose|i: int| 0 <= i < items.len() && items[i] == item;
        assert(items.push(last)[i] == item);
    }
    if last == item {
        assert(items.push(last)[items.len() as int] == item);
    }
    if items.push(last).contains(item) && last != item {
        let i = choose|i: int| 0 <= i < items.push(last).len() && items.push(last)[i] == item;
        assert(items[i] == item);
    }
}

proof fn lemma_kinds_make_up_the_whole(items: Seq<CompletionItemView>)
    ensures
        items.len() == of_kind(items, ImplCompletionKind::Fn).len() + of_kind(
            items,
            ImplCompletionKind::TypeAlias,
        ).len() + of_kind(items, ImplCompletionKind::Const).len(),
    decreases items.len(),
{
    reveal(Seq::filter);
    if items.len() > 0 {
        lemma_kinds_make_up_the_whole(items.drop_last());
    }
}

/// An `impl` block that implements one more item, and is otherwise seen alike, is offered the
/// same completions in the same order, without the one for that item; all, where there was none
/// for it.
pub proof fn law_implementing_an_item_drops_its_completion<
    T: Fn(Impl, ItemSyntax) -> ItemSyntax,
    W: Fn(ItemSyntax) -> ItemSyntax,
    U: Fn(Impl, ItemSyntax) -> ItemSyntax,
    V: Fn(ItemSyntax) -> ItemSyntax,
>(
    ctx: CompletionContext<T, W>,
    impl_: Impl,
    def: ImplDef,
    next: CompletionContext<U, V>,
    next_impl: Impl,
    next_def: ImplDef,
    implemented: int,
    kind: ImplCompletionKind,
    range: TextRange,
    before: Seq<CompletionItemView>,
    after: Seq<CompletionItemView>,
    next_before: Seq<CompletionItemView>,
    next_after: Seq<CompletionItemView>,
)
    requires
        analyse_alike(ctx, impl_, next, next_impl),
        ctx.snippet_cap is Some == next.snippet_cap is Some,
        resolved(ctx.sema.impls@, impl_) == Some(def),
        resolved(next.sema.impls@, next_impl) == Some(next_def),
        def.can_transform() == next_def.can_transform(),
        0 <= implemented < def.missing_assoc_items@.len(),
        next_def.missing_assoc_items@ == def.missing_assoc_items@.remove(implemented),
        completes_impl(ctx, kind, range, impl_, before, after),
        completes_impl(next, kind, range, next_impl, next_before, next_after),
    ensures
        ({
            let item = def.missing_assoc_items@[implemented];
            let at = offered(kind, def, def.missing_assoc_items@.take(implemented)).len() as int;
            if offers(kind, def, item) {
                &&& 0 <= at < added(before, after).len()
                &&& completes(ctx, range, impl_, item, added(before, after)[at])
                &&& added(next_before, next_after) == added(before, after).remove(at)
            } else {
                added(next_before, next_after) == added(before, after)
            }
        }),
{
    let missing = def.missing_assoc_items@;
    let item = missing[implemented];
    let items = offered(kind, def, missing);
    let next_items = offered(kind, next_def, missing.remove(implemented));
    let at = offered(kind, def, missing.take(implemented)).len() as int;
    let all = added(before, after);
    let new = added(next_before, next_after);
    lemma_added(ctx, kind, range, impl_, before, after);
    lemma_added(next, kind, range, next_impl, next_before, next_after);
    lemma_offered_alike(kind, def, next_def, missing.remove(implemented));
    lemma_offered_without(kind, def, missing, implemented);
    if offers(kind, def, item) {
        assert(completes(ctx, range, impl_, items[at], all[at]));
        let rest = all.remove(at);
        assert forall|i: int| 0 <= i < next_items.len() implies completes(
            ctx,
            range,
            impl_,
            #[trigger] next_items[i],
            rest[i],
        ) by {
            if i < at {
                assert(next_items[i] == items[i]);
            } else {
                assert(next_items[i] == items[i + 1]);
            }
        }
        lemma_each_twice(ctx, impl_, next, next_impl, range, next_items, rest, new);
    } else {
        lemma_each_twice(ctx, impl_, next, next_impl, range, items, all, new);
    }
}

proof fn lemma_offered_alike(
    kind: ImplCompletionKind,
    def: ImplDef,
    other: ImplDef,
    assoc_items: Seq<AssocItem>,
)
    requires
        def.can_transform() == other.can_transform(),
    ensures
        offered(kind, def, assoc_items) == offered(kind, other, assoc_items),
    decreases assoc_items.len(),
{
    if assoc_items.len() > 0 {
        lemma_offered_alike(kind, def, other, assoc_items.drop_last());
    }
}

proof fn lemma_offered_without(
    kind: ImplCompletionKind,
    def: ImplDef,
    assoc_items: Seq<AssocItem>,
    k: int,
)
    requires
        0 <= k < assoc_items.len(),
    ensures
        ({
            let at = offered(kind, def, assoc_items.take(k)).len() as int;
            let rest = offered(kind, def, assoc_items.remove(k));
            if offers(kind, def, assoc_items[k]) {
                &&& 0 <= at < offered(kind, def, assoc_items).len()
                &&& offered(kind, def, assoc_items)[at] == assoc_items[k]
                &&& rest == offered(kind, def, assoc_items).remove(at)
            } else {
                rest == offered(kind, def, assoc_items)
            }
        }),
    decreases assoc_items.len(),
{
    let front = assoc_items.drop_last();
    let whole = offered(kind, def, assoc_items);
    if k == assoc_items.len() - 1 {
        assert(assoc_items.take(k) =~= front);
        assert(assoc_items.remove(k) =~= front);
        if offers(kind, def, assoc_items[k]) {
            let at = offered(kind, def, front).len() as int;
            assert(whole.remove(at) =~= offered(kind, def, front));
        }
    } else {
        lemma_offered_without(kind, def, front, k);
        assert(front.take(k) =~= assoc_items.take(k));
        assert(assoc_items.remove(k).drop_last() =~= front.remove(k));
        assert(assoc_items.remove(k).last() == assoc_items.last());
        let at = offered(kind, def, assoc_items.take(k)).len() as int;
        if offers(kind, def, assoc_items[k]) && offers(kind, def, assoc_items.last()) {
            assert(whole.remove(at) =~= offered(kind, def, front).remove(at).push(
                assoc_items.last(),
            ));
        }
    }
}

/// Where nothing is missing, nothing is added.
pub proof fn law_nothing_missing_adds_nothing<
    T: Fn(Impl, ItemSyntax) -> ItemSyntax,
    W: Fn(ItemSyntax) -> ItemSyntax,
>(
    ctx: CompletionContext<T, W>,
    kind: ImplCompletionKind,
    range: TextRange,
    impl_: Impl,
    def: ImplDef,
    before: Seq<CompletionItemView>,
    after: Seq<CompletionItemView>,
)
    requires
        resolved(ctx.sema.impls@, impl_) == Some(def),
        def.missing_assoc_items@.len() == 0,
        completes_impl(ctx, kind, range, impl_, before, after),
    ensures
        after == before,
{
    lemma_added(ctx, kind, range, impl_, before, after);
    assert(before + added(before, after) =~= before);
}

} // verus!
