//! Completion items, and the place in a file that they are asked for.

use crate::declaration::ItemSyntax;
use crate::hir::Semantics;
use crate::syntax::{Impl, SyntaxTree};
use crate::text::{TextEdit, TextEditView, TextRange};
use vstd::prelude::*;

verus! {

/// The symbols that associated items are.
#[derive(Copy, Clone, Debug, PartialEq, Eq, Structural)]
pub enum SymbolKind {
    Function,
    TypeAlias,
    Const,
}

/// What a completion stands for.
#[derive(Copy, Clone, Debug, PartialEq, Eq, Structural)]
pub enum CompletionItemKind {
    SymbolKind(SymbolKind),
    Method,
}

/// What ranks a completion.
#[derive(Copy, Clone, Debug, PartialEq, Eq, Structural)]
pub struct CompletionRelevance {
    pub is_item_from_trait: bool,
}

/// The editor takes snippets: inserted text may hold `$0`, where the cursor goes.
#[derive(Copy, Clone, Debug, PartialEq, Eq, Structural)]
pub struct SnippetCap {}

/// A [`CompletionItem`], over mathematical text.
#[verifier::ext_equal]
pub struct CompletionItemView {
    pub kind: CompletionItemKind,
    pub source_range: TextRange,
    pub label: Seq<char>,
    pub lookup: Seq<char>,
    pub documentation: Option<Seq<char>>,
    pub relevance: CompletionRelevance,
    pub is_snippet: bool,
    pub text_edit: TextEditView,
}

/// One completion: what the editor shows, what it filters by, and the edit that it makes.
#[derive(Debug, PartialEq, Eq)]
pub struct CompletionItem {
    pub kind: CompletionItemKind,
    pub source_range: TextRange,
    pub label: String,
    pub lookup: String,
    pub documentation: Option<String>,
    pub relevance: CompletionRelevance,
    pub is_snippet: bool,
    pub text_edit: TextEdit,
}

/// The characters of a text that may be absent.
pub open spec fn text_view(text: Option<String>) -> Option<Seq<char>> {
    match text {
        Some(text) => Some(text@),
        None => None,
    }
}

/// A copy of a text that may be absent.
pub fn copy_text(text: &Option<String>) -> (copied: Option<String>)
    ensures
        text_view(copied) == text_view(*text),
        copied is Some <==> text is Some,
        text matches Some(text) ==> copied->0@ == text@,
{
    match text {
        Some(text) => Some(text.clone()),
        None => None,
    }
}

impl View for CompletionItem {
    type V = CompletionItemView;

    open spec fn view(&self) -> CompletionItemView {
        CompletionItemView {
            kind: self.kind,
            source_range: self.source_range,
            label: self.label@,
            lookup: self.lookup@,
            documentation: text_view(self.documentation),
            relevance: self.relevance,
            is_snippet: self.is_snippet,
            text_edit: self.text_edit@,
        }
    }
}

/// The completions found so far, in the order in which they were found.
#[derive(Debug, PartialEq, Eq)]
pub struct Completions {
    pub items: Vec<CompletionItem>,
}

impl View for Completions {
    type V = Seq<CompletionItemView>;

    open spec fn view(&self) -> Seq<CompletionItemView> {
        Seq::new(self.items@.len(), |i: int| self.items@[i]@)
    }
}

impl Completions {
    /// No completions yet.
    pub fn new() -> (acc: Completions)
        ensures
            acc@ == Seq::<CompletionItemView>::empty(),
            acc.items@.len() == 0,
    {
        let acc = Completions { items: Vec::new() };
        assert(acc@ =~= Seq::<CompletionItemView>::empty());
        acc
    }

    /// Adds `item` behind the others.
    pub fn add(&mut self, item: CompletionItem)
        ensures
            final(self)@ == old(self)@.push(item@),
            final(self).items@ == old(self).items@.push(item),
    {
        let ghost before = self@;
        self.items.push(item);
        assert(self@ =~= before.push(item@));
    }
}

/// Where completions are asked for: the token at the cursor, the range that a completion
/// replaces, what the editor can do, and what is known of the code.
pub struct CompletionContext<T, W> {
    pub tree: SyntaxTree,
    pub token: usize,
    pub source_range: TextRange,
    pub snippet_cap: Option<SnippetCap>,
    pub sema: Semantics<T, W>,
}

impl<
    T: Fn(Impl, ItemSyntax) -> ItemSyntax,
    W: Fn(ItemSyntax) -> ItemSyntax,
> CompletionContext<T, W> {
    /// The token is one of the tree, and tree and semantics are well-formed.
    pub open spec fn wf(&self) -> bool {
        &&& self.tree.wf()
        &&& self.token < self.tree@.len()
        &&& self.sema.wf()
    }
}

/// The path that stands at the cursor, as far as completion looks at it: whether it is a bare
/// name, without qualifier, arguments or calls.
#[derive(Copy, Clone, Debug, PartialEq, Eq, Structural)]
pub struct PathCompletionCtx {
    pub trivial_path: bool,
}

impl PathCompletionCtx {
    /// Whether the path is a bare name.
    pub fn is_trivial_path(&self) -> (trivial: bool)
        ensures
            trivial == self.trivial_path,
    {
        self.trivial_path
    }
}

} // verus!
