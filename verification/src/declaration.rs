//! The head of an associated item's declaration: what a completion writes out of it.

use crate::syntax::SyntaxKind;
use crate::text::{join, trimmed};
use vstd::prelude::*;

verus! {

/// A [`SyntaxElement`], over mathematical text.
#[verifier::ext_equal]
pub enum ElementView {
    Node { kind: SyntaxKind, children: Seq<ElementView> },
    Token { kind: SyntaxKind, text: Seq<char> },
}

impl ElementView {
    /// The kind of the node or token.
    pub open spec fn kind(self) -> SyntaxKind {
        match self {
            ElementView::Node { kind, .. } => kind,
            ElementView::Token { kind, .. } => kind,
        }
    }

    /// The text that the node or token covers.
    pub open spec fn text(self) -> Seq<char>
        decreases self,
    {
        match self {
            ElementView::Node { children, .. } => text_of(children),
            ElementView::Token { text, .. } => text,
        }
    }
}

/// The text that `elements` cover, one behind the other.
pub open spec fn text_of(elements: Seq<ElementView>) -> Seq<char>
    decreases elements,
{
    if elements.len() == 0 {
        seq![]
    } else {
        text_of(elements.drop_last()) + elements.last().text()
    }
}

/// A node or a token in an [`ItemSyntax`].
#[derive(Debug, PartialEq, Eq)]
pub enum SyntaxElement {
    Node { kind: SyntaxKind, children: Vec<SyntaxElement> },
    Token { kind: SyntaxKind, text: String },
}

impl View for SyntaxElement {
    type V = ElementView;

    open spec fn view(&self) -> ElementView
        decreases self,
    {
        match *self {
            SyntaxElement::Node { kind, children } => ElementView::Node {
                kind,
                children: Seq::new(
                    children@.len(),
                    |i: int|
                        if 0 <= i < children@.len() {
                            children@[i].view()
                        } else {
                            arbitrary()
                        },
                ),
            },
            SyntaxElement::Token { kind, text } => ElementView::Token { kind, text: text@ },
        }
    }
}

/// The elements of a vector, over mathematical text.
pub open spec fn views(elements: Seq<SyntaxElement>) -> Seq<ElementView> {
    Seq::new(elements.len(), |i: int| elements[i]@)
}

/// An [`ItemSyntax`], over mathematical text.
#[verifier::ext_equal]
pub struct ItemView {
    pub kind: SyntaxKind,
    pub children: Seq<ElementView>,
}

/// An associated item on its own, cut loose from its file.
#[derive(Debug, PartialEq, Eq)]
pub struct ItemSyntax {
    pub kind: SyntaxKind,
    pub children: Vec<SyntaxElement>,
}

impl View for ItemSyntax {
    type V = ItemView;

    open spec fn view(&self) -> ItemView {
        ItemView { kind: self.kind, children: views(self.children@) }
    }
}

/// Attributes and comments, doc comments among them.
pub open spec fn is_attr_or_comment(kind: SyntaxKind) -> bool {
    kind == SyntaxKind::Attr || kind == SyntaxKind::Comment
}

/// Child `i` is no attribute and no comment, nor the white space directly behind one.
pub open spec fn is_kept(children: Seq<ElementView>, i: int) -> bool {
    &&& !is_attr_or_comment(children[i].kind())
    &&& !(children[i].kind() == SyntaxKind::Whitespace && i > 0 && is_attr_or_comment(
        children[i - 1].kind(),
    ))
}

/// The ones of `children` that stay when attributes and docs are removed.
pub open spec fn kept(children: Seq<ElementView>) -> Seq<ElementView>
    decreases children.len(),
{
    if children.len() == 0 {
        seq![]
    } else {
        let front = kept(children.drop_last());
        if is_kept(children, children.len() - 1) {
            front.push(children.last())
        } else {
            front
        }
    }
}

/// `item` with its attributes and docs removed.
pub open spec fn without_attrs_and_docs(item: ItemView) -> ItemView {
    ItemView { kind: item.kind, children: kept(item.children) }
}

/// How many children of a function stand in front of its body, or of the semicolon in its place.
pub open spec fn function_head_len(children: Seq<ElementView>) -> int {
    if children.len() > 0 && (children.last().kind() == SyntaxKind::Semicolon
        || children.last().kind() == SyntaxKind::BlockExpr) {
        children.len() - 1
    } else {
        children.len() as int
    }
}

/// Where the type of a constant is over.
pub open spec fn ends_const_head(kind: SyntaxKind) -> bool {
    kind == SyntaxKind::Semicolon || kind == SyntaxKind::Eq
}

/// How many children of a constant stand in front of its first `=` or `;`.
pub open spec fn const_head_len(children: Seq<ElementView>) -> int
    decreases children.len(),
{
    if children.len() == 0 || ends_const_head(children[0].kind()) {
        0
    } else {
        1 + const_head_len(children.drop_first())
    }
}

/// A function's declaration without its body or semicolon.
pub open spec fn function_head(item: ItemView) -> Seq<char> {
    trimmed(text_of(item.children.take(function_head_len(item.children))))
}

/// A constant's declaration up to its value, ended by an equals sign.
pub open spec fn const_head(item: ItemView) -> Seq<char> {
    trimmed(text_of(item.children.take(const_head_len(item.children)))) + " ="@
}

/// What becomes of `item` where it may need white space: an answer of `insert_ws` to it if it
/// does, and the item itself if not.
pub open spec fn is_spaced<W: Fn(ItemSyntax) -> ItemSyntax>(
    insert_ws: W,
    needs_whitespace: bool,
    item: ItemView,
    spaced: ItemView,
) -> bool {
    if needs_whitespace {
        exists|asked: ItemSyntax, answer: ItemSyntax|
            asked@ == item && #[trigger] call_ensures(insert_ws, (asked,), answer) && answer@
                == spaced
    } else {
        spaced == item
    }
}

/// `text` is what [`function_declaration`] makes of `item`.
pub open spec fn is_function_declaration<W: Fn(ItemSyntax) -> ItemSyntax>(
    insert_ws: W,
    needs_whitespace: bool,
    item: ItemView,
    text: Seq<char>,
) -> bool {
    exists|spaced: ItemView| #[trigger]
        is_spaced(insert_ws, needs_whitespace, without_attrs_and_docs(item), spaced) && text
            == function_head(spaced)
}

/// `text` is what [`make_const_compl_syntax`] makes of `item`.
pub open spec fn is_const_compl_syntax<W: Fn(ItemSyntax) -> ItemSyntax>(
    insert_ws: W,
    needs_whitespace: bool,
    item: ItemView,
    text: Seq<char>,
) -> bool {
    exists|spaced: ItemView| #[trigger]
        is_spaced(insert_ws, needs_whitespace, without_attrs_and_docs(item), spaced) && text
            == const_head(spaced)
}

/// The head of a constant ends where its first `=` or `;` stands.
pub proof fn lemma_const_head_len(children: Seq<ElementView>, n: int)
    requires
        0 <= n <= children.len(),
        forall|i: int| 0 <= i < n ==> !ends_const_head((#[trigger] children[i]).kind()),
        n < children.len() ==> ends_const_head(children[n].kind()),
    ensures
        const_head_len(children) == n,
    decreases n,
{
    if n > 0 {
        let rest = children.drop_first();
        assert forall|i: int| 0 <= i < n - 1 implies !ends_const_head(
            (#[trigger] rest[i]).kind(),
        ) by {
            assert(rest[i] == children[i + 1]);
        }
        lemma_const_head_len(rest, n - 1);
        assert(!ends_const_head(children[0].kind()));
    }
}

/// A copy of `elements`.
fn copy_all(elements: &Vec<SyntaxElement>) -> (copied: Vec<SyntaxElement>)
    ensures
        views(copied@) == views(elements@),
    decreases elements,
{
    let mut copied: Vec<SyntaxElement> = Vec::new();
    let mut i: usize = 0;
    while i < elements.len()
        invariant
            i <= elements.len(),
            copied.len() == i,
            forall|j: int| 0 <= j < i ==> (#[trigger] copied@[j])@ == elements@[j]@,
        decreases elements.len() - i,
    {
        let element = &elements[i];
        assert(decreases_to!(elements => elements@[i as int]));
        copied.push(element.copy());
        i += 1;
    }
    assert(views(copied@) =~= views(elements@));
    copied
}

impl SyntaxElement {
    /// The kind of the node or token.
    pub fn kind(&self) -> (kind: SyntaxKind)
        ensures
            kind == self@.kind(),
    {
        match self {
            SyntaxElement::Node { kind, .. } => *kind,
            SyntaxElement::Token { kind, .. } => *kind,
        }
    }

    /// A copy of the node or token.
    fn copy(&self) -> (copied: SyntaxElement)
        ensures
            copied@ == self@,
        decreases self,
    {
        match self {
            SyntaxElement::Node { kind, children } => {
                let copied = SyntaxElement::Node { kind: *kind, children: copy_all(children) };
                proof {
                    lemma_node_view(*self);
                    lemma_node_view(copied);
                }
                copied
            },
            SyntaxElement::Token { kind, text } => SyntaxElement::Token {
                kind: *kind,
                text: text.clone(),
            },
        }
    }

    /// Writes the text of the node or token behind `text`.
    fn write_text(&self, text: &mut String)
        ensures
            final(text)@ == old(text)@ + self@.text(),
        decreases self, 0nat,
    {
        match self {
            SyntaxElement::Node { children, .. } => {
                write_all(children, children.len(), text);
                proof {
                    lemma_node_view(*self);
                    assert(views(children@).take(children@.len() as int) =~= views(children@));
                }
            },
            SyntaxElement::Token { text: token, .. } => text.append(token.as_str()),
        }
    }
}

/// A node is seen with its kind and all of its children.
pub proof fn lemma_node_view(element: SyntaxElement)
    ensures
        element matches SyntaxElement::Node { kind, children } ==> element@ == (ElementView::Node {
            kind,
            children: views(children@),
        }),
{
    if let SyntaxElement::Node { kind, children } = element {
        reveal_with_fuel(<SyntaxElement as View>::view, 2);
        assert(element@->children =~= views(children@));
    }
}

/// Writes the text of the first `n` of `elements` behind `text`.
fn write_all(elements: &Vec<SyntaxElement>, n: usize, text: &mut String)
    requires
        n <= elements.len(),
    ensures
        final(text)@ == old(text)@ + text_of(views(elements@).take(n as int)),
    decreases elements, 1nat,
{
    let mut i: usize = 0;
    let ghost before = text@;
    assert(text@ =~= before + text_of(views(elements@).take(0)));
    while i < n
        invariant
            i <= n <= elements.len(),
            text@ == before + text_of(views(elements@).take(i as int)),
        decreases n - i,
    {
        assert(decreases_to!(elements => elements@[i as int]));
        elements[i].write_text(text);
        i += 1;
        assert(views(elements@).take(i as int).drop_last() =~= views(elements@).take(i - 1));
        assert(text@ =~= before + text_of(views(elements@).take(i as int)));
    }
}

impl ItemSyntax {
    /// A copy of the item.
    pub fn copy(&self) -> (copied: ItemSyntax)
        ensures
            copied@ == self@,
    {
        ItemSyntax { kind: self.kind, children: copy_all(&self.children) }
    }

    /// Takes the attributes and the comments off the item, each with the white space directly
    /// behind it.
    pub fn remove_attrs_and_docs(&mut self)
        ensures
            final(self)@ == without_attrs_and_docs(old(self)@),
    {
        let mut stay: Vec<SyntaxElement> = Vec::new();
        let mut remove_next_ws = false;
        let mut i: usize = 0;
        let ghost all = views(self.children@);
        assert(views(stay@) =~= kept(all.take(0)));
        while i < self.children.len()
            invariant
                i <= self.children.len(),
                all == views(self.children@),
                views(stay@) == kept(all.take(i as int)),
                remove_next_ws == (i > 0 && is_attr_or_comment(all[i - 1].kind())),
            decreases self.children.len() - i,
        {
            let child = &self.children[i];
            let ghost before = views(stay@);
            assert(all.take(i + 1).drop_last() =~= all.take(i as int));
            match child.kind() {
                SyntaxKind::Attr | SyntaxKind::Comment => {
                    remove_next_ws = true;
                },
                SyntaxKind::Whitespace if remove_next_ws => {
                    remove_next_ws = false;
                },
                _ => {
                    stay.push(child.copy());
                    assert(views(stay@) =~= before.push(all[i as int]));
                    remove_next_ws = false;
                },
            }
            i += 1;
        }
        assert(all.take(i as int) =~= all);
        self.children = stay;
    }

    /// The item as a function, without its body or semicolon.
    pub fn function_head(&self) -> (head: String)
        ensures
            head@ == function_head(self@),
    {
        let n: usize = self.children.len();
        let end: usize = if n > 0 {
            match self.children[n - 1].kind() {
                SyntaxKind::Semicolon | SyntaxKind::BlockExpr => n - 1,
                _ => n,
            }
        } else {
            n
        };
        let mut text = String::new();
        write_all(&self.children, end, &mut text);
        assert(text@ =~= text_of(self@.children.take(end as int)));
        text.as_str().trim_end().to_owned()
    }

    /// The item as a constant, up to its value.
    pub fn const_head(&self) -> (head: String)
        ensures
            head@ == const_head(self@),
    {
        let mut end: usize = 0;
        while end < self.children.len() && self.children[end].kind() != SyntaxKind::Semicolon
            && self.children[end].kind() != SyntaxKind::Eq
            invariant
                end <= self.children.len(),
                forall|i: int|
                    0 <= i < end ==> !ends_const_head((#[trigger] self@.children[i]).kind()),
            decreases self.children.len() - end,
        {
            end += 1;
        }
        proof {
            lemma_const_head_len(self@.children, end as int);
        }
        let mut text = String::new();
        write_all(&self.children, end, &mut text);
        assert(text@ =~= text_of(self@.children.take(end as int)));
        join(text.as_str().trim_end(), " =")
    }
}

/// The declaration of the function `node`: no attributes, no docs, no body. White space comes in
/// through `insert_ws` where `needs_whitespace` asks for it. `node` itself loses its attributes
/// and docs.
pub fn function_declaration<W: Fn(ItemSyntax) -> ItemSyntax>(
    node: &mut ItemSyntax,
    needs_whitespace: bool,
    insert_ws: &W,
) -> (text: String)
    requires
        forall|asked: ItemSyntax| call_requires(*insert_ws, (asked,)),
    ensures
        is_function_declaration(*insert_ws, needs_whitespace, old(node)@, text@),
        !needs_whitespace ==> text@ == function_head(without_attrs_and_docs(old(node)@)),
        needs_whitespace ==> exists|asked: ItemSyntax, answer: ItemSyntax|
            {
                &&& asked@ == without_attrs_and_docs(old(node)@)
                &&& #[trigger] call_ensures(*insert_ws, (asked,), answer)
                &&& text@ == function_head(answer@)
            },
        final(node)@ == without_attrs_and_docs(old(node)@),
{
    node.remove_attrs_and_docs();
    let ghost item = node@;
    let spaced = if needs_whitespace {
        insert_ws(node.copy())
    } else {
        node.copy()
    };
    assert(is_spaced(*insert_ws, needs_whitespace, item, spaced@));
    spaced.function_head()
}

/// The constant `node` up to its value: no attributes, no docs, and an equals sign at the end.
/// White space comes in through `insert_ws` where `needs_whitespace` asks for it. `node` itself
/// loses its attributes and docs.
pub fn make_const_compl_syntax<W: Fn(ItemSyntax) -> ItemSyntax>(
    node: &mut ItemSyntax,
    needs_whitespace: bool,
    insert_ws: &W,
) -> (text: String)
    requires
        forall|asked: ItemSyntax| call_requires(*insert_ws, (asked,)),
    ensures
        is_const_compl_syntax(*insert_ws, needs_whitespace, old(node)@, text@),
        !needs_whitespace ==> text@ == const_head(without_attrs_and_docs(old(node)@)),
        needs_whitespace ==> exists|asked: ItemSyntax, answer: ItemSyntax|
            {
                &&& asked@ == without_attrs_and_docs(old(node)@)
                &&& #[trigger] call_ensures(*insert_ws, (asked,), answer)
                &&& text@ == const_head(answer@)
            },
        final(node)@ == without_attrs_and_docs(old(node)@),
{
    node.remove_attrs_and_docs();
    let ghost item = node@;
    let spaced = if needs_whitespace {
        insert_ws(node.copy())
    } else {
        node.copy()
    };
    assert(is_spaced(*insert_ws, needs_whitespace, item, spaced@));
    spaced.const_head()
}

} // verus!
