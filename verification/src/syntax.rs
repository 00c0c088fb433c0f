//! Syntax trees of source files: what completion reads of them, held as plain values.

use crate::text::TextRange;
use vstd::prelude::*;

verus! {

/// The kinds of syntax that completion tells apart. `Other` holds the number of any other kind.
#[derive(Copy, Clone, Debug, PartialEq, Eq, Structural)]
pub enum SyntaxKind {
    Whitespace,
    Comment,
    Attr,
    Semicolon,
    Eq,
    BlockExpr,
    Impl,
    Other(u16),
}

/// A node or a token of a [`SyntaxTree`]. Elements name one another by their places in the tree.
#[derive(Debug)]
pub struct Element {
    pub kind: SyntaxKind,
    pub is_token: bool,
    pub parent: Option<usize>,
    pub children: Vec<usize>,
    pub range: TextRange,
}

/// The elements of one or more files, each behind its parent and behind its earlier siblings.
#[derive(Debug)]
pub struct SyntaxTree {
    elements: Vec<Element>,
}

impl View for SyntaxTree {
    type V = Seq<Element>;

    closed spec fn view(&self) -> Seq<Element> {
        self.elements@
    }
}

/// `children[k]` starts where the child in front of it ends.
pub open spec fn adjoins(elements: Seq<Element>, children: Seq<usize>, k: int) -> bool {
    elements[children[k - 1] as int].range.end == elements[children[k] as int].range.start
}

/// The children of a node cover its range without gaps and without overlaps.
pub open spec fn covered_by_children(elements: Seq<Element>, i: int) -> bool {
    let range = elements[i].range;
    let children = elements[i].children@;
    if children.len() == 0 {
        range.start == range.end
    } else {
        &&& elements[children[0] as int].range.start == range.start
        &&& elements[children.last() as int].range.end == range.end
        &&& forall|k: int| 1 <= k < children.len() ==> #[trigger] adjoins(elements, children, k)
    }
}

/// `children[k]` is an element behind element `i` that has `i` for its parent.
pub open spec fn is_child(elements: Seq<Element>, i: int, children: Seq<usize>, k: int) -> bool {
    &&& i < children[k] < elements.len()
    &&& elements[children[k] as int].parent == Some(i as usize)
    &&& k > 0 ==> children[k - 1] < children[k]
}

/// Element `i` agrees with its parent and with its children.
pub open spec fn element_wf(elements: Seq<Element>, i: int) -> bool {
    let element = elements[i];
    &&& element.range.wf()
    &&& forall|k: int|
        0 <= k < element.children@.len() ==> #[trigger] is_child(elements, i, element.children@, k)
    &&& if element.is_token {
        element.children@.len() == 0
    } else {
        covered_by_children(elements, i)
    }
    &&& element.parent matches Some(p) ==> p < i && elements[p as int].children@.contains(
        i as usize,
    )
}

/// All elements agree with one another, and every place among them can be named.
pub open spec fn tree_wf(elements: Seq<Element>) -> bool {
    &&& elements.len() <= usize::MAX
    &&& forall|i: int| 0 <= i < elements.len() ==> #[trigger] element_wf(elements, i)
}

/// The place of `i` among its parent's children.
pub open spec fn place(elements: Seq<Element>, i: int) -> int
    recommends
        elements[i].parent is Some,
{
    elements[elements[i].parent->0 as int].children@.index_of(i as usize)
}

/// The sibling directly in front of `i`.
pub open spec fn prev_sibling(elements: Seq<Element>, i: int) -> Option<usize> {
    match elements[i].parent {
        Some(p) => if place(elements, i) > 0 {
            Some(elements[p as int].children@[place(elements, i) - 1])
        } else {
            None
        },
        None => None,
    }
}

/// The last token in or at `i`, found by going down from last child to last child.
pub open spec fn last_token(elements: Seq<Element>, i: int) -> Option<usize>
    decreases elements.len() - i,
{
    let children = elements[i].children@;
    if elements[i].is_token {
        Some(i as usize)
    } else if children.len() > 0 && i < children.last() < elements.len() {
        last_token(elements, children.last() as int)
    } else {
        None
    }
}

/// The token in front of `i`: the last one of the sibling in front of `i` or, where `i` is a
/// first child, of the sibling in front of the nearest ancestor that has one.
pub open spec fn prev_token(elements: Seq<Element>, i: int) -> Option<usize>
    decreases i,
{
    match prev_sibling(elements, i) {
        Some(sibling) => last_token(elements, sibling as int),
        None => match elements[i].parent {
            Some(p) => if 0 <= p < i {
                prev_token(elements, p as int)
            } else {
                None
            },
            None => None,
        },
    }
}

proof fn lemma_children_ascend(elements: Seq<Element>, i: int, k: int, l: int)
    requires
        element_wf(elements, i),
        0 <= k < l < elements[i].children@.len(),
    ensures
        elements[i].children@[k] < elements[i].children@[l],
    decreases l - k,
{
    assert(is_child(elements, i, elements[i].children@, l));
    if k < l - 1 {
        lemma_children_ascend(elements, i, k, l - 1);
    }
}

/// Every child is found at one place only.
pub proof fn lemma_place(elements: Seq<Element>, p: int, k: int)
    requires
        tree_wf(elements),
        0 <= p < elements.len(),
        0 <= k < elements[p].children@.len(),
    ensures
        elements[elements[p].children@[k] as int].parent == Some(p as usize),
        place(elements, elements[p].children@[k] as int) == k,
        p < elements[p].children@[k] < elements.len(),
{
    let children = elements[p].children@;
    assert(element_wf(elements, p));
    assert(is_child(elements, p, children, k));
    let found = children.index_of(children[k]);
    assert(0 <= found < children.len() && children[found] == children[k]);
    if found < k {
        lemma_children_ascend(elements, p, found, k);
    } else if k < found {
        lemma_children_ascend(elements, p, k, found);
    }
}

/// Whether `id` occurs in `ids`.
fn contains(ids: &Vec<usize>, id: usize) -> (found: bool)
    ensures
        found == ids@.contains(id),
{
    let mut k: usize = 0;
    while k < ids.len()
        invariant
            k <= ids.len(),
            forall|l: int| 0 <= l < k ==> ids@[l] != id,
        decreases ids.len() - k,
    {
        if ids[k] == id {
            assert(ids@[k as int] == id);
            return true;
        }
        k += 1;
    }
    false
}

/// Whether element `i` agrees with its parent and with its children.
fn check_element(elements: &Vec<Element>, i: usize) -> (ok: bool)
    requires
        i < elements.len(),
    ensures
        ok == element_wf(elements@, i as int),
{
    let element = &elements[i];
    let children = &element.children;
    let n: usize = children.len();
    if element.range.start > element.range.end {
        return false;
    }
    if element.is_token && n > 0 {
        return false;
    }
    let mut k: usize = 0;
    let mut end: u32 = element.range.start;
    while k < n
        invariant
            i < elements.len(),
            *element == elements@[i as int],
            *children == element.children,
            n == children.len(),
            k <= n,
            element.is_token ==> n == 0,
            end == if k == 0 {
                element.range.start
            } else {
                elements@[children@[k - 1] as int].range.end
            },
            forall|l: int| 0 <= l < k ==> #[trigger] is_child(elements@, i as int, children@, l),
            forall|l: int| 1 <= l < k ==> #[trigger] adjoins(elements@, children@, l),
            k > 0 ==> elements@[children@[0] as int].range.start == element.range.start,
        decreases n - k,
    {
        let child: usize = children[k];
        let in_order = i < child && child < elements.len() && (k == 0 || children[k - 1] < child);
        if !in_order || elements[child].parent != Some(i) {
            assert(!is_child(elements@, i as int, children@, k as int));
            return false;
        }
        assert(is_child(elements@, i as int, children@, k as int));
        if elements[child].range.start != end {
            assert(k > 0 ==> !adjoins(elements@, children@, k as int));
            return false;
        }
        end = elements[child].range.end;
        k += 1;
    }
    if !element.is_token && end != element.range.end {
        return false;
    }
    match element.parent {
        Some(p) => p < i && contains(&elements[p].children, i),
        None => true,
    }
}

impl SyntaxTree {
    /// The elements agree with one another.
    pub open spec fn wf(&self) -> bool {
        tree_wf(self@)
    }

    /// The tree of `elements`, where they agree with one another.
    pub fn new(elements: Vec<Element>) -> (tree: Option<SyntaxTree>)
        ensures
            tree is Some <==> tree_wf(elements@),
            tree matches Some(tree) ==> tree.wf() && tree@ == elements@,
    {
        let mut i: usize = 0;
        while i < elements.len()
            invariant
                i <= elements.len(),
                forall|j: int| 0 <= j < i ==> #[trigger] element_wf(elements@, j),
            decreases elements.len() - i,
        {
            if !check_element(&elements, i) {
                return None;
            }
            i += 1;
        }
        Some(SyntaxTree { elements })
    }

    /// How many elements the tree has.
    pub fn len(&self) -> (len: usize)
        ensures
            len == self@.len(),
    {
        self.elements.len()
    }

    /// The element at place `i`.
    pub fn element(&self, i: usize) -> (element: &Element)
        requires
            i < self@.len(),
        ensures
            *element == self@[i as int],
    {
        &self.elements[i]
    }

    /// The sibling directly in front of `i`.
    fn prev_sibling(&self, i: usize) -> (sibling: Option<usize>)
        requires
            self.wf(),
            i < self@.len(),
        ensures
            sibling == prev_sibling(self@, i as int),
            sibling matches Some(s) ==> s < self@.len(),
    {
        assert(element_wf(self@, i as int));
        match self.elements[i].parent {
            Some(p) => {
                let children = &self.elements[p].children;
                let mut k: usize = 0;
                while k < children.len()
                    invariant
                        self.wf(),
                        self@ == self.elements@,
                        p < i < self@.len(),
                        self@[i as int].parent == Some(p),
                        *children == self@[p as int].children,
                        children@.contains(i),
                        k <= children.len(),
                        forall|l: int| 0 <= l < k ==> children@[l] != i,
                    decreases children.len() - k,
                {
                    if children[k] == i {
                        proof {
                            lemma_place(self@, p as int, k as int);
                            if k > 0 {
                                lemma_place(self@, p as int, k - 1);
                            }
                        }
                        return if k > 0 {
                            Some(children[k - 1])
                        } else {
                            None
                        };
                    }
                    k += 1;
                }
                assert(false);
                None
            },
            None => None,
        }
    }

    /// The last token in or at `i`.
    fn last_token(&self, i: usize) -> (token: Option<usize>)
        requires
            self.wf(),
            i < self@.len(),
        ensures
            token == last_token(self@, i as int),
            token matches Some(t) ==> t < self@.len(),
        decreases self@.len() - i,
    {
        let element = &self.elements[i];
        let n: usize = element.children.len();
        proof {
            assert(element_wf(self@, i as int));
            if n > 0 {
                assert(is_child(self@, i as int, element.children@, n - 1));
            }
        }
        if element.is_token {
            Some(i)
        } else if n > 0 {
            self.last_token(element.children[n - 1])
        } else {
            None
        }
    }

    /// The token in front of `i`.
    pub fn prev_token(&self, i: usize) -> (token: Option<usize>)
        requires
            self.wf(),
            i < self@.len(),
        ensures
            token == prev_token(self@, i as int),
            token matches Some(t) ==> t < self@.len(),
        decreases i,
    {
        assert(element_wf(self@, i as int));
        match self.prev_sibling(i) {
            Some(sibling) => self.last_token(sibling),
            None => match self.elements[i].parent {
                Some(p) => self.prev_token(p),
                None => None,
            },
        }
    }

    /// The node that `i` is a child of.
    pub fn parent(&self, i: usize) -> (parent: Option<usize>)
        requires
            self.wf(),
            i < self@.len(),
        ensures
            parent == self@[i as int].parent,
            parent matches Some(p) ==> p < i,
    {
        assert(element_wf(self@, i as int));
        self.elements[i].parent
    }
}

/// An `impl` block, named by its node.
#[derive(Copy, Clone, Debug, PartialEq, Eq, Structural)]
pub struct Impl {
    pub syntax: usize,
}

impl Impl {
    /// The `impl` block at node `i`, where there is one.
    pub open spec fn spec_cast(elements: Seq<Element>, i: usize) -> Option<Impl> {
        if elements[i as int].kind == SyntaxKind::Impl {
            Some(Impl { syntax: i })
        } else {
            None
        }
    }

    /// The `impl` block at node `i`, where there is one.
    pub fn cast(tree: &SyntaxTree, i: usize) -> (impl_: Option<Impl>)
        requires
            i < tree@.len(),
        ensures
            impl_ == Impl::spec_cast(tree@, i),
            impl_ is Some <==> tree@[i as int].kind == SyntaxKind::Impl,
            impl_ matches Some(impl_) ==> impl_.syntax == i,
    {
        if tree.element(i).kind == SyntaxKind::Impl {
            Some(Impl { syntax: i })
        } else {
            None
        }
    }
}

} // verus!
