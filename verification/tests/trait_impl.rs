//! Completion in fixtures: source text with the cursor at `$0`.
//!
//! A small analysis of the fixtures stands in for the one of a language server: it parses the
//! text, finds out what is completed by writing a name at the cursor, and resolves the traits.

use ide_completion::completion::{
    CompletionContext, CompletionItem, CompletionItemKind, Completions, PathCompletionCtx,
    SnippetCap, SymbolKind,
};
use ide_completion::declaration::{ItemSyntax, SyntaxElement};
use ide_completion::hir::{
    AssocItem, Const, Function, ImplDef, Name, Semantics, Source, TypeAlias,
};
use ide_completion::syntax::{Element, Impl, SyntaxKind, SyntaxTree};
use ide_completion::text::TextRange;
use ide_completion::trait_impl::{
    complete_trait_impl_const, complete_trait_impl_fn, complete_trait_impl_item_by_name,
    complete_trait_impl_type_alias,
};

// Syntax of the fixtures.

const KEYWORDS: [&str; 14] = [
    "fn", "type", "const", "trait", "struct", "impl", "for", "where", "async", "unsafe", "mut",
    "self", "Self", "pub",
];

#[derive(Clone, Debug)]
struct Node {
    kind: &'static str,
    text: String,
    children: Vec<Node>,
    is_token: bool,
}

impl Node {
    fn node(kind: &'static str, children: Vec<Node>) -> Node {
        Node { kind, text: String::new(), children, is_token: false }
    }

    fn full_text(&self) -> String {
        if self.is_token {
            self.text.clone()
        } else {
            self.children.iter().map(|c| c.full_text()).collect()
        }
    }

    fn child(&self, kind: &str) -> Option<&Node> {
        self.children.iter().find(|c| c.kind == kind)
    }

    fn name(&self) -> Option<String> {
        self.child("NAME").map(|n| n.full_text())
    }

    fn tokens(&self, out: &mut Vec<Node>) {
        if self.is_token {
            out.push(self.clone());
        }
        for child in &self.children {
            child.tokens(out);
        }
    }
}

fn token(kind: &'static str, text: &str) -> Node {
    Node { kind, text: text.to_string(), children: vec![], is_token: true }
}

fn is_word(c: char) -> bool {
    c.is_alphanumeric() || c == '_'
}

fn lex(text: &str) -> Vec<Node> {
    let chars: Vec<char> = text.chars().collect();
    let mut out: Vec<Node> = vec![];
    let mut i: usize = 0;
    while i < chars.len() {
        let from: usize = i;
        let c = chars[i];
        let kind = if c.is_whitespace() {
            while i < chars.len() && chars[i].is_whitespace() {
                i += 1;
            }
            "WHITESPACE"
        } else if c == '/' && chars.get(i + 1) == Some(&'/') {
            while i < chars.len() && chars[i] != '\n' {
                i += 1;
            }
            "COMMENT"
        } else if is_word(c) {
            while i < chars.len() && is_word(chars[i]) {
                i += 1;
            }
            let word: String = chars[from..i].iter().collect();
            if KEYWORDS.contains(&word.as_str()) {
                "KEYWORD"
            } else {
                "IDENT"
            }
        } else if (c == '-' || c == '=') && chars.get(i + 1) == Some(&'>') {
            i += 2;
            "PUNCT"
        } else {
            i += 1;
            match c {
                ';' => "SEMICOLON",
                '=' => "EQ",
                _ => "PUNCT",
            }
        };
        let word: String = chars[from..i].iter().collect();
        out.push(token(kind, &word));
    }
    out
}

struct Parser {
    tokens: Vec<Node>,
    pos: usize,
}

impl Parser {
    fn at(&self) -> &str {
        self.tokens.get(self.pos).map_or("", |t| t.text.as_str())
    }

    fn at_kind(&self) -> &str {
        self.tokens.get(self.pos).map_or("", |t| t.kind)
    }

    /// The next token at or behind the current one that is no white space.
    fn significant(&self) -> Option<&Node> {
        self.tokens[self.pos..].iter().find(|t| t.kind != "WHITESPACE")
    }

    fn next_is(&self, words: &[&str]) -> bool {
        self.significant().map_or(false, |t| words.contains(&t.text.as_str()))
    }

    /// The token behind the current one that is no white space is one of `words`.
    fn second_is(&self, words: &[&str]) -> bool {
        self.tokens[self.pos + 1..]
            .iter()
            .find(|t| t.kind != "WHITESPACE")
            .map_or(false, |t| words.contains(&t.text.as_str()))
    }

    fn bump(&mut self, out: &mut Vec<Node>) {
        out.push(self.tokens[self.pos].clone());
        self.pos += 1;
    }

    fn space(&mut self, out: &mut Vec<Node>) {
        if self.at_kind() == "WHITESPACE" {
            self.bump(out);
        }
    }

    /// Everything from the bracket here to the one that closes it.
    fn group(&mut self, kind: &'static str) -> Node {
        let mut out: Vec<Node> = vec![];
        let mut depth: usize = 0;
        loop {
            match self.at() {
                "(" | "[" | "{" | "<" => depth += 1,
                ")" | "]" | "}" | ">" => depth -= 1,
                _ => {}
            }
            self.bump(&mut out);
            if depth == 0 {
                return Node::node(kind, out);
            }
        }
    }

    /// Everything up to one of `ends`, outside of brackets, but for the white space there.
    fn until(&mut self, kind: &'static str, ends: &[&str]) -> Node {
        let mut out: Vec<Node> = vec![];
        while self.pos < self.tokens.len() && !self.next_is(ends) {
            match self.at() {
                "(" | "[" | "<" => out.push(self.group("GROUP")),
                "{" => out.push(self.block()),
                _ => self.bump(&mut out),
            }
        }
        Node::node(kind, out)
    }

    /// A block, with the functions in it.
    fn block(&mut self) -> Node {
        let mut out: Vec<Node> = vec![];
        self.bump(&mut out);
        while self.at() != "}" {
            match self.at() {
                "fn" => {
                    let mut func: Vec<Node> = vec![];
                    self.bump(&mut func);
                    self.function(&mut func);
                    out.push(Node::node("FN", func));
                }
                "{" => out.push(self.block()),
                _ => self.bump(&mut out),
            }
        }
        self.bump(&mut out);
        Node::node("BLOCK_EXPR", vec![Node::node("STMT_LIST", out)])
    }

    fn name(&mut self, out: &mut Vec<Node>) -> bool {
        if self.significant().map_or(false, |t| t.kind == "IDENT") {
            self.space(out);
            let mut name: Vec<Node> = vec![];
            self.bump(&mut name);
            out.push(Node::node("NAME", name));
            return true;
        }
        false
    }

    fn leading_trivia(&mut self, out: &mut Vec<Node>) {
        loop {
            if self.at_kind() == "COMMENT" {
                self.bump(out);
            } else if self.at() == "#" {
                let mut attr: Vec<Node> = vec![];
                self.bump(&mut attr);
                attr.push(self.group("TOKEN_TREE"));
                out.push(Node::node("ATTR", attr));
            } else {
                return;
            }
            self.space(out);
        }
    }

    fn file(&mut self) -> Node {
        let mut out: Vec<Node> = vec![];
        while self.pos < self.tokens.len() {
            if self.at_kind() == "WHITESPACE" {
                self.bump(&mut out);
            } else {
                let item = self.item();
                out.push(item);
            }
        }
        Node::node("SOURCE_FILE", out)
    }

    fn item(&mut self) -> Node {
        let mut out: Vec<Node> = vec![];
        self.leading_trivia(&mut out);
        match self.at() {
            "struct" => {
                while self.at() != ";" {
                    self.bump(&mut out);
                }
                self.bump(&mut out);
                Node::node("STRUCT", out)
            }
            "trait" => {
                self.bump(&mut out);
                self.name(&mut out);
                if self.at() == "<" {
                    out.push(self.group("GENERIC_PARAM_LIST"));
                }
                self.space(&mut out);
                let list = self.assoc_items();
                out.push(list);
                Node::node("TRAIT", out)
            }
            "impl" => {
                let header = self.until("HEADER", &["{"]);
                out.extend(header.children);
                self.space(&mut out);
                let list = self.assoc_items();
                out.push(list);
                Node::node("IMPL", out)
            }
            _ => {
                while self.at() != "{" {
                    self.bump(&mut out);
                }
                out.push(self.group("TOKEN_TREE"));
                Node::node("MACRO_CALL", out)
            }
        }
    }

    fn assoc_items(&mut self) -> Node {
        let mut out: Vec<Node> = vec![];
        self.bump(&mut out);
        while self.at() != "}" {
            if self.at_kind() == "WHITESPACE" {
                self.bump(&mut out);
            } else {
                let item = self.assoc_item();
                out.push(item);
            }
        }
        self.bump(&mut out);
        Node::node("ASSOC_ITEM_LIST", out)
    }

    fn assoc_item(&mut self) -> Node {
        let mut out: Vec<Node> = vec![];
        self.leading_trivia(&mut out);
        loop {
            let is_qualifier = match self.at() {
                "const" => self.second_is(&["fn", "async", "unsafe"]),
                "async" | "unsafe" => true,
                "default" => self.second_is(&["fn", "type", "const", "async", "unsafe"]),
                _ => false,
            };
            if !is_qualifier {
                break;
            }
            self.bump(&mut out);
            self.space(&mut out);
        }
        match self.at() {
            "fn" => {
                self.bump(&mut out);
                self.function(&mut out);
                Node::node("FN", out)
            }
            "type" => {
                self.bump(&mut out);
                if self.name(&mut out) {
                    self.value(&mut out);
                }
                Node::node("TYPE_ALIAS", out)
            }
            "const" => {
                self.bump(&mut out);
                if self.name(&mut out) && self.at() == ":" {
                    self.bump(&mut out);
                    self.space(&mut out);
                    out.push(self.until("TYPE", &["=", ";", "}"]));
                    self.value(&mut out);
                }
                Node::node("CONST", out)
            }
            _ => {
                let mut name: Vec<Node> = vec![];
                self.bump(&mut name);
                let path = Node::node("PATH", vec![Node::node("NAME_REF", name)]);
                out.push(path);
                Node::node("MACRO_CALL", out)
            }
        }
    }

    fn function(&mut self, out: &mut Vec<Node>) {
        if !self.name(out) {
            return;
        }
        if self.at() == "<" {
            out.push(self.group("GENERIC_PARAM_LIST"));
        }
        if self.at() != "(" {
            return;
        }
        out.push(self.group("PARAM_LIST"));
        if self.next_is(&["->"]) {
            self.space(out);
            out.push(self.until("RET_TYPE", &["where", ";", "{"]));
        }
        if self.next_is(&["where"]) {
            self.space(out);
            out.push(self.until("WHERE_CLAUSE", &[";", "{"]));
        }
        if self.next_is(&[";"]) {
            self.space(out);
            self.bump(out);
        } else if self.next_is(&["{"]) {
            self.space(out);
            out.push(self.block());
        }
    }

    fn value(&mut self, out: &mut Vec<Node>) {
        if self.next_is(&["="]) {
            self.space(out);
            self.bump(out);
            self.space(out);
            out.push(self.until("VALUE", &[";", "}"]));
        }
        if self.next_is(&[";"]) {
            self.space(out);
            self.bump(out);
        }
    }
}

fn parse(tokens: Vec<Node>) -> Node {
    Parser { tokens, pos: 0 }.file()
}

// From the syntax of the fixtures to that of the library.

fn kind_of(kind: &str) -> SyntaxKind {
    match kind {
        "WHITESPACE" => SyntaxKind::Whitespace,
        "COMMENT" => SyntaxKind::Comment,
        "ATTR" => SyntaxKind::Attr,
        "SEMICOLON" => SyntaxKind::Semicolon,
        "EQ" => SyntaxKind::Eq,
        "BLOCK_EXPR" => SyntaxKind::BlockExpr,
        "IMPL" => SyntaxKind::Impl,
        "KEYWORD" => SyntaxKind::Other(1),
        "IDENT" => SyntaxKind::Other(2),
        "PUNCT" => SyntaxKind::Other(3),
        _ => SyntaxKind::Other(100),
    }
}

fn element_of(node: &Node) -> SyntaxElement {
    if node.is_token {
        SyntaxElement::Token { kind: kind_of(node.kind), text: node.text.clone() }
    } else {
        let children: Vec<SyntaxElement> = node.children.iter().map(element_of).collect();
        SyntaxElement::Node { kind: kind_of(node.kind), children }
    }
}

fn item_syntax_of(node: &Node) -> ItemSyntax {
    ItemSyntax {
        kind: kind_of(node.kind),
        children: node.children.iter().map(element_of).collect(),
    }
}

/// Lays `node` out in `elements`; `nodes` gets the node at each place.
fn lay_out<'a>(
    node: &'a Node,
    parent: Option<usize>,
    offset: &mut u32,
    elements: &mut Vec<Element>,
    nodes: &mut Vec<&'a Node>,
) -> usize {
    let id: usize = elements.len();
    let start: u32 = *offset;
    elements.push(Element {
        kind: kind_of(node.kind),
        is_token: node.is_token,
        parent,
        children: vec![],
        range: TextRange { start, end: start },
    });
    nodes.push(node);
    if node.is_token {
        *offset += node.text.len() as u32;
    }
    for child in &node.children {
        let child_id: usize = lay_out(child, Some(id), offset, elements, nodes);
        elements[id].children.push(child_id);
    }
    elements[id].range.end = *offset;
    id
}

// Semantics of the fixtures.

struct Trait {
    name: String,
    params: Vec<String>,
    items: Vec<Node>,
    is_macro: bool,
}

fn list_items(node: &Node) -> Vec<Node> {
    node.child("ASSOC_ITEM_LIST")
        .unwrap()
        .children
        .iter()
        .filter(|c| ["FN", "TYPE_ALIAS", "CONST"].contains(&c.kind))
        .cloned()
        .collect()
}

/// The texts between the commas of `<..>`, outside of inner brackets.
fn arguments(list: &str) -> Vec<String> {
    let mut out: Vec<String> = vec![];
    let mut depth: usize = 0;
    for c in list.chars() {
        match c {
            '<' => depth += 1,
            '>' => depth -= 1,
            _ => {}
        }
        match c {
            '<' if depth == 1 => out.push(String::new()),
            '>' if depth == 0 => break,
            ',' if depth == 1 => out.push(String::new()),
            _ if depth > 0 => out.last_mut().unwrap().push(c),
            _ => {}
        }
    }
    out.iter().map(|s| s.trim().to_string()).collect()
}

/// What is left of tokens in a macro: white space only between two marks that are not one.
fn expand(tokens: &[Node]) -> Vec<Node> {
    let mut out: Vec<Node> = vec![];
    for t in tokens.iter().filter(|t| t.kind != "WHITESPACE") {
        let is_mark = |t: &Node| t.kind == "PUNCT" && !"()[]{}".contains(t.text.as_str());
        if out.last().map_or(false, is_mark) && is_mark(t) {
            out.push(token("WHITESPACE", " "));
        }
        out.push(t.clone());
    }
    out
}

fn traits(file: &Node, is_macro: bool) -> Vec<Trait> {
    let mut out: Vec<Trait> = vec![];
    for item in &file.children {
        if item.kind == "TRAIT" {
            let params = item
                .child("GENERIC_PARAM_LIST")
                .map_or(vec![], |list| arguments(&list.full_text()));
            out.push(Trait {
                name: item.name().unwrap(),
                params,
                items: list_items(item),
                is_macro,
            });
        }
        if item.kind == "MACRO_CALL" && item.children[0].text != "macro_rules" {
            let tree = item.child("TOKEN_TREE").unwrap();
            let mut tokens: Vec<Node> = vec![];
            tree.tokens(&mut tokens);
            let inner = expand(&tokens[1..tokens.len() - 1]);
            out.extend(traits(&parse(inner), true));
        }
    }
    out
}

fn substitute(element: SyntaxElement, with: &[(String, String)]) -> SyntaxElement {
    match element {
        SyntaxElement::Node { kind, children } => SyntaxElement::Node {
            kind,
            children: children.into_iter().map(|c| substitute(c, with)).collect(),
        },
        SyntaxElement::Token { kind, text } => {
            let text = match with.iter().find(|(param, _)| *param == text) {
                Some((_, argument)) => argument.clone(),
                None => text,
            };
            SyntaxElement::Token { kind, text }
        }
    }
}

fn flatten(element: SyntaxElement, out: &mut Vec<(SyntaxKind, String)>) {
    match element {
        SyntaxElement::Node { children, .. } => {
            for child in children {
                flatten(child, out);
            }
        }
        SyntaxElement::Token { kind, text } => out.push((kind, text)),
    }
}

/// White space behind a word in front of another, and around arrows and equals signs.
fn space_out(item: ItemSyntax) -> ItemSyntax {
    let is_text = |kind: SyntaxKind| kind == SyntaxKind::Other(1) || kind == SyntaxKind::Other(2);
    let space = || SyntaxElement::Token { kind: SyntaxKind::Whitespace, text: " ".to_string() };
    let mut leaves: Vec<(SyntaxKind, String)> = vec![];
    for child in item.children {
        flatten(child, &mut leaves);
    }
    let mut children: Vec<SyntaxElement> = vec![];
    for i in 0..leaves.len() {
        let (kind, text) = leaves[i].clone();
        let around = text == "->" || text == "=";
        let after = is_text(kind) && i + 1 < leaves.len() && is_text(leaves[i + 1].0);
        if around {
            children.push(space());
        }
        children.push(SyntaxElement::Token { kind, text });
        if around || after {
            children.push(space());
        }
    }
    ItemSyntax { kind: item.kind, children }
}

fn name_of(text: &str) -> Name {
    let escaped = if KEYWORDS.contains(&text) { format!("r#{}", text) } else { text.to_string() };
    Name { text: text.to_string(), escaped }
}

fn assoc_item_of(node: &Node, is_macro: bool) -> AssocItem {
    let source = Some(Source { value: item_syntax_of(node), file_is_macro: is_macro });
    let name = name_of(&node.name().unwrap());
    match node.kind {
        "FN" => {
            let list = node.child("PARAM_LIST").unwrap().full_text();
            let inner = list[1..list.len() - 1].trim().to_string();
            let first = inner.split(',').next().unwrap().to_string();
            AssocItem::Function(Function {
                name,
                param_count: if inner.is_empty() { 0 } else { inner.split(',').count() },
                has_self_param: first.ends_with("self"),
                docs: None,
                source,
            })
        }
        "TYPE_ALIAS" => AssocItem::TypeAlias(TypeAlias { name, docs: None }),
        _ => AssocItem::Const(Const { name: Some(name), docs: None, source }),
    }
}

// Completion in a fixture.

const FAKE_NAME: &str = "completionMarker";

/// The range and the parent's kind of the name or name reference that holds the fake name.
fn find_fake(node: &Node, parent: &Node, offset: &mut usize) -> Option<(usize, &'static str)> {
    if node.kind == "NAME" || node.kind == "NAME_REF" {
        if node.full_text().contains(FAKE_NAME) {
            let kind = if node.kind == "NAME" { parent.kind } else { "NAME_REF" };
            return Some((*offset, kind));
        }
    }
    if node.is_token {
        *offset += node.text.len();
    }
    node.children.iter().find_map(|c| find_fake(c, node, offset))
}

fn complete(text: &str, offset: usize, snippet_cap: Option<SnippetCap>) -> Vec<CompletionItem> {
    let file = parse(lex(text));
    let mut elements: Vec<Element> = vec![];
    let mut nodes: Vec<&Node> = vec![];
    let mut len: u32 = 0;
    lay_out(&file, None, &mut len, &mut elements, &mut nodes);
    assert_eq!(len as usize, text.len());
    let range = |id: usize| (elements[id].range.start as usize, elements[id].range.end as usize);

    // What is there to be completed, with a name at the cursor?
    let with_fake = format!("{}{}{}", &text[..offset], FAKE_NAME, &text[offset..]);
    let fake_file = parse(lex(&with_fake));
    let (fake_start, what) = match find_fake(&fake_file, &fake_file, &mut 0) {
        Some(found) => found,
        None => return vec![],
    };
    let find = |kind: &str| {
        (0..nodes.len()).find(|id| {
            nodes[*id].kind == kind && range(*id).0 == fake_start && range(*id).1 >= offset
        })
    };
    let (name, name_ref) = (find("NAME"), find("NAME_REF"));

    let token_id = (0..nodes.len())
        .find(|id| nodes[*id].is_token && range(*id).0 < offset && offset <= range(*id).1)
        .unwrap();
    let is_text = nodes[token_id].kind == "IDENT" || nodes[token_id].kind == "KEYWORD";
    let source_range = if is_text {
        elements[token_id].range
    } else {
        TextRange::new(offset as u32, offset as u32)
    };

    let traits = traits(&file, false);
    let mut impls: Vec<ImplDef> = vec![];
    let mut substitutions: Vec<(usize, Vec<(String, String)>)> = vec![];
    let mut impl_at_cursor: Option<Impl> = None;
    for id in 0..nodes.len() {
        if nodes[id].kind != "IMPL" {
            continue;
        }
        let syntax = Impl { syntax: id };
        if range(id).0 < offset && offset < range(id).1 {
            impl_at_cursor = Some(syntax);
        }
        let text = nodes[id].full_text();
        let header = text["impl ".len()..].split(" for ").next().unwrap().to_string();
        let trait_name = header.split('<').next().unwrap().to_string();
        let trait_ = traits.iter().find(|t| t.name == trait_name).unwrap();
        let there: Vec<Option<String>> = list_items(nodes[id]).iter().map(|n| n.name()).collect();
        impls.push(ImplDef {
            syntax,
            has_trait: true,
            has_source: true,
            has_scope: true,
            missing_assoc_items: trait_
                .items
                .iter()
                .filter(|item| !there.contains(&item.name()))
                .map(|item| assoc_item_of(item, trait_.is_macro))
                .collect(),
        });
        let with = trait_.params.iter().cloned().zip(arguments(&header)).collect();
        substitutions.push((id, with));
    }
    let path_transform = |impl_: Impl, item: ItemSyntax| {
        let (_, with) = substitutions.iter().find(|(id, _)| *id == impl_.syntax).unwrap();
        ItemSyntax {
            kind: item.kind,
            children: item.children.into_iter().map(|c| substitute(c, with)).collect(),
        }
    };
    let ctx = CompletionContext {
        tree: SyntaxTree::new(elements_of(&file)).unwrap(),
        token: token_id,
        source_range,
        snippet_cap,
        sema: Semantics { impls, path_transform, insert_ws: space_out },
    };
    let mut acc = Completions::new();
    match what {
        "FN" => {
            complete_trait_impl_fn(&mut acc, &ctx, name);
        }
        "TYPE_ALIAS" => {
            complete_trait_impl_type_alias(&mut acc, &ctx, name);
        }
        "CONST" => {
            complete_trait_impl_const(&mut acc, &ctx, name);
        }
        _ => {
            let path_ctx = PathCompletionCtx { trivial_path: true };
            complete_trait_impl_item_by_name(&mut acc, &ctx, &path_ctx, name_ref, impl_at_cursor);
        }
    }
    acc.items
}

fn elements_of(file: &Node) -> Vec<Element> {
    let mut elements: Vec<Element> = vec![];
    lay_out(file, None, &mut 0, &mut elements, &mut vec![]);
    elements
}

fn apply(text: &str, item: &CompletionItem) -> String {
    let range = item.text_edit.delete;
    format!(
        "{}{}{}",
        &text[..range.start as usize],
        item.text_edit.insert,
        &text[range.end as usize..]
    )
}

fn split_fixture(fixture: &str) -> (String, usize) {
    let offset: usize = fixture.find("$0").unwrap();
    (fixture.replacen("$0", "", 1), offset)
}

fn check_edit_with(what: &str, before: &str, after: &str, snippet_cap: Option<SnippetCap>) {
    let (text, offset) = split_fixture(before);
    let items: Vec<CompletionItem> = complete(&text, offset, snippet_cap)
        .into_iter()
        .filter(|item| item.lookup == what)
        .collect();
    assert_eq!(items.len(), 1, "completions for {:?} in {}", what, before);
    assert_eq!(items[0].is_snippet, snippet_cap.is_some());
    assert_eq!(apply(&text, &items[0]), after);
}

fn check_edit(what: &str, before: &str, after: &str) {
    check_edit_with(what, before, after, Some(SnippetCap {}));
}

fn check(fixture: &str, expected: &str) {
    let (text, offset) = split_fixture(fixture);
    let mut actual = String::new();
    for item in complete(&text, offset, Some(SnippetCap {})) {
        let tag = match item.kind {
            CompletionItemKind::Method => "me",
            CompletionItemKind::SymbolKind(SymbolKind::Function) => "fn",
            CompletionItemKind::SymbolKind(SymbolKind::TypeAlias) => "ta",
            CompletionItemKind::SymbolKind(SymbolKind::Const) => "ct",
        };
        actual.push_str(&format!("{} {}\n", tag, item.label));
    }
    assert_eq!(actual, expected);
}

#[test]
fn name_ref_single_function() {
    check_edit(
        "fn test",
        r#"
trait Test {
    fn test();
}
struct T;

impl Test for T {
    t$0
}
"#,
        r#"
trait Test {
    fn test();
}
struct T;

impl Test for T {
    fn test() {
    $0
}
}
"#,
    );
}

#[test]
fn single_function() {
    check_edit(
        "fn test",
        r#"
trait Test {
    fn test();
}
struct T;

impl Test for T {
    fn t$0
}
"#,
        r#"
trait Test {
    fn test();
}
struct T;

impl Test for T {
    fn test() {
    $0
}
}
"#,
    );
}

#[test]
fn generic_fn() {
    check_edit(
        "fn foo",
        r#"
trait Test {
    fn foo<T>();
}
struct T;

impl Test for T {
    fn f$0
}
"#,
        r#"
trait Test {
    fn foo<T>();
}
struct T;

impl Test for T {
    fn foo<T>() {
    $0
}
}
"#,
    );
    check_edit(
        "fn foo",
        r#"
trait Test {
    fn foo<T>() where T: Into<String>;
}
struct T;

impl Test for T {
    fn f$0
}
"#,
        r#"
trait Test {
    fn foo<T>() where T: Into<String>;
}
struct T;

impl Test for T {
    fn foo<T>() where T: Into<String> {
    $0
}
}
"#,
    );
}

#[test]
fn associated_type() {
    check_edit(
        "type SomeType",
        r#"
trait Test {
    type SomeType;
}

impl Test for () {
    type S$0
}
"#,
        "
trait Test {
    type SomeType;
}

impl Test for () {
    type SomeType = $0;\n\
}
",
    );
    check_edit(
        "type SomeType",
        r#"
trait Test {
    type SomeType;
}

impl Test for () {
    type$0
}
"#,
        "
trait Test {
    type SomeType;
}

impl Test for () {
    type SomeType = $0;\n\
}
",
    );
}

#[test]
fn associated_const() {
    check_edit(
        "const SOME_CONST",
        r#"
trait Test {
    const SOME_CONST: u16;
}

impl Test for () {
    const S$0
}
"#,
        "
trait Test {
    const SOME_CONST: u16;
}

impl Test for () {
    const SOME_CONST: u16 = $0;\n\
}
",
    );

    check_edit(
        "const SOME_CONST",
        r#"
trait Test {
    const SOME_CONST: u16 = 92;
}

impl Test for () {
    const S$0
}
"#,
        "
trait Test {
    const SOME_CONST: u16 = 92;
}

impl Test for () {
    const SOME_CONST: u16 = $0;\n\
}
",
    );
}

#[test]
fn complete_without_name() {
    let test = |completion: &str, hint: &str, completed: &str, next_sibling: &str| {
        check_edit(
            completion,
            &format!(
                r#"
trait Test {{
    type Foo;
    const CONST: u16;
    fn bar();
}}
struct T;

impl Test for T {{
    {}
    {}
}}
"#,
                hint, next_sibling
            ),
            &format!(
                r#"
trait Test {{
    type Foo;
    const CONST: u16;
    fn bar();
}}
struct T;

impl Test for T {{
    {}
    {}
}}
"#,
                completed, next_sibling
            ),
        )
    };

    // Enumerate some possible next siblings.
    for next_sibling in &[
        "",
        "fn other_fn() {}", // `const $0 fn` -> `const fn`
        "type OtherType = i32;",
        "const OTHER_CONST: i32 = 0;",
        "async fn other_fn() {}",
        "unsafe fn other_fn() {}",
        "default fn other_fn() {}",
        "default type OtherType = i32;",
        "default const OTHER_CONST: i32 = 0;",
    ] {
        test("fn bar", "fn $0", "fn bar() {\n    $0\n}", next_sibling);
        test("type Foo", "type $0", "type Foo = $0;", next_sibling);
        test("const CONST", "const $0", "const CONST: u16 = $0;", next_sibling);
    }
}

#[test]
fn snippet_does_not_overwrite_comment_or_attr() {
    let test = |completion: &str, hint: &str, completed: &str| {
        check_edit(
            completion,
            &format!(
                r#"
trait Foo {{
    type Type;
    fn function();
    const CONST: i32 = 0;
}}
struct T;

impl Foo for T {{
    // Comment
    #[bar]
    {}
}}
"#,
                hint
            ),
            &format!(
                r#"
trait Foo {{
    type Type;
    fn function();
    const CONST: i32 = 0;
}}
struct T;

impl Foo for T {{
    // Comment
    #[bar]
    {}
}}
"#,
                completed
            ),
        )
    };
    test("fn function", "fn f$0", "fn function() {\n    $0\n}");
    test("type Type", "type T$0", "type Type = $0;");
    test("const CONST", "const C$0", "const CONST: i32 = $0;");
}

#[test]
fn generics_are_inlined_in_return_type() {
    check_edit(
        "fn function",
        r#"
trait Foo<T> {
    fn function() -> T;
}
struct Bar;

impl Foo<u32> for Bar {
    fn f$0
}
"#,
        r#"
trait Foo<T> {
    fn function() -> T;
}
struct Bar;

impl Foo<u32> for Bar {
    fn function() -> u32 {
    $0
}
}
"#,
    )
}

#[test]
fn generics_are_inlined_in_parameter() {
    check_edit(
        "fn function",
        r#"
trait Foo<T> {
    fn function(bar: T);
}
struct Bar;

impl Foo<u32> for Bar {
    fn f$0
}
"#,
        r#"
trait Foo<T> {
    fn function(bar: T);
}
struct Bar;

impl Foo<u32> for Bar {
    fn function(bar: u32) {
    $0
}
}
"#,
    )
}

#[test]
fn generics_are_inlined_when_part_of_other_types() {
    check_edit(
        "fn function",
        r#"
trait Foo<T> {
    fn function(bar: Vec<T>);
}
struct Bar;

impl Foo<u32> for Bar {
    fn f$0
}
"#,
        r#"
trait Foo<T> {
    fn function(bar: Vec<T>);
}
struct Bar;

impl Foo<u32> for Bar {
    fn function(bar: Vec<u32>) {
    $0
}
}
"#,
    )
}

#[test]
fn generics_are_inlined_complex() {
    check_edit(
        "fn function",
        r#"
trait Foo<T, U, V> {
    fn function(bar: Vec<T>, baz: U) -> Arc<Vec<V>>;
}
struct Bar;

impl Foo<u32, Vec<usize>, u8> for Bar {
    fn f$0
}
"#,
        r#"
trait Foo<T, U, V> {
    fn function(bar: Vec<T>, baz: U) -> Arc<Vec<V>>;
}
struct Bar;

impl Foo<u32, Vec<usize>, u8> for Bar {
    fn function(bar: Vec<u32>, baz: Vec<usize>) -> Arc<Vec<u8>> {
    $0
}
}
"#,
    )
}

#[test]
fn generics_are_inlined_in_associated_const() {
    check_edit(
        "const BAR",
        r#"
trait Foo<T> {
    const BAR: T;
}
struct Bar;

impl Foo<u32> for Bar {
    const B$0
}
"#,
        r#"
trait Foo<T> {
    const BAR: T;
}
struct Bar;

impl Foo<u32> for Bar {
    const BAR: u32 = $0;
}
"#,
    )
}

#[test]
fn generics_are_inlined_in_where_clause() {
    check_edit(
        "fn function",
        r#"
trait SomeTrait<T> {}

trait Foo<T> {
    fn function()
        where Self: SomeTrait<T>;
}
struct Bar;

impl Foo<u32> for Bar {
    fn f$0
}
"#,
        r#"
trait SomeTrait<T> {}

trait Foo<T> {
    fn function()
        where Self: SomeTrait<T>;
}
struct Bar;

impl Foo<u32> for Bar {
    fn function()
        where Self: SomeTrait<u32> {
    $0
}
}
"#,
    )
}

#[test]
fn works_directly_in_impl() {
    check(
        r#"
trait Tr {
    fn required();
}

impl Tr for () {
    $0
}
"#,
        "fn fn required()\n",
    );
    check(
        r#"
trait Tr {
    fn provided() {}
    fn required();
}

impl Tr for () {
    fn provided() {}
    $0
}
"#,
        "fn fn required()\n",
    );
}

#[test]
fn fixes_up_macro_generated() {
    check_edit(
        "fn foo",
        r#"
macro_rules! noop {
    ($($item: item)*) => {
        $($item)*
    }
}

noop! {
    trait Foo {
        fn foo(&mut self, bar: i64, baz: &mut u32) -> Result<(), u32>;
    }
}

struct Test;

impl Foo for Test {
    $0
}
"#,
        r#"
macro_rules! noop {
    ($($item: item)*) => {
        $($item)*
    }
}

noop! {
    trait Foo {
        fn foo(&mut self, bar: i64, baz: &mut u32) -> Result<(), u32>;
    }
}

struct Test;

impl Foo for Test {
    fn foo(&mut self,bar:i64,baz: &mut u32) -> Result<(),u32> {
    $0
}
}
"#,
    );
}

#[test]
fn no_items_of_the_trait_inside_fn() {
    check(
        r"
trait Test { fn test(); fn test2(); }
struct T;

impl Test for T {
    fn test() {
        t$0
    }
}
",
        "",
    );
    check(
        r"
trait Test { fn test(); fn test2(); }
struct T;

impl Test for T {
    fn test() {
        fn t$0
    }
}
",
        "",
    );
    check(
        r"
trait Test { fn test(); fn test2(); }
struct T;

impl Test for T {
    fn test() {
        fn $0
    }
}
",
        "",
    );
    check(
        r"
trait Test { fn test(); fn test2(); }
struct T;

impl Test for T {
    fn test() {
        foo.$0
    }
}
",
        "",
    );
    check(
        r"
trait Test { fn test(_: i32); fn test2(); }
struct T;

impl Test for T {
    fn test(t$0)
}
",
        "",
    );
    check(
        r"
trait Test { fn test(_: fn()); fn test2(); }
struct T;

impl Test for T {
    fn test(f: fn $0)
}
",
        "",
    );
}

#[test]
fn no_items_of_the_trait_inside_const() {
    check(
        r"
trait Test { const TEST: fn(); const TEST2: u32; type Test; fn test(); }
struct T;

impl Test for T {
    const TEST: fn $0
}
",
        "",
    );
    check(
        r"
trait Test { const TEST: u32; const TEST2: u32; type Test; fn test(); }
struct T;

impl Test for T {
    const TEST: T$0
}
",
        "",
    );
    check(
        r"
trait Test { const TEST: u32; const TEST2: u32; type Test; fn test(); }
struct T;

impl Test for T {
    const TEST: u32 = f$0
}
",
        "",
    );
    check(
        r"
trait Test { const TEST: u32; const TEST2: u32; type Test; fn test(); }
struct T;

impl Test for T {
    const TEST: u32 = {
        t$0
    };
}
",
        "",
    );
    check(
        r"
trait Test { const TEST: u32; const TEST2: u32; type Test; fn test(); }
struct T;

impl Test for T {
    const TEST: u32 = {
        fn $0
    };
}
",
        "",
    );
    check(
        r"
trait Test { const TEST: u32; const TEST2: u32; type Test; fn test(); }
struct T;

impl Test for T {
    const TEST: u32 = {
        fn t$0
    };
}
",
        "",
    );
}

#[test]
fn no_items_of_the_trait_inside_type() {
    check(
        r"
trait Test { type Test; type Test2; fn test(); }
struct T;

impl Test for T {
    type Test = T$0;
}
",
        "",
    );
    check(
        r"
trait Test { type Test; type Test2; fn test(); }
struct T;

impl Test for T {
    type Test = fn $0;
}
",
        "",
    );
}

#[test]
fn attrs_docs_and_bodies_of_the_trait_are_not_copied() {
    check_edit(
        "fn provided",
        r#"
trait Tr {
    /// Does it.
    #[inline]
    // Or not.
    fn provided(&self, x: u8) -> u8 { x }
    /// A number.
    const NUMBER: [u8; 2] = [1, 2];
}

impl Tr for () {
    fn p$0
}
"#,
        r#"
trait Tr {
    /// Does it.
    #[inline]
    // Or not.
    fn provided(&self, x: u8) -> u8 { x }
    /// A number.
    const NUMBER: [u8; 2] = [1, 2];
}

impl Tr for () {
    fn provided(&self, x: u8) -> u8 {
    $0
}
}
"#,
    );
    check_edit(
        "const NUMBER",
        r#"
trait Tr {
    /// A number.
    const NUMBER: [u8; 2] = [1, 2];
}

impl Tr for () {
    const $0
}
"#,
        r#"
trait Tr {
    /// A number.
    const NUMBER: [u8; 2] = [1, 2];
}

impl Tr for () {
    const NUMBER: [u8; 2] = $0;
}
"#,
    );
}

#[test]
fn plain_text_without_snippets() {
    let test = |completion: &str, hint: &str, completed: &str| {
        let fixture = |text: &str| {
            format!(
                r#"
trait Test {{
    type Foo;
    const CONST: u16;
    fn bar(&self);
}}

impl Test for () {{
    {}
}}
"#,
                text
            )
        };
        check_edit_with(completion, &fixture(hint), &fixture(completed), None);
    };
    test("fn bar", "fn $0", "fn bar(&self) {");
    test("fn bar", "b$0", "fn bar(&self) {");
    test("type Foo", "type F$0", "type Foo = ");
    test("const CONST", "const$0", "const CONST: u16 = ");
}

#[test]
fn every_missing_item_is_listed_directly_in_impl() {
    check(
        r#"
trait Tr {
    type Ty;
    const NUMBER: u8;
    fn function(x: u8);
    fn method(&self);
    fn there();
}

impl Tr for () {
    fn there() {}
    $0
}
"#,
        "ta type Ty =\nct const NUMBER: u8 =\nfn fn function(..)\nme fn method(..)\n",
    );
}
