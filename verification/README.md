# ide_completion

Completion of associated items in `impl Trait for Type` blocks, for a language server: which
missing functions, types and constants of the trait to offer at the cursor, under which labels,
and with which edits. The library is written in Verus, and its contracts are proved.

- `src/text.rs`: text ranges, text edits, strings
- `src/syntax.rs`: syntax trees of files, as plain values, and the ways through them
- `src/declaration.rs`: associated items on their own, and the heads of their declarations
- `src/hir.rs`: what semantic analysis says of an `impl` block
- `src/completion.rs`: completion items, and the place they are asked for
- `src/trait_impl.rs`: the completions
- `src/laws.rs`: what holds of all of them
- `src/agreement.rs`: how those of several calls agree
- `app/`: the connection to the analysis crates of a language server

Semantic analysis comes in two forms. What it knows (which `impl` blocks resolve, what they lack)
is held in plain values. What it does to an item (inline generics, insert white space) is a
function that the caller passes in; the contracts say what it is called on and what becomes of
its answer, whatever that is.
