use vstd::prelude::*;

verus! {

/// One fenced code region of the host language found in the document.
///
/// `body` is the raw text inside the fence, unmodified. `tag` is the optional
/// free-form marker word attached to the fence; `None` means an ordinary
/// runnable block. `start_line` and `end_line` record the span of document
/// lines the fence occupies, as the document parser reports them (1-based);
/// a block whose span the parser did not record carries the empty span
/// `(0, 0)`, which no line reference can hit.
#[derive(Debug)]
pub struct CodeBlock {
    pub body: String,
    pub tag: Option<String>,
    pub start_line: usize,
    pub end_line: usize,
}

/// The language whose fenced blocks are collected.
pub open spec fn host_lang() -> Seq<char> {
    "c"@
}

/// The marker word that tags a block as reusable support code.
pub open spec fn lib_marker() -> Seq<char> {
    "lib"@
}

/// The marker word that tags a block as a complete, self-sufficient program.
pub open spec fn standalone_marker() -> Seq<char> {
    "standalone"@
}

/// True when the block's tag equals the marker `m`.
pub open spec fn tag_is(b: CodeBlock, m: Seq<char>) -> bool {
    match b.tag {
        Some(t) => t@ == m,
        None => false,
    }
}

/// True when the block is tagged as a library block.
pub open spec fn is_lib(b: CodeBlock) -> bool {
    tag_is(b, lib_marker())
}

/// True when the block is tagged as a standalone program.
pub open spec fn is_standalone(b: CodeBlock) -> bool {
    tag_is(b, standalone_marker())
}

/// True when the 1-based line reference `n` falls inside the block's span.
///
/// The target document line is `n - 1`, and the span is read as the half-open
/// interval `[start_line, end_line)`, so the line just past a block's content
/// is not considered part of it.
pub open spec fn line_hits(b: CodeBlock, n: nat) -> bool {
    b.start_line <= n - 1 < b.end_line
}

} // verus!
