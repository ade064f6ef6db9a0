use vstd::prelude::*;

use crate::block::{is_lib, is_standalone, CodeBlock};

verus! {

/// The fixed preamble of standard include directives for the host
/// language's baseline I/O, string and allocation facilities, prepended to
/// every assembled source regardless of mode.
pub open spec fn preamble() -> Seq<char> {
    "#include <stdio.h>\n#include <string.h>\n#include <stdlib.h>\n"@
}

/// The text that opens the entry-point wrapper around a non-standalone
/// block's body.
pub open spec fn entry_open() -> Seq<char> {
    "\nint main() {\n"@
}

/// The text that closes the entry-point wrapper: an implicit success return.
pub open spec fn entry_close() -> Seq<char> {
    "\nreturn 0; }\n"@
}

/// A library block's body as it is inlined: surrounded by blank-line
/// separators.
pub open spec fn lib_chunk(b: CodeBlock) -> Seq<char> {
    "\n"@ + b.body@ + "\n"@
}

/// The inlined bodies of every library-tagged block among the first `k`
/// blocks of the sequence, in sequence order.
pub open spec fn libs_segment(blocks: Seq<CodeBlock>, k: int) -> Seq<char>
    decreases k,
{
    if k <= 0 {
        Seq::empty()
    } else {
        libs_segment(blocks, k - 1) + if is_lib(blocks[k - 1]) {
            lib_chunk(blocks[k - 1])
        } else {
            Seq::<char>::empty()
        }
    }
}

/// The complete compilable source assembled for the block at `idx`.
///
/// A standalone block supplies its own entry point: its body follows the
/// preamble verbatim, with nothing inlined and nothing wrapped around it.
/// Any other block is preceded by the bodies of the library-tagged blocks
/// that stand before it, and its own body is wrapped in an entry point that
/// ends in an implicit success return.
pub open spec fn spec_assemble(blocks: Seq<CodeBlock>, idx: int) -> Seq<char>
    recommends
        0 <= idx < blocks.len(),
{
    if is_standalone(blocks[idx]) {
        preamble() + blocks[idx].body@
    } else {
        preamble() + libs_segment(blocks, idx) + entry_open() + blocks[idx].body@ + entry_close()
    }
}

/// A standalone block is never wrapped in an entry point and never receives
/// inlined library content, however many library blocks precede it.
pub proof fn lemma_standalone_unwrapped(blocks: Seq<CodeBlock>, idx: int)
    requires
        0 <= idx < blocks.len(),
        is_standalone(blocks[idx]),
    ensures
        spec_assemble(blocks, idx) == preamble() + blocks[idx].body@,
{
}

/// A non-standalone block's assembled source contains, in order: the
/// preamble, then the bodies of every preceding library-tagged block and no
/// others, then the block's own body inside the entry-point wrapper ending
/// in an implicit success return.
pub proof fn lemma_wrapped_layout(blocks: Seq<CodeBlock>, idx: int)
    requires
        0 <= idx < blocks.len(),
        !is_standalone(blocks[idx]),
    ensures
        spec_assemble(blocks, idx) == preamble() + libs_segment(blocks, idx) + entry_open()
            + blocks[idx].body@ + entry_close(),
{
}

/// The inlined library segment reads only the blocks before `k`: two
/// sequences that agree up to `k` inline the same library bodies.
proof fn lemma_libs_segment_prefix(b1: Seq<CodeBlock>, b2: Seq<CodeBlock>, k: int)
    requires
        k <= b1.len(),
        k <= b2.len(),
        forall|j: int| 0 <= j < k ==> b1[j] == b2[j],
    ensures
        libs_segment(b1, k) == libs_segment(b2, k),
    decreases k,
{
    if k > 0 {
        lemma_libs_segment_prefix(b1, b2, k - 1);
    }
}

/// A library block positioned after the selection is never inlined: the
/// assembled source depends only on the selected block and the blocks that
/// precede it, so appending further blocks to the document changes nothing.
pub proof fn lemma_assembly_ignores_later_blocks(
    blocks: Seq<CodeBlock>,
    extra: Seq<CodeBlock>,
    idx: int,
)
    requires
        0 <= idx < blocks.len(),
    ensures
        spec_assemble(blocks + extra, idx) == spec_assemble(blocks, idx),
{
    assert((blocks + extra)[idx] == blocks[idx]);
    lemma_libs_segment_prefix(blocks + extra, blocks, idx);
}

/// Produces the complete compilable source for the block at `idx`, exactly
/// as `spec_assemble` lays it out.
pub fn assemble(blocks: &Vec<CodeBlock>, idx: usize) -> (r: String)
    requires
        idx < blocks@.len(),
    ensures
        r@ == spec_assemble(blocks@, idx as int),
{
    let mut out = String::new();
    out.append("#include <stdio.h>\n#include <string.h>\n#include <stdlib.h>\n");
    proof {
        assert(out@ =~= preamble());
    }
    let selected = &blocks[idx];
    let standalone = match &selected.tag {
        Some(t) => crate::text::str_eq(t.as_str(), "standalone"),
        None => false,
    };
    if standalone {
        out.append(selected.body.as_str());
        proof {
            assert(out@ =~= spec_assemble(blocks@, idx as int));
        }
        return out;
    }
    let mut i: usize = 0;
    while i < idx
        invariant
            i <= idx < blocks@.len(),
            out@ == preamble() + libs_segment(blocks@, i as int),
        decreases idx - i,
    {
        let b = &blocks[i];
        let lib = match &b.tag {
            Some(t) => crate::text::str_eq(t.as_str(), "lib"),
            None => false,
        };
        if lib {
            out.append("\n");
            out.append(b.body.as_str());
            out.append("\n");
            proof {
                assert(out@ =~= preamble() + libs_segment(blocks@, i + 1));
            }
        } else {
            proof {
                assert(out@ =~= preamble() + libs_segment(blocks@, i + 1));
            }
        }
        i = i + 1;
    }
    out.append("\nint main() {\n");
    out.append(selected.body.as_str());
    out.append("\nreturn 0; }\n");
    proof {
        assert(out@ =~= spec_assemble(blocks@, idx as int));
    }
    out
}

} // verus!
