use vstd::prelude::*;

use crate::assembler::{assemble, spec_assemble};
use crate::block::CodeBlock;
use crate::errors::RunError;
use crate::loader::{load_blocks, spec_load};
use crate::selector::{
    is_line_token, is_ordinal_token, lemma_first_hit_is_first, lemma_ordinal_selection,
    line_token_val, resolve, spec_resolve, SelectionError,
};
use crate::text::digits_val;

verus! {

/// What one run of the pipeline yields for a document text and a selector
/// token: the complete compilable source for the selected block, or the
/// first error on the way there.
pub open spec fn spec_pipeline(content: Seq<char>, token: Seq<char>) -> Result<
    Seq<char>,
    RunError,
> {
    match spec_load(content) {
        Ok(bs) => match spec_resolve(bs, token) {
            Ok(i) => Ok(spec_assemble(bs, i)),
            Err(se) => Err(RunError::Selection(se)),
        },
        Err(e) => Err(e),
    }
}

/// A resolved selection always lies inside the block sequence.
proof fn lemma_resolved_in_range(blocks: Seq<CodeBlock>, token: Seq<char>)
    ensures
        match spec_resolve(blocks, token) {
            Ok(i) => 0 <= i < blocks.len(),
            Err(_) => true,
        },
{
    if is_line_token(token) {
        lemma_first_hit_is_first(blocks, line_token_val(token));
    }
}

/// On a document whose blocks stand at sequence positions `1..=N`,
/// selecting ordinal `k` with `1 <= k <= N` always assembles block `k`,
/// and selecting `0` or anything past `N` yields the selection error that
/// names the count `N` — never anything else.
pub proof fn lemma_pipeline_ordinal(content: Seq<char>, token: Seq<char>, blocks: Seq<CodeBlock>)
    requires
        spec_load(content) == Ok::<Seq<CodeBlock>, RunError>(blocks),
        is_ordinal_token(token),
    ensures
        1 <= digits_val(token) <= blocks.len() ==> spec_pipeline(content, token) == Ok::<
            Seq<char>,
            RunError,
        >(spec_assemble(blocks, digits_val(token) - 1)),
        !(1 <= digits_val(token) <= blocks.len()) ==> spec_pipeline(content, token) == Err::<
            Seq<char>,
            RunError,
        >(RunError::Selection(SelectionError::OutOfRange { count: blocks.len() as usize })),
{
    lemma_ordinal_selection(blocks, token);
}

/// Runs extraction, selection and assembly on a freshly read document text,
/// as `spec_pipeline` describes. The caller hands the result to the
/// external compiler; nothing here touches the file system.
pub fn prepare_source(content: &str, token: &str) -> (r: Result<String, RunError>)
    ensures
        match r {
            Ok(s) => spec_pipeline(content@, token@) == Ok::<Seq<char>, RunError>(s@),
            Err(e) => spec_pipeline(content@, token@) == Err::<Seq<char>, RunError>(e),
        },
{
    let blocks = match load_blocks(content) {
        Ok(bs) => bs,
        Err(e) => {
            return Err(e);
        },
    };
    let idx = match resolve(&blocks, token) {
        Ok(i) => i,
        Err(se) => {
            return Err(RunError::Selection(se));
        },
    };
    proof {
        lemma_resolved_in_range(blocks@, token@);
    }
    Ok(assemble(&blocks, idx))
}

} // verus!
