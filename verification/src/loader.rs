use vstd::prelude::*;

use crate::block::{host_lang, CodeBlock};
use crate::errors::RunError;
use crate::text::str_eq;

verus! {

/// The document parser's node type, consumed as a black box.
#[verifier::external_type_specification]
#[verifier::external_body]
pub struct ExNode(markdown::mdast::Node);

/// The document's structure as far as this library reads it: fenced code
/// regions with their language, metadata word, raw text and line span, and
/// the nesting of every other kind of node.
pub enum MdTree {
    /// A fenced code region. `span` is its 1-based first and last document
    /// line as the parser records them, `None` when the parser recorded no
    /// position.
    Code {
        lang: Option<String>,
        meta: Option<String>,
        value: String,
        span: Option<(usize, usize)>,
    },
    /// Any other node, reduced to its list of children (empty for leaves).
    Branch { children: Vec<MdTree> },
}

/// Relies on markdown::mdast::Node: a `Code` node carries the fenced
/// region's raw text in `value`, its fence-line language in `lang`, its
/// metadata word in `meta` and its line span in `position`; every other
/// kind of node hands its child list out through `children`, `None` for a
/// childless kind. The conversion moves these fields over one for one.
#[verifier::external_body]
fn tree_of_node(n: &markdown::mdast::Node) -> MdTree {
    match n {
        markdown::mdast::Node::Code(c) => MdTree::Code {
            lang: c.lang.clone(),
            meta: c.meta.clone(),
            value: c.value.clone(),
            span: c.position.as_ref().map(|p| (p.start.line, p.end.line)),
        },
        other => MdTree::Branch {
            children: match other.children() {
                Some(cs) => cs.iter().map(tree_of_node).collect(),
                None => Vec::new(),
            },
        },
    }
}

/// The structural tree the document text parses to, `None` when the text
/// cannot be parsed. Left uninterpreted: the parse is the outside parser's
/// business; all this library relies on is that it is a function of the
/// text alone.
pub uninterp spec fn parsed_doc(s: Seq<char>) -> Option<MdTree>;

/// Relies on markdown::to_mdast: with the default options it turns the
/// document text into one structural tree, deterministically — the result
/// depends on the text alone — or reports that the text cannot be parsed.
#[verifier::external_body]
fn parse_document(content: &str) -> (r: Option<MdTree>)
    ensures
        r == parsed_doc(content@),
{
    match markdown::to_mdast(content, &markdown::ParseOptions::default()) {
        Ok(node) => Some(tree_of_node(&node)),
        Err(_) => None,
    }
}

/// True when a fence's declared language is the host language.
pub open spec fn lang_is_host(lang: Option<String>) -> bool {
    match lang {
        Some(l) => l@ == host_lang(),
        None => false,
    }
}

/// The code block a host-language node contributes. A node with no
/// recorded span gets the empty span `(0, 0)`, which no line reference can
/// hit.
pub open spec fn block_of(
    meta: Option<String>,
    value: String,
    span: Option<(usize, usize)>,
) -> CodeBlock {
    CodeBlock {
        body: value,
        tag: meta,
        start_line: match span {
            Some(s) => s.0,
            None => 0,
        },
        end_line: match span {
            Some(s) => s.1,
            None => 0,
        },
    }
}

/// The ordered sequence of host-language code blocks a depth-first walk of
/// the tree encounters. Nodes of any other language, or of no language, are
/// skipped, but their children are still traversed.
pub open spec fn spec_collect(t: MdTree) -> Seq<CodeBlock>
    decreases t,
{
    match t {
        MdTree::Code { lang, meta, value, span } => {
            if lang_is_host(lang) {
                seq![block_of(meta, value, span)]
            } else {
                Seq::empty()
            }
        },
        MdTree::Branch { children } => spec_collect_list(children@),
    }
}

/// The blocks of a list of sibling subtrees, left to right.
pub open spec fn spec_collect_list(ts: Seq<MdTree>) -> Seq<CodeBlock>
    decreases ts,
{
    if ts.len() == 0 {
        Seq::empty()
    } else {
        spec_collect_list(ts.subrange(0, ts.len() - 1)) + spec_collect(ts[ts.len() - 1])
    }
}

/// Walks the tree depth-first and appends every host-language code block it
/// encounters, in encounter order.
fn collect_blocks(t: MdTree, out: &mut Vec<CodeBlock>)
    ensures
        final(out)@ == old(out)@ + spec_collect(t),
    decreases t,
{
    match t {
        MdTree::Code { lang, meta, value, span } => {
            let host = match &lang {
                Some(l) => str_eq(l.as_str(), "c"),
                None => false,
            };
            if host {
                let (first, last) = match &span {
                    Some(p) => (p.0, p.1),
                    None => (0usize, 0usize),
                };
                out.push(
                    CodeBlock { body: value, tag: meta, start_line: first, end_line: last },
                );
                proof {
                    assert(out@ =~= old(out)@ + spec_collect(t));
                }
            } else {
                proof {
                    assert(out@ =~= old(out)@ + spec_collect(t));
                }
            }
        },
        MdTree::Branch { children } => {
            collect_list(children, out);
            proof {
                assert(out@ =~= old(out)@ + spec_collect(t));
            }
        },
    }
}

/// Walks a list of sibling subtrees left to right, appending the blocks of
/// each in turn.
fn collect_list(ts: Vec<MdTree>, out: &mut Vec<CodeBlock>)
    ensures
        final(out)@ == old(out)@ + spec_collect_list(ts@),
    decreases ts,
{
    let ghost orig = ts@;
    let mut rest = ts;
    let total = rest.len();
    proof {
        assert(orig.len() == total);
    }
    let mut k: usize = 0;
    while rest.len() > 0
        invariant
            ts@ == orig,
            k <= orig.len() <= usize::MAX,
            k + rest@.len() == orig.len(),
            rest@ == orig.skip(k as int),
            out@ == old(out)@ + spec_collect_list(orig.take(k as int)),
        decreases rest@.len(),
    {
        let c = rest.remove(0);
        proof {
            assert(orig.skip(k as int)[0] == orig[k as int]);
            assert(c == orig[k as int]);
            assert(decreases_to!(ts => ts@));
            assert(decreases_to!(orig => orig[k as int]));
            assert(rest@ =~= orig.skip(k + 1));
        }
        collect_blocks(c, out);
        k = k + 1;
        proof {
            assert(orig.take(k as int).subrange(0, k - 1) =~= orig.take(k - 1));
            assert(orig.take(k as int)[k - 1] == orig[k - 1]);
            assert(out@ =~= old(out)@ + spec_collect_list(orig.take(k as int)));
        }
    }
    proof {
        assert(orig.take(orig.len() as int) =~= orig);
    }
}

/// What loading the document text yields: the ordered block sequence, or
/// the parse failure.
pub open spec fn spec_load(content: Seq<char>) -> Result<Seq<CodeBlock>, RunError> {
    match parsed_doc(content) {
        Some(t) => Ok(spec_collect(t)),
        None => Err(RunError::Parse),
    }
}

/// Parses the document text and collects the ordered sequence of
/// host-language code blocks, as `spec_load` describes. The text is read
/// afresh on every call: nothing is cached between runs.
pub fn load_blocks(content: &str) -> (r: Result<Vec<CodeBlock>, RunError>)
    ensures
        match r {
            Ok(bs) => spec_load(content@) == Ok::<Seq<CodeBlock>, RunError>(bs@),
            Err(e) => spec_load(content@) == Err::<Seq<CodeBlock>, RunError>(e),
        },
{
    match parse_document(content) {
        Some(t) => {
            let mut out: Vec<CodeBlock> = Vec::new();
            collect_blocks(t, &mut out);
            Ok(out)
        },
        None => Err(RunError::Parse),
    }
}

} // verus!
