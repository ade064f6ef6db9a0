use vstd::prelude::*;

use crate::block::{line_hits, CodeBlock};
use crate::text::{all_digits, digits_val, is_digit, parse_digits, NumParse};

verus! {

/// Why a selector token failed to pick a block.
#[derive(Debug, Clone, Copy, PartialEq, Eq, Structural)]
pub enum SelectionError {
    /// The token is neither an ordinal nor a line reference.
    Malformed,
    /// The ordinal lies outside `[1, count]`; `count` is how many blocks
    /// the document holds.
    OutOfRange { count: usize },
    /// No block's span contains the referenced line.
    LineNotFound,
}

/// The marker character that opens a line-reference token.
pub open spec fn line_marker() -> char {
    'l'
}

/// True when `t` is a line-reference token: the marker followed by a
/// non-empty run of digits.
pub open spec fn is_line_token(t: Seq<char>) -> bool {
    t.len() >= 2 && t[0] == line_marker() && all_digits(t.skip(1))
}

/// The number a line-reference token carries.
pub open spec fn line_token_val(t: Seq<char>) -> nat {
    digits_val(t.skip(1))
}

/// True when `t` is an ordinal token: a non-empty run of digits.
pub open spec fn is_ordinal_token(t: Seq<char>) -> bool {
    t.len() >= 1 && all_digits(t)
}

/// The index of the first block, in sequence order, whose span contains the
/// 1-based line `n`; `None` when no span does.
pub open spec fn first_hit(blocks: Seq<CodeBlock>, n: nat) -> Option<int>
    decreases blocks.len(),
{
    if blocks.len() == 0 {
        None
    } else if line_hits(blocks[0], n) {
        Some(0)
    } else {
        match first_hit(blocks.drop_first(), n) {
            Some(i) => Some(i + 1),
            None => None,
        }
    }
}

/// When two spans could overlap, the first match in sequence order wins;
/// when no span matches, there is no hit at all.
pub proof fn lemma_first_hit_is_first(blocks: Seq<CodeBlock>, n: nat)
    ensures
        match first_hit(blocks, n) {
            Some(i) => 0 <= i < blocks.len() && line_hits(blocks[i], n) && (forall|j: int|
                0 <= j < i ==> !line_hits(blocks[j], n)),
            None => forall|j: int| 0 <= j < blocks.len() ==> !line_hits(blocks[j], n),
        },
    decreases blocks.len(),
{
    if blocks.len() == 0 {
    } else if line_hits(blocks[0], n) {
    } else {
        let rest = blocks.drop_first();
        lemma_first_hit_is_first(rest, n);
        assert(forall|j: int| 0 <= j < rest.len() ==> #[trigger] rest[j] == blocks[j + 1]);
        match first_hit(rest, n) {
            Some(i) => {
                assert(first_hit(blocks, n) == Some(i + 1));
                assert(line_hits(blocks[i + 1], n));
                assert forall|j: int| 0 <= j < i + 1 implies !line_hits(
                    #[trigger] blocks[j],
                    n,
                ) by {
                    if j > 0 {
                        assert(!line_hits(rest[j - 1], n));
                    }
                }
            },
            None => {
                assert(first_hit(blocks, n) is None);
                assert forall|j: int| 0 <= j < blocks.len() implies !line_hits(
                    #[trigger] blocks[j],
                    n,
                ) by {
                    if j > 0 {
                        assert(!line_hits(rest[j - 1], n));
                    }
                }
            },
        }
    }
}

/// What resolving the token `t` against `blocks` yields: the 0-based index
/// of the selected block, or the error the token earns.
///
/// An ordinal token `n` selects block `n - 1` when `1 <= n <= count` and is
/// out of range otherwise. A line-reference token selects the first block
/// whose span contains the referenced line. Any other token is malformed.
pub open spec fn spec_resolve(blocks: Seq<CodeBlock>, t: Seq<char>) -> Result<int, SelectionError> {
    if is_line_token(t) {
        match first_hit(blocks, line_token_val(t)) {
            Some(i) => Ok(i),
            None => Err(SelectionError::LineNotFound),
        }
    } else if is_ordinal_token(t) {
        if 1 <= digits_val(t) <= blocks.len() {
            Ok(digits_val(t) - 1)
        } else {
            Err(SelectionError::OutOfRange { count: blocks.len() as usize })
        }
    } else {
        Err(SelectionError::Malformed)
    }
}

/// Selecting an in-range ordinal `k` always selects block `k` (the block at
/// 0-based index `k - 1`); an ordinal outside `[1, count]` — `0` or past the
/// end alike — earns the selection error that names how many blocks the
/// document holds, never anything else.
pub proof fn lemma_ordinal_selection(blocks: Seq<CodeBlock>, token: Seq<char>)
    requires
        is_ordinal_token(token),
    ensures
        1 <= digits_val(token) <= blocks.len() ==> spec_resolve(blocks, token) == Ok::<
            int,
            SelectionError,
        >(digits_val(token) - 1),
        !(1 <= digits_val(token) <= blocks.len()) ==> spec_resolve(blocks, token) == Err::<
            int,
            SelectionError,
        >(SelectionError::OutOfRange { count: blocks.len() as usize }),
{
    assert(is_digit(token[0]));
    assert(!is_line_token(token));
}

/// A line reference resolves to the block whose span contains the target
/// line; where spans overlap, the first match in sequence order wins, and
/// where no span matches, the selection fails with the line-not-found
/// error.
pub proof fn lemma_line_selection(blocks: Seq<CodeBlock>, token: Seq<char>)
    requires
        is_line_token(token),
    ensures
        match spec_resolve(blocks, token) {
            Ok(i) => 0 <= i < blocks.len() && line_hits(blocks[i], line_token_val(token))
                && (forall|j: int|
                0 <= j < i ==> !line_hits(blocks[j], line_token_val(token))),
            Err(e) => e == SelectionError::LineNotFound && (forall|j: int|
                0 <= j < blocks.len() ==> !line_hits(blocks[j], line_token_val(token))),
        },
{
    lemma_first_hit_is_first(blocks, line_token_val(token));
}

/// Maps a user-supplied selector token to an index into the block sequence,
/// as `spec_resolve` describes.
pub fn resolve(blocks: &Vec<CodeBlock>, token: &str) -> (r: Result<usize, SelectionError>)
    ensures
        match r {
            Ok(i) => spec_resolve(blocks@, token@) == Ok::<int, SelectionError>(i as int),
            Err(e) => spec_resolve(blocks@, token@) == Err::<int, SelectionError>(e),
        },
{
    let len = token.unicode_len();
    if len == 0 {
        return Err(SelectionError::Malformed);
    }
    if token.get_char(0) == 'l' {
        match parse_digits(token, 1) {
            NumParse::NotNumeral => {
                proof {
                    assert(!is_line_token(token@));
                    assert(!all_digits(token@)) by {
                        assert(!is_digit(token@[0]));
                    }
                }
                Err(SelectionError::Malformed)
            },
            NumParse::TooBig => {
                let ghost n = line_token_val(token@);
                proof {
                    assert(is_line_token(token@));
                    assert(n > usize::MAX);
                    lemma_no_hit_above_max(blocks@, n);
                    lemma_first_hit_is_first(blocks@, n);
                    match first_hit(blocks@, n) {
                        Some(i) => {
                            assert(!line_hits(blocks@[i], n));
                        },
                        None => {},
                    }
                }
                Err(SelectionError::LineNotFound)
            },
            NumParse::Value(n) => {
                proof {
                    assert(is_line_token(token@));
                    assert(line_token_val(token@) == n);
                }
                find_line(blocks, n)
            },
        }
    } else {
        match parse_digits(token, 0) {
            NumParse::NotNumeral => {
                proof {
                    assert(token@.skip(0) =~= token@);
                }
                Err(SelectionError::Malformed)
            },
            NumParse::TooBig => {
                proof {
                    assert(token@.skip(0) =~= token@);
                    assert(!is_line_token(token@)) by {
                        assert(token@[0] != 'l');
                    }
                }
                Err(SelectionError::OutOfRange { count: blocks.len() })
            },
            NumParse::Value(n) => {
                proof {
                    assert(token@.skip(0) =~= token@);
                    assert(!is_line_token(token@)) by {
                        assert(token@[0] != 'l');
                    }
                }
                if 1 <= n && n <= blocks.len() {
                    Ok(n - 1)
                } else {
                    Err(SelectionError::OutOfRange { count: blocks.len() })
                }
            },
        }
    }
}

/// A line number too large for the machine lies past every span.
proof fn lemma_no_hit_above_max(blocks: Seq<CodeBlock>, n: nat)
    requires
        n > usize::MAX,
    ensures
        forall|j: int| 0 <= j < blocks.len() ==> !line_hits(#[trigger] blocks[j], n),
{
    assert forall|j: int| 0 <= j < blocks.len() implies !line_hits(#[trigger] blocks[j], n) by {
        assert(blocks[j].end_line <= usize::MAX);
    }
}

/// Scans the sequence for the first block whose span contains line `n`.
fn find_line(blocks: &Vec<CodeBlock>, n: usize) -> (r: Result<usize, SelectionError>)
    ensures
        match r {
            Ok(i) => first_hit(blocks@, n as nat) == Some(i as int),
            Err(e) => e == SelectionError::LineNotFound && first_hit(blocks@, n as nat)
                is None,
        },
{
    proof {
        lemma_first_hit_is_first(blocks@, n as nat);
    }
    let mut i: usize = 0;
    while i < blocks.len()
        invariant
            i <= blocks@.len(),
            forall|j: int| 0 <= j < i ==> !line_hits(#[trigger] blocks@[j], n as nat),
            match first_hit(blocks@, n as nat) {
                Some(h) => 0 <= h < blocks@.len() && line_hits(blocks@[h], n as nat)
                    && (forall|j: int| 0 <= j < h ==> !line_hits(blocks@[j], n as nat)),
                None => forall|j: int| 0 <= j < blocks@.len() ==> !line_hits(
                    blocks@[j],
                    n as nat,
                ),
            },
        decreases blocks@.len() - i,
    {
        let b = &blocks[i];
        if n >= 1 && b.start_line <= n - 1 && n - 1 < b.end_line {
            proof {
                assert(line_hits(blocks@[i as int], n as nat));
                match first_hit(blocks@, n as nat) {
                    Some(h) => {
                        assert(!(h < i) && !(i < h));
                    },
                    None => {},
                }
            }
            return Ok(i);
        }
        proof {
            assert(!line_hits(blocks@[i as int], n as nat));
        }
        i = i + 1;
    }
    proof {
        match first_hit(blocks@, n as nat) {
            Some(h) => {
                assert(!line_hits(blocks@[h], n as nat));
            },
            None => {},
        }
    }
    Err(SelectionError::LineNotFound)
}

} // verus!
