//! Parsing source text into a [`Program`].
//!
//! [`parse_spec`] states the parse, by recursive descent with one character
//! of lookahead, exactly as [`Program::parse`] performs it: each of the
//! eight instruction characters becomes its node, any other character is an
//! inert comment, a `[` scans forward to its matching `]` and parses the
//! body in isolation, an unmatched `]` is a fatal error, and so is a `[`
//! that is never closed.
//!
//! The bracket laws at the end classify every input by its bracket counts
//! alone: a parse succeeds exactly on the inputs whose brackets are
//! balanced, and the error tells which side was at fault.

use vstd::prelude::*;

use crate::runtime::Program;

verus! {

/// Why a parse failed. Unknown characters are never errors (they are
/// comments); only the two bracket faults are.
#[derive(Clone, Copy, Debug, PartialEq, Eq, Structural)]
pub enum ParseError {
    /// A `]` was read with no open `[` left for it to close.
    UnmatchedCloseBracket,
    /// A `[` was read whose `]` never arrives before the input ends.
    UnmatchedOpenBracket,
}

/// How one character changes the bracket nesting depth: `[` opens a level,
/// `]` closes one, everything else leaves it alone.
pub open spec fn bracket_delta(c: char) -> int {
    if c == '[' {
        1
    } else if c == ']' {
        -1
    } else {
        0
    }
}

/// The net bracket count of `s[from..to)`: opening brackets minus closing
/// brackets.
pub open spec fn excess(s: Seq<char>, from: int, to: int) -> int
    decreases to - from,
{
    if from >= to {
        0
    } else {
        bracket_delta(s[from]) + excess(s, from + 1, to)
    }
}

/// Brackets balance over `s[from..to)`: no prefix closes more brackets
/// than it has opened, and by the end every opened bracket is closed.
pub open spec fn balanced_range(s: Seq<char>, from: int, to: int) -> bool {
    &&& excess(s, from, to) == 0
    &&& forall|k: int| from <= k <= to ==> #[trigger] excess(s, from, k) >= 0
}

/// Brackets balance over the whole of `s`.
pub open spec fn balanced(s: Seq<char>) -> bool {
    balanced_range(s, 0, s.len() as int)
}

/// Some prefix of `s[from..to)` closes a bracket that was never opened.
pub open spec fn has_unmatched_close(s: Seq<char>, from: int, to: int) -> bool {
    exists|k: int| from <= k <= to && #[trigger] excess(s, from, k) < 0
}

/// The index of the `]` that closes the loop a scan of `s[i..to)` stands
/// in, entered at `depth` nested loops below that loop: each `[` pushes the
/// scan one level deeper, each `]` pops one, and the `]` met at the scan's
/// own level is the answer; `-1` if the input ends first.
pub open spec fn scan_close(s: Seq<char>, i: int, to: int, depth: nat) -> int
    decreases to - i,
{
    if i < to {
        if s[i] == ']' {
            if depth == 0 {
                i
            } else {
                scan_close(s, i + 1, to, (depth - 1) as nat)
            }
        } else if s[i] == '[' {
            scan_close(s, i + 1, to, depth + 1)
        } else {
            scan_close(s, i + 1, to, depth)
        }
    } else {
        -1
    }
}

/// What a parse of `s[from..to)` yields. The input is consumed from the
/// front; each instruction character owns everything parsed after it, a
/// `[` hands the region up to its matching `]` to a recursive parse of the
/// loop body, and any other character is skipped.
pub open spec fn parse_range_spec(s: Seq<char>, from: int, to: int) -> Result<Program, ParseError>
    decreases to - from,
{
    if from >= to {
        Ok(Program::Empty)
    } else {
        let c = s[from];
        if c == ']' {
            Err(ParseError::UnmatchedCloseBracket)
        } else if c == '[' {
            let j = scan_close(s, from + 1, to, 0);
            if from + 1 <= j < to {
                match (parse_range_spec(s, from + 1, j), parse_range_spec(s, j + 1, to)) {
                    (Ok(body), Ok(next)) => Ok(Program::Loop(Box::new(body), Box::new(next))),
                    (Err(e), _) => Err(e),
                    (_, Err(e)) => Err(e),
                }
            } else {
                Err(ParseError::UnmatchedOpenBracket)
            }
        } else {
            match parse_range_spec(s, from + 1, to) {
                Ok(n) => Ok(
                    if c == '<' {
                        Program::Left(Box::new(n))
                    } else if c == '>' {
                        Program::Right(Box::new(n))
                    } else if c == '+' {
                        Program::Incr(Box::new(n))
                    } else if c == '-' {
                        Program::Decr(Box::new(n))
                    } else if c == ',' {
                        Program::Input(Box::new(n))
                    } else if c == '.' {
                        Program::Output(Box::new(n))
                    } else {
                        n
                    },
                ),
                Err(e) => Err(e),
            }
        }
    }
}

/// What a parse of the whole of `s` yields.
pub open spec fn parse_spec(s: Seq<char>) -> Result<Program, ParseError> {
    parse_range_spec(s, 0, s.len() as int)
}

impl Program {
    /// The position of the `]` in `src[from..to)` that closes the loop
    /// whose body starts at `from`, skipping over nested loops; `None` if
    /// the input ends before it arrives.
    fn find_close(src: &Vec<char>, from: usize, to: usize) -> (r: Option<usize>)
        requires
            from <= to <= src@.len(),
        ensures
            ({
                let j = scan_close(src@, from as int, to as int, 0);
                match r {
                    Some(k) => from <= k < to && j == k,
                    None => j == -1,
                }
            }),
    {
        let mut i: usize = from;
        let mut depth: usize = 0;
        while i < to
            invariant
                from <= i <= to <= src@.len(),
                depth <= i - from,
                scan_close(src@, from as int, to as int, 0) == scan_close(
                    src@,
                    i as int,
                    to as int,
                    depth as nat,
                ),
            decreases to - i,
        {
            let c = src[i];
            if c == ']' {
                if depth == 0 {
                    return Some(i);
                }
                depth = depth - 1;
            } else if c == '[' {
                depth = depth + 1;
            }
            i = i + 1;
        }
        None
    }

    /// Parses `src[from..to)`, as [`parse_range_spec`] states it.
    fn parse_range(src: &Vec<char>, from: usize, to: usize) -> (r: Result<Program, ParseError>)
        requires
            from <= to <= src@.len(),
        ensures
            r == parse_range_spec(src@, from as int, to as int),
        decreases to - from,
    {
        if from >= to {
            return Ok(Program::Empty);
        }
        let c = src[from];
        if c == ']' {
            Err(ParseError::UnmatchedCloseBracket)
        } else if c == '[' {
            match Self::find_close(src, from + 1, to) {
                Some(j) => {
                    match Self::parse_range(src, from + 1, j) {
                        Ok(body) => match Self::parse_range(src, j + 1, to) {
                            Ok(next) => Ok(
                                Program::Loop(Box::new(body), Box::new(next)),
                            ),
                            Err(e) => Err(e),
                        },
                        Err(e) => Err(e),
                    }
                },
                None => Err(ParseError::UnmatchedOpenBracket),
            }
        } else {
            match Self::parse_range(src, from + 1, to) {
                Ok(n) => Ok(
                    if c == '<' {
                        Program::Left(Box::new(n))
                    } else if c == '>' {
                        Program::Right(Box::new(n))
                    } else if c == '+' {
                        Program::Incr(Box::new(n))
                    } else if c == '-' {
                        Program::Decr(Box::new(n))
                    } else if c == ',' {
                        Program::Input(Box::new(n))
                    } else if c == '.' {
                        Program::Output(Box::new(n))
                    } else {
                        n
                    },
                ),
                Err(e) => Err(e),
            }
        }
    }

    /// Parses source text into a program, consuming the characters from
    /// the front until exhaustion. The result is exactly what
    /// [`parse_spec`] states, and the bracket laws below say when it is
    /// `Ok`: precisely on the inputs whose brackets are balanced.
    pub fn parse(src: &Vec<char>) -> (r: Result<Program, ParseError>)
        ensures
            r == parse_spec(src@),
    {
        Self::parse_range(src, 0, src.len())
    }
}

/// Splitting a region at any point splits its bracket count.
pub proof fn lemma_excess_add(s: Seq<char>, a: int, b: int, c: int)
    requires
        a <= b <= c,
    ensures
        excess(s, a, c) == excess(s, a, b) + excess(s, b, c),
    decreases b - a,
{
    if a < b {
        lemma_excess_add(s, a + 1, b, c);
    }
}

/// What the matching-bracket scan finds, in terms of bracket counts alone:
/// entered at `depth` levels down, it returns the first position where the
/// running bracket count of the scanned region dips below `-depth` — a `]`
/// whose count before it is exactly `-depth` — and `-1` exactly when the
/// count never dips that far before `to`.
proof fn lemma_scan_close_spec(s: Seq<char>, i: int, to: int, depth: nat)
    requires
        0 <= i <= to,
    ensures
        scan_close(s, i, to, depth) == -1 ==> forall|k: int|
            i <= k <= to ==> #[trigger] excess(s, i, k) + depth >= 0,
        scan_close(s, i, to, depth) != -1 ==> {
            let j = scan_close(s, i, to, depth);
            &&& i <= j < to
            &&& s[j] == ']'
            &&& excess(s, i, j) + depth == 0
            &&& forall|k: int| i <= k <= j ==> #[trigger] excess(s, i, k) + depth >= 0
        },
    decreases to - i,
{
    if i >= to {
        assert forall|k: int| i <= k <= to implies #[trigger] excess(s, i, k) + depth >= 0 by {
            assert(excess(s, i, k) == 0);
        }
    } else {
        let c = s[i];
        if c == ']' && depth == 0 {
            assert(excess(s, i, i) == 0);
        } else {
            let inner_depth: nat = if c == ']' {
                (depth - 1) as nat
            } else if c == '[' {
                depth + 1
            } else {
                depth
            };
            lemma_scan_close_spec(s, i + 1, to, inner_depth);
            let j = scan_close(s, i + 1, to, inner_depth);
            assert(scan_close(s, i, to, depth) == j);
            if j == -1 {
                assert forall|k: int| i <= k <= to implies #[trigger] excess(s, i, k) + depth
                    >= 0 by {
                    if k == i {
                        assert(excess(s, i, k) == 0);
                    } else {
                        assert(excess(s, i, k) == bracket_delta(s[i]) + excess(s, i + 1, k));
                        assert(excess(s, i + 1, k) + inner_depth >= 0);
                    }
                }
            } else {
                assert(excess(s, i, j) == bracket_delta(s[i]) + excess(s, i + 1, j));
                assert forall|k: int| i <= k <= j implies #[trigger] excess(s, i, k) + depth
                    >= 0 by {
                    if k == i {
                        assert(excess(s, i, k) == 0);
                    } else {
                        assert(excess(s, i, k) == bracket_delta(s[i]) + excess(s, i + 1, k));
                        assert(excess(s, i + 1, k) + inner_depth >= 0);
                    }
                }
            }
        }
    }
}

/// A region whose brackets balance parses without error.
proof fn lemma_parse_range_balanced(s: Seq<char>, from: int, to: int)
    requires
        0 <= from <= to,
        balanced_range(s, from, to),
    ensures
        parse_range_spec(s, from, to) is Ok,
    decreases to - from,
{
    if from < to {
        let c = s[from];
        assert(excess(s, from, from + 1) == bracket_delta(c) + excess(s, from + 1, from + 1));
        if c == ']' {
            assert(excess(s, from, from + 1) == -1);
        } else if c == '[' {
            lemma_scan_close_spec(s, from + 1, to, 0);
            let j = scan_close(s, from + 1, to, 0);
            assert(excess(s, from, to) == bracket_delta(c) + excess(s, from + 1, to));
            if j == -1 {
                assert(excess(s, from + 1, to) + 0 >= 0);
                assert(false);
            }
            // The scanned region up to the matching bracket is the loop's
            // body; its brackets balance, so it parses.
            assert(balanced_range(s, from + 1, j));
            lemma_parse_range_balanced(s, from + 1, j);
            // Everything after the matching bracket balances as well.
            assert(excess(s, from, j + 1) == bracket_delta(c) + excess(s, from + 1, j + 1));
            lemma_excess_add(s, from + 1, j, j + 1);
            assert(excess(s, j, j + 1) == bracket_delta(s[j]) + excess(s, j + 1, j + 1));
            assert(excess(s, from, j + 1) == 0);
            lemma_excess_add(s, from, j + 1, to);
            assert forall|k: int| j + 1 <= k <= to implies #[trigger] excess(s, j + 1, k)
                >= 0 by {
                lemma_excess_add(s, from, j + 1, k);
                assert(excess(s, from, k) >= 0);
            }
            assert(balanced_range(s, j + 1, to));
            lemma_parse_range_balanced(s, j + 1, to);
        } else {
            assert forall|k: int| from + 1 <= k <= to implies #[trigger] excess(s, from + 1, k)
                >= 0 by {
                assert(excess(s, from, k) == bracket_delta(c) + excess(s, from + 1, k));
                assert(excess(s, from, k) >= 0);
            }
            assert(excess(s, from, to) == bracket_delta(c) + excess(s, from + 1, to));
            assert(balanced_range(s, from + 1, to));
            lemma_parse_range_balanced(s, from + 1, to);
        }
    }
}

/// A region in which some prefix closes a bracket never opened fails with
/// [`ParseError::UnmatchedCloseBracket`].
proof fn lemma_parse_range_unmatched_close(s: Seq<char>, from: int, to: int)
    requires
        0 <= from <= to,
        has_unmatched_close(s, from, to),
    ensures
        parse_range_spec(s, from, to) == Err::<Program, ParseError>(
            ParseError::UnmatchedCloseBracket,
        ),
    decreases to - from,
{
    let k = choose|k: int| from <= k <= to && #[trigger] excess(s, from, k) < 0;
    assert(excess(s, from, from) == 0);
    assert(from < k);
    let c = s[from];
    assert(excess(s, from, k) == bracket_delta(c) + excess(s, from + 1, k));
    if c == ']' {
    } else if c == '[' {
        lemma_scan_close_spec(s, from + 1, to, 0);
        let j = scan_close(s, from + 1, to, 0);
        assert(excess(s, from + 1, k) < -1);
        if j == -1 {
            assert(excess(s, from + 1, k) + 0 >= 0);
            assert(false);
        }
        assert(balanced_range(s, from + 1, j));
        lemma_parse_range_balanced(s, from + 1, j);
        // The dip lies strictly beyond the matching bracket: up to it the
        // scanned region never goes negative, and at it the count is back
        // to zero.
        lemma_excess_add(s, from + 1, j, j + 1);
        assert(excess(s, j, j + 1) == bracket_delta(s[j]) + excess(s, j + 1, j + 1));
        assert(excess(s, from, j + 1) == 0);
        assert(k > j + 1);
        lemma_excess_add(s, from, j + 1, k);
        assert(excess(s, j + 1, k) < 0);
        assert(has_unmatched_close(s, j + 1, to));
        lemma_parse_range_unmatched_close(s, j + 1, to);
    } else {
        assert(excess(s, from + 1, k) < 0);
        assert(has_unmatched_close(s, from + 1, to));
        lemma_parse_range_unmatched_close(s, from + 1, to);
    }
}

/// A region that never closes a bracket early but leaves brackets open
/// fails with [`ParseError::UnmatchedOpenBracket`].
proof fn lemma_parse_range_unmatched_open(s: Seq<char>, from: int, to: int)
    requires
        0 <= from <= to,
        !has_unmatched_close(s, from, to),
        excess(s, from, to) > 0,
    ensures
        parse_range_spec(s, from, to) == Err::<Program, ParseError>(
            ParseError::UnmatchedOpenBracket,
        ),
    decreases to - from,
{
    assert(from < to);
    let c = s[from];
    assert(excess(s, from, to) == bracket_delta(c) + excess(s, from + 1, to));
    if c == ']' {
        assert(excess(s, from, from + 1) == bracket_delta(c) + excess(s, from + 1, from + 1));
        assert(excess(s, from, from + 1) < 0);
        assert(has_unmatched_close(s, from, to));
    } else if c == '[' {
        lemma_scan_close_spec(s, from + 1, to, 0);
        let j = scan_close(s, from + 1, to, 0);
        if j != -1 {
            assert(balanced_range(s, from + 1, j));
            lemma_parse_range_balanced(s, from + 1, j);
            lemma_excess_add(s, from + 1, j, j + 1);
            assert(excess(s, j, j + 1) == bracket_delta(s[j]) + excess(s, j + 1, j + 1));
            assert(excess(s, from, j + 1) == bracket_delta(c) + excess(s, from + 1, j + 1));
            assert(excess(s, from, j + 1) == 0);
            lemma_excess_add(s, from, j + 1, to);
            assert(excess(s, j + 1, to) > 0);
            assert forall|k: int| j + 1 <= k <= to implies !(#[trigger] excess(s, j + 1, k)
                < 0) by {
                lemma_excess_add(s, from, j + 1, k);
                assert(!(excess(s, from, k) < 0));
            }
            lemma_parse_range_unmatched_open(s, j + 1, to);
        }
    } else {
        assert(excess(s, from + 1, to) > 0);
        assert forall|k: int| from + 1 <= k <= to implies !(#[trigger] excess(s, from + 1, k)
            < 0) by {
            assert(excess(s, from, k) == bracket_delta(c) + excess(s, from + 1, k));
            assert(!(excess(s, from, k) < 0));
        }
        lemma_parse_range_unmatched_open(s, from + 1, to);
    }
}

/// Bracket balance law: whenever the brackets of a source text balance —
/// however deeply nested, whatever other characters stand around them —
/// the parse succeeds. Every parsed fragment, a loop body included, is a
/// finite tree terminating in [`Program::Empty`] by construction of
/// [`Program`]: no node dangles.
pub proof fn lemma_balanced_parses(s: Seq<char>)
    requires
        balanced(s),
    ensures
        parse_spec(s) is Ok,
{
    lemma_parse_range_balanced(s, 0, s.len() as int);
}

/// Unmatched bracket law: whenever some prefix of the source text closes a
/// bracket that was never opened, the parse fails, and the error is
/// [`ParseError::UnmatchedCloseBracket`].
pub proof fn lemma_unmatched_close_fails(s: Seq<char>)
    requires
        has_unmatched_close(s, 0, s.len() as int),
    ensures
        parse_spec(s) == Err::<Program, ParseError>(ParseError::UnmatchedCloseBracket),
{
    lemma_parse_range_unmatched_close(s, 0, s.len() as int);
}

/// Unterminated loop law: a source text that never closes a bracket early
/// but leaves one open fails, and the error is
/// [`ParseError::UnmatchedOpenBracket`]. End of input is not an implicit
/// close.
pub proof fn lemma_unmatched_open_fails(s: Seq<char>)
    requires
        !has_unmatched_close(s, 0, s.len() as int),
        excess(s, 0, s.len() as int) > 0,
    ensures
        parse_spec(s) == Err::<Program, ParseError>(ParseError::UnmatchedOpenBracket),
{
    lemma_parse_range_unmatched_open(s, 0, s.len() as int);
}

/// The complete classification of a parse by bracket counts alone: it
/// succeeds exactly on balanced input, reports an unmatched `]` exactly
/// when some prefix closes a bracket never opened, and reports an
/// unmatched `[` in exactly the remaining case — brackets are left open
/// but none was closed early.
pub proof fn lemma_parse_classifies(s: Seq<char>)
    ensures
        parse_spec(s) is Ok <==> balanced(s),
        parse_spec(s) == Err::<Program, ParseError>(ParseError::UnmatchedCloseBracket)
            <==> has_unmatched_close(s, 0, s.len() as int),
        parse_spec(s) == Err::<Program, ParseError>(ParseError::UnmatchedOpenBracket) <==> (
        !has_unmatched_close(s, 0, s.len() as int) && excess(s, 0, s.len() as int) > 0),
{
    let to = s.len() as int;
    if has_unmatched_close(s, 0, to) {
        lemma_parse_range_unmatched_close(s, 0, to);
    } else {
        assert(excess(s, 0, to) >= 0);
        if excess(s, 0, to) == 0 {
            assert(balanced_range(s, 0, to));
            lemma_parse_range_balanced(s, 0, to);
        } else {
            lemma_parse_range_unmatched_open(s, 0, to);
        }
    }
}

} // verus!

