//! Parsing a line of tokens into a statement tree.
//!
//! A line is a `;`-separated sequence of segments; empty segments are dropped.
//! Each segment is a chain of simple commands joined by `&&` and `||`, which
//! share one precedence level and associate left-to-right.  A simple command
//! is one name token (the executable) followed by any number of name tokens
//! (its arguments).

use vstd::prelude::*;

use crate::ast::Node;
use crate::ast::Statement;
use crate::error::ShellError;
use crate::grammar::Token;
use crate::grammar::TokenView;
use crate::grammar::space_char;
use crate::grammar::tokenize;
use crate::grammar::tokenize_line;

verus! {

/// A connective token: `&&` or `||`.
pub open spec fn is_conn(t: TokenView) -> bool {
    t is AndOp || t is OrOp
}

/// The text of a name token.
pub open spec fn tok_name(t: TokenView) -> Seq<char> {
    match t {
        TokenView::Name(s) => s,
        _ => Seq::empty(),
    }
}

/// Index of the first `;` in `ts`, or `ts.len()` where there is none.
pub open spec fn first_semi(ts: Seq<TokenView>) -> int
    decreases ts.len(),
{
    if ts.len() == 0 {
        0
    } else if ts[0] is Semi {
        0
    } else {
        1 + first_semi(ts.drop_first())
    }
}

/// Index of the last connective in `ts`, or `-1` where there is none.
pub open spec fn last_conn(ts: Seq<TokenView>) -> int
    decreases ts.len(),
{
    if ts.len() == 0 {
        -1
    } else if is_conn(ts.last()) {
        ts.len() - 1
    } else {
        last_conn(ts.drop_last())
    }
}

pub proof fn lemma_first_semi_bounds(ts: Seq<TokenView>)
    ensures
        0 <= first_semi(ts) <= ts.len(),
        first_semi(ts) < ts.len() ==> ts[first_semi(ts)] is Semi,
        forall|k: int| 0 <= k < first_semi(ts) ==> !(ts[k] is Semi),
    decreases ts.len(),
{
    if ts.len() > 0 && !(ts[0] is Semi) {
        lemma_first_semi_bounds(ts.drop_first());
        assert forall|k: int| 0 <= k < first_semi(ts) implies !(ts[k] is Semi) by {
            if k >= 1 {
                assert(ts.drop_first()[k - 1] == ts[k]);
            }
        }
    }
}

pub proof fn lemma_last_conn_bounds(ts: Seq<TokenView>)
    ensures
        -1 <= last_conn(ts) < ts.len(),
        last_conn(ts) >= 0 ==> is_conn(ts[last_conn(ts)]),
        forall|k: int| last_conn(ts) < k < ts.len() ==> !is_conn(ts[k]),
    decreases ts.len(),
{
    if ts.len() > 0 && !is_conn(ts.last()) {
        lemma_last_conn_bounds(ts.drop_last());
        assert(forall|k: int| 0 <= k < ts.len() - 1 ==> ts.drop_last()[k] == ts[k]);
    }
}

/// A non-empty run of name tokens denotes the simple command whose executable
/// is the first name and whose arguments are the rest, in order.
pub open spec fn names_to_simple(ts: Seq<TokenView>) -> Option<Node> {
    if ts.len() >= 1 && (forall|k: int| 0 <= k < ts.len() ==> ts[k] is Name) {
        Some(Node::Simple(tok_name(ts[0]), ts.drop_first().map_values(|t: TokenView| tok_name(t))))
    } else {
        None
    }
}

/// The statement denoted by one `;`-free segment: the last connective is the
/// top of the tree (so equal-precedence chains associate left-to-right), its
/// right operand is a simple command, and everything before it parses in turn.
/// A segment with a connective at its start or end, two adjacent connectives,
/// or no name at all denotes nothing.
pub open spec fn seg_parse(ts: Seq<TokenView>) -> Option<Node>
    decreases ts.len(),
    via seg_parse_decreases
{
    let k = last_conn(ts);
    if k < 0 {
        names_to_simple(ts)
    } else {
        match (seg_parse(ts.take(k)), names_to_simple(ts.skip(k + 1))) {
            (Some(l), Some(r)) => if ts[k] is AndOp {
                Some(Node::And(Box::new(l), Box::new(r)))
            } else {
                Some(Node::Or(Box::new(l), Box::new(r)))
            },
            _ => None,
        }
    }
}

#[via_fn]
proof fn seg_parse_decreases(ts: Seq<TokenView>) {
    lemma_last_conn_bounds(ts);
}

/// The statements denoted by a token line: its `;`-separated segments parsed
/// in order, the empty ones dropped.  `None` where some non-empty segment
/// denotes nothing.
pub open spec fn parse_segs(ts: Seq<TokenView>) -> Option<Seq<Node>>
    decreases ts.len(),
    via parse_segs_decreases
{
    if ts.len() == 0 {
        Some(Seq::empty())
    } else {
        let k = first_semi(ts);
        let rest = if k == ts.len() {
            Seq::<TokenView>::empty()
        } else {
            ts.skip(k + 1)
        };
        if k == 0 {
            parse_segs(rest)
        } else {
            match (seg_parse(ts.take(k)), parse_segs(rest)) {
                (Some(n), Some(ns)) => Some(seq![n] + ns),
                _ => None,
            }
        }
    }
}

#[via_fn]
proof fn parse_segs_decreases(ts: Seq<TokenView>) {
    lemma_first_semi_bounds(ts);
}

/// What a whole line of text denotes: `None` where it cannot be tokenized or
/// some segment is malformed, otherwise its sequence of statements.
pub open spec fn line_parse(s: Seq<char>) -> Option<Seq<Node>> {
    match tokenize(s) {
        Some(ts) => parse_segs(ts),
        None => None,
    }
}

/// Finds the first `;` at or after `lo`, mirroring `first_semi`.
fn first_semi_in(toks: &Vec<Token>, lo: usize) -> (k: usize)
    requires
        lo <= toks.len(),
    ensures
        lo <= k <= toks.len(),
        first_semi(toks.deep_view().skip(lo as int)) == k - lo,
    decreases toks.len() - lo,
{
    let ghost ts = toks.deep_view().skip(lo as int);
    proof {
        assert(toks.deep_view().len() == toks@.len());
    }
    if lo == toks.len() {
        lo
    } else {
        proof {
            assert(ts[0] == toks.deep_view()[lo as int]);
        }
        match &toks[lo] {
            Token::Semi => lo,
            _ => {
                proof {
                    assert(ts.drop_first() =~= toks.deep_view().skip(lo as int + 1));
                }
                first_semi_in(toks, lo + 1)
            },
        }
    }
}

/// Finds the last connective in `[lo, hi)`, mirroring `last_conn`.
fn last_conn_in(toks: &Vec<Token>, lo: usize, hi: usize) -> (r: Option<usize>)
    requires
        lo <= hi <= toks.len(),
    ensures
        match r {
            Some(k) => lo <= k < hi && last_conn(toks.deep_view().subrange(lo as int, hi as int))
                == k - lo,
            None => last_conn(toks.deep_view().subrange(lo as int, hi as int)) == -1,
        },
    decreases hi - lo,
{
    let ghost ts = toks.deep_view().subrange(lo as int, hi as int);
    proof {
        assert(toks.deep_view().len() == toks@.len());
    }
    if hi == lo {
        None
    } else {
        proof {
            assert(ts.last() == toks.deep_view()[hi as int - 1]);
        }
        match &toks[hi - 1] {
            Token::AndOp => Some(hi - 1),
            Token::OrOp => Some(hi - 1),
            _ => {
                proof {
                    assert(ts.drop_last() =~= toks.deep_view().subrange(lo as int, hi as int - 1));
                }
                last_conn_in(toks, lo, hi - 1)
            },
        }
    }
}

/// Parses the token range `[lo, hi)` as one simple command, mirroring
/// `names_to_simple`.
fn parse_simple(toks: &Vec<Token>, lo: usize, hi: usize) -> (r: Option<Statement>)
    requires
        lo <= hi <= toks.len(),
    ensures
        match r {
            Some(st) => names_to_simple(toks.deep_view().subrange(lo as int, hi as int)) == Some(
                st.deep_view(),
            ),
            None => names_to_simple(toks.deep_view().subrange(lo as int, hi as int)) is None,
        },
{
    let ghost ts = toks.deep_view().subrange(lo as int, hi as int);
    proof {
        assert(toks.deep_view().len() == toks@.len());
    }
    if lo == hi {
        return None;
    }
    proof {
        assert(ts[0] == toks.deep_view()[lo as int]);
    }
    let name: String = match &toks[lo] {
        Token::Name(s) => s.clone(),
        _ => {
            proof {
                assert(!(ts[0] is Name));
            }
            return None;
        },
    };
    let mut args: Vec<String> = Vec::new();
    let mut i = lo + 1;
    while i < hi
        invariant
            lo < i <= hi <= toks.len(),
            ts == toks.deep_view().subrange(lo as int, hi as int),
            forall|k: int| lo <= k < i ==> toks.deep_view()[k] is Name,
            args.deep_view() =~= ts.subrange(1, i - lo).map_values(|t: TokenView| tok_name(t)),
        decreases hi - i,
    {
        proof {
            assert(ts[i - lo] == toks.deep_view()[i as int]);
        }
        match &toks[i] {
            Token::Name(s) => {
                let ghost prev = args.deep_view();
                args.push(s.clone());
                proof {
                    assert(args.deep_view() =~= prev.push(s.deep_view()));
                    assert(args.deep_view() =~= ts.subrange(1, i + 1 - lo).map_values(
                        |t: TokenView| tok_name(t),
                    ));
                }
            },
            _ => {
                proof {
                    assert(!(ts[i - lo] is Name));
                }
                return None;
            },
        }
        i = i + 1;
    }
    proof {
        assert(forall|k: int| 0 <= k < ts.len() ==> ts[k] == toks.deep_view()[lo + k]);
        assert(forall|k: int| 0 <= k < ts.len() ==> ts[k] is Name);
        assert(ts.subrange(1, hi - lo) =~= ts.drop_first());
        assert(name.deep_view() == tok_name(ts[0]));
    }
    Some(Statement::Simple(name, args))
}

/// Parses the token range `[lo, hi)` as one connective chain, mirroring
/// `seg_parse`.
fn parse_segment(toks: &Vec<Token>, lo: usize, hi: usize) -> (r: Option<Statement>)
    requires
        lo <= hi <= toks.len(),
    ensures
        match r {
            Some(st) => seg_parse(toks.deep_view().subrange(lo as int, hi as int)) == Some(
                st.deep_view(),
            ),
            None => seg_parse(toks.deep_view().subrange(lo as int, hi as int)) is None,
        },
    decreases hi - lo,
{
    let ghost ts = toks.deep_view().subrange(lo as int, hi as int);
    match last_conn_in(toks, lo, hi) {
        None => parse_simple(toks, lo, hi),
        Some(k) => {
            proof {
                assert(ts.take(k - lo) =~= toks.deep_view().subrange(lo as int, k as int));
                assert(ts.skip(k - lo + 1) =~= toks.deep_view().subrange(k as int + 1, hi as int));
                assert(ts[k - lo] == toks.deep_view()[k as int]);
            }
            let left = parse_segment(toks, lo, k);
            let right = parse_simple(toks, k + 1, hi);
            match (left, right) {
                (Some(l), Some(r)) => {
                    let and_conn = match &toks[k] {
                        Token::AndOp => true,
                        _ => false,
                    };
                    if and_conn {
                        Some(Statement::And(Box::new(l), Box::new(r)))
                    } else {
                        Some(Statement::Or(Box::new(l), Box::new(r)))
                    }
                },
                _ => None,
            }
        },
    }
}

/// Parses the tokens from `lo` on as a `;`-separated statement list,
/// mirroring `parse_segs`.
fn parse_list(toks: &Vec<Token>, lo: usize) -> (r: Result<Vec<Statement>, ShellError>)
    requires
        lo <= toks.len(),
    ensures
        match r {
            Ok(v) => parse_segs(toks.deep_view().skip(lo as int)) == Some(v.deep_view()),
            Err(e) => parse_segs(toks.deep_view().skip(lo as int)) is None && e matches
                ShellError::Parse(_),
        },
    decreases toks.len() - lo,
{
    let ghost ts = toks.deep_view().skip(lo as int);
    proof {
        assert(toks.deep_view().len() == toks@.len());
    }
    if lo == toks.len() {
        proof {
            assert(ts =~= Seq::<TokenView>::empty());
        }
        let v: Vec<Statement> = Vec::new();
        proof {
            assert(v.deep_view() =~= Seq::<Node>::empty());
        }
        return Ok(v);
    }
    let k = first_semi_in(toks, lo);
    let rest_lo = if k == toks.len() {
        toks.len()
    } else {
        k + 1
    };
    proof {
        if k == toks.len() {
            assert(toks.deep_view().skip(rest_lo as int) =~= Seq::<TokenView>::empty());
        } else {
            assert(ts.skip(k - lo + 1) =~= toks.deep_view().skip(rest_lo as int));
        }
    }
    if k == lo {
        parse_list(toks, rest_lo)
    } else {
        proof {
            assert(ts.take(k - lo) =~= toks.deep_view().subrange(lo as int, k as int));
        }
        match parse_segment(toks, lo, k) {
            Some(st) => match parse_list(toks, rest_lo) {
                Ok(mut v) => {
                    let ghost tail = v.deep_view();
                    v.insert(0, st);
                    proof {
                        assert(v.deep_view() =~= seq![v@[0].deep_view()] + tail);
                    }
                    Ok(v)
                },
                Err(e) => Err(e),
            },
            None => Err(ShellError::Parse(String::from_str("malformed statement"))),
        }
    }
}

/// Parses one line of input into its sequence of statements.
///
/// Returns `Ok` exactly on the lines that `line_parse` accepts, with the tree
/// that `line_parse` denotes; every rejected line yields a
/// `ShellError::Parse` and nothing else.
pub fn parse_line(line: &str) -> (r: Result<Vec<Statement>, ShellError>)
    ensures
        r matches Ok(v) ==> line_parse(line@) == Some(v.deep_view()),
        r matches Err(e) ==> line_parse(line@) is None && e matches ShellError::Parse(_),
{
    match tokenize_line(line) {
        Some(toks) => {
            proof {
                assert(toks.deep_view().skip(0) =~= toks.deep_view());
            }
            parse_list(&toks, 0)
        },
        None => Err(ShellError::Parse(String::from_str("unrecognized character in input"))),
    }
}

/// A line that is empty or made of whitespace alone denotes the empty
/// statement sequence, not an error.
pub proof fn lemma_blank_line(s: Seq<char>)
    requires
        forall|i: int| 0 <= i < s.len() ==> space_char(s[i]),
    ensures
        line_parse(s) == Some(Seq::<Node>::empty()),
    decreases s.len(),
{
    if s.len() == 0 {
        assert(tokenize(s) == Some(Seq::<TokenView>::empty()));
    } else {
        assert(space_char(s[0]));
        assert forall|i: int| 0 <= i < s.drop_first().len() implies space_char(
            s.drop_first()[i],
        ) by {
            assert(s.drop_first()[i] == s[i + 1]);
        }
        lemma_blank_line(s.drop_first());
    }
}

/// A segment that opens with a connective denotes nothing: `&&` and `||`
/// need a command on their left.
pub proof fn lemma_connective_needs_left(ts: Seq<TokenView>)
    requires
        ts.len() > 0,
        is_conn(ts[0]),
    ensures
        seg_parse(ts) is None,
    decreases ts.len(),
{
    lemma_last_conn_bounds(ts);
    let k = last_conn(ts);
    assert(k >= 0);
    if k == 0 {
        assert(ts.take(0) =~= Seq::<TokenView>::empty());
    } else {
        assert(ts.take(k)[0] == ts[0]);
        lemma_connective_needs_left(ts.take(k));
    }
}

/// The token sequence that a simple command was built from is recovered
/// exactly by its parse: a run of name tokens parses to the simple command
/// whose executable is the first name and whose arguments are the rest.
pub proof fn lemma_simple_round_trip(name: Seq<char>, args: Seq<Seq<char>>)
    ensures
        names_to_simple(
            seq![TokenView::Name(name)] + args.map_values(|a: Seq<char>| TokenView::Name(a)),
        ) == Some(Node::Simple(name, args)),
{
    let mapped = args.map_values(|a: Seq<char>| TokenView::Name(a));
    let ts = seq![TokenView::Name(name)] + mapped;
    assert(ts.len() == 1 + args.len());
    assert(ts[0] == TokenView::Name(name));
    assert forall|k: int| 0 <= k < ts.len() implies ts[k] is Name by {
        if k >= 1 {
            assert(ts[k] == mapped[k - 1]);
        }
    }
    assert(ts.drop_first().map_values(|t: TokenView| tok_name(t)) =~= args) by {
        assert forall|k: int| 0 <= k < args.len() implies ts.drop_first().map_values(
            |t: TokenView| tok_name(t),
        )[k] == args[k] by {
            assert(ts.drop_first()[k] == mapped[k]);
        }
    }
}

/// The converse direction: whenever a token run parses as a simple command,
/// the command's name and arguments list exactly the tokens it came from.
pub proof fn lemma_simple_parse_tokens(ts: Seq<TokenView>, name: Seq<char>, args: Seq<Seq<char>>)
    requires
        names_to_simple(ts) == Some(Node::Simple(name, args)),
    ensures
        ts == seq![TokenView::Name(name)] + args.map_values(|a: Seq<char>| TokenView::Name(a)),
{
    let mapped = args.map_values(|a: Seq<char>| TokenView::Name(a));
    let target = seq![TokenView::Name(name)] + mapped;
    assert(args == ts.drop_first().map_values(|t: TokenView| tok_name(t)));
    assert(args.len() == ts.len() - 1);
    assert(ts =~= target) by {
        assert forall|k: int| 0 <= k < ts.len() implies ts[k] == target[k] by {
            assert(ts[k] is Name);
            if k == 0 {
                assert(tok_name(ts[0]) == name);
            } else {
                assert(mapped[k - 1] == TokenView::Name(args[k - 1]));
                assert(args[k - 1] == ts.drop_first().map_values(|t: TokenView| tok_name(t))[k
                    - 1]);
                assert(ts.drop_first()[k - 1] == ts[k]);
            }
        }
    }
}

} // verus!
