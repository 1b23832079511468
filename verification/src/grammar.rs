//! Lexical grammar of a command line.
//!
//! A *name* token is one or more identifier characters (ASCII alphanumeric,
//! `_` or `-`).  Spaces and tabs separate tokens.  The punctuation tokens are
//! `;` (sequence separator), `&&` (and-connective) and `||` (or-connective).
//! Any other character, including a lone `&` or `|`, makes the line
//! untokenizable.

use vstd::prelude::*;

verus! {

/// An identifier character: ASCII alphanumeric, `_` or `-`.
pub open spec fn name_char(c: char) -> bool {
    ||| c == '_'
    ||| c == '-'
    ||| (48 <= c as u32 && c as u32 <= 57)
    ||| (65 <= c as u32 && c as u32 <= 90)
    ||| (97 <= c as u32 && c as u32 <= 122)
}

/// Token-separating whitespace: space or tab, never a line break.
pub open spec fn space_char(c: char) -> bool {
    c == ' ' || c == '\t'
}

/// Decides `name_char`.
pub fn is_name_char(c: char) -> (b: bool)
    ensures
        b == name_char(c),
{
    let u = c as u32;
    c == '_' || c == '-' || (48 <= u && u <= 57) || (65 <= u && u <= 90) || (97 <= u && u <= 122)
}

/// Decides `space_char`.
pub fn is_space(c: char) -> (b: bool)
    ensures
        b == space_char(c),
{
    c == ' ' || c == '\t'
}

/// One lexical token of a command line.
#[derive(Debug)]
pub enum Token {
    /// A name: an executable or an argument.
    Name(String),
    /// The `&&` connective.
    AndOp,
    /// The `||` connective.
    OrOp,
    /// The `;` separator.
    Semi,
}

/// Specification-level mirror of `Token`.
pub enum TokenView {
    Name(Seq<char>),
    AndOp,
    OrOp,
    Semi,
}

impl DeepView for Token {
    type V = TokenView;

    open spec fn deep_view(&self) -> TokenView {
        match self {
            Token::Name(s) => TokenView::Name(s.deep_view()),
            Token::AndOp => TokenView::AndOp,
            Token::OrOp => TokenView::OrOp,
            Token::Semi => TokenView::Semi,
        }
    }
}

/// Length of the longest prefix of `s` made of identifier characters.
pub open spec fn name_run_len(s: Seq<char>) -> nat
    decreases s.len(),
{
    if s.len() > 0 && name_char(s[0]) {
        1 + name_run_len(s.drop_first())
    } else {
        0
    }
}

pub proof fn lemma_name_run_len_le(s: Seq<char>)
    ensures
        name_run_len(s) <= s.len(),
    decreases s.len(),
{
    if s.len() > 0 && name_char(s[0]) {
        lemma_name_run_len_le(s.drop_first());
    }
}

/// The token sequence of a line, or `None` where a character fits no token.
/// Name tokens are maximal runs of identifier characters.
pub open spec fn tokenize(s: Seq<char>) -> Option<Seq<TokenView>>
    decreases s.len(),
    via tokenize_decreases
{
    if s.len() == 0 {
        Some(Seq::empty())
    } else if space_char(s[0]) {
        tokenize(s.drop_first())
    } else if name_char(s[0]) {
        let k = name_run_len(s);
        match tokenize(s.skip(k as int)) {
            Some(ts) => Some(seq![TokenView::Name(s.take(k as int))] + ts),
            None => None,
        }
    } else if s[0] == ';' {
        match tokenize(s.drop_first()) {
            Some(ts) => Some(seq![TokenView::Semi] + ts),
            None => None,
        }
    } else if s[0] == '&' && s.len() >= 2 && s[1] == '&' {
        match tokenize(s.skip(2)) {
            Some(ts) => Some(seq![TokenView::AndOp] + ts),
            None => None,
        }
    } else if s[0] == '|' && s.len() >= 2 && s[1] == '|' {
        match tokenize(s.skip(2)) {
            Some(ts) => Some(seq![TokenView::OrOp] + ts),
            None => None,
        }
    } else {
        None
    }
}

#[via_fn]
proof fn tokenize_decreases(s: Seq<char>) {
    if s.len() > 0 && !space_char(s[0]) && name_char(s[0]) {
        lemma_name_run_len_le(s);
        assert(name_run_len(s) >= 1);
    }
}

/// A maximal identifier-character run `[i, j)` of `s` is what `name_run_len`
/// measures at position `i`.
proof fn lemma_name_run_at(s: Seq<char>, i: int, j: int)
    requires
        0 <= i <= j <= s.len(),
        forall|k: int| i <= k < j ==> name_char(s[k]),
        j == s.len() || !name_char(s[j]),
    ensures
        name_run_len(s.skip(i)) == j - i,
    decreases j - i,
{
    if i == j {
        if i < s.len() {
            assert(s.skip(i)[0] == s[i]);
        }
    } else {
        assert(s.skip(i)[0] == s[i]);
        assert(s.skip(i).drop_first() =~= s.skip(i + 1));
        lemma_name_run_at(s, i + 1, j);
    }
}

/// Tokenizes the tail of `line` that starts at character index `i`.
fn tokenize_from(line: &str, i: usize, n: usize) -> (r: Option<Vec<Token>>)
    requires
        n == line@.len(),
        i <= n,
    ensures
        match r {
            Some(v) => tokenize(line@.skip(i as int)) == Some(v.deep_view()),
            None => tokenize(line@.skip(i as int)) is None,
        },
    decreases n - i,
{
    let ghost s = line@.skip(i as int);
    if i == n {
        proof {
            assert(s =~= Seq::<char>::empty());
        }
        let v: Vec<Token> = Vec::new();
        proof {
            assert(v.deep_view() =~= Seq::<TokenView>::empty());
        }
        Some(v)
    } else {
        let c = line.get_char(i);
        proof {
            assert(s[0] == line@[i as int]);
        }
        if is_space(c) {
            proof {
                assert(s.drop_first() =~= line@.skip(i as int + 1));
            }
            tokenize_from(line, i + 1, n)
        } else if is_name_char(c) {
            let mut j = i + 1;
            while j < n
                invariant
                    i < j <= n,
                    n == line@.len(),
                    forall|k: int| i <= k < j ==> name_char(line@[k]),
                ensures
                    i < j <= n,
                    forall|k: int| i <= k < j ==> name_char(line@[k]),
                    j == n || !name_char(line@[j as int]),
                decreases n - j,
            {
                let cj = line.get_char(j);
                if !is_name_char(cj) {
                    break ;
                }
                j = j + 1;
            }
            proof {
                lemma_name_run_at(line@, i as int, j as int);
                assert(name_run_len(s) == j - i);
                assert(s.skip(j - i) =~= line@.skip(j as int));
                assert(s.take(j - i) =~= line@.subrange(i as int, j as int));
            }
            let text = line.substring_char(i, j).to_owned();
            match tokenize_from(line, j, n) {
                Some(mut v) => {
                    let ghost tail = v.deep_view();
                    v.insert(0, Token::Name(text));
                    proof {
                        assert(v.deep_view() =~= seq![TokenView::Name(s.take(j - i))] + tail);
                    }
                    Some(v)
                },
                None => None,
            }
        } else if c == ';' {
            proof {
                assert(s.drop_first() =~= line@.skip(i as int + 1));
            }
            match tokenize_from(line, i + 1, n) {
                Some(mut v) => {
                    let ghost tail = v.deep_view();
                    v.insert(0, Token::Semi);
                    proof {
                        assert(v.deep_view() =~= seq![TokenView::Semi] + tail);
                    }
                    Some(v)
                },
                None => None,
            }
        } else if c == '&' {
            if i + 1 < n && line.get_char(i + 1) == '&' {
                proof {
                    assert(s[1] == line@[i as int + 1]);
                    assert(s.skip(2) =~= line@.skip(i as int + 2));
                }
                match tokenize_from(line, i + 2, n) {
                    Some(mut v) => {
                        let ghost tail = v.deep_view();
                        v.insert(0, Token::AndOp);
                        proof {
                            assert(v.deep_view() =~= seq![TokenView::AndOp] + tail);
                        }
                        Some(v)
                    },
                    None => None,
                }
            } else {
                proof {
                    if s.len() >= 2 {
                        assert(s[1] == line@[i as int + 1]);
                    }
                }
                None
            }
        } else if c == '|' {
            if i + 1 < n && line.get_char(i + 1) == '|' {
                proof {
                    assert(s[1] == line@[i as int + 1]);
                    assert(s.skip(2) =~= line@.skip(i as int + 2));
                }
                match tokenize_from(line, i + 2, n) {
                    Some(mut v) => {
                        let ghost tail = v.deep_view();
                        v.insert(0, Token::OrOp);
                        proof {
                            assert(v.deep_view() =~= seq![TokenView::OrOp] + tail);
                        }
                        Some(v)
                    },
                    None => None,
                }
            } else {
                proof {
                    if s.len() >= 2 {
                        assert(s[1] == line@[i as int + 1]);
                    }
                }
                None
            }
        } else {
            None
        }
    }
}

/// Splits a whole line into tokens; `None` where some character fits none.
pub fn tokenize_line(line: &str) -> (r: Option<Vec<Token>>)
    ensures
        match r {
            Some(v) => tokenize(line@) == Some(v.deep_view()),
            None => tokenize(line@) is None,
        },
{
    let n = line.unicode_len();
    proof {
        assert(line@.skip(0) =~= line@);
    }
    tokenize_from(line, 0, n)
}

} // verus!
