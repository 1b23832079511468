//! The statement tree: what one line of input parses to.

use vstd::prelude::*;

verus! {

/// One parsed statement.  A whole line parses to a `Vec<Statement>`: the
/// ordered sequence of its `;`-separated statements, each evaluated in turn
/// regardless of the outcome of the ones before it.
#[derive(Debug)]
pub enum Statement {
    /// A leaf command: the executable's name and its arguments, in order.
    /// The parser only ever builds a `Simple` with a non-empty name.
    Simple(String, Vec<String>),
    /// Short-circuit conjunction: the right child runs only if the left one
    /// succeeded.
    And(Box<Statement>, Box<Statement>),
    /// Short-circuit disjunction: the right child runs only if the left one
    /// failed.
    Or(Box<Statement>, Box<Statement>),
}

/// Specification-level mirror of `Statement`, over sequences of characters.
pub enum Node {
    Simple(Seq<char>, Seq<Seq<char>>),
    And(Box<Node>, Box<Node>),
    Or(Box<Node>, Box<Node>),
}

/// The model value of a statement tree.
pub open spec fn stmt_view(s: Statement) -> Node
    decreases s,
{
    match s {
        Statement::Simple(name, args) => Node::Simple(name.deep_view(), args.deep_view()),
        Statement::And(l, r) => Node::And(Box::new(stmt_view(*l)), Box::new(stmt_view(*r))),
        Statement::Or(l, r) => Node::Or(Box::new(stmt_view(*l)), Box::new(stmt_view(*r))),
    }
}

impl DeepView for Statement {
    type V = Node;

    open spec fn deep_view(&self) -> Node {
        stmt_view(*self)
    }
}

/// Decides whether two argument vectors hold the same text in the same order.
fn args_eq(a: &Vec<String>, b: &Vec<String>) -> (r: bool)
    ensures
        r == (a.deep_view() == b.deep_view()),
{
    proof {
        assert(a.deep_view().len() == a@.len());
        assert(b.deep_view().len() == b@.len());
    }
    if a.len() != b.len() {
        return false;
    }
    let mut i: usize = 0;
    while i < a.len()
        invariant
            i <= a.len(),
            a@.len() == b@.len(),
            forall|k: int| 0 <= k < i ==> a.deep_view()[k] == b.deep_view()[k],
        decreases a.len() - i,
    {
        proof {
            assert(a.deep_view()[i as int] == a@[i as int].deep_view());
            assert(b.deep_view()[i as int] == b@[i as int].deep_view());
        }
        if !(a[i] == b[i]) {
            return false;
        }
        i = i + 1;
    }
    proof {
        assert(a.deep_view() =~= b.deep_view());
    }
    true
}

/// Decides whether two statement trees are structurally equal.
fn stmt_eq(a: &Statement, b: &Statement) -> (r: bool)
    ensures
        r == (a.deep_view() == b.deep_view()),
    decreases *a,
{
    match (a, b) {
        (Statement::Simple(n1, a1), Statement::Simple(n2, a2)) => {
            proof {
                assert(a.deep_view() == Node::Simple(n1.deep_view(), a1.deep_view()));
                assert(b.deep_view() == Node::Simple(n2.deep_view(), a2.deep_view()));
            }
            *n1 == *n2 && args_eq(a1, a2)
        },
        (Statement::And(l1, r1), Statement::And(l2, r2)) => {
            proof {
                assert(a.deep_view() == Node::And(
                    Box::new(l1.deep_view()),
                    Box::new(r1.deep_view()),
                ));
                assert(b.deep_view() == Node::And(
                    Box::new(l2.deep_view()),
                    Box::new(r2.deep_view()),
                ));
            }
            stmt_eq(l1, l2) && stmt_eq(r1, r2)
        },
        (Statement::Or(l1, r1), Statement::Or(l2, r2)) => {
            proof {
                assert(a.deep_view() == Node::Or(
                    Box::new(l1.deep_view()),
                    Box::new(r1.deep_view()),
                ));
                assert(b.deep_view() == Node::Or(
                    Box::new(l2.deep_view()),
                    Box::new(r2.deep_view()),
                ));
            }
            stmt_eq(l1, l2) && stmt_eq(r1, r2)
        },
        _ => false,
    }
}

impl PartialEq for Statement {
    /// Structural equality, by name and argument text.
    fn eq(&self, other: &Statement) -> (r: bool) {
        stmt_eq(self, other)
    }
}

impl vstd::std_specs::cmp::PartialEqSpecImpl for Statement {
    open spec fn obeys_eq_spec() -> bool {
        true
    }

    open spec fn eq_spec(&self, other: &Statement) -> bool {
        self.deep_view() == other.deep_view()
    }
}

} // verus!
