//! The instruction tree and the recursive-descent parser that builds it.
//!
//! Contracts speak of a node by its value, a `Tree`. A tree is tied to its
//! source by `seq_tokens`, the token sequence that writes it. Parsing
//! succeeds exactly on the token sequences whose `[ ]` and `{ | }` brackets
//! match, and then returns the tree, in normal form, that writes the input.

use crate::lexer::Token;
use crate::syntax_laws::{lemma_tree_is_well_bracketed, lemma_tree_unique};
use vstd::prelude::*;

verus! {

/// One instruction. `Loop` and `Parallel` hold their children; the lock
/// brackets are two plain leaves with nothing enforced between them.
#[derive(Debug, PartialEq, Eq)]
pub enum Node {
    IncPtr,
    DecPtr,
    IncCell,
    DecCell,
    Output,
    Input,
    /// Runs its body while the current cell is not zero.
    Loop(Vec<Node>),
    /// Runs all branches at once and waits for all of them.
    Parallel(Vec<Vec<Node>>),
    LockAcquire,
    LockRelease,
    /// Sleeps for that many ticks of a tenth of a second.
    Sleep(usize),
    /// A run of that many waits on the current cell's condition.
    Wait(usize),
    Notify,
}

/// Why a token sequence is no program.
#[derive(Debug, Clone, Copy, PartialEq, Eq, Structural)]
pub enum ParseError {
    /// A `]`, `|` or `}` without its opener, or a `[` or `{` left open.
    MalformedBrackets,
}

/// The kind of an open bracket.
#[derive(Debug, Clone, Copy, PartialEq, Eq, Structural)]
pub enum Bracket {
    Loop,
    Par,
}

/// An instruction as a mathematical value: what `Node` holds, with
/// sequences for vectors and unbounded counts.
pub enum Tree {
    IncPtr,
    DecPtr,
    IncCell,
    DecCell,
    Output,
    Input,
    Loop(Seq<Tree>),
    Parallel(Seq<Seq<Tree>>),
    LockAcquire,
    LockRelease,
    Sleep(nat),
    Wait(nat),
    Notify,
}

/// The value of a node.
pub open spec fn tree_of(n: Node) -> Tree
    decreases n,
{
    match n {
        Node::IncPtr => Tree::IncPtr,
        Node::DecPtr => Tree::DecPtr,
        Node::IncCell => Tree::IncCell,
        Node::DecCell => Tree::DecCell,
        Node::Output => Tree::Output,
        Node::Input => Tree::Input,
        Node::Loop(body) => Tree::Loop(trees_of(body@)),
        Node::Parallel(branches) => Tree::Parallel(branch_trees_of(branches@)),
        Node::LockAcquire => Tree::LockAcquire,
        Node::LockRelease => Tree::LockRelease,
        Node::Sleep(k) => Tree::Sleep(k as nat),
        Node::Wait(k) => Tree::Wait(k as nat),
        Node::Notify => Tree::Notify,
    }
}

/// The values of a sequence of nodes.
pub open spec fn trees_of(s: Seq<Node>) -> Seq<Tree>
    decreases s,
{
    Seq::new(
        s.len(),
        |i: int|
            if 0 <= i < s.len() {
                tree_of(s[i])
            } else {
                Tree::Notify
            },
    )
}

/// The values of the branches of a parallel block.
pub open spec fn branch_trees_of(bs: Seq<Vec<Node>>) -> Seq<Seq<Tree>>
    decreases bs,
{
    Seq::new(
        bs.len(),
        |i: int|
            if 0 <= i < bs.len() {
                trees_of(bs[i]@)
            } else {
                Seq::empty()
            },
    )
}

impl View for Node {
    type V = Tree;

    open spec fn view(&self) -> Tree {
        tree_of(*self)
    }
}

/// A copy of a sequence of nodes.
pub fn clone_nodes(nodes: &[Node]) -> (copy: Vec<Node>)
    ensures
        trees_of(copy@) == trees_of(nodes@),
    decreases nodes@,
{
    let mut copy: Vec<Node> = Vec::new();
    let mut i: usize = 0;
    while i < nodes.len()
        invariant
            i <= nodes.len(),
            trees_of(copy@) == trees_of(nodes@).take(i as int),
        decreases nodes.len() - i,
    {
        let ghost before = trees_of(copy@);
        let item = nodes[i].clone();
        copy.push(item);
        assert(trees_of(copy@) =~= before.push(tree_of(nodes@[i as int])));
        assert(trees_of(copy@) =~= trees_of(nodes@).take(i + 1));
        i = i + 1;
    }
    assert(trees_of(nodes@).take(i as int) =~= trees_of(nodes@));
    copy
}

/// A copy of the branches of a parallel block.
fn clone_branches(branches: &[Vec<Node>]) -> (copy: Vec<Vec<Node>>)
    ensures
        branch_trees_of(copy@) == branch_trees_of(branches@),
    decreases branches@,
{
    let mut copy: Vec<Vec<Node>> = Vec::new();
    let mut i: usize = 0;
    while i < branches.len()
        invariant
            i <= branches.len(),
            branch_trees_of(copy@) == branch_trees_of(branches@).take(i as int),
        decreases branches.len() - i,
    {
        let ghost before = branch_trees_of(copy@);
        let item = clone_nodes(branches[i].as_slice());
        copy.push(item);
        assert(branch_trees_of(copy@) =~= before.push(trees_of(branches@[i as int]@)));
        assert(branch_trees_of(copy@) =~= branch_trees_of(branches@).take(i + 1));
        i = i + 1;
    }
    assert(branch_trees_of(branches@).take(i as int) =~= branch_trees_of(branches@));
    copy
}

impl Clone for Node {
    /// A copy with the same value.
    fn clone(&self) -> (copy: Node)
        ensures
            tree_of(copy) == tree_of(*self),
        decreases *self,
    {
        match self {
            Node::IncPtr => Node::IncPtr,
            Node::DecPtr => Node::DecPtr,
            Node::IncCell => Node::IncCell,
            Node::DecCell => Node::DecCell,
            Node::Output => Node::Output,
            Node::Input => Node::Input,
            Node::Loop(body) => Node::Loop(clone_nodes(body.as_slice())),
            Node::Parallel(branches) => Node::Parallel(clone_branches(branches.as_slice())),
            Node::LockAcquire => Node::LockAcquire,
            Node::LockRelease => Node::LockRelease,
            Node::Sleep(k) => Node::Sleep(*k),
            Node::Wait(k) => Node::Wait(*k),
            Node::Notify => Node::Notify,
        }
    }
}

// ---------------------------------------------------------------------------
// What a tree is written as
// ---------------------------------------------------------------------------

/// `n` copies of one token.
pub open spec fn run_of(t: Token, n: nat) -> Seq<Token> {
    Seq::new(n, |i: int| t)
}

/// The tokens that write one node.
pub open spec fn node_tokens(n: Tree) -> Seq<Token>
    decreases n,
{
    match n {
        Tree::IncPtr => seq![Token::IncPtr],
        Tree::DecPtr => seq![Token::DecPtr],
        Tree::IncCell => seq![Token::IncCell],
        Tree::DecCell => seq![Token::DecCell],
        Tree::Output => seq![Token::Output],
        Tree::Input => seq![Token::Input],
        Tree::Loop(body) => seq![Token::LoopStart] + seq_tokens(body) + seq![Token::LoopEnd],
        Tree::Parallel(branches) => seq![Token::ParStart] + branches_tokens(branches)
            + seq![Token::ParEnd],
        Tree::LockAcquire => seq![Token::LockStart],
        Tree::LockRelease => seq![Token::LockEnd],
        Tree::Sleep(k) => run_of(Token::Sleep, k),
        Tree::Wait(k) => run_of(Token::Wait, k),
        Tree::Notify => seq![Token::Notify],
    }
}

/// The tokens that write a sequence of nodes: those of each node, in order.
pub open spec fn seq_tokens(s: Seq<Tree>) -> Seq<Token>
    decreases s,
{
    if s.len() == 0 {
        Seq::empty()
    } else {
        seq_tokens(s.drop_last()) + node_tokens(s.last())
    }
}

/// The tokens that write the branches of a parallel block: those of each
/// branch, with one separator between neighbours.
pub open spec fn branches_tokens(bs: Seq<Seq<Tree>>) -> Seq<Token>
    decreases bs,
{
    if bs.len() == 0 {
        Seq::empty()
    } else if bs.len() == 1 {
        seq_tokens(bs[0])
    } else {
        branches_tokens(bs.drop_last()) + seq![Token::ParSep] + seq_tokens(bs.last())
    }
}

// ---------------------------------------------------------------------------
// Normal form
// ---------------------------------------------------------------------------

/// Whether two neighbouring nodes would have been one run.
pub open spec fn same_run(a: Tree, b: Tree) -> bool {
    (a is Wait && b is Wait) || (a is Sleep && b is Sleep)
}

/// A node in normal form: runs are not empty, a parallel block has at least
/// one branch, and all children are in normal form.
pub open spec fn node_wf(n: Tree) -> bool
    decreases n,
{
    match n {
        Tree::Loop(body) => seq_wf(body),
        Tree::Parallel(branches) => branches.len() >= 1 && branches_wf(branches),
        Tree::Sleep(k) => k >= 1,
        Tree::Wait(k) => k >= 1,
        _ => true,
    }
}

/// A sequence in normal form: each node is, and no two neighbours are runs
/// of the same token.
pub open spec fn seq_wf(s: Seq<Tree>) -> bool
    decreases s,
{
    if s.len() == 0 {
        true
    } else {
        &&& seq_wf(s.drop_last())
        &&& node_wf(s.last())
        &&& s.len() >= 2 ==> !same_run(s[s.len() - 2], s.last())
    }
}

/// Every branch is in normal form.
pub open spec fn branches_wf(bs: Seq<Seq<Tree>>) -> bool
    decreases bs,
{
    if bs.len() == 0 {
        true
    } else {
        branches_wf(bs.drop_last()) && seq_wf(bs.last())
    }
}

// ---------------------------------------------------------------------------
// Matching brackets
// ---------------------------------------------------------------------------

/// Whether a token ends a sequence: `]`, `|` or `}`.
pub open spec fn is_closer(t: Token) -> bool {
    t == Token::LoopEnd || t == Token::ParSep || t == Token::ParEnd
}

/// What one token does to the stack of open brackets, innermost last.
/// `None` where the token has no opener to answer to.
pub open spec fn step(open: Seq<Bracket>, t: Token) -> Option<Seq<Bracket>> {
    match t {
        Token::LoopStart => Some(open.push(Bracket::Loop)),
        Token::ParStart => Some(open.push(Bracket::Par)),
        Token::LoopEnd => if open.len() > 0 && open.last() == Bracket::Loop {
            Some(open.drop_last())
        } else {
            None
        },
        Token::ParEnd => if open.len() > 0 && open.last() == Bracket::Par {
            Some(open.drop_last())
        } else {
            None
        },
        Token::ParSep => if open.len() > 0 && open.last() == Bracket::Par {
            Some(open)
        } else {
            None
        },
        _ => Some(open),
    }
}

/// The open brackets after reading `s` from index `i` on, starting with the
/// stack `open`; `None` where some token has no opener.
pub open spec fn scan(s: Seq<Token>, i: int, open: Seq<Bracket>) -> Option<Seq<Bracket>>
    decreases s.len() - i,
{
    if i < 0 || i >= s.len() {
        Some(open)
    } else {
        match step(open, s[i]) {
            Some(next) => scan(s, i + 1, next),
            None => None,
        }
    }
}

/// A token sequence whose loop and parallel brackets match: every `]`, `|`
/// and `}` answers to the innermost open bracket of its kind, and nothing is
/// left open at the end.
pub open spec fn well_bracketed(s: Seq<Token>) -> bool {
    scan(s, 0, Seq::empty()) == Some(Seq::<Bracket>::empty())
}

/// The tokens from `i` up to `j` leave every stack as it was.
pub open spec fn neutral(s: Seq<Token>, i: int, j: int) -> bool {
    forall|open: Seq<Bracket>| #[trigger] scan(s, i, open) == scan(s, j, open)
}

/// From `i` on, no stack of open brackets can come out empty.
pub open spec fn hopeless(s: Seq<Token>, i: int) -> bool {
    forall|open: Seq<Bracket>| #[trigger]
        scan(s, i, open) != Some(Seq::<Bracket>::empty())
}

// ---------------------------------------------------------------------------
// The parser
// ---------------------------------------------------------------------------

/// Counts the run of `t` that starts at `start`.
fn run_length(tokens: &[Token], start: usize, t: Token) -> (end: usize)
    requires
        start < tokens.len(),
        tokens[start as int] == t,
        !is_closer(t),
        t != Token::LoopStart,
        t != Token::ParStart,
    ensures
        start < end <= tokens.len(),
        tokens@.subrange(start as int, end as int) == run_of(t, (end - start) as nat),
        end < tokens.len() ==> tokens[end as int] != t,
        neutral(tokens@, start as int, end as int),
{
    let mut end = start + 1;
    while end < tokens.len() && tokens[end] == t
        invariant
            start < end <= tokens.len(),
            !is_closer(t),
            t != Token::LoopStart,
            t != Token::ParStart,
            forall|k: int| start <= k < end ==> tokens[k] == t,
            neutral(tokens@, start as int, end as int),
        decreases tokens.len() - end,
    {
        end = end + 1;
    }
    assert(tokens@.subrange(start as int, end as int) =~= run_of(t, (end - start) as nat));
    end
}

/// Parses the branches of a parallel block whose `{` stands just before
/// `start`, up to and including its `}`.
#[verifier::rlimit(40)]
fn parse_parallel(tokens: &[Token], start: usize) -> (r: Result<
    (Vec<Vec<Node>>, usize),
    ParseError,
>)
    requires
        start <= tokens.len(),
    ensures
        match r {
            Ok((branches, end)) => {
                &&& start < end <= tokens.len()
                &&& branches.len() >= 1
                &&& branches_wf(branch_trees_of(branches@))
                &&& branches_tokens(branch_trees_of(branches@)) + seq![Token::ParEnd]
                    == tokens@.subrange(
                    start as int,
                    end as int,
                )
                &&& forall|open: Seq<Bracket>| #[trigger]
                    scan(tokens@, start as int, open.push(Bracket::Par)) == scan(
                        tokens@,
                        end as int,
                        open,
                    )
            },
            Err(_) => forall|open: Seq<Bracket>| #[trigger]
                scan(tokens@, start as int, open.push(Bracket::Par)) != Some(
                    Seq::<Bracket>::empty(),
                ),
        },
    decreases tokens.len() - start, 1int,
{
    let ghost s = tokens@;
    let mut branches: Vec<Vec<Node>> = Vec::new();
    let mut pos = start;
    loop
        invariant
            s == tokens@,
            start <= pos <= tokens.len(),
            branches_wf(branch_trees_of(branches@)),
            branches.len() == 0 ==> pos == start,
            branches.len() > 0 ==> branches_tokens(branch_trees_of(branches@))
                + seq![Token::ParSep] == s.subrange(start as int, pos as int),
            forall|open: Seq<Bracket>| #[trigger]
                scan(s, start as int, open.push(Bracket::Par)) == scan(
                    s,
                    pos as int,
                    open.push(Bracket::Par),
                ),
        decreases tokens.len() - pos,
    {
        let (branch, end) = match parse_nodes(tokens, pos) {
            Ok(found) => found,
            Err(e) => {
                return Err(e);
            },
        };
        let ghost before = branch_trees_of(branches@);
        let ghost added = trees_of(branch@);
        branches.push(branch);
        let ghost now = branch_trees_of(branches@);
        proof {
            assert(now =~= before.push(added));
            assert(now.drop_last() =~= before);
            if before.len() > 0 {
                assert((branches_tokens(before) + seq![Token::ParSep]) + seq_tokens(added)
                    =~= s.subrange(start as int, end as int));
            } else {
                assert(s.subrange(pos as int, end as int) =~= s.subrange(
                    start as int,
                    end as int,
                ));
            }
            assert(branches_tokens(now) == s.subrange(start as int, end as int));
        }
        if end >= tokens.len() {
            proof {
                assert forall|open: Seq<Bracket>| #[trigger]
                    scan(s, start as int, open.push(Bracket::Par)) != Some(
                        Seq::<Bracket>::empty(),
                    ) by {
                    assert(scan(s, pos as int, open.push(Bracket::Par)) == scan(
                        s,
                        end as int,
                        open.push(Bracket::Par),
                    ));
                    assert(open.push(Bracket::Par).len() > 0);
                }
            }
            return Err(ParseError::MalformedBrackets);
        }
        let closer = tokens[end];
        match closer {
            Token::ParSep => {
                proof {
                    assert(s.subrange(start as int, end as int) + seq![Token::ParSep]
                        =~= s.subrange(start as int, end + 1));
                    assert forall|open: Seq<Bracket>| #[trigger]
                        scan(s, start as int, open.push(Bracket::Par)) == scan(
                            s,
                            end + 1,
                            open.push(Bracket::Par),
                        ) by {
                        assert(scan(s, pos as int, open.push(Bracket::Par)) == scan(
                            s,
                            end as int,
                            open.push(Bracket::Par),
                        ));
                    }
                }
                pos = end + 1;
            },
            Token::ParEnd => {
                proof {
                    assert(s.subrange(start as int, end as int) + seq![Token::ParEnd]
                        =~= s.subrange(start as int, end + 1));
                    assert forall|open: Seq<Bracket>| #[trigger]
                        scan(s, start as int, open.push(Bracket::Par)) == scan(
                            s,
                            end + 1,
                            open,
                        ) by {
                        assert(scan(s, pos as int, open.push(Bracket::Par)) == scan(
                            s,
                            end as int,
                            open.push(Bracket::Par),
                        ));
                        assert(open.push(Bracket::Par).drop_last() =~= open);
                    }
                }
                return Ok((branches, end + 1));
            },
            _ => {
                proof {
                    assert forall|open: Seq<Bracket>| #[trigger]
                        scan(s, start as int, open.push(Bracket::Par)) != Some(
                            Seq::<Bracket>::empty(),
                        ) by {
                        assert(scan(s, pos as int, open.push(Bracket::Par)) == scan(
                            s,
                            end as int,
                            open.push(Bracket::Par),
                        ));
                    }
                }
                return Err(ParseError::MalformedBrackets);
            },
        }
    }
}

/// Parses nodes from `start` up to the first `]`, `|` or `}` that belongs to
/// no bracket opened on the way, or up to the end. Returns the nodes and the
/// index where it stopped.
#[verifier::rlimit(40)]
fn parse_nodes(tokens: &[Token], start: usize) -> (r: Result<(Vec<Node>, usize), ParseError>)
    requires
        start <= tokens.len(),
    ensures
        match r {
            Ok((nodes, end)) => {
                &&& start <= end <= tokens.len()
                &&& seq_wf(trees_of(nodes@))
                &&& seq_tokens(trees_of(nodes@)) == tokens@.subrange(start as int, end as int)
                &&& end < tokens.len() ==> is_closer(tokens[end as int])
                &&& neutral(tokens@, start as int, end as int)
            },
            Err(_) => hopeless(tokens@, start as int),
        },
    decreases tokens.len() - start, 0int,
{
    let ghost s = tokens@;
    let mut nodes: Vec<Node> = Vec::new();
    let mut pos = start;
    proof {
        assert(s.subrange(start as int, start as int) =~= Seq::<Token>::empty());
    }
    while pos < tokens.len()
        invariant
            s == tokens@,
            start <= pos <= tokens.len(),
            seq_wf(trees_of(nodes@)),
            seq_tokens(trees_of(nodes@)) == s.subrange(start as int, pos as int),
            neutral(s, start as int, pos as int),
            nodes.len() > 0 && nodes@.last() is Wait && pos < tokens.len() ==> s[pos as int]
                != Token::Wait,
            nodes.len() > 0 && nodes@.last() is Sleep && pos < tokens.len() ==> s[pos as int]
                != Token::Sleep,
        ensures
            start <= pos <= tokens.len(),
            seq_wf(trees_of(nodes@)),
            seq_tokens(trees_of(nodes@)) == s.subrange(start as int, pos as int),
            neutral(s, start as int, pos as int),
            pos < tokens.len() ==> is_closer(s[pos as int]),
        decreases tokens.len() - pos,
    {
        let token = tokens[pos];
        let ghost before = trees_of(nodes@);
        let ghost last_before = nodes@;
        let ghost from = pos;
        let node = match token {
            Token::LoopEnd | Token::ParSep | Token::ParEnd => {
                break ;
            },
            Token::IncPtr => {
                pos = pos + 1;
                Node::IncPtr
            },
            Token::DecPtr => {
                pos = pos + 1;
                Node::DecPtr
            },
            Token::IncCell => {
                pos = pos + 1;
                Node::IncCell
            },
            Token::DecCell => {
                pos = pos + 1;
                Node::DecCell
            },
            Token::Output => {
                pos = pos + 1;
                Node::Output
            },
            Token::Input => {
                pos = pos + 1;
                Node::Input
            },
            Token::LockStart => {
                pos = pos + 1;
                Node::LockAcquire
            },
            Token::LockEnd => {
                pos = pos + 1;
                Node::LockRelease
            },
            Token::Notify => {
                pos = pos + 1;
                Node::Notify
            },
            Token::Sleep => {
                let end = run_length(tokens, pos, Token::Sleep);
                let count = end - pos;
                pos = end;
                Node::Sleep(count)
            },
            Token::Wait => {
                let end = run_length(tokens, pos, Token::Wait);
                let count = end - pos;
                pos = end;
                Node::Wait(count)
            },
            Token::LoopStart => {
                let (body, end) = match parse_nodes(tokens, pos + 1) {
                    Ok(found) => found,
                    Err(e) => {
                        proof {
                            assert forall|open: Seq<Bracket>| #[trigger]
                                scan(s, start as int, open) != Some(
                                    Seq::<Bracket>::empty(),
                                ) by {
                                assert(scan(s, start as int, open) == scan(s, pos as int, open));
                                assert(scan(s, pos + 1, open.push(Bracket::Loop)) != Some(
                                    Seq::<Bracket>::empty(),
                                ));
                            }
                        }
                        return Err(e);
                    },
                };
                if end >= tokens.len() || tokens[end] != Token::LoopEnd {
                    proof {
                        assert forall|open: Seq<Bracket>| #[trigger]
                            scan(s, start as int, open) != Some(Seq::<Bracket>::empty()) by {
                            assert(scan(s, start as int, open) == scan(s, pos as int, open));
                            assert(scan(s, pos + 1, open.push(Bracket::Loop)) == scan(
                                s,
                                end as int,
                                open.push(Bracket::Loop),
                            ));
                            assert(open.push(Bracket::Loop).len() > 0);
                        }
                    }
                    return Err(ParseError::MalformedBrackets);
                }
                proof {
                    assert(seq![Token::LoopStart] + seq_tokens(trees_of(body@))
                        + seq![Token::LoopEnd] =~= s.subrange(pos as int, end + 1));
                    assert forall|open: Seq<Bracket>| #[trigger]
                        scan(s, pos as int, open) == scan(s, end + 1, open) by {
                        assert(scan(s, pos + 1, open.push(Bracket::Loop)) == scan(
                            s,
                            end as int,
                            open.push(Bracket::Loop),
                        ));
                        assert(open.push(Bracket::Loop).drop_last() =~= open);
                    }
                }
                pos = end + 1;
                Node::Loop(body)
            },
            Token::ParStart => {
                let (branches, end) = match parse_parallel(tokens, pos + 1) {
                    Ok(found) => found,
                    Err(e) => {
                        proof {
                            assert forall|open: Seq<Bracket>| #[trigger]
                                scan(s, start as int, open) != Some(
                                    Seq::<Bracket>::empty(),
                                ) by {
                                assert(scan(s, start as int, open) == scan(s, pos as int, open));
                                assert(scan(s, pos + 1, open.push(Bracket::Par)) != Some(
                                    Seq::<Bracket>::empty(),
                                ));
                            }
                        }
                        return Err(e);
                    },
                };
                proof {
                    let inner = branches_tokens(branch_trees_of(branches@));
                    assert(seq![Token::ParStart] + (inner + seq![Token::ParEnd]) =~= s.subrange(
                        pos as int,
                        end as int,
                    ));
                    assert(seq![Token::ParStart] + inner + seq![Token::ParEnd]
                        =~= seq![Token::ParStart] + (inner + seq![Token::ParEnd]));
                    assert forall|open: Seq<Bracket>| #[trigger]
                        scan(s, pos as int, open) == scan(s, end as int, open) by {
                        assert(scan(s, pos + 1, open.push(Bracket::Par)) == scan(
                            s,
                            end as int,
                            open,
                        ));
                    }
                }
                pos = end;
                Node::Parallel(branches)
            },
        };
        proof {
            assert(node_tokens(tree_of(node)) =~= s.subrange(from as int, pos as int));
            assert(s.subrange(start as int, from as int) + s.subrange(from as int, pos as int)
                =~= s.subrange(start as int, pos as int));
            assert(neutral(s, start as int, pos as int)) by {
                assert forall|open: Seq<Bracket>| #[trigger]
                    scan(s, start as int, open) == scan(s, pos as int, open) by {
                    assert(scan(s, start as int, open) == scan(s, from as int, open));
                    assert(scan(s, from as int, open) == scan(s, pos as int, open));
                }
            }
        }
        let ghost added = tree_of(node);
        nodes.push(node);
        proof {
            let now = trees_of(nodes@);
            assert(now =~= before.push(added));
            assert(now.drop_last() =~= before);
            assert(now.last() == added);
            assert(node_wf(added));
            if before.len() > 0 {
                assert(now[now.len() - 2] == before.last());
                assert(before.last() == tree_of(last_before.last()));
                assert(!same_run(before.last(), added));
            }
        }
    }
    Ok((nodes, pos))
}

/// Builds the instruction tree of a token sequence.
///
/// Succeeds exactly when the loop and parallel brackets match. The tree
/// returned is in normal form and is written by exactly the tokens given; it
/// is the only such tree. Where parsing fails, no tree at all is written by
/// the tokens.
pub fn parse(tokens: &[Token]) -> (r: Result<Vec<Node>, ParseError>)
    ensures
        r is Ok <==> well_bracketed(tokens@),
        r matches Ok(nodes) ==> seq_wf(trees_of(nodes@)) && seq_tokens(trees_of(nodes@))
            == tokens@,
        r matches Ok(nodes) ==> forall|t: Seq<Tree>|
            seq_wf(t) && #[trigger] seq_tokens(t) == tokens@ ==> t == trees_of(nodes@),
        r matches Err(e) ==> e == ParseError::MalformedBrackets,
        r is Err ==> forall|t: Seq<Tree>| #[trigger] seq_tokens(t) != tokens@,
{
    match parse_nodes(tokens, 0) {
        Ok((nodes, end)) => {
            proof {
                assert(scan(tokens@, 0, Seq::empty()) == scan(
                    tokens@,
                    end as int,
                    Seq::empty(),
                ));
            }
            if end < tokens.len() {
                proof {
                    assert forall|t: Seq<Tree>| #[trigger] seq_tokens(t) != tokens@ by {
                        lemma_tree_is_well_bracketed(t);
                    }
                }
                Err(ParseError::MalformedBrackets)
            } else {
                proof {
                    assert(tokens@.subrange(0, end as int) =~= tokens@);
                    assert forall|t: Seq<Tree>|
                        seq_wf(t) && #[trigger] seq_tokens(t) == tokens@ implies t == trees_of(
                        nodes@,
                    ) by {
                        lemma_tree_unique(t, trees_of(nodes@));
                    }
                }
                Ok(nodes)
            }
        },
        Err(e) => {
            proof {
                assert(scan(tokens@, 0, Seq::empty()) != Some(Seq::<Bracket>::empty()));
                assert forall|t: Seq<Tree>| #[trigger] seq_tokens(t) != tokens@ by {
                    lemma_tree_is_well_bracketed(t);
                }
            }
            Err(e)
        },
    }
}

} // verus!
