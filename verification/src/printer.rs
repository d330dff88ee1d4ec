//! Writing a tree back as tokens and as source text.

use crate::lexer::{symbol_of, symbols_of, Token};
use crate::parser::{
    branch_trees_of, branches_tokens, node_tokens, run_of, seq_tokens, tree_of, trees_of, Node,
    Tree,
};
use vstd::prelude::*;
use vstd::string::StringExecFns;

verus! {

/// The source text that writes a tree.
pub open spec fn source_of(nodes: Seq<Tree>) -> Seq<char> {
    symbols_of(seq_tokens(nodes))
}

/// The one-character text of a token.
pub fn symbol(t: Token) -> (r: &'static str)
    ensures
        r@ == seq![symbol_of(t)],
{
    proof {
        reveal_strlit(">");
        reveal_strlit("<");
        reveal_strlit("+");
        reveal_strlit("-");
        reveal_strlit(".");
        reveal_strlit(",");
        reveal_strlit("[");
        reveal_strlit("]");
        reveal_strlit("{");
        reveal_strlit("|");
        reveal_strlit("}");
        reveal_strlit("(");
        reveal_strlit(")");
        reveal_strlit("~");
        reveal_strlit("^");
        reveal_strlit("v");
    }
    let r = match t {
        Token::IncPtr => ">",
        Token::DecPtr => "<",
        Token::IncCell => "+",
        Token::DecCell => "-",
        Token::Output => ".",
        Token::Input => ",",
        Token::LoopStart => "[",
        Token::LoopEnd => "]",
        Token::ParStart => "{",
        Token::ParSep => "|",
        Token::ParEnd => "}",
        Token::LockStart => "(",
        Token::LockEnd => ")",
        Token::Sleep => "~",
        Token::Wait => "^",
        Token::Notify => "v",
    };
    assert(r@ =~= seq![symbol_of(t)]);
    r
}

/// Appends `count` copies of `t`.
fn push_run(out: &mut Vec<Token>, t: Token, count: usize)
    ensures
        final(out)@ == old(out)@ + run_of(t, count as nat),
{
    let mut done: usize = 0;
    while done < count
        invariant
            done <= count,
            out@ == old(out)@ + run_of(t, done as nat),
        decreases count - done,
    {
        out.push(t);
        done = done + 1;
        assert(out@ =~= old(out)@ + run_of(t, done as nat));
    }
}

/// Appends the tokens that write one node.
fn write_node(node: &Node, out: &mut Vec<Token>)
    ensures
        final(out)@ == old(out)@ + node_tokens(tree_of(*node)),
    decreases *node,
{
    match node {
        Node::IncPtr => out.push(Token::IncPtr),
        Node::DecPtr => out.push(Token::DecPtr),
        Node::IncCell => out.push(Token::IncCell),
        Node::DecCell => out.push(Token::DecCell),
        Node::Output => out.push(Token::Output),
        Node::Input => out.push(Token::Input),
        Node::LockAcquire => out.push(Token::LockStart),
        Node::LockRelease => out.push(Token::LockEnd),
        Node::Notify => out.push(Token::Notify),
        Node::Sleep(k) => push_run(out, Token::Sleep, *k),
        Node::Wait(k) => push_run(out, Token::Wait, *k),
        Node::Loop(body) => {
            out.push(Token::LoopStart);
            write_nodes(body, out);
            out.push(Token::LoopEnd);
        },
        Node::Parallel(branches) => {
            out.push(Token::ParStart);
            write_branches(branches, out);
            out.push(Token::ParEnd);
        },
    }
    assert(out@ =~= old(out)@ + node_tokens(tree_of(*node)));
}

/// Appends the tokens that write a sequence of nodes.
fn write_nodes(nodes: &Vec<Node>, out: &mut Vec<Token>)
    ensures
        final(out)@ == old(out)@ + seq_tokens(trees_of(nodes@)),
    decreases nodes@,
{
    let ghost trees = trees_of(nodes@);
    let mut i: usize = 0;
    assert(trees.take(0) =~= Seq::<Tree>::empty());
    assert(out@ =~= old(out)@ + seq_tokens(trees.take(0)));
    while i < nodes.len()
        invariant
            i <= nodes.len(),
            trees == trees_of(nodes@),
            out@ == old(out)@ + seq_tokens(trees.take(i as int)),
        decreases nodes.len() - i,
    {
        write_node(&nodes[i], out);
        proof {
            let next = trees.take(i + 1);
            assert(next.drop_last() =~= trees.take(i as int));
            assert(next.last() == tree_of(nodes@[i as int]));
            assert(out@ =~= old(out)@ + seq_tokens(next));
        }
        i = i + 1;
    }
    assert(trees.take(i as int) =~= trees);
}

/// Appends the tokens that write the branches of a parallel block.
fn write_branches(branches: &Vec<Vec<Node>>, out: &mut Vec<Token>)
    ensures
        final(out)@ == old(out)@ + branches_tokens(branch_trees_of(branches@)),
    decreases branches@,
{
    let ghost trees = branch_trees_of(branches@);
    let mut i: usize = 0;
    assert(trees.take(0) =~= Seq::<Seq<Tree>>::empty());
    assert(out@ =~= old(out)@ + branches_tokens(trees.take(0)));
    while i < branches.len()
        invariant
            i <= branches.len(),
            trees == branch_trees_of(branches@),
            out@ == old(out)@ + branches_tokens(trees.take(i as int)),
        decreases branches.len() - i,
    {
        if i > 0 {
            out.push(Token::ParSep);
        }
        write_nodes(&branches[i], out);
        proof {
            let next = trees.take(i + 1);
            assert(next.drop_last() =~= trees.take(i as int));
            assert(next.last() == trees_of(branches@[i as int]@));
            assert(out@ =~= old(out)@ + branches_tokens(next));
        }
        i = i + 1;
    }
    assert(trees.take(i as int) =~= trees);
}

/// The tokens that write a tree.
pub fn unparse(nodes: &Vec<Node>) -> (tokens: Vec<Token>)
    ensures
        tokens@ == seq_tokens(trees_of(nodes@)),
{
    let mut tokens: Vec<Token> = Vec::new();
    write_nodes(nodes, &mut tokens);
    assert(tokens@ =~= seq_tokens(trees_of(nodes@)));
    tokens
}

/// The text that writes a token sequence, one symbol per token.
pub fn render(tokens: &[Token]) -> (text: String)
    ensures
        text@ == symbols_of(tokens@),
{
    let mut text = String::new();
    let mut i: usize = 0;
    assert(text@ =~= symbols_of(tokens@.take(0)));
    while i < tokens.len()
        invariant
            i <= tokens.len(),
            text@ == symbols_of(tokens@.take(i as int)),
        decreases tokens.len() - i,
    {
        text.append(symbol(tokens[i]));
        i = i + 1;
        assert(text@ =~= symbols_of(tokens@.take(i as int)));
    }
    assert(tokens@.take(i as int) =~= tokens@);
    text
}

/// The source text that writes a tree.
pub fn pretty(nodes: &Vec<Node>) -> (text: String)
    ensures
        text@ == source_of(trees_of(nodes@)),
{
    let tokens = unparse(nodes);
    render(tokens.as_slice())
}

} // verus!
