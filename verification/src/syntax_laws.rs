//! What holds of every tree and of the text that writes it.

use crate::lexer::{lemma_lex_symbols, lex_spec, Token};
use crate::parser::{
    branches_tokens, branches_wf, is_closer, node_tokens, node_wf, run_of, same_run, scan,
    seq_tokens, seq_wf, well_bracketed, Bracket, Tree,
};
use crate::printer::source_of;
use vstd::prelude::*;

verus! {

// ---------------------------------------------------------------------------
// Printing and lexing again
// ---------------------------------------------------------------------------

/// Lexing a text, parsing the tokens into `nodes`, printing the tree and
/// lexing the result gives the tokens of the text again. The parser's
/// promise about its result is the premise here.
pub proof fn lemma_round_trip(text: Seq<char>, nodes: Seq<Tree>)
    requires
        seq_tokens(nodes) == lex_spec(text),
    ensures
        lex_spec(source_of(nodes)) == lex_spec(text),
{
    lemma_lex_symbols(seq_tokens(nodes));
}

// ---------------------------------------------------------------------------
// Every tree is written with matching brackets
// ---------------------------------------------------------------------------

/// Scanning the second part of a concatenation is scanning it alone.
proof fn lemma_scan_second(a: Seq<Token>, b: Seq<Token>, j: int, open: Seq<Bracket>)
    requires
        0 <= j <= b.len(),
    ensures
        scan(a + b, a.len() + j, open) == scan(b, j, open),
    decreases b.len() - j,
{
    if j < b.len() {
        assert((a + b)[a.len() + j] == b[j]);
        match crate::parser::step(open, b[j]) {
            Some(next) => lemma_scan_second(a, b, j + 1, next),
            None => {},
        }
    }
}

/// Scanning a concatenation is scanning the first part and then the second.
proof fn lemma_scan_first(a: Seq<Token>, b: Seq<Token>, i: int, open: Seq<Bracket>)
    requires
        0 <= i <= a.len(),
    ensures
        scan(a + b, i, open) == match scan(a, i, open) {
            Some(mid) => scan(b, 0, mid),
            None => None,
        },
    decreases a.len() - i,
{
    if i < a.len() {
        assert((a + b)[i] == a[i]);
        match crate::parser::step(open, a[i]) {
            Some(next) => lemma_scan_first(a, b, i + 1, next),
            None => {},
        }
    } else {
        lemma_scan_second(a, b, 0, open);
    }
}

/// Two parts that each leave the stack `open` as it was do so together.
proof fn lemma_scan_join(a: Seq<Token>, b: Seq<Token>, open: Seq<Bracket>)
    requires
        scan(a, 0, open) == Some(open),
        scan(b, 0, open) == Some(open),
    ensures
        scan(a + b, 0, open) == Some(open),
{
    lemma_scan_first(a, b, 0, open);
}

/// A bracket, what stands inside it, and its closer leave the stack as it
/// was.
proof fn lemma_scan_bracketed(
    opener: Token,
    inner: Seq<Token>,
    closer: Token,
    kind: Bracket,
    open: Seq<Bracket>,
)
    requires
        (opener == Token::LoopStart && closer == Token::LoopEnd && kind == Bracket::Loop) || (
        opener == Token::ParStart && closer == Token::ParEnd && kind == Bracket::Par),
        scan(inner, 0, open.push(kind)) == Some(open.push(kind)),
    ensures
        scan(seq![opener] + inner + seq![closer], 0, open) == Some(open),
{
    let inside = open.push(kind);
    assert(scan(seq![opener], 0, open) == Some(inside)) by {
        assert(scan(seq![opener], 1, inside) == Some(inside));
    }
    lemma_scan_first(seq![opener], inner, 0, open);
    assert(scan(seq![closer], 0, inside) == Some(open)) by {
        assert(inside.drop_last() =~= open);
        assert(scan(seq![closer], 1, open) == Some(open));
    }
    lemma_scan_first(seq![opener] + inner, seq![closer], 0, open);
}

/// A run of waits or sleeps leaves every stack as it was.
proof fn lemma_run_closed(t: Token, n: nat, i: int, open: Seq<Bracket>)
    requires
        t == Token::Wait || t == Token::Sleep,
        0 <= i <= n,
    ensures
        scan(run_of(t, n), i, open) == Some(open),
    decreases n - i,
{
    if i < n {
        lemma_run_closed(t, n, i + 1, open);
    }
}

/// The tokens of a node leave every stack of open brackets as it was.
pub proof fn lemma_node_closed(n: Tree, open: Seq<Bracket>)
    ensures
        scan(node_tokens(n), 0, open) == Some(open),
    decreases n,
{
    match n {
        Tree::Loop(body) => {
            lemma_seq_closed(body, open.push(Bracket::Loop));
            lemma_scan_bracketed(
                Token::LoopStart,
                seq_tokens(body),
                Token::LoopEnd,
                Bracket::Loop,
                open,
            );
        },
        Tree::Parallel(branches) => {
            lemma_branches_closed(branches, open.push(Bracket::Par));
            lemma_scan_bracketed(
                Token::ParStart,
                branches_tokens(branches),
                Token::ParEnd,
                Bracket::Par,
                open,
            );
        },
        Tree::Sleep(k) => lemma_run_closed(Token::Sleep, k, 0, open),
        Tree::Wait(k) => lemma_run_closed(Token::Wait, k, 0, open),
        _ => {
            assert(scan(node_tokens(n), 1, open) == Some(open));
        },
    }
}

/// The tokens of a sequence of nodes leave every stack of open brackets as
/// it was.
pub proof fn lemma_seq_closed(s: Seq<Tree>, open: Seq<Bracket>)
    ensures
        scan(seq_tokens(s), 0, open) == Some(open),
    decreases s,
{
    if s.len() > 0 {
        lemma_seq_closed(s.drop_last(), open);
        lemma_node_closed(s.last(), open);
        lemma_scan_join(seq_tokens(s.drop_last()), node_tokens(s.last()), open);
    }
}

/// Inside a parallel block, the tokens of its branches leave the stack as it
/// was.
pub proof fn lemma_branches_closed(bs: Seq<Seq<Tree>>, open: Seq<Bracket>)
    requires
        open.len() > 0,
        open.last() == Bracket::Par,
    ensures
        scan(branches_tokens(bs), 0, open) == Some(open),
    decreases bs,
{
    if bs.len() == 1 {
        lemma_seq_closed(bs[0], open);
    } else if bs.len() > 1 {
        lemma_branches_closed(bs.drop_last(), open);
        assert(scan(seq![Token::ParSep], 0, open) == Some(open)) by {
            assert(scan(seq![Token::ParSep], 1, open) == Some(open));
        }
        lemma_scan_join(branches_tokens(bs.drop_last()), seq![Token::ParSep], open);
        lemma_seq_closed(bs.last(), open);
        lemma_scan_join(
            branches_tokens(bs.drop_last()) + seq![Token::ParSep],
            seq_tokens(bs.last()),
            open,
        );
    }
}

/// Every tree, and so the body of every loop and every branch of every
/// parallel block, is written with matching brackets.
pub proof fn lemma_tree_is_well_bracketed(nodes: Seq<Tree>)
    ensures
        well_bracketed(seq_tokens(nodes)),
{
    lemma_seq_closed(nodes, Seq::empty());
}

// ---------------------------------------------------------------------------
// Counting the separators of a parallel block
// ---------------------------------------------------------------------------

/// Reads the first `n` tokens of `s`, starting at nesting depth `depth`.
/// Gives the number of separators met at depth `base`, and the depth
/// reached.
pub open spec fn separators(s: Seq<Token>, n: int, depth: int, base: int) -> (nat, int)
    decreases n,
{
    if n <= 0 || n > s.len() {
        (0, depth)
    } else {
        let (count, d) = separators(s, n - 1, depth, base);
        match s[n - 1] {
            Token::LoopStart => (count, d + 1),
            Token::ParStart => (count, d + 1),
            Token::LoopEnd => (count, d - 1),
            Token::ParEnd => (count, d - 1),
            Token::ParSep => (
                if d == base {
                    count + 1
                } else {
                    count
                },
                d,
            ),
            _ => (count, d),
        }
    }
}

/// The number of separators in `s` that stand inside no bracket of `s`.
pub open spec fn top_separators(s: Seq<Token>) -> nat {
    separators(s, s.len() as int, 0, 0).0
}

/// Reading a concatenation is reading the first part and then the second
/// from the depth that the first part reached.
proof fn lemma_separators_concat(a: Seq<Token>, b: Seq<Token>, m: int, depth: int, base: int)
    requires
        0 <= m <= b.len(),
    ensures
        separators(a + b, a.len() + m, depth, base) == ({
            let (ca, da) = separators(a, a.len() as int, depth, base);
            let (cb, db) = separators(b, m, da, base);
            (ca + cb, db)
        }),
    decreases m,
{
    if m == 0 {
        lemma_separators_prefix(a, b, a.len() as int, depth, base);
    } else {
        lemma_separators_concat(a, b, m - 1, depth, base);
        assert((a + b)[a.len() + m - 1] == b[m - 1]);
    }
}

/// Reading a prefix does not depend on what follows it.
proof fn lemma_separators_prefix(a: Seq<Token>, b: Seq<Token>, n: int, depth: int, base: int)
    requires
        0 <= n <= a.len(),
    ensures
        separators(a + b, n, depth, base) == separators(a, n, depth, base),
    decreases n,
{
    if n > 0 {
        lemma_separators_prefix(a, b, n - 1, depth, base);
        assert((a + b)[n - 1] == a[n - 1]);
    }
}

/// A run of waits or sleeps holds no separator and keeps the depth.
proof fn lemma_run_separators(t: Token, k: nat, n: int, depth: int, base: int)
    requires
        t == Token::Wait || t == Token::Sleep,
        0 <= n <= k,
    ensures
        separators(run_of(t, k), n, depth, base) == (0nat, depth),
    decreases n,
{
    if n > 0 {
        lemma_run_separators(t, k, n - 1, depth, base);
    }
}

/// A bracket, what stands inside it, and its closer: the separators inside
/// are one level deeper.
proof fn lemma_separators_bracketed(
    opener: Token,
    inner: Seq<Token>,
    closer: Token,
    depth: int,
    base: int,
)
    requires
        opener == Token::LoopStart || opener == Token::ParStart,
        closer == Token::LoopEnd || closer == Token::ParEnd,
        separators(inner, inner.len() as int, depth + 1, base) == (0nat, depth + 1),
    ensures
        separators(
            seq![opener] + inner + seq![closer],
            (seq![opener] + inner + seq![closer]).len() as int,
            depth,
            base,
        ) == (0nat, depth),
{
    let head = seq![opener];
    let tail = seq![closer];
    assert(separators(head, 1, depth, base) == (0nat, depth + 1)) by {
        assert(separators(head, 0, depth, base) == (0nat, depth));
    }
    lemma_separators_concat(head, inner, inner.len() as int, depth, base);
    assert(separators(tail, 1, depth + 1, base) == (0nat, depth)) by {
        assert(separators(tail, 0, depth + 1, base) == (0nat, depth + 1));
    }
    lemma_separators_concat(head + inner, tail, 1, depth, base);
}

/// No separator of a node stands at or above the depth at which the node
/// starts, and the node ends at the depth at which it started.
pub proof fn lemma_node_separators(n: Tree, depth: int, base: int)
    requires
        depth >= base,
    ensures
        separators(node_tokens(n), node_tokens(n).len() as int, depth, base) == (0nat, depth),
    decreases n,
{
    match n {
        Tree::Loop(body) => {
            lemma_seq_separators(body, depth + 1, base);
            lemma_separators_bracketed(
                Token::LoopStart,
                seq_tokens(body),
                Token::LoopEnd,
                depth,
                base,
            );
        },
        Tree::Parallel(branches) => {
            lemma_branches_separators(branches, depth + 1, base);
            lemma_separators_bracketed(
                Token::ParStart,
                branches_tokens(branches),
                Token::ParEnd,
                depth,
                base,
            );
        },
        Tree::Sleep(k) => lemma_run_separators(Token::Sleep, k, k as int, depth, base),
        Tree::Wait(k) => lemma_run_separators(Token::Wait, k, k as int, depth, base),
        _ => {
            assert(separators(node_tokens(n), 0, depth, base) == (0nat, depth));
        },
    }
}

/// The same for a sequence of nodes.
pub proof fn lemma_seq_separators(s: Seq<Tree>, depth: int, base: int)
    requires
        depth >= base,
    ensures
        separators(seq_tokens(s), seq_tokens(s).len() as int, depth, base) == (0nat, depth),
    decreases s,
{
    if s.len() > 0 {
        lemma_seq_separators(s.drop_last(), depth, base);
        lemma_node_separators(s.last(), depth, base);
        lemma_separators_concat(
            seq_tokens(s.drop_last()),
            node_tokens(s.last()),
            node_tokens(s.last()).len() as int,
            depth,
            base,
        );
    }
}

/// The branches of a parallel block hold one separator less than there are
/// branches at the depth at which they start, and none above it.
pub proof fn lemma_branches_separators(bs: Seq<Seq<Tree>>, depth: int, base: int)
    requires
        depth >= base,
    ensures
        separators(branches_tokens(bs), branches_tokens(bs).len() as int, depth, base) == (
            if depth == base && bs.len() >= 1 {
                (bs.len() - 1) as nat
            } else {
                0nat
            },
            depth,
        ),
    decreases bs,
{
    if bs.len() == 1 {
        lemma_seq_separators(bs[0], depth, base);
    } else if bs.len() > 1 {
        let front = branches_tokens(bs.drop_last());
        let sep = seq![Token::ParSep];
        lemma_branches_separators(bs.drop_last(), depth, base);
        assert(separators(sep, 1, depth, base) == (
            if depth == base {
                1nat
            } else {
                0nat
            },
            depth,
        )) by {
            assert(separators(sep, 0, depth, base) == (0nat, depth));
        }
        lemma_separators_concat(front, sep, 1, depth, base);
        lemma_seq_separators(bs.last(), depth, base);
        lemma_separators_concat(
            front + sep,
            seq_tokens(bs.last()),
            seq_tokens(bs.last()).len() as int,
            depth,
            base,
        );
    }
}

/// A parallel block has one branch more than it has separators of its own.
pub proof fn lemma_branch_count(bs: Seq<Seq<Tree>>)
    requires
        bs.len() >= 1,
    ensures
        bs.len() == top_separators(branches_tokens(bs)) + 1,
{
    lemma_branches_separators(bs, 0, 0);
}

// ---------------------------------------------------------------------------
// A token sequence has one tree
// ---------------------------------------------------------------------------

/// The token that the text of a node starts with.
pub open spec fn head_of(x: Tree) -> Token {
    match x {
        Tree::IncPtr => Token::IncPtr,
        Tree::DecPtr => Token::DecPtr,
        Tree::IncCell => Token::IncCell,
        Tree::DecCell => Token::DecCell,
        Tree::Output => Token::Output,
        Tree::Input => Token::Input,
        Tree::Loop(_) => Token::LoopStart,
        Tree::Parallel(_) => Token::ParStart,
        Tree::LockAcquire => Token::LockStart,
        Tree::LockRelease => Token::LockEnd,
        Tree::Sleep(_) => Token::Sleep,
        Tree::Wait(_) => Token::Wait,
        Tree::Notify => Token::Notify,
    }
}

/// Whether what follows a sequence ends it: nothing, or a `]`, `|` or `}`.
pub open spec fn ends_sequence(rest: Seq<Token>) -> bool {
    rest.len() == 0 || is_closer(rest[0])
}

/// A node in normal form is written with at least one token, the first of
/// which tells its kind.
proof fn lemma_head(x: Tree)
    requires
        node_wf(x),
    ensures
        node_tokens(x).len() >= 1,
        node_tokens(x)[0] == head_of(x),
{
}

/// The tokens of a sequence, read from its first node on.
proof fn lemma_tokens_from_front(a: Seq<Tree>)
    requires
        a.len() >= 1,
    ensures
        seq_tokens(a) == node_tokens(a[0]) + seq_tokens(a.drop_first()),
    decreases a.len(),
{
    if a.len() == 1 {
        assert(a.drop_last() =~= Seq::<Tree>::empty());
        assert(a.drop_first() =~= Seq::<Tree>::empty());
        assert(seq_tokens(a) =~= node_tokens(a[0]) + seq_tokens(a.drop_first()));
    } else {
        lemma_tokens_from_front(a.drop_last());
        assert(a.drop_last().drop_first() =~= a.drop_first().drop_last());
        assert(a.drop_first().last() == a.last());
        assert(seq_tokens(a) =~= node_tokens(a[0]) + seq_tokens(a.drop_first()));
    }
}

/// Normal form, read from the first node on.
proof fn lemma_wf_from_front(a: Seq<Tree>)
    requires
        a.len() >= 1,
        seq_wf(a),
    ensures
        node_wf(a[0]),
        seq_wf(a.drop_first()),
        a.len() >= 2 ==> !same_run(a[0], a[1]),
    decreases a.len(),
{
    if a.len() == 1 {
        assert(a.drop_first() =~= Seq::<Tree>::empty());
    } else {
        lemma_wf_from_front(a.drop_last());
        assert(a.drop_last().drop_first() =~= a.drop_first().drop_last());
        assert(a.drop_first().last() == a.last());
        if a.len() >= 3 {
            assert(a.drop_first()[a.drop_first().len() - 2] == a[a.len() - 2]);
        }
    }
}

/// The tokens of the branches of a block, read from the first branch on.
proof fn lemma_branches_from_front(bs: Seq<Seq<Tree>>)
    requires
        bs.len() >= 2,
    ensures
        branches_tokens(bs) == seq_tokens(bs[0]) + seq![Token::ParSep] + branches_tokens(
            bs.drop_first(),
        ),
    decreases bs.len(),
{
    if bs.len() == 2 {
        assert(bs.drop_last().len() == 1 && bs.drop_last()[0] == bs[0]);
        assert(bs.drop_first().len() == 1 && bs.drop_first()[0] == bs[1]);
        assert(branches_tokens(bs.drop_last()) == seq_tokens(bs[0]));
        assert(branches_tokens(bs.drop_first()) == seq_tokens(bs[1]));
        assert(bs.last() == bs[1]);
    } else {
        lemma_branches_from_front(bs.drop_last());
        assert(bs.drop_last().drop_first() =~= bs.drop_first().drop_last());
        assert(bs.drop_first().last() == bs.last());
        assert(branches_tokens(bs) =~= seq_tokens(bs[0]) + seq![Token::ParSep] + branches_tokens(
            bs.drop_first(),
        ));
    }
}

/// Normal form of branches, read from the first branch on.
proof fn lemma_branches_wf_from_front(bs: Seq<Seq<Tree>>)
    requires
        bs.len() >= 1,
        branches_wf(bs),
    ensures
        seq_wf(bs[0]),
        branches_wf(bs.drop_first()),
    decreases bs.len(),
{
    if bs.len() == 1 {
        assert(bs.drop_first() =~= Seq::<Seq<Tree>>::empty());
    } else {
        lemma_branches_wf_from_front(bs.drop_last());
        assert(bs.drop_last().drop_first() =~= bs.drop_first().drop_last());
        assert(bs.drop_first().last() == bs.last());
    }
}

/// What follows a run in a sequence in normal form does not go on with the
/// token of the run.
proof fn lemma_run_ends(after: Seq<Tree>, rest: Seq<Token>, t: Token)
    requires
        seq_wf(after),
        ends_sequence(rest),
        t == Token::Wait || t == Token::Sleep,
        after.len() > 0 ==> head_of(after[0]) != t,
    ensures
        (seq_tokens(after) + rest).len() == 0 || (seq_tokens(after) + rest)[0] != t,
{
    if after.len() > 0 {
        lemma_tokens_from_front(after);
        lemma_wf_from_front(after);
        lemma_head(after[0]);
        assert((seq_tokens(after) + rest)[0] == node_tokens(after[0])[0]);
    } else {
        assert(seq_tokens(after) + rest =~= rest);
    }
}

/// Two runs of one token, each followed by something else, that make up
/// the same text have the same length.
proof fn lemma_runs_agree(t: Token, k1: nat, r1: Seq<Token>, k2: nat, r2: Seq<Token>)
    requires
        run_of(t, k1) + r1 == run_of(t, k2) + r2,
        r1.len() == 0 || r1[0] != t,
        r2.len() == 0 || r2[0] != t,
    ensures
        k1 == k2,
        r1 == r2,
{
    let text = run_of(t, k1) + r1;
    if k1 < k2 {
        assert((run_of(t, k2) + r2)[k1 as int] == t);
        if r1.len() > 0 {
            assert(text[k1 as int] == r1[0]);
        } else {
            assert(text.len() == k1);
        }
    }
    if k2 < k1 {
        assert(text[k2 as int] == t);
        if r2.len() > 0 {
            assert((run_of(t, k2) + r2)[k2 as int] == r2[0]);
        } else {
            assert((run_of(t, k2) + r2).len() == k2);
        }
    }
    assert(r1 =~= text.subrange(k1 as int, text.len() as int));
    assert(r2 =~= text.subrange(k2 as int, text.len() as int));
}

/// Whether `rest` may follow the node `x` in a sequence in normal form: a
/// run is not followed by its own token.
pub open spec fn may_follow(x: Tree, rest: Seq<Token>) -> bool {
    (x is Wait || x is Sleep) ==> rest.len() == 0 || rest[0] != head_of(x)
}

/// The kind of a node is told by the token that it starts with, and a leaf
/// is told wholly.
proof fn lemma_head_tells_kind(x: Tree, y: Tree)
    requires
        head_of(x) == head_of(y),
    ensures
        x is Loop <==> y is Loop,
        x is Parallel <==> y is Parallel,
        x is Wait <==> y is Wait,
        x is Sleep <==> y is Sleep,
        !(x is Loop || x is Parallel || x is Wait || x is Sleep) ==> x == y,
{
}

/// Two loops, each followed by something, that make up the same text are
/// the same loop followed by the same.
proof fn lemma_loop_unique(
    body_a: Seq<Tree>,
    ta: Seq<Token>,
    body_b: Seq<Tree>,
    tb: Seq<Token>,
)
    requires
        seq_wf(body_a),
        seq_wf(body_b),
        node_tokens(Tree::Loop(body_a)) + ta == node_tokens(Tree::Loop(body_b)) + tb,
    ensures
        body_a == body_b,
        ta == tb,
    decreases node_tokens(Tree::Loop(body_a)).len(), 0int,
{
    let text = node_tokens(Tree::Loop(body_a)) + ta;
    let inner_a = seq![Token::LoopEnd] + ta;
    let inner_b = seq![Token::LoopEnd] + tb;
    assert(seq_tokens(body_a) + inner_a =~= text.drop_first());
    assert(seq_tokens(body_b) + inner_b =~= text.drop_first());
    lemma_sequence_unique(body_a, inner_a, body_b, inner_b);
    assert(ta =~= inner_a.drop_first());
    assert(tb =~= inner_b.drop_first());
}

/// Two parallel blocks, each followed by something, that make up the same
/// text are the same block followed by the same.
proof fn lemma_block_unique(
    bs_a: Seq<Seq<Tree>>,
    ta: Seq<Token>,
    bs_b: Seq<Seq<Tree>>,
    tb: Seq<Token>,
)
    requires
        bs_a.len() >= 1,
        bs_b.len() >= 1,
        branches_wf(bs_a),
        branches_wf(bs_b),
        node_tokens(Tree::Parallel(bs_a)) + ta == node_tokens(Tree::Parallel(bs_b)) + tb,
    ensures
        bs_a == bs_b,
        ta == tb,
    decreases node_tokens(Tree::Parallel(bs_a)).len(), 0int,
{
    let text = node_tokens(Tree::Parallel(bs_a)) + ta;
    let inner_a = seq![Token::ParEnd] + ta;
    let inner_b = seq![Token::ParEnd] + tb;
    assert(branches_tokens(bs_a) + inner_a =~= text.drop_first());
    assert(branches_tokens(bs_b) + inner_b =~= text.drop_first());
    lemma_branches_unique(bs_a, inner_a, bs_b, inner_b);
    assert(ta =~= inner_a.drop_first());
    assert(tb =~= inner_b.drop_first());
}

/// Two nodes in normal form, each followed by something that may follow
/// it, that make up the same text are the same node followed by the same.
#[verifier::rlimit(40)]
proof fn lemma_node_unique(x: Tree, ta: Seq<Token>, y: Tree, tb: Seq<Token>)
    requires
        node_wf(x),
        node_wf(y),
        may_follow(x, ta),
        may_follow(y, tb),
        node_tokens(x) + ta == node_tokens(y) + tb,
    ensures
        x == y,
        ta == tb,
    decreases node_tokens(x).len(), 1int,
{
    let text = node_tokens(x) + ta;
    lemma_head(x);
    lemma_head(y);
    assert(text[0] == head_of(x));
    assert((node_tokens(y) + tb)[0] == head_of(y));
    lemma_head_tells_kind(x, y);
    match x {
        Tree::Loop(body_a) => {
            lemma_loop_unique(body_a, ta, y->Loop_0, tb);
        },
        Tree::Parallel(bs_a) => {
            lemma_block_unique(bs_a, ta, y->Parallel_0, tb);
        },
        Tree::Wait(k1) => {
            lemma_runs_agree(Token::Wait, k1, ta, y->Wait_0, tb);
        },
        Tree::Sleep(k1) => {
            lemma_runs_agree(Token::Sleep, k1, ta, y->Sleep_0, tb);
        },
        _ => {
            assert(ta =~= text.drop_first());
            assert(tb =~= text.drop_first());
        },
    }
}

/// A sequence in normal form that is not empty does not start with a token
/// that ends a sequence.
proof fn lemma_starts_with_head(a: Seq<Tree>, ra: Seq<Token>)
    requires
        a.len() >= 1,
        seq_wf(a),
    ensures
        (seq_tokens(a) + ra).len() >= 1,
        (seq_tokens(a) + ra)[0] == head_of(a[0]),
        !is_closer(head_of(a[0])),
{
    lemma_tokens_from_front(a);
    lemma_wf_from_front(a);
    lemma_head(a[0]);
    assert((seq_tokens(a) + ra)[0] == node_tokens(a[0])[0]);
}

/// In a sequence in normal form, what follows the first node may follow it.
proof fn lemma_first_is_followed(a: Seq<Tree>, ra: Seq<Token>)
    requires
        a.len() >= 1,
        seq_wf(a),
        ends_sequence(ra),
    ensures
        node_wf(a[0]),
        seq_wf(a.drop_first()),
        may_follow(a[0], seq_tokens(a.drop_first()) + ra),
        seq_tokens(a) + ra == node_tokens(a[0]) + (seq_tokens(a.drop_first()) + ra),
        seq_tokens(a.drop_first()).len() < seq_tokens(a).len(),
        node_tokens(a[0]).len() <= seq_tokens(a).len(),
{
    lemma_tokens_from_front(a);
    lemma_wf_from_front(a);
    lemma_head(a[0]);
    if a[0] is Wait || a[0] is Sleep {
        if a.len() >= 2 {
            assert(a.drop_first()[0] == a[1]);
        }
        lemma_run_ends(a.drop_first(), ra, head_of(a[0]));
    }
    assert(seq_tokens(a) + ra =~= node_tokens(a[0]) + (seq_tokens(a.drop_first()) + ra));
}

/// Two sequences in normal form, each followed by something that ends it,
/// that make up the same text are the same sequence followed by the same.
#[verifier::rlimit(40)]
pub proof fn lemma_sequence_unique(a: Seq<Tree>, ra: Seq<Token>, b: Seq<Tree>, rb: Seq<Token>)
    requires
        seq_wf(a),
        seq_wf(b),
        ends_sequence(ra),
        ends_sequence(rb),
        seq_tokens(a) + ra == seq_tokens(b) + rb,
    ensures
        a == b,
        ra == rb,
    decreases seq_tokens(a).len(), 2int,
{
    if a.len() == 0 || b.len() == 0 {
        if a.len() > 0 {
            lemma_starts_with_head(a, ra);
            assert(seq_tokens(b) + rb =~= rb);
        }
        if b.len() > 0 {
            lemma_starts_with_head(b, rb);
            assert(seq_tokens(a) + ra =~= ra);
        }
        assert(a =~= b);
        assert(seq_tokens(a) + ra =~= ra);
        assert(seq_tokens(b) + rb =~= rb);
    } else {
        lemma_first_is_followed(a, ra);
        lemma_first_is_followed(b, rb);
        lemma_node_unique(
            a[0],
            seq_tokens(a.drop_first()) + ra,
            b[0],
            seq_tokens(b.drop_first()) + rb,
        );
        lemma_sequence_unique(a.drop_first(), ra, b.drop_first(), rb);
        assert(a =~= seq![a[0]] + a.drop_first());
        assert(b =~= seq![b[0]] + b.drop_first());
    }
}

/// Two lists of branches in normal form, each followed by the `}` of its
/// block, that make up the same text are the same list followed by the
/// same.
#[verifier::rlimit(40)]
pub proof fn lemma_branches_unique(
    a: Seq<Seq<Tree>>,
    ra: Seq<Token>,
    b: Seq<Seq<Tree>>,
    rb: Seq<Token>,
)
    requires
        a.len() >= 1,
        b.len() >= 1,
        branches_wf(a),
        branches_wf(b),
        ra.len() > 0 && ra[0] == Token::ParEnd,
        rb.len() > 0 && rb[0] == Token::ParEnd,
        branches_tokens(a) + ra == branches_tokens(b) + rb,
    ensures
        a == b,
        ra == rb,
    decreases branches_tokens(a).len(), 3int,
{
    let text = branches_tokens(a) + ra;
    lemma_branches_wf_from_front(a);
    lemma_branches_wf_from_front(b);
    let more_a = if a.len() >= 2 {
        seq![Token::ParSep] + (branches_tokens(a.drop_first()) + ra)
    } else {
        ra
    };
    let more_b = if b.len() >= 2 {
        seq![Token::ParSep] + (branches_tokens(b.drop_first()) + rb)
    } else {
        rb
    };
    if a.len() >= 2 {
        lemma_branches_from_front(a);
    }
    if b.len() >= 2 {
        lemma_branches_from_front(b);
    }
    assert(text =~= seq_tokens(a[0]) + more_a);
    assert(text =~= seq_tokens(b[0]) + more_b);
    lemma_sequence_unique(a[0], more_a, b[0], more_b);
    if a.len() >= 2 {
        assert(more_b[0] == Token::ParSep);
        assert(branches_tokens(a.drop_first()) + ra =~= more_a.drop_first());
        assert(branches_tokens(b.drop_first()) + rb =~= more_b.drop_first());
        lemma_branches_unique(a.drop_first(), ra, b.drop_first(), rb);
        assert(a =~= seq![a[0]] + a.drop_first());
        assert(b =~= seq![b[0]] + b.drop_first());
    } else {
        assert(more_b[0] == Token::ParEnd);
        assert(a =~= b);
    }
}

/// A token sequence is written by at most one tree in normal form. With what
/// the parser promises of its result, this makes the result the only tree in
/// normal form that writes the input.
pub proof fn lemma_tree_unique(a: Seq<Tree>, b: Seq<Tree>)
    requires
        seq_wf(a),
        seq_wf(b),
        seq_tokens(a) == seq_tokens(b),
    ensures
        a == b,
{
    lemma_sequence_unique(a, Seq::empty(), b, Seq::empty());
}

} // verus!
