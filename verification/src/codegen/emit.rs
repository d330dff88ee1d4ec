//! Lowering of instruction sequences into the body of a function.
//!
//! What a sequence gives rise to is told by three functions of the tree: the
//! text written in place (`seq_text`), the number of unique ids taken
//! (`seq_ids`), and the definitions queued for the end of the module
//! (`seq_defs`).

use super::decl::only_if;
use super::parallel::{
    branches_defs, branches_ids, emit_parallel, lemma_branches_ids_prefix, parallel_text,
};
use super::{label_text, line_text, Codegen};
use crate::parser::{
    branch_trees_of, branches_tokens, node_tokens, seq_tokens, tree_of, trees_of, Node, Tree,
};
use crate::text::{digits, fmt_usize};
use vstd::prelude::*;
use vstd::string::StringExecFns;

verus! {

// ---------------------------------------------------------------------------
// What a tree is lowered to
// ---------------------------------------------------------------------------

/// A call of a helper that takes the state alone.
pub open spec fn call_text(depth: nat, helper: Seq<char>, s: Seq<char>) -> Seq<char> {
    line_text(depth, "call void @"@ + helper + "(%State* "@ + s + ")"@)
}

/// A call of a helper that takes the state and a constant.
pub open spec fn call_with_text(
    depth: nat,
    helper: Seq<char>,
    s: Seq<char>,
    constant: Seq<char>,
) -> Seq<char> {
    line_text(depth, "call void @"@ + helper + "(%State* "@ + s + ", "@ + constant + ")"@)
}

/// One text, `n` times.
pub open spec fn repeated(text: Seq<char>, n: nat) -> Seq<char>
    decreases n,
{
    if n == 0 {
        Seq::empty()
    } else {
        repeated(text, (n - 1) as nat) + text
    }
}

/// The number of unique ids that lowering a node takes: one for each loop,
/// and for each parallel block one and one more for each of its branches.
pub open spec fn node_ids(n: Tree) -> nat
    decreases n,
{
    match n {
        Tree::Loop(body) => 1 + seq_ids(body),
        Tree::Parallel(branches) => 1 + branches_ids(branches) + branches.len(),
        _ => 0,
    }
}

/// The number of unique ids that lowering a sequence takes.
pub open spec fn seq_ids(s: Seq<Tree>) -> nat
    decreases s,
{
    if s.len() == 0 {
        0
    } else {
        seq_ids(s.drop_last()) + node_ids(s.last())
    }
}

/// The text that a node is lowered to, in a function whose state is named
/// `s`, when `id` is the next unique id.
pub open spec fn node_text(n: Tree, s: Seq<char>, depth: nat, id: nat, sanitize: bool) -> Seq<
    char,
>
    decreases n,
{
    match n {
        Tree::IncPtr => call_with_text(depth, "bf_inc_ptr"@, s, "i64 1"@),
        Tree::DecPtr => call_with_text(depth, "bf_inc_ptr"@, s, "i64 -1"@),
        Tree::IncCell => call_with_text(depth, "bf_add_cell"@, s, "i32 1"@),
        Tree::DecCell => call_with_text(depth, "bf_add_cell"@, s, "i32 -1"@),
        Tree::Output => call_text(depth, "bf_output"@, s),
        Tree::Input => call_text(depth, "bf_input"@, s),
        Tree::LockAcquire => call_text(depth, "bf_lock_acquire"@, s),
        Tree::LockRelease => call_text(depth, "bf_lock_release"@, s),
        Tree::Sleep(ticks) => line_text(
            depth,
            "call void @bf_sleep(i32 "@ + digits(ticks) + ")"@,
        ),
        Tree::Wait(count) => repeated(call_text(depth, "bf_wait"@, s), count),
        Tree::Notify => call_text(depth, "bf_notify"@, s),
        Tree::Loop(body) => loop_text(body, s, depth, id, sanitize),
        Tree::Parallel(branches) => parallel_text(branches, s, depth, id, sanitize),
    }
}

/// The three blocks of a loop: the test, the body, and what follows.
pub open spec fn loop_text(
    body: Seq<Tree>,
    s: Seq<char>,
    depth: nat,
    id: nat,
    sanitize: bool,
) -> Seq<char>
    decreases body, 1int,
{
    loop_head_text(depth, sanitize, s, id) + seq_text(body, s, depth, id + 1, sanitize)
        + loop_tail_text(depth, sanitize, id)
}

/// The text that a sequence is lowered to: that of each node in order, each
/// with the ids that the nodes before it left.
pub open spec fn seq_text(
    nodes: Seq<Tree>,
    s: Seq<char>,
    depth: nat,
    id: nat,
    sanitize: bool,
) -> Seq<char>
    decreases nodes, 0int,
{
    if nodes.len() == 0 {
        Seq::empty()
    } else {
        seq_text(nodes.drop_last(), s, depth, id, sanitize) + node_text(
            nodes.last(),
            s,
            depth,
            id + seq_ids(nodes.drop_last()),
            sanitize,
        )
    }
}

/// The definitions that lowering a node queues, oldest first.
pub open spec fn node_defs(n: Tree, id: nat, sanitize: bool) -> Seq<Seq<char>>
    decreases n,
{
    match n {
        Tree::Loop(body) => seq_defs(body, id + 1, sanitize),
        Tree::Parallel(branches) => branches_defs(branches, id, sanitize),
        _ => Seq::empty(),
    }
}

/// The definitions that lowering a sequence queues, oldest first.
pub open spec fn seq_defs(nodes: Seq<Tree>, id: nat, sanitize: bool) -> Seq<Seq<char>>
    decreases nodes,
{
    if nodes.len() == 0 {
        Seq::empty()
    } else {
        seq_defs(nodes.drop_last(), id, sanitize) + node_defs(
            nodes.last(),
            id + seq_ids(nodes.drop_last()),
            sanitize,
        )
    }
}

/// A prefix of a sequence takes no more ids than the whole.
pub proof fn lemma_seq_ids_prefix(s: Seq<Tree>, n: int)
    requires
        0 <= n <= s.len(),
    ensures
        seq_ids(s.take(n)) <= seq_ids(s),
        n < s.len() ==> seq_ids(s.take(n)) + node_ids(s[n]) <= seq_ids(s),
    decreases s.len() - n,
{
    if n < s.len() {
        lemma_seq_ids_prefix(s, n + 1);
        assert(s.take(n + 1).drop_last() =~= s.take(n));
        assert(s.take(n + 1).last() == s[n]);
    } else {
        assert(s.take(n) =~= s);
    }
}

/// Lowering goes from left to right: a sequence made of two parts takes the
/// ids of both, writes the text of the first and then that of the second,
/// and queues what the first queues before what the second queues. The
/// second part starts with the ids that the first has left.
pub proof fn lemma_lowering_composes(
    a: Seq<Tree>,
    b: Seq<Tree>,
    s: Seq<char>,
    depth: nat,
    id: nat,
    sanitize: bool,
)
    ensures
        seq_ids(a + b) == seq_ids(a) + seq_ids(b),
        seq_text(a + b, s, depth, id, sanitize) == seq_text(a, s, depth, id, sanitize) + seq_text(
            b,
            s,
            depth,
            id + seq_ids(a),
            sanitize,
        ),
        seq_defs(a + b, id, sanitize) == seq_defs(a, id, sanitize) + seq_defs(
            b,
            id + seq_ids(a),
            sanitize,
        ),
    decreases b.len(),
{
    if b.len() == 0 {
        assert(a + b =~= a);
        assert(seq_text(a, s, depth, id, sanitize) + Seq::<char>::empty() =~= seq_text(
            a,
            s,
            depth,
            id,
            sanitize,
        ));
        assert(seq_defs(a, id, sanitize) + Seq::<Seq<char>>::empty() =~= seq_defs(
            a,
            id,
            sanitize,
        ));
    } else {
        let front = b.drop_last();
        lemma_lowering_composes(a, front, s, depth, id, sanitize);
        assert((a + b).drop_last() =~= a + front);
        assert((a + b).last() == b.last());
        let last_text = node_text(
            b.last(),
            s,
            depth,
            id + seq_ids(a) + seq_ids(front),
            sanitize,
        );
        assert(seq_text(a + b, s, depth, id, sanitize) =~= seq_text(a, s, depth, id, sanitize)
            + (seq_text(front, s, depth, id + seq_ids(a), sanitize) + last_text));
        let last_defs = node_defs(b.last(), id + seq_ids(a) + seq_ids(front), sanitize);
        assert(seq_defs(a + b, id, sanitize) =~= seq_defs(a, id, sanitize) + (seq_defs(
            front,
            id + seq_ids(a),
            sanitize,
        ) + last_defs));
    }
}

/// Lowering a node takes no more ids than the node has tokens.
pub proof fn lemma_node_ids_fit_tokens(n: Tree)
    ensures
        node_ids(n) <= node_tokens(n).len(),
    decreases n,
{
    match n {
        Tree::Loop(body) => {
            lemma_ids_fit_tokens(body);
        },
        Tree::Parallel(branches) => {
            lemma_branches_ids_fit_tokens(branches);
        },
        _ => {},
    }
}

/// Lowering a sequence takes no more ids than the sequence has tokens. So a
/// program that was parsed from tokens takes no more ids than it had tokens.
pub proof fn lemma_ids_fit_tokens(s: Seq<Tree>)
    ensures
        seq_ids(s) <= seq_tokens(s).len(),
    decreases s,
{
    if s.len() > 0 {
        lemma_ids_fit_tokens(s.drop_last());
        lemma_node_ids_fit_tokens(s.last());
    }
}

/// The branches of a block, with one id more for each, take fewer ids than
/// the block has tokens.
pub proof fn lemma_branches_ids_fit_tokens(bs: Seq<Seq<Tree>>)
    ensures
        branches_ids(bs) + bs.len() <= branches_tokens(bs).len() + 1,
    decreases bs,
{
    if bs.len() == 1 {
        lemma_ids_fit_tokens(bs[0]);
        assert(bs.drop_last() =~= Seq::<Seq<Tree>>::empty());
        assert(branches_ids(bs.drop_last()) == 0);
    } else if bs.len() > 1 {
        lemma_branches_ids_fit_tokens(bs.drop_last());
        lemma_ids_fit_tokens(bs.last());
    }
}

// ---------------------------------------------------------------------------
// Lowering
// ---------------------------------------------------------------------------

/// The head of the loop numbered `id`: the jump to the test, the test of the
/// current cell, and the label of the body.
#[verifier::opaque]
pub open spec fn loop_head_text(depth: nat, sanitize: bool, s: Seq<char>, id: nat) -> Seq<char> {
    line_text(depth, "br label %loop.cond."@ + digits(id))
    + label_text("loop.cond."@ + digits(id))
    + line_text(depth, "%p"@ + digits(id) + " = call i8* @bf_gep_cell_ptr(%State* "@ + s + ")"@)
    + only_if(sanitize, line_text(depth, "call void @tsan_read(%State* "@ + s + ")"@))
    + line_text(depth, "%v"@ + digits(id) + " = load i8, i8* %p"@ + digits(id))
    + line_text(depth, "%nz"@ + digits(id) + " = icmp ne i8 %v"@ + digits(id) + ", 0"@)
    + line_text(
        depth,
        "br i1 %nz"@ + digits(id) + ", label %loop.body."@ + digits(id)
            + ", label %loop.end."@ + digits(id),
    )
    + label_text("loop.body."@ + digits(id))
}

/// Writes the head of a loop.
fn emit_loop_head(g: &mut Codegen, s: &str, id: usize)
    ensures
        final(g).out@ == old(g).out@ + loop_head_text(
            old(g).indent as nat,
            old(g).sanitize,
            s@,
            id as nat,
        ),
        final(g).wrote_only(old(g)),
{
    let num = fmt_usize(id);
    g.line(String::from_str("br label %loop.cond.").concat(num.as_str()).as_str());
    g.label(String::from_str("loop.cond.").concat(num.as_str()).as_str());
    g.line(
        String::from_str("%p")
            .concat(num.as_str())
            .concat(" = call i8* @bf_gep_cell_ptr(%State* ")
            .concat(s)
            .concat(")")
            .as_str(),
    );
    if g.sanitize {
        g.line(String::from_str("call void @tsan_read(%State* ").concat(s).concat(")").as_str());
    }
    g.line(
        String::from_str("%v")
            .concat(num.as_str())
            .concat(" = load i8, i8* %p")
            .concat(num.as_str())
            .as_str(),
    );
    g.line(
        String::from_str("%nz")
            .concat(num.as_str())
            .concat(" = icmp ne i8 %v")
            .concat(num.as_str())
            .concat(", 0")
            .as_str(),
    );
    g.line(
        String::from_str("br i1 %nz")
            .concat(num.as_str())
            .concat(", label %loop.body.")
            .concat(num.as_str())
            .concat(", label %loop.end.")
            .concat(num.as_str())
            .as_str(),
    );
    g.label(String::from_str("loop.body.").concat(num.as_str()).as_str());
    reveal(loop_head_text);
    assert(g.out@ =~= old(g).out@ + loop_head_text(
        old(g).indent as nat,
        g.sanitize,
        s@,
        id as nat,
    ));
}

/// The tail of the loop numbered `id`: the jump back to the test, and the
/// label behind the loop.
#[verifier::opaque]
pub open spec fn loop_tail_text(depth: nat, sanitize: bool, id: nat) -> Seq<char> {
    line_text(depth, "br label %loop.cond."@ + digits(id))
    + label_text("loop.end."@ + digits(id))
}

/// Writes the tail of a loop.
fn emit_loop_tail(g: &mut Codegen, id: usize)
    ensures
        final(g).out@ == old(g).out@ + loop_tail_text(
            old(g).indent as nat,
            old(g).sanitize,
            id as nat,
        ),
        final(g).wrote_only(old(g)),
{
    let num = fmt_usize(id);
    g.line(String::from_str("br label %loop.cond.").concat(num.as_str()).as_str());
    g.label(String::from_str("loop.end.").concat(num.as_str()).as_str());
    reveal(loop_tail_text);
    assert(g.out@ =~= old(g).out@ + loop_tail_text(
        old(g).indent as nat,
        g.sanitize,
        id as nat,
    ));
}

/// Writes a call of a helper that takes the state alone.
fn emit_call(g: &mut Codegen, helper: &str, s: &str)
    ensures
        final(g).out@ == old(g).out@ + call_text(old(g).indent as nat, helper@, s@),
        final(g).wrote_only(old(g)),
{
    g.line(
        String::from_str("call void @").concat(helper).concat("(%State* ").concat(s).concat(
            ")",
        ).as_str(),
    );
}

/// Writes a call of a helper that takes the state and a constant.
fn emit_call_with(g: &mut Codegen, helper: &str, s: &str, constant: &str)
    ensures
        final(g).out@ == old(g).out@ + call_with_text(
            old(g).indent as nat,
            helper@,
            s@,
            constant@,
        ),
        final(g).wrote_only(old(g)),
{
    g.line(
        String::from_str("call void @").concat(helper).concat("(%State* ").concat(s).concat(
            ", ",
        ).concat(constant).concat(")").as_str(),
    );
}

/// Writes one call of the wait helper for each wait of a run.
fn emit_waits(g: &mut Codegen, s: &str, count: usize)
    ensures
        final(g).out@ == old(g).out@ + repeated(
            call_text(old(g).indent as nat, "bf_wait"@, s@),
            count as nat,
        ),
        final(g).wrote_only(old(g)),
{
    let ghost one = call_text(g.indent as nat, "bf_wait"@, s@);
    let mut done: usize = 0;
    assert(g.out@ =~= old(g).out@ + repeated(one, 0));
    while done < count
        invariant
            done <= count,
            one == call_text(old(g).indent as nat, "bf_wait"@, s@),
            g.out@ == old(g).out@ + repeated(one, done as nat),
            g.wrote_only(old(g)),
        decreases count - done,
    {
        emit_call(g, "bf_wait", s);
        done = done + 1;
        assert(g.out@ =~= old(g).out@ + repeated(one, done as nat));
    }
}

/// The sum of two counts, unless it does not fit a machine word.
fn add_ids(a: usize, b: usize) -> (sum: Option<usize>)
    ensures
        sum == if a + b <= usize::MAX {
            Some((a + b) as usize)
        } else {
            None::<usize>
        },
{
    if a <= usize::MAX - b {
        Some(a + b)
    } else {
        None
    }
}

/// Counts the unique ids that lowering a sequence takes; `None` where the
/// count does not fit a machine word.
pub fn count_ids(nodes: &[Node]) -> (count: Option<usize>)
    ensures
        count == if seq_ids(trees_of(nodes@)) <= usize::MAX {
            Some(seq_ids(trees_of(nodes@)) as usize)
        } else {
            None::<usize>
        },
    decreases nodes@, 0int,
{
    let ghost trees = trees_of(nodes@);
    let mut total: usize = 0;
    let mut i: usize = 0;
    assert(trees.take(0) =~= Seq::<Tree>::empty());
    while i < nodes.len()
        invariant
            i <= nodes.len(),
            trees == trees_of(nodes@),
            total == seq_ids(trees.take(i as int)),
        decreases nodes.len() - i,
    {
        proof {
            lemma_seq_ids_prefix(trees, i as int);
            assert(trees.take(i + 1).drop_last() =~= trees.take(i as int));
            assert(trees.take(i + 1).last() == tree_of(nodes@[i as int]));
        }
        let here = match count_node_ids(&nodes[i]) {
            Some(n) => n,
            None => {
                return None;
            },
        };
        total = match add_ids(total, here) {
            Some(n) => n,
            None => {
                return None;
            },
        };
        i = i + 1;
    }
    assert(trees.take(i as int) =~= trees);
    Some(total)
}

/// Counts the unique ids that lowering one node takes.
fn count_node_ids(n: &Node) -> (count: Option<usize>)
    ensures
        count == if node_ids(tree_of(*n)) <= usize::MAX {
            Some(node_ids(tree_of(*n)) as usize)
        } else {
            None::<usize>
        },
    decreases *n,
{
    match n {
        Node::Loop(body) => match count_ids(body.as_slice()) {
            Some(inner) => add_ids(1, inner),
            None => None,
        },
        Node::Parallel(branches) => match count_branches_ids(branches.as_slice()) {
            Some(inner) => match add_ids(1, inner) {
                Some(with_block) => add_ids(with_block, branches.len()),
                None => None,
            },
            None => None,
        },
        _ => Some(0),
    }
}

/// Counts the unique ids that lowering the bodies of all branches takes.
fn count_branches_ids(branches: &[Vec<Node>]) -> (count: Option<usize>)
    ensures
        count == if branches_ids(branch_trees_of(branches@)) <= usize::MAX {
            Some(branches_ids(branch_trees_of(branches@)) as usize)
        } else {
            None::<usize>
        },
    decreases branches@, 1int,
{
    let ghost trees = branch_trees_of(branches@);
    let mut total: usize = 0;
    let mut i: usize = 0;
    assert(trees.take(0) =~= Seq::<Seq<Tree>>::empty());
    while i < branches.len()
        invariant
            i <= branches.len(),
            trees == branch_trees_of(branches@),
            total == branches_ids(trees.take(i as int)),
        decreases branches.len() - i,
    {
        proof {
            lemma_branches_ids_prefix(trees, i as int);
            assert(trees.take(i + 1).drop_last() =~= trees.take(i as int));
            assert(trees.take(i + 1).last() == trees_of(branches@[i as int]@));
        }
        let here = match count_ids(branches[i].as_slice()) {
            Some(n) => n,
            None => {
                return None;
            },
        };
        total = match add_ids(total, here) {
            Some(n) => n,
            None => {
                return None;
            },
        };
        i = i + 1;
    }
    assert(trees.take(i as int) =~= trees);
    Some(total)
}

/// Lowers a sequence of nodes into the function being written, whose state
/// is named `s`.
#[verifier::rlimit(40)]
pub fn emit_nodes(g: &mut Codegen, s: &str, nodes: &[Node])
    requires
        old(g).uniq + seq_ids(trees_of(nodes@)) <= usize::MAX,
    ensures
        final(g).out@ == old(g).out@ + seq_text(
            trees_of(nodes@),
            s@,
            old(g).indent as nat,
            old(g).uniq as nat,
            old(g).sanitize,
        ),
        final(g).uniq == old(g).uniq + seq_ids(trees_of(nodes@)),
        final(g).queue() == old(g).queue() + seq_defs(
            trees_of(nodes@),
            old(g).uniq as nat,
            old(g).sanitize,
        ),
        final(g).indent == old(g).indent,
        final(g).sanitize == old(g).sanitize,
    decreases nodes@, 0int,
{
    let ghost depth = g.indent as nat;
    let ghost id = g.uniq as nat;
    let ghost san = g.sanitize;
    let ghost trees = trees_of(nodes@);
    let mut i: usize = 0;
    proof {
        assert(trees.take(0) =~= Seq::<Tree>::empty());
        assert(g.out@ =~= old(g).out@ + seq_text(trees.take(0), s@, depth, id, san));
        assert(g.queue() =~= old(g).queue() + seq_defs(trees.take(0), id, san));
    }
    while i < nodes.len()
        invariant
            i <= nodes.len(),
            depth == old(g).indent,
            id == old(g).uniq,
            san == old(g).sanitize,
            trees == trees_of(nodes@),
            id + seq_ids(trees) <= usize::MAX,
            g.out@ == old(g).out@ + seq_text(trees.take(i as int), s@, depth, id, san),
            g.uniq == id + seq_ids(trees.take(i as int)),
            g.queue() == old(g).queue() + seq_defs(trees.take(i as int), id, san),
            g.indent == old(g).indent,
            g.sanitize == old(g).sanitize,
        decreases nodes.len() - i,
    {
        proof {
            lemma_seq_ids_prefix(trees, i as int);
            assert(trees[i as int] == tree_of(nodes@[i as int]));
        }
        emit_node(g, s, &nodes[i]);
        proof {
            let next = trees.take(i + 1);
            assert(next.drop_last() =~= trees.take(i as int));
            assert(next.last() == tree_of(nodes@[i as int]));
            assert(g.out@ =~= old(g).out@ + seq_text(next, s@, depth, id, san));
            assert(g.queue() =~= old(g).queue() + seq_defs(next, id, san));
        }
        i = i + 1;
    }
    assert(trees.take(i as int) =~= trees);
}

/// Lowers one node.
fn emit_node(g: &mut Codegen, s: &str, n: &Node)
    requires
        old(g).uniq + node_ids(tree_of(*n)) <= usize::MAX,
    ensures
        final(g).out@ == old(g).out@ + node_text(
            tree_of(*n),
            s@,
            old(g).indent as nat,
            old(g).uniq as nat,
            old(g).sanitize,
        ),
        final(g).uniq == old(g).uniq + node_ids(tree_of(*n)),
        final(g).queue() == old(g).queue() + node_defs(
            tree_of(*n),
            old(g).uniq as nat,
            old(g).sanitize,
        ),
        final(g).indent == old(g).indent,
        final(g).sanitize == old(g).sanitize,
    decreases *n,
{
    match n {
        Node::IncPtr => emit_call_with(g, "bf_inc_ptr", s, "i64 1"),
        Node::DecPtr => emit_call_with(g, "bf_inc_ptr", s, "i64 -1"),
        Node::IncCell => emit_call_with(g, "bf_add_cell", s, "i32 1"),
        Node::DecCell => emit_call_with(g, "bf_add_cell", s, "i32 -1"),
        Node::Output => emit_call(g, "bf_output", s),
        Node::Input => emit_call(g, "bf_input", s),
        Node::LockAcquire => emit_call(g, "bf_lock_acquire", s),
        Node::LockRelease => emit_call(g, "bf_lock_release", s),
        Node::Sleep(ticks) => g.line(
            String::from_str("call void @bf_sleep(i32 ").concat(fmt_usize(*ticks).as_str()).concat(
                ")",
            ).as_str(),
        ),
        Node::Wait(count) => emit_waits(g, s, *count),
        Node::Notify => emit_call(g, "bf_notify", s),
        Node::Loop(body) => emit_loop(g, s, body.as_slice()),
        Node::Parallel(branches) => emit_parallel(g, s, branches.as_slice()),
    }
    assert(g.queue() =~= old(g).queue() + node_defs(
        tree_of(*n),
        old(g).uniq as nat,
        old(g).sanitize,
    ));
}

/// Lowers a loop: the test of the current cell, the body, and the jump back.
fn emit_loop(g: &mut Codegen, s: &str, body: &[Node])
    requires
        old(g).uniq + 1 + seq_ids(trees_of(body@)) <= usize::MAX,
    ensures
        final(g).out@ == old(g).out@ + loop_text(
            trees_of(body@),
            s@,
            old(g).indent as nat,
            old(g).uniq as nat,
            old(g).sanitize,
        ),
        final(g).uniq == old(g).uniq + 1 + seq_ids(trees_of(body@)),
        final(g).queue() == old(g).queue() + seq_defs(
            trees_of(body@),
            (old(g).uniq + 1) as nat,
            old(g).sanitize,
        ),
        final(g).indent == old(g).indent,
        final(g).sanitize == old(g).sanitize,
    decreases body@, 1int,
{
    let id = g.uniq;
    g.uniq += 1;
    emit_loop_head(g, s, id);
    emit_nodes(g, s, body);
    emit_loop_tail(g, id);
    assert(g.out@ =~= old(g).out@ + loop_text(
        trees_of(body@),
        s@,
        old(g).indent as nat,
        old(g).uniq as nat,
        old(g).sanitize,
    ));
}

} // verus!
