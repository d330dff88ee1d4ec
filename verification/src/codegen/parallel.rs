//! Lowering of a parallel block.
//!
//! Each branch becomes a thunk and a thread entry, both queued for the end
//! of the module. In place, the block gives each branch a state of its own,
//! starts one thread for each, and joins them in order.

use super::decl::only_if;
use super::emit::{seq_defs, seq_ids};
use super::entry::{thread_start_def, thunk_def};
use super::{fresh_name, line_text, Codegen, LOCK_STACK_INIT};
use crate::parser::{branch_trees_of, trees_of, Node, Tree};
use crate::text::{decimal, digits, fmt_i64, fmt_usize};
use vstd::prelude::*;
use vstd::string::StringExecFns;

verus! {

// ---------------------------------------------------------------------------
// What a parallel block is lowered to
// ---------------------------------------------------------------------------

/// What the names that belong to branch `i` of block `pid` end in.
pub open spec fn branch_tag(pid: nat, i: nat) -> Seq<char> {
    digits(pid) + "_"@ + digits(i)
}

/// The name of the thunk of branch `i` of block `pid`.
pub open spec fn branch_name(pid: nat, i: nat) -> Seq<char> {
    "p"@ + branch_tag(pid, i)
}

/// The number of unique ids that lowering the bodies of all branches takes.
pub open spec fn branches_ids(bs: Seq<Seq<Tree>>) -> nat
    decreases bs,
{
    if bs.len() == 0 {
        0
    } else {
        branches_ids(bs.drop_last()) + seq_ids(bs.last())
    }
}

/// The definitions that the block numbered `pid` queues: for each branch in
/// order, what its body queues, then its thunk, then its thread entry.
pub open spec fn branches_defs(bs: Seq<Seq<Tree>>, pid: nat, sanitize: bool) -> Seq<Seq<char>>
    decreases bs,
{
    if bs.len() == 0 {
        Seq::empty()
    } else {
        let front = bs.drop_last();
        let i = (bs.len() - 1) as nat;
        let id = pid + 1 + branches_ids(front);
        (branches_defs(front, pid, sanitize) + seq_defs(bs.last(), id, sanitize)).push(
            thunk_def(branch_name(pid, i), bs.last(), id, sanitize),
        ).push(thread_start_def(branch_name(pid, i), sanitize))
    }
}

/// What starts branch `i`: its state, its lock stack, and its thread.
pub open spec fn launch_text(
    depth: nat,
    sanitize: bool,
    parent: Seq<char>,
    child: Seq<char>,
    pid: nat,
    i: nat,
    k: nat,
) -> Seq<char> {
    child_state_text(depth, sanitize, parent, child, pid, i) + child_stack_text(
        depth,
        sanitize,
        child,
        pid,
        i,
    ) + child_start_text(depth, sanitize, parent, child, pid, i, k)
}

/// What starts the first `n` branches, the state of branch `i` named with
/// the unique id `first + i`.
pub open spec fn launches_text(
    n: nat,
    depth: nat,
    sanitize: bool,
    parent: Seq<char>,
    pid: nat,
    k: nat,
    first: nat,
) -> Seq<char>
    decreases n,
{
    if n == 0 {
        Seq::empty()
    } else {
        let i = (n - 1) as nat;
        launches_text(i, depth, sanitize, parent, pid, k, first) + launch_text(
            depth,
            sanitize,
            parent,
            fresh_name("Schild"@, first + i),
            pid,
            i,
            k,
        )
    }
}

/// The joins of the first `n` branches, in order.
pub open spec fn joins_text(n: nat, depth: nat, sanitize: bool, pid: nat, k: nat) -> Seq<char>
    decreases n,
{
    if n == 0 {
        Seq::empty()
    } else {
        joins_text((n - 1) as nat, depth, sanitize, pid, k) + join_text(
            depth,
            sanitize,
            pid,
            (n - 1) as nat,
            k,
        )
    }
}

/// The text that a parallel block is lowered to in place, when `pid` is the
/// next unique id: the array of thread ids, the start of every branch, and
/// the joins.
pub open spec fn parallel_text(
    bs: Seq<Seq<Tree>>,
    parent: Seq<char>,
    depth: nat,
    pid: nat,
    sanitize: bool,
) -> Seq<char> {
    line_text(depth, "%threads"@ + digits(pid) + " = alloca ["@ + digits(bs.len()) + " x i64]"@)
        + launches_text(
        bs.len(),
        depth,
        sanitize,
        parent,
        pid,
        bs.len(),
        pid + 1 + branches_ids(bs),
    ) + joins_text(bs.len(), depth, sanitize, pid, bs.len())
}

/// The first branches take no more ids than all of them.
pub proof fn lemma_branches_ids_prefix(bs: Seq<Seq<Tree>>, n: int)
    requires
        0 <= n <= bs.len(),
    ensures
        branches_ids(bs.take(n)) <= branches_ids(bs),
        n < bs.len() ==> branches_ids(bs.take(n)) + seq_ids(bs[n]) <= branches_ids(bs),
    decreases bs.len() - n,
{
    if n < bs.len() {
        lemma_branches_ids_prefix(bs, n + 1);
        assert(bs.take(n + 1).drop_last() =~= bs.take(n));
        assert(bs.take(n + 1).last() == bs[n]);
    } else {
        assert(bs.take(n) =~= bs);
    }
}

// ---------------------------------------------------------------------------
// Lowering
// ---------------------------------------------------------------------------

/// The text of a branch's tag.
fn branch_tag_text(pid: usize, i: usize) -> (tag: String)
    ensures
        tag@ == branch_tag(pid as nat, i as nat),
{
    String::from_str(fmt_usize(pid).as_str()).concat("_").concat(fmt_usize(i).as_str())
}

/// The text of a branch's name.
fn branch_name_text(pid: usize, i: usize) -> (name: String)
    ensures
        name@ == branch_name(pid as nat, i as nat),
{
    String::from_str("p").concat(branch_tag_text(pid, i).as_str())
}

/// Branch `i` of block `pid`, first part: a fresh state block named `child`,
/// with the tape, the pointer index and the mutex slab of the parent's state.
#[verifier::opaque]
pub open spec fn child_state_text(
    depth: nat,
    sanitize: bool,
    parent: Seq<char>,
    child: Seq<char>,
    pid: nat,
    i: nat,
) -> Seq<char> {
    line_text(
        depth,
        "%st_end"@ + branch_tag(pid, i) + " = getelementptr %State, %State* null, i32 1"@,
    )
    + line_text(
        depth,
        "%st_bytes"@ + branch_tag(pid, i) + " = ptrtoint %State* %st_end"@
            + branch_tag(pid, i) + " to i64"@,
    )
    + line_text(
        depth,
        "%st"@ + branch_tag(pid, i) + " = call i8* @malloc(i64 %st_bytes"@
            + branch_tag(pid, i) + ")"@,
    )
    + line_text(depth, child + " = bitcast i8* %st"@ + branch_tag(pid, i) + " to %State*"@)
    + line_text(
        depth,
        "%fld_parent_base"@ + branch_tag(pid, i) + " = getelementptr %State,%State* "@
            + parent + ", i32 0, i32 0"@,
    )
    + line_text(
        depth,
        "%base"@ + branch_tag(pid, i) + " = load i8*, i8** %fld_parent_base"@
            + branch_tag(pid, i),
    )
    + line_text(
        depth,
        "%fld_child_base"@ + branch_tag(pid, i) + " = getelementptr %State,%State* "@
            + child + ", i32 0, i32 0"@,
    )
    + line_text(
        depth,
        "store i8* %base"@ + branch_tag(pid, i) + ", i8** %fld_child_base"@
            + branch_tag(pid, i),
    )
    + line_text(
        depth,
        "%fld_parent_idx"@ + branch_tag(pid, i) + " = getelementptr %State,%State* "@
            + parent + ", i32 0, i32 1"@,
    )
    + line_text(
        depth,
        "%idx"@ + branch_tag(pid, i) + "  = load i64,  i64*  %fld_parent_idx"@
            + branch_tag(pid, i),
    )
    + line_text(
        depth,
        "%fld_child_idx"@ + branch_tag(pid, i) + " = getelementptr %State,%State* "@ + child
            + ", i32 0, i32 1"@,
    )
    + line_text(
        depth,
        "store i64 %idx"@ + branch_tag(pid, i) + ",  i64*  %fld_child_idx"@
            + branch_tag(pid, i),
    )
    + line_text(
        depth,
        "%fld_parent_sl"@ + branch_tag(pid, i) + " = getelementptr %State,%State* "@
            + parent + ", i32 0, i32 2"@,
    )
    + line_text(
        depth,
        "%sl"@ + branch_tag(pid, i) + "   = load i8*, i8** %fld_parent_sl"@
            + branch_tag(pid, i),
    )
    + line_text(
        depth,
        "%fld_child_sl"@ + branch_tag(pid, i) + " = getelementptr %State,%State* "@ + child
            + ", i32 0, i32 2"@,
    )
    + line_text(
        depth,
        "store i8* %sl"@ + branch_tag(pid, i) + ",   i8** %fld_child_sl"@
            + branch_tag(pid, i),
    )
}

/// Writes the allocation of a child state and the copies from the parent.
#[verifier::rlimit(40)]
fn emit_child_state(g: &mut Codegen, parent_s: &str, child: &str, pid: usize, i: usize)
    ensures
        final(g).out@ == old(g).out@ + child_state_text(
            old(g).indent as nat,
            old(g).sanitize,
            parent_s@,
            child@,
            pid as nat,
            i as nat,
        ),
        final(g).wrote_only(old(g)),
{
    let tag = branch_tag_text(pid, i);
    g.line(
        String::from_str("%st_end")
            .concat(tag.as_str())
            .concat(" = getelementptr %State, %State* null, i32 1")
            .as_str(),
    );
    g.line(
        String::from_str("%st_bytes")
            .concat(tag.as_str())
            .concat(" = ptrtoint %State* %st_end")
            .concat(tag.as_str())
            .concat(" to i64")
            .as_str(),
    );
    g.line(
        String::from_str("%st")
            .concat(tag.as_str())
            .concat(" = call i8* @malloc(i64 %st_bytes")
            .concat(tag.as_str())
            .concat(")")
            .as_str(),
    );
    g.line(
        String::from_str(child)
            .concat(" = bitcast i8* %st")
            .concat(tag.as_str())
            .concat(" to %State*")
            .as_str(),
    );
    g.line(
        String::from_str("%fld_parent_base")
            .concat(tag.as_str())
            .concat(" = getelementptr %State,%State* ")
            .concat(parent_s)
            .concat(", i32 0, i32 0")
            .as_str(),
    );
    g.line(
        String::from_str("%base")
            .concat(tag.as_str())
            .concat(" = load i8*, i8** %fld_parent_base")
            .concat(tag.as_str())
            .as_str(),
    );
    g.line(
        String::from_str("%fld_child_base")
            .concat(tag.as_str())
            .concat(" = getelementptr %State,%State* ")
            .concat(child)
            .concat(", i32 0, i32 0")
            .as_str(),
    );
    g.line(
        String::from_str("store i8* %base")
            .concat(tag.as_str())
            .concat(", i8** %fld_child_base")
            .concat(tag.as_str())
            .as_str(),
    );
    g.line(
        String::from_str("%fld_parent_idx")
            .concat(tag.as_str())
            .concat(" = getelementptr %State,%State* ")
            .concat(parent_s)
            .concat(", i32 0, i32 1")
            .as_str(),
    );
    g.line(
        String::from_str("%idx")
            .concat(tag.as_str())
            .concat("  = load i64,  i64*  %fld_parent_idx")
            .concat(tag.as_str())
            .as_str(),
    );
    g.line(
        String::from_str("%fld_child_idx")
            .concat(tag.as_str())
            .concat(" = getelementptr %State,%State* ")
            .concat(child)
            .concat(", i32 0, i32 1")
            .as_str(),
    );
    g.line(
        String::from_str("store i64 %idx")
            .concat(tag.as_str())
            .concat(",  i64*  %fld_child_idx")
            .concat(tag.as_str())
            .as_str(),
    );
    g.line(
        String::from_str("%fld_parent_sl")
            .concat(tag.as_str())
            .concat(" = getelementptr %State,%State* ")
            .concat(parent_s)
            .concat(", i32 0, i32 2")
            .as_str(),
    );
    g.line(
        String::from_str("%sl")
            .concat(tag.as_str())
            .concat("   = load i8*, i8** %fld_parent_sl")
            .concat(tag.as_str())
            .as_str(),
    );
    g.line(
        String::from_str("%fld_child_sl")
            .concat(tag.as_str())
            .concat(" = getelementptr %State,%State* ")
            .concat(child)
            .concat(", i32 0, i32 2")
            .as_str(),
    );
    g.line(
        String::from_str("store i8* %sl")
            .concat(tag.as_str())
            .concat(",   i8** %fld_child_sl")
            .concat(tag.as_str())
            .as_str(),
    );
    reveal(child_state_text);
    assert(g.out@ =~= old(g).out@ + child_state_text(
        old(g).indent as nat,
        g.sanitize,
        parent_s@,
        child@,
        pid as nat,
        i as nat,
    ));
}

/// Branch `i` of block `pid`, second part: a fresh, empty lock stack of the
/// initial capacity for the state named `child`.
#[verifier::opaque]
pub open spec fn child_stack_text(
    depth: nat,
    sanitize: bool,
    child: Seq<char>,
    pid: nat,
    i: nat,
) -> Seq<char> {
    line_text(
        depth,
        "%lsz"@ + branch_tag(pid, i) + " = mul i64 "@ + decimal(LOCK_STACK_INIT as int)
            + ", 8"@,
    )
    + line_text(
        depth,
        "%stk"@ + branch_tag(pid, i) + " = call i8* @malloc(i64 %lsz"@ + branch_tag(pid, i)
            + ")"@,
    )
    + line_text(
        depth,
        "%stk64"@ + branch_tag(pid, i) + " = bitcast i8* %stk"@ + branch_tag(pid, i)
            + " to i64*"@,
    )
    + line_text(
        depth,
        "%fld_child_stk"@ + branch_tag(pid, i) + " = getelementptr %State,%State* "@ + child
            + ", i32 0, i32 3"@,
    )
    + line_text(
        depth,
        "store i64* %stk64"@ + branch_tag(pid, i) + ", i64** %fld_child_stk"@
            + branch_tag(pid, i),
    )
    + line_text(
        depth,
        "%fld_child_sp"@ + branch_tag(pid, i) + " = getelementptr %State,%State* "@ + child
            + ", i32 0, i32 4"@,
    )
    + line_text(depth, "store i64 0, i64* %fld_child_sp"@ + branch_tag(pid, i))
    + line_text(
        depth,
        "%fld_child_cap"@ + branch_tag(pid, i) + " = getelementptr %State,%State* "@ + child
            + ", i32 0, i32 5"@,
    )
    + line_text(
        depth,
        "store i64 "@ + decimal(LOCK_STACK_INIT as int) + ", i64* %fld_child_cap"@
            + branch_tag(pid, i),
    )
}

/// Writes the allocation of a child's lock stack.
fn emit_child_stack(g: &mut Codegen, child: &str, pid: usize, i: usize)
    ensures
        final(g).out@ == old(g).out@ + child_stack_text(
            old(g).indent as nat,
            old(g).sanitize,
            child@,
            pid as nat,
            i as nat,
        ),
        final(g).wrote_only(old(g)),
{
    let tag = branch_tag_text(pid, i);
    g.line(
        String::from_str("%lsz")
            .concat(tag.as_str())
            .concat(" = mul i64 ")
            .concat(fmt_i64(LOCK_STACK_INIT).as_str())
            .concat(", 8")
            .as_str(),
    );
    g.line(
        String::from_str("%stk")
            .concat(tag.as_str())
            .concat(" = call i8* @malloc(i64 %lsz")
            .concat(tag.as_str())
            .concat(")")
            .as_str(),
    );
    g.line(
        String::from_str("%stk64")
            .concat(tag.as_str())
            .concat(" = bitcast i8* %stk")
            .concat(tag.as_str())
            .concat(" to i64*")
            .as_str(),
    );
    g.line(
        String::from_str("%fld_child_stk")
            .concat(tag.as_str())
            .concat(" = getelementptr %State,%State* ")
            .concat(child)
            .concat(", i32 0, i32 3")
            .as_str(),
    );
    g.line(
        String::from_str("store i64* %stk64")
            .concat(tag.as_str())
            .concat(", i64** %fld_child_stk")
            .concat(tag.as_str())
            .as_str(),
    );
    g.line(
        String::from_str("%fld_child_sp")
            .concat(tag.as_str())
            .concat(" = getelementptr %State,%State* ")
            .concat(child)
            .concat(", i32 0, i32 4")
            .as_str(),
    );
    g.line(String::from_str("store i64 0, i64* %fld_child_sp").concat(tag.as_str()).as_str());
    g.line(
        String::from_str("%fld_child_cap")
            .concat(tag.as_str())
            .concat(" = getelementptr %State,%State* ")
            .concat(child)
            .concat(", i32 0, i32 5")
            .as_str(),
    );
    g.line(
        String::from_str("store i64 ")
            .concat(fmt_i64(LOCK_STACK_INIT).as_str())
            .concat(", i64* %fld_child_cap")
            .concat(tag.as_str())
            .as_str(),
    );
    reveal(child_stack_text);
    assert(g.out@ =~= old(g).out@ + child_stack_text(
        old(g).indent as nat,
        g.sanitize,
        child@,
        pid as nat,
        i as nat,
    ));
}

/// Branch `i` of the `k` branches of block `pid`, last part: the parent's
/// thread id handed on where the hooks are emitted, and the start of the
/// thread on the state named `child`.
#[verifier::opaque]
pub open spec fn child_start_text(
    depth: nat,
    sanitize: bool,
    parent: Seq<char>,
    child: Seq<char>,
    pid: nat,
    i: nat,
    k: nat,
) -> Seq<char> {
    only_if(sanitize, line_text(
        depth,
        "%fld_parent_tid"@ + branch_tag(pid, i) + " = getelementptr %State,%State* "@
            + parent + ", i32 0, i32 6"@,
    ))
    + only_if(sanitize, line_text(
        depth,
        "%tid"@ + branch_tag(pid, i) + " = load i64, i64* %fld_parent_tid"@
            + branch_tag(pid, i),
    ))
    + only_if(sanitize, line_text(
        depth,
        "%fld_child_tid"@ + branch_tag(pid, i) + " = getelementptr %State,%State* "@ + child
            + ", i32 0, i32 6"@,
    ))
    + only_if(sanitize, line_text(
        depth,
        "store i64 %tid"@ + branch_tag(pid, i) + ", i64* %fld_child_tid"@
            + branch_tag(pid, i),
    ))
    + line_text(
        depth,
        "%tptr"@ + branch_tag(pid, i) + " = getelementptr ["@ + digits(k) + " x i64], ["@
            + digits(k) + " x i64]* %threads"@ + digits(pid) + ", i64 0, i64 "@ + digits(i),
    )
    + line_text(depth, "%arg"@ + branch_tag(pid, i) + " = bitcast %State* "@ + child + " to i8*"@)
    + line_text(
        depth,
        "call i32 @pthread_create(i64* %tptr"@ + branch_tag(pid, i)
            + ", i8* null, i8* (i8*)* @thread_start_p"@ + branch_tag(pid, i) + ", i8* %arg"@
            + branch_tag(pid, i) + ")"@,
    )
}

/// Writes the start of a child thread.
fn emit_child_start(g: &mut Codegen, parent_s: &str, child: &str, pid: usize, i: usize, k: usize)
    ensures
        final(g).out@ == old(g).out@ + child_start_text(
            old(g).indent as nat,
            old(g).sanitize,
            parent_s@,
            child@,
            pid as nat,
            i as nat,
            k as nat,
        ),
        final(g).wrote_only(old(g)),
{
    let tag = branch_tag_text(pid, i);
    let pid_text = fmt_usize(pid);
    let i_text = fmt_usize(i);
    let k_text = fmt_usize(k);
    if g.sanitize {
        g.line(
            String::from_str("%fld_parent_tid")
                .concat(tag.as_str())
                .concat(" = getelementptr %State,%State* ")
                .concat(parent_s)
                .concat(", i32 0, i32 6")
                .as_str(),
        );
        g.line(
            String::from_str("%tid")
                .concat(tag.as_str())
                .concat(" = load i64, i64* %fld_parent_tid")
                .concat(tag.as_str())
                .as_str(),
        );
        g.line(
            String::from_str("%fld_child_tid")
                .concat(tag.as_str())
                .concat(" = getelementptr %State,%State* ")
                .concat(child)
                .concat(", i32 0, i32 6")
                .as_str(),
        );
        g.line(
            String::from_str("store i64 %tid")
                .concat(tag.as_str())
                .concat(", i64* %fld_child_tid")
                .concat(tag.as_str())
                .as_str(),
        );
    }
    g.line(
        String::from_str("%tptr")
            .concat(tag.as_str())
            .concat(" = getelementptr [")
            .concat(k_text.as_str())
            .concat(" x i64], [")
            .concat(k_text.as_str())
            .concat(" x i64]* %threads")
            .concat(pid_text.as_str())
            .concat(", i64 0, i64 ")
            .concat(i_text.as_str())
            .as_str(),
    );
    g.line(
        String::from_str("%arg")
            .concat(tag.as_str())
            .concat(" = bitcast %State* ")
            .concat(child)
            .concat(" to i8*")
            .as_str(),
    );
    g.line(
        String::from_str("call i32 @pthread_create(i64* %tptr")
            .concat(tag.as_str())
            .concat(", i8* null, i8* (i8*)* @thread_start_p")
            .concat(tag.as_str())
            .concat(", i8* %arg")
            .concat(tag.as_str())
            .concat(")")
            .as_str(),
    );
    reveal(child_start_text);
    assert(g.out@ =~= old(g).out@ + child_start_text(
        old(g).indent as nat,
        g.sanitize,
        parent_s@,
        child@,
        pid as nat,
        i as nat,
        k as nat,
    ));
}

/// The join of branch `i` of the `k` branches of block `pid`, followed by the
/// hook where the hooks are emitted.
#[verifier::opaque]
pub open spec fn join_text(depth: nat, sanitize: bool, pid: nat, i: nat, k: nat) -> Seq<char> {
    line_text(
        depth,
        "%tval"@ + branch_tag(pid, i) + " = getelementptr ["@ + digits(k) + " x i64], ["@
            + digits(k) + " x i64]* %threads"@ + digits(pid) + ", i64 0, i64 "@ + digits(i),
    )
    + line_text(
        depth,
        "%tload"@ + branch_tag(pid, i) + " = load i64, i64* %tval"@ + branch_tag(pid, i),
    )
    + line_text(
        depth,
        "call i32 @pthread_join(i64 %tload"@ + branch_tag(pid, i) + ", i8** null)"@,
    )
    + only_if(sanitize, line_text(depth, "call void @tsan_join(i64 %tload"@ + branch_tag(pid, i) + ")"@))
}

/// Writes the join of a child thread.
fn emit_join(g: &mut Codegen, pid: usize, i: usize, k: usize)
    ensures
        final(g).out@ == old(g).out@ + join_text(
            old(g).indent as nat,
            old(g).sanitize,
            pid as nat,
            i as nat,
            k as nat,
        ),
        final(g).wrote_only(old(g)),
{
    let tag = branch_tag_text(pid, i);
    let pid_text = fmt_usize(pid);
    let i_text = fmt_usize(i);
    let k_text = fmt_usize(k);
    g.line(
        String::from_str("%tval")
            .concat(tag.as_str())
            .concat(" = getelementptr [")
            .concat(k_text.as_str())
            .concat(" x i64], [")
            .concat(k_text.as_str())
            .concat(" x i64]* %threads")
            .concat(pid_text.as_str())
            .concat(", i64 0, i64 ")
            .concat(i_text.as_str())
            .as_str(),
    );
    g.line(
        String::from_str("%tload")
            .concat(tag.as_str())
            .concat(" = load i64, i64* %tval")
            .concat(tag.as_str())
            .as_str(),
    );
    g.line(
        String::from_str("call i32 @pthread_join(i64 %tload")
            .concat(tag.as_str())
            .concat(", i8** null)")
            .as_str(),
    );
    if g.sanitize {
        g.line(
            String::from_str("call void @tsan_join(i64 %tload")
                .concat(tag.as_str())
                .concat(")")
                .as_str(),
        );
    }
    reveal(join_text);
    assert(g.out@ =~= old(g).out@ + join_text(
        old(g).indent as nat,
        g.sanitize,
        pid as nat,
        i as nat,
        k as nat,
    ));
}

/// Lowers a parallel block: queues a thunk and a thread entry for each
/// branch, then, in the function being written, gives each branch a state of
/// its own that shares the parent's tape, starts the threads, and joins them
/// in order.
#[verifier::rlimit(40)]
pub fn emit_parallel(g: &mut Codegen, parent_s: &str, branches: &[Vec<Node>])
    requires
        old(g).uniq + 1 + branches_ids(branch_trees_of(branches@)) + branches.len()
            <= usize::MAX,
    ensures
        final(g).out@ == old(g).out@ + parallel_text(
            branch_trees_of(branches@),
            parent_s@,
            old(g).indent as nat,
            old(g).uniq as nat,
            old(g).sanitize,
        ),
        final(g).uniq == old(g).uniq + 1 + branches_ids(branch_trees_of(branches@))
            + branches.len(),
        final(g).queue() == old(g).queue() + branches_defs(
            branch_trees_of(branches@),
            old(g).uniq as nat,
            old(g).sanitize,
        ),
        final(g).indent == old(g).indent,
        final(g).sanitize == old(g).sanitize,
    decreases branches@, 2int,
{
    let ghost depth = g.indent as nat;
    let ghost san = g.sanitize;
    let ghost bs = branch_trees_of(branches@);
    let pid = g.uniq;
    g.uniq += 1;
    let k = branches.len();

    let mut i: usize = 0;
    proof {
        assert(bs.take(0) =~= Seq::<Seq<Tree>>::empty());
        assert(g.queue() =~= old(g).queue() + branches_defs(bs.take(0), pid as nat, san));
    }
    while i < k
        invariant
            i <= k,
            k == branches.len(),
            bs == branch_trees_of(branches@),
            pid == old(g).uniq,
            san == old(g).sanitize,
            pid + 1 + branches_ids(bs) + k <= usize::MAX,
            g.uniq == pid + 1 + branches_ids(bs.take(i as int)),
            g.queue() == old(g).queue() + branches_defs(bs.take(i as int), pid as nat, san),
            g.out == old(g).out,
            g.indent == old(g).indent,
            g.sanitize == old(g).sanitize,
        decreases k - i,
    {
        proof {
            lemma_branches_ids_prefix(bs, i as int);
            assert(bs[i as int] == trees_of(branches@[i as int]@));
        }
        let tname = branch_name_text(pid, i);
        g.defer_thunk(tname.as_str(), branches[i].as_slice());
        g.defer_thread_start(tname.as_str());
        proof {
            let next = bs.take(i + 1);
            assert(next.drop_last() =~= bs.take(i as int));
            assert(next.last() == trees_of(branches@[i as int]@));
            assert(g.queue() =~= old(g).queue() + branches_defs(next, pid as nat, san));
        }
        i = i + 1;
    }
    assert(bs.take(k as int) =~= bs);

    let ghost first = g.uniq as nat;
    g.line(
        String::from_str("%threads").concat(fmt_usize(pid).as_str()).concat(" = alloca [").concat(
            fmt_usize(k).as_str(),
        ).concat(" x i64]").as_str(),
    );
    let ghost opened = g.out@;
    let mut i: usize = 0;
    assert(g.out@ =~= opened + launches_text(
        0,
        depth,
        san,
        parent_s@,
        pid as nat,
        k as nat,
        first,
    ));
    while i < k
        invariant
            i <= k,
            first + k <= usize::MAX,
            depth == old(g).indent,
            san == old(g).sanitize,
            g.uniq == first + i,
            g.out@ == opened + launches_text(
                i as nat,
                depth,
                san,
                parent_s@,
                pid as nat,
                k as nat,
                first,
            ),
            g.queue() == old(g).queue() + branches_defs(bs, pid as nat, san),
            g.indent == old(g).indent,
            g.sanitize == old(g).sanitize,
        decreases k - i,
    {
        let child = fresh(g, "Schild");
        emit_child_state(g, parent_s, child.as_str(), pid, i);
        emit_child_stack(g, child.as_str(), pid, i);
        emit_child_start(g, parent_s, child.as_str(), pid, i, k);
        i = i + 1;
        assert(g.out@ =~= opened + launches_text(
            i as nat,
            depth,
            san,
            parent_s@,
            pid as nat,
            k as nat,
            first,
        ));
    }

    let ghost launched = g.out@;
    let mut i: usize = 0;
    assert(g.out@ =~= launched + joins_text(0, depth, san, pid as nat, k as nat));
    while i < k
        invariant
            i <= k,
            depth == old(g).indent,
            san == old(g).sanitize,
            g.uniq == first + k,
            g.out@ == launched + joins_text(i as nat, depth, san, pid as nat, k as nat),
            g.queue() == old(g).queue() + branches_defs(bs, pid as nat, san),
            g.indent == old(g).indent,
            g.sanitize == old(g).sanitize,
        decreases k - i,
    {
        emit_join(g, pid, i, k);
        i = i + 1;
        assert(g.out@ =~= launched + joins_text(i as nat, depth, san, pid as nat, k as nat));
    }
    assert(g.out@ =~= old(g).out@ + parallel_text(bs, parent_s@, depth, pid as nat, san));
}

/// Makes a unique local name.
fn fresh(g: &mut Codegen, p: &str) -> (name: String)
    requires
        old(g).uniq < usize::MAX,
    ensures
        name@ == fresh_name(p@, old(g).uniq as nat),
        final(g).uniq == old(g).uniq + 1,
        final(g).out == old(g).out,
        final(g).indent == old(g).indent,
        final(g).deferred == old(g).deferred,
        final(g).sanitize == old(g).sanitize,
{
    g.fresh(p)
}

} // verus!
