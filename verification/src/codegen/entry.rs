//! The parts of a module that stand around the lowered program: the opening
//! declarations, `main`, and the functions queued for the end.

use super::decl::{
    decl_externals, define_runtime_helpers, externals_text, only_if, runtime_helpers_text,
};
use super::emit::{emit_nodes, seq_defs, seq_ids, seq_text};
use super::{
    concat_all, fresh_name, label_text, line_text, Codegen, LOCK_STACK_INIT, MUTEX_STRIDE,
    TAPE_LEN,
};
use crate::parser::{trees_of, Node, Tree};
use crate::text::{decimal, fmt_i64};
use vstd::prelude::*;
use vstd::string::StringExecFns;

verus! {

// ---------------------------------------------------------------------------
// Thunks and thread entries
// ---------------------------------------------------------------------------

/// The definition of the thunk called `name`: a function of the state whose
/// body is the lowered sequence, with `id` as the first unique id.
pub open spec fn thunk_def(name: Seq<char>, nodes: Seq<Tree>, id: nat, sanitize: bool) -> Seq<
    char,
> {
    line_text(0, "define internal void @thunk_"@ + name + "(%State* nocapture nonnull %S) {"@)
        + label_text("entry"@) + seq_text(nodes, "%S"@, 1, id, sanitize) + line_text(
        1,
        "ret void"@,
    ) + line_text(0, "}"@) + line_text(0, ""@)
}

/// The definition of the thread entry for the thunk called `name`.
pub open spec fn thread_start_def(name: Seq<char>, sanitize: bool) -> Seq<char> {
    thread_start_text(0, sanitize, name)
}

/// The entry of the thread that runs the thunk called `name`. It has the
/// signature that thread creation asks for, casts its argument to the state
/// and calls the thunk. Where the hooks are emitted it first reports the fork
/// with the parent's thread id, which it finds in the state, and then records
/// its own.
#[verifier::opaque]
pub open spec fn thread_start_text(depth: nat, sanitize: bool, name: Seq<char>) -> Seq<char> {
    line_text(depth, "define internal i8* @thread_start_"@ + name + "(i8* %arg) nounwind {"@)
    + line_text(depth + 1, "%S = bitcast i8* %arg to %State*"@)
    + only_if(sanitize, line_text(depth + 1, "%fld_tid = getelementptr %State, %State* %S, i32 0, i32 6"@))
    + only_if(sanitize, line_text(depth + 1, "%tid_parent = load i64, i64* %fld_tid"@))
    + only_if(sanitize, line_text(depth + 1, "call void @tsan_fork(i64 %tid_parent)"@))
    + only_if(sanitize, line_text(depth + 1, "%tid_self = call i64 @pthread_self()"@))
    + only_if(sanitize, line_text(depth + 1, "store i64 %tid_self, i64* %fld_tid"@))
    + line_text(depth + 1, "call void @thunk_"@ + name + "(%State* %S)"@)
    + line_text(depth + 1, "ret i8* null"@)
    + line_text(depth, "}"@)
    + line_text(depth, ""@)
}

/// Writes the entry of the thread that runs a thunk.
fn emit_thread_start(g: &mut Codegen, tname: &str)
    requires
        old(g).indent < usize::MAX,
    ensures
        final(g).out@ == old(g).out@ + thread_start_text(
            old(g).indent as nat,
            old(g).sanitize,
            tname@,
        ),
        final(g).wrote_only(old(g)),
{
    g.line(
        String::from_str("define internal i8* @thread_start_")
            .concat(tname)
            .concat("(i8* %arg) nounwind {")
            .as_str(),
    );
    g.indent += 1;
    g.line("%S = bitcast i8* %arg to %State*");
    if g.sanitize {
        g.line("%fld_tid = getelementptr %State, %State* %S, i32 0, i32 6");
        g.line("%tid_parent = load i64, i64* %fld_tid");
        g.line("call void @tsan_fork(i64 %tid_parent)");
        g.line("%tid_self = call i64 @pthread_self()");
        g.line("store i64 %tid_self, i64* %fld_tid");
    }
    g.line(String::from_str("call void @thunk_").concat(tname).concat("(%State* %S)").as_str());
    g.line("ret i8* null");
    g.indent -= 1;
    g.line("}");
    g.line("");
    reveal(thread_start_text);
    assert(g.out@ =~= old(g).out@ + thread_start_text(
        old(g).indent as nat,
        g.sanitize,
        tname@,
    ));
}

impl Codegen {
    /// Builds the thunk of a sequence of nodes and queues it for the end of
    /// the module, behind whatever the sequence itself queues.
    pub fn defer_thunk(&mut self, name: &str, nodes: &[Node])
        requires
            old(self).uniq + seq_ids(trees_of(nodes@)) <= usize::MAX,
        ensures
            final(self).queue() == (old(self).queue() + seq_defs(
                trees_of(nodes@),
                old(self).uniq as nat,
                old(self).sanitize,
            )).push(
                thunk_def(name@, trees_of(nodes@), old(self).uniq as nat, old(self).sanitize),
            ),
            final(self).uniq == old(self).uniq + seq_ids(trees_of(nodes@)),
            final(self).out == old(self).out,
            final(self).indent == old(self).indent,
            final(self).sanitize == old(self).sanitize,
        decreases nodes@, 1int,
    {
        let saved = self.enter_temp_buffer();
        self.line(
            String::from_str("define internal void @thunk_").concat(name).concat(
                "(%State* nocapture nonnull %S) {",
            ).as_str(),
        );
        self.indent += 1;
        self.label("entry");
        emit_nodes(self, "%S", nodes);
        self.line("ret void");
        self.indent -= 1;
        self.line("}");
        self.line("");
        assert(self.out@ =~= thunk_def(
            name@,
            trees_of(nodes@),
            old(self).uniq as nat,
            old(self).sanitize,
        ));
        let ir = self.leave_temp_buffer(saved);
        self.push_def(ir);
    }

    /// Builds the thread entry for the thunk called `tname` and queues it.
    pub fn defer_thread_start(&mut self, tname: &str)
        ensures
            final(self).queue() == old(self).queue().push(
                thread_start_def(tname@, old(self).sanitize),
            ),
            final(self).uniq == old(self).uniq,
            final(self).out == old(self).out,
            final(self).indent == old(self).indent,
            final(self).sanitize == old(self).sanitize,
    {
        let saved = self.enter_temp_buffer();
        emit_thread_start(self, tname);
        assert(self.out@ =~= thread_start_def(tname@, old(self).sanitize));
        let ir = self.leave_temp_buffer(saved);
        self.push_def(ir);
    }
}

// ---------------------------------------------------------------------------
// The opening of a module
// ---------------------------------------------------------------------------

/// The globals and the two types. The state's fields stand in the order in
/// which the race-detection runtime reads them; the parent's thread id is
/// there only where the hooks are emitted.
#[verifier::opaque]
pub open spec fn globals_text(depth: nat, sanitize: bool) -> Seq<char> {
    line_text(
        depth,
        "@tape = internal global ["@ + decimal(TAPE_LEN as int) + " x i8] zeroinitializer"@,
    ) + line_text(depth, "@mutex_slab = internal global i8* null"@) + line_text(
        depth,
        "@cond_slab = internal global i8* null"@,
    ) + line_text(depth, "@cond_mtx_slab = internal global i8* null"@) + (if sanitize {
        line_text(
            depth,
            "%State = type { i8*, i64, i8*, i64*, i64, i64, i64 } ; (tape, ptr, slab, stack, sp, cap, tid)"@,
        )
    } else {
        line_text(
            depth,
            "%State = type { i8*, i64, i8*, i64*, i64, i64 } ; (tape, ptr, slab, stack, sp, cap)"@,
        )
    }) + line_text(depth, "%timespec = type { i64, i64 } ; (tv_sec, tv_nsec)"@) + line_text(
        depth,
        ""@,
    )
}

/// What opens every module: globals and types, the declarations of the
/// outside symbols, and the definitions of the runtime helpers.
pub open spec fn preamble_text(depth: nat, sanitize: bool) -> Seq<char> {
    globals_text(depth, sanitize) + externals_text(depth, sanitize) + runtime_helpers_text(
        depth,
        sanitize,
    ) + line_text(depth, ""@)
}

/// Writes the globals and the two types.
fn emit_globals(g: &mut Codegen)
    ensures
        final(g).out@ == old(g).out@ + globals_text(old(g).indent as nat, old(g).sanitize),
        final(g).wrote_only(old(g)),
{
    g.line(
        String::from_str("@tape = internal global [").concat(fmt_i64(TAPE_LEN).as_str()).concat(
            " x i8] zeroinitializer",
        ).as_str(),
    );
    g.line("@mutex_slab = internal global i8* null");
    g.line("@cond_slab = internal global i8* null");
    g.line("@cond_mtx_slab = internal global i8* null");
    if g.sanitize {
        g.line(
            "%State = type { i8*, i64, i8*, i64*, i64, i64, i64 } ; (tape, ptr, slab, stack, sp, cap, tid)",
        );
    } else {
        g.line(
            "%State = type { i8*, i64, i8*, i64*, i64, i64 } ; (tape, ptr, slab, stack, sp, cap)",
        );
    }
    g.line("%timespec = type { i64, i64 } ; (tv_sec, tv_nsec)");
    g.line("");
    reveal(globals_text);
    assert(g.out@ =~= old(g).out@ + globals_text(old(g).indent as nat, g.sanitize));
}

// ---------------------------------------------------------------------------
// main
// ---------------------------------------------------------------------------

/// The start of `main`: the three slabs, for the cell mutexes, the condition
/// variables and the mutexes paired with them, each of tape length times
/// stride bytes.
#[verifier::opaque]
pub open spec fn main_slabs_text(depth: nat, sanitize: bool) -> Seq<char> {
    line_text(
        depth,
        "%slab_bytes = mul i64 "@ + decimal(TAPE_LEN as int) + ", "@
            + decimal(MUTEX_STRIDE as int),
    )
    + line_text(depth, "%slab = call i8* @malloc(i64 %slab_bytes)"@)
    + line_text(depth, "store i8* %slab, i8** @mutex_slab"@)
    + line_text(
        depth,
        "%cond_bytes = mul i64 "@ + decimal(TAPE_LEN as int) + ", "@
            + decimal(MUTEX_STRIDE as int),
    )
    + line_text(depth, "%cslab = call i8* @malloc(i64 %cond_bytes)"@)
    + line_text(depth, "store i8* %cslab, i8** @cond_slab"@)
    + line_text(depth, "%cmslab = call i8* @malloc(i64 %cond_bytes)"@)
    + line_text(depth, "store i8* %cmslab, i8** @cond_mtx_slab"@)
}

/// Writes the allocation of the three slabs.
fn emit_main_slabs(g: &mut Codegen)
    ensures
        final(g).out@ == old(g).out@ + main_slabs_text(
            old(g).indent as nat,
            old(g).sanitize,
        ),
        final(g).wrote_only(old(g)),
{
    g.line(
        String::from_str("%slab_bytes = mul i64 ")
            .concat(fmt_i64(TAPE_LEN).as_str())
            .concat(", ")
            .concat(fmt_i64(MUTEX_STRIDE).as_str())
            .as_str(),
    );
    g.line("%slab = call i8* @malloc(i64 %slab_bytes)");
    g.line("store i8* %slab, i8** @mutex_slab");
    g.line(
        String::from_str("%cond_bytes = mul i64 ")
            .concat(fmt_i64(TAPE_LEN).as_str())
            .concat(", ")
            .concat(fmt_i64(MUTEX_STRIDE).as_str())
            .as_str(),
    );
    g.line("%cslab = call i8* @malloc(i64 %cond_bytes)");
    g.line("store i8* %cslab, i8** @cond_slab");
    g.line("%cmslab = call i8* @malloc(i64 %cond_bytes)");
    g.line("store i8* %cmslab, i8** @cond_mtx_slab");
    reveal(main_slabs_text);
    assert(g.out@ =~= old(g).out@ + main_slabs_text(
        old(g).indent as nat,
        g.sanitize,
    ));
}

/// The loop of `main` that initializes, for every cell, its mutex, its
/// condition variable and the mutex paired with it.
#[verifier::opaque]
pub open spec fn main_init_text(depth: nat, sanitize: bool) -> Seq<char> {
    line_text(depth, "%i = alloca i64"@)
    + line_text(depth, "store i64 0, i64* %i"@)
    + line_text(depth, "br label %init.loop"@)
    + label_text("init.loop"@)
    + line_text(depth, "%cur = load i64, i64* %i"@)
    + line_text(depth, "%cond = icmp slt i64 %cur, "@ + decimal(TAPE_LEN as int))
    + line_text(depth, "br i1 %cond, label %init.body, label %init.end"@)
    + label_text("init.body"@)
    + line_text(depth, "%off = mul i64 %cur, "@ + decimal(MUTEX_STRIDE as int))
    + line_text(depth, "%sl0 = load i8*, i8** @mutex_slab"@)
    + line_text(depth, "%slot = getelementptr i8, i8* %sl0, i64 %off"@)
    + line_text(depth, "call i32 @pthread_mutex_init(i8* %slot, i8* null)"@)
    + line_text(depth, "%cl0 = load i8*, i8** @cond_slab"@)
    + line_text(depth, "%cslot = getelementptr i8, i8* %cl0, i64 %off"@)
    + line_text(depth, "call i32 @pthread_cond_init(i8* %cslot, i8* null)"@)
    + line_text(depth, "%ml0 = load i8*, i8** @cond_mtx_slab"@)
    + line_text(depth, "%mslot2 = getelementptr i8, i8* %ml0, i64 %off"@)
    + line_text(depth, "call i32 @pthread_mutex_init(i8* %mslot2, i8* null)"@)
    + line_text(depth, "%cur1 = add i64 %cur, 1"@)
    + line_text(depth, "store i64 %cur1, i64* %i"@)
    + line_text(depth, "br label %init.loop"@)
    + label_text("init.end"@)
}

/// Writes the loop that initializes the slabs.
#[verifier::rlimit(40)]
fn emit_main_init(g: &mut Codegen)
    ensures
        final(g).out@ == old(g).out@ + main_init_text(
            old(g).indent as nat,
            old(g).sanitize,
        ),
        final(g).wrote_only(old(g)),
{
    g.line("%i = alloca i64");
    g.line("store i64 0, i64* %i");
    g.line("br label %init.loop");
    g.label("init.loop");
    g.line("%cur = load i64, i64* %i");
    g.line(
        String::from_str("%cond = icmp slt i64 %cur, ")
            .concat(fmt_i64(TAPE_LEN).as_str())
            .as_str(),
    );
    g.line("br i1 %cond, label %init.body, label %init.end");
    g.label("init.body");
    g.line(
        String::from_str("%off = mul i64 %cur, ")
            .concat(fmt_i64(MUTEX_STRIDE).as_str())
            .as_str(),
    );
    g.line("%sl0 = load i8*, i8** @mutex_slab");
    g.line("%slot = getelementptr i8, i8* %sl0, i64 %off");
    g.line("call i32 @pthread_mutex_init(i8* %slot, i8* null)");
    g.line("%cl0 = load i8*, i8** @cond_slab");
    g.line("%cslot = getelementptr i8, i8* %cl0, i64 %off");
    g.line("call i32 @pthread_cond_init(i8* %cslot, i8* null)");
    g.line("%ml0 = load i8*, i8** @cond_mtx_slab");
    g.line("%mslot2 = getelementptr i8, i8* %ml0, i64 %off");
    g.line("call i32 @pthread_mutex_init(i8* %mslot2, i8* null)");
    g.line("%cur1 = add i64 %cur, 1");
    g.line("store i64 %cur1, i64* %i");
    g.line("br label %init.loop");
    g.label("init.end");
    reveal(main_init_text);
    assert(g.out@ =~= old(g).out@ + main_init_text(
        old(g).indent as nat,
        g.sanitize,
    ));
}

/// The root state of `main`: the tape, pointer index zero and the mutex slab,
/// stored through the field pointers named `f0`, `f1` and `f2`.
#[verifier::opaque]
pub open spec fn main_state_text(
    depth: nat,
    sanitize: bool,
    f0: Seq<char>,
    f1: Seq<char>,
    f2: Seq<char>,
) -> Seq<char> {
    line_text(depth, "%st_end = getelementptr %State, %State* null, i32 1"@)
    + line_text(depth, "%st_bytes = ptrtoint %State* %st_end to i64"@)
    + line_text(depth, "%st = call i8* @malloc(i64 %st_bytes)"@)
    + line_text(depth, "%S = bitcast i8* %st to %State*"@)
    + line_text(
        depth,
        "%base = getelementptr ["@ + decimal(TAPE_LEN as int) + " x i8], ["@
            + decimal(TAPE_LEN as int) + " x i8]* @tape, i64 0, i64 0"@,
    )
    + line_text(depth, f0 + " = getelementptr %State, %State* %S, i32 0, i32 0"@)
    + line_text(depth, "store i8* %base, i8** "@ + f0)
    + line_text(depth, f1 + " = getelementptr %State, %State* %S, i32 0, i32 1"@)
    + line_text(depth, "store i64 0, i64* "@ + f1)
    + line_text(depth, "%sl = load i8*, i8** @mutex_slab"@)
    + line_text(depth, f2 + " = getelementptr %State, %State* %S, i32 0, i32 2"@)
    + line_text(depth, "store i8* %sl, i8** "@ + f2)
}

/// Writes the allocation of the root state and its first three fields.
#[verifier::rlimit(40)]
fn emit_main_state(g: &mut Codegen, f0: &str, f1: &str, f2: &str)
    ensures
        final(g).out@ == old(g).out@ + main_state_text(
            old(g).indent as nat,
            old(g).sanitize,
            f0@,
            f1@,
            f2@,
        ),
        final(g).wrote_only(old(g)),
{
    g.line("%st_end = getelementptr %State, %State* null, i32 1");
    g.line("%st_bytes = ptrtoint %State* %st_end to i64");
    g.line("%st = call i8* @malloc(i64 %st_bytes)");
    g.line("%S = bitcast i8* %st to %State*");
    g.line(
        String::from_str("%base = getelementptr [")
            .concat(fmt_i64(TAPE_LEN).as_str())
            .concat(" x i8], [")
            .concat(fmt_i64(TAPE_LEN).as_str())
            .concat(" x i8]* @tape, i64 0, i64 0")
            .as_str(),
    );
    g.line(
        String::from_str(f0)
            .concat(" = getelementptr %State, %State* %S, i32 0, i32 0")
            .as_str(),
    );
    g.line(String::from_str("store i8* %base, i8** ").concat(f0).as_str());
    g.line(
        String::from_str(f1)
            .concat(" = getelementptr %State, %State* %S, i32 0, i32 1")
            .as_str(),
    );
    g.line(String::from_str("store i64 0, i64* ").concat(f1).as_str());
    g.line("%sl = load i8*, i8** @mutex_slab");
    g.line(
        String::from_str(f2)
            .concat(" = getelementptr %State, %State* %S, i32 0, i32 2")
            .as_str(),
    );
    g.line(String::from_str("store i8* %sl, i8** ").concat(f2).as_str());
    reveal(main_state_text);
    assert(g.out@ =~= old(g).out@ + main_state_text(
        old(g).indent as nat,
        g.sanitize,
        f0@,
        f1@,
        f2@,
    ));
}

/// The lock stack of the root state: empty, with the initial capacity, stored
/// through the field pointers named `f3`, `f4` and `f5`.
#[verifier::opaque]
pub open spec fn main_stack_text(
    depth: nat,
    sanitize: bool,
    f3: Seq<char>,
    f4: Seq<char>,
    f5: Seq<char>,
) -> Seq<char> {
    line_text(depth, "%lsz = mul i64 "@ + decimal(LOCK_STACK_INIT as int) + ", 8"@)
    + line_text(depth, "%stk = call i8* @malloc(i64 %lsz)"@)
    + line_text(depth, "%stk64 = bitcast i8* %stk to i64*"@)
    + line_text(depth, f3 + " = getelementptr %State, %State* %S, i32 0, i32 3"@)
    + line_text(depth, "store i64* %stk64, i64** "@ + f3)
    + line_text(depth, f4 + " = getelementptr %State, %State* %S, i32 0, i32 4"@)
    + line_text(depth, "store i64 0, i64* "@ + f4)
    + line_text(depth, f5 + " = getelementptr %State, %State* %S, i32 0, i32 5"@)
    + line_text(depth, "store i64 "@ + decimal(LOCK_STACK_INIT as int) + ", i64* "@ + f5)
}

/// Writes the allocation of the root state's lock stack.
fn emit_main_stack(g: &mut Codegen, f3: &str, f4: &str, f5: &str)
    ensures
        final(g).out@ == old(g).out@ + main_stack_text(
            old(g).indent as nat,
            old(g).sanitize,
            f3@,
            f4@,
            f5@,
        ),
        final(g).wrote_only(old(g)),
{
    g.line(
        String::from_str("%lsz = mul i64 ")
            .concat(fmt_i64(LOCK_STACK_INIT).as_str())
            .concat(", 8")
            .as_str(),
    );
    g.line("%stk = call i8* @malloc(i64 %lsz)");
    g.line("%stk64 = bitcast i8* %stk to i64*");
    g.line(
        String::from_str(f3)
            .concat(" = getelementptr %State, %State* %S, i32 0, i32 3")
            .as_str(),
    );
    g.line(String::from_str("store i64* %stk64, i64** ").concat(f3).as_str());
    g.line(
        String::from_str(f4)
            .concat(" = getelementptr %State, %State* %S, i32 0, i32 4")
            .as_str(),
    );
    g.line(String::from_str("store i64 0, i64* ").concat(f4).as_str());
    g.line(
        String::from_str(f5)
            .concat(" = getelementptr %State, %State* %S, i32 0, i32 5")
            .as_str(),
    );
    g.line(
        String::from_str("store i64 ")
            .concat(fmt_i64(LOCK_STACK_INIT).as_str())
            .concat(", i64* ")
            .concat(f5)
            .as_str(),
    );
    reveal(main_stack_text);
    assert(g.out@ =~= old(g).out@ + main_stack_text(
        old(g).indent as nat,
        g.sanitize,
        f3@,
        f4@,
        f5@,
    ));
}

/// The thread id of `main`, stored in the root state through the field pointer
/// named `f6`.
#[verifier::opaque]
pub open spec fn main_tid_text(depth: nat, sanitize: bool, f6: Seq<char>) -> Seq<char> {
    line_text(depth, "%tid = call i64 @pthread_self()"@)
    + line_text(depth, f6 + " = getelementptr %State, %State* %S, i32 0, i32 6"@)
    + line_text(depth, "store i64 %tid, i64* "@ + f6)
}

/// Writes the store of the main thread's id.
fn emit_main_tid(g: &mut Codegen, f6: &str)
    ensures
        final(g).out@ == old(g).out@ + main_tid_text(
            old(g).indent as nat,
            old(g).sanitize,
            f6@,
        ),
        final(g).wrote_only(old(g)),
{
    g.line("%tid = call i64 @pthread_self()");
    g.line(
        String::from_str(f6)
            .concat(" = getelementptr %State, %State* %S, i32 0, i32 6")
            .as_str(),
    );
    g.line(String::from_str("store i64 %tid, i64* ").concat(f6).as_str());
    reveal(main_tid_text);
    assert(g.out@ =~= old(g).out@ + main_tid_text(
        old(g).indent as nat,
        g.sanitize,
        f6@,
    ));
}

/// The end of `main`: the call of the program's thunk, and the return of zero.
#[verifier::opaque]
pub open spec fn main_tail_text(depth: nat, sanitize: bool) -> Seq<char> {
    line_text(depth, "call void @thunk_main(%State* %S)"@)
    + line_text(depth, "ret i32 0"@)
}

/// Writes the call of the program's thunk and the return.
fn emit_main_tail(g: &mut Codegen)
    ensures
        final(g).out@ == old(g).out@ + main_tail_text(
            old(g).indent as nat,
            old(g).sanitize,
        ),
        final(g).wrote_only(old(g)),
{
    g.line("call void @thunk_main(%State* %S)");
    g.line("ret i32 0");
    reveal(main_tail_text);
    assert(g.out@ =~= old(g).out@ + main_tail_text(
        old(g).indent as nat,
        g.sanitize,
    ));
}

/// The number of unique ids that `main` takes: one for each field of the
/// state that it stores.
pub open spec fn main_ids(sanitize: bool) -> nat {
    if sanitize {
        7
    } else {
        6
    }
}

/// The definition of `main`, with `id` as the first unique id: it allocates
/// and initializes the slabs, builds the root state, runs the program and
/// returns zero.
pub open spec fn main_text(depth: nat, sanitize: bool, id: nat) -> Seq<char> {
    line_text(depth, "define i32 @main() {"@) + label_text("entry"@) + main_slabs_text(
        depth + 1,
        sanitize,
    ) + main_init_text(depth + 1, sanitize) + main_state_text(
        depth + 1,
        sanitize,
        fresh_name("fld"@, id),
        fresh_name("fld"@, id + 1),
        fresh_name("fld"@, id + 2),
    ) + main_stack_text(
        depth + 1,
        sanitize,
        fresh_name("fld"@, id + 3),
        fresh_name("fld"@, id + 4),
        fresh_name("fld"@, id + 5),
    ) + only_if(sanitize, main_tid_text(depth + 1, sanitize, fresh_name("fld"@, id + 6)))
        + main_tail_text(depth + 1, sanitize) + line_text(depth, "}"@)
}

impl Codegen {
    /// Writes what opens every module.
    pub fn preamble(&mut self)
        requires
            old(self).indent < usize::MAX,
        ensures
            final(self).out@ == old(self).out@ + preamble_text(
                old(self).indent as nat,
                old(self).sanitize,
            ),
            final(self).wrote_only(old(self)),
    {
        emit_globals(self);
        decl_externals(self);
        define_runtime_helpers(self);
        self.line("");
        assert(self.out@ =~= old(self).out@ + preamble_text(
            old(self).indent as nat,
            old(self).sanitize,
        ));
    }

    /// Writes the definition of `main`.
    pub fn define_main(&mut self)
        requires
            old(self).indent < usize::MAX,
            old(self).uniq + main_ids(old(self).sanitize) <= usize::MAX,
        ensures
            final(self).out@ == old(self).out@ + main_text(
                old(self).indent as nat,
                old(self).sanitize,
                old(self).uniq as nat,
            ),
            final(self).uniq == old(self).uniq + main_ids(old(self).sanitize),
            final(self).indent == old(self).indent,
            final(self).deferred == old(self).deferred,
            final(self).sanitize == old(self).sanitize,
    {
        self.line("define i32 @main() {");
        self.indent += 1;
        self.label("entry");
        emit_main_slabs(self);
        emit_main_init(self);
        let f0 = self.fresh("fld");
        let f1 = self.fresh("fld");
        let f2 = self.fresh("fld");
        emit_main_state(self, f0.as_str(), f1.as_str(), f2.as_str());
        let f3 = self.fresh("fld");
        let f4 = self.fresh("fld");
        let f5 = self.fresh("fld");
        emit_main_stack(self, f3.as_str(), f4.as_str(), f5.as_str());
        if self.sanitize {
            let f6 = self.fresh("fld");
            emit_main_tid(self, f6.as_str());
        }
        emit_main_tail(self);
        self.indent -= 1;
        self.line("}");
        assert(self.out@ =~= old(self).out@ + main_text(
            old(self).indent as nat,
            old(self).sanitize,
            old(self).uniq as nat,
        ));
    }
}

/// The text of the module that a program is compiled to: the opening,
/// `main`, and then the queued definitions in the order in which they were
/// queued, the program's own thunk last.
pub open spec fn module_text(nodes: Seq<Tree>, sanitize: bool) -> Seq<char> {
    preamble_text(0, sanitize) + main_text(0, sanitize, seq_ids(nodes)) + concat_all(
        seq_defs(nodes, 0, sanitize).push(thunk_def("main"@, nodes, 0, sanitize)),
    )
}

} // verus!
