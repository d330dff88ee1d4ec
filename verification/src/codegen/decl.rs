//! The declarations of the outside symbols and the definitions of the
//! runtime helpers, which open every module.

use super::{line_text, Codegen, MUTEX_STRIDE};
use crate::text::{decimal, fmt_i64};
use vstd::prelude::*;
use vstd::string::StringExecFns;

verus! {

/// A text that is there only under a condition.
pub open spec fn only_if(present: bool, text: Seq<char>) -> Seq<char> {
    if present {
        text
    } else {
        Seq::empty()
    }
}

/// The declarations of the outside symbols that the module calls; the hooks
/// only where they are called.
#[verifier::opaque]
pub open spec fn externals_text(depth: nat, sanitize: bool) -> Seq<char> {
    line_text(depth, "declare i32 @putchar(i32)"@)
    + line_text(depth, "declare i32 @getchar()"@)
    + line_text(depth, "declare i32 @fflush(i8*)"@)
    + line_text(depth, "declare i32 @nanosleep(%timespec*, %timespec*)"@)
    + line_text(depth, "declare i8* @malloc(i64)"@)
    + line_text(depth, "declare void @free(i8*)"@)
    + line_text(depth, "declare i32 @pthread_create(i64*, i8*, i8* (i8*)*, i8*)"@)
    + line_text(depth, "declare i32 @pthread_join(i64, i8**)"@)
    + line_text(depth, "declare i32 @pthread_mutex_init(i8*, i8*)"@)
    + line_text(depth, "declare i32 @pthread_mutex_lock(i8*)"@)
    + line_text(depth, "declare i32 @pthread_mutex_unlock(i8*)"@)
    + line_text(depth, "declare i32 @pthread_cond_init(i8*, i8*)"@)
    + line_text(depth, "declare i32 @pthread_cond_wait(i8*, i8*)"@)
    + line_text(depth, "declare i32 @pthread_cond_broadcast(i8*)"@)
    + only_if(sanitize, line_text(depth, "declare i64 @pthread_self()"@))
    + only_if(sanitize, line_text(depth, "declare void @tsan_read(%State*)"@))
    + only_if(sanitize, line_text(depth, "declare void @tsan_write(%State*)"@))
    + only_if(sanitize, line_text(depth, "declare void @tsan_acquire(%State*, i64)"@))
    + only_if(sanitize, line_text(depth, "declare void @tsan_release(%State*, i64)"@))
    + only_if(sanitize, line_text(depth, "declare void @tsan_fork(i64)"@))
    + only_if(sanitize, line_text(depth, "declare void @tsan_join(i64)"@))
    + line_text(
        depth,
        "declare void @llvm.memcpy.p0i8.p0i8.i64(i8* nocapture writeonly, i8* nocapture readonly, i64, i1 immarg)"@,
    )
}

/// Writes the declarations of the outside symbols.
#[verifier::rlimit(40)]
pub fn decl_externals(g: &mut Codegen)
    ensures
        final(g).out@ == old(g).out@ + externals_text(
            old(g).indent as nat,
            old(g).sanitize,
        ),
        final(g).wrote_only(old(g)),
{
    g.line("declare i32 @putchar(i32)");
    g.line("declare i32 @getchar()");
    g.line("declare i32 @fflush(i8*)");
    g.line("declare i32 @nanosleep(%timespec*, %timespec*)");
    g.line("declare i8* @malloc(i64)");
    g.line("declare void @free(i8*)");
    g.line("declare i32 @pthread_create(i64*, i8*, i8* (i8*)*, i8*)");
    g.line("declare i32 @pthread_join(i64, i8**)");
    g.line("declare i32 @pthread_mutex_init(i8*, i8*)");
    g.line("declare i32 @pthread_mutex_lock(i8*)");
    g.line("declare i32 @pthread_mutex_unlock(i8*)");
    g.line("declare i32 @pthread_cond_init(i8*, i8*)");
    g.line("declare i32 @pthread_cond_wait(i8*, i8*)");
    g.line("declare i32 @pthread_cond_broadcast(i8*)");
    if g.sanitize {
        g.line("declare i64 @pthread_self()");
        g.line("declare void @tsan_read(%State*)");
        g.line("declare void @tsan_write(%State*)");
        g.line("declare void @tsan_acquire(%State*, i64)");
        g.line("declare void @tsan_release(%State*, i64)");
        g.line("declare void @tsan_fork(i64)");
        g.line("declare void @tsan_join(i64)");
    }
    g.line(
        "declare void @llvm.memcpy.p0i8.p0i8.i64(i8* nocapture writeonly, i8* nocapture readonly, i64, i1 immarg)",
    );
    reveal(externals_text);
    assert(g.out@ =~= old(g).out@ + externals_text(
        old(g).indent as nat,
        g.sanitize,
    ));
}

/// The definition of `bf_gep_cell_ptr`: the address of the current cell.
#[verifier::opaque]
pub open spec fn gep_cell_ptr_def(depth: nat, sanitize: bool) -> Seq<char> {
    line_text(
        depth,
        "define internal i8* @bf_gep_cell_ptr(%State* nocapture nonnull %S) alwaysinline nounwind {"@,
    )
    + line_text(depth + 1, "%fld_base = getelementptr %State, %State* %S, i32 0, i32 0"@)
    + line_text(depth + 1, "%base = load i8*, i8** %fld_base"@)
    + line_text(depth + 1, "%fld_idx = getelementptr %State, %State* %S, i32 0, i32 1"@)
    + line_text(depth + 1, "%idx  = load i64,  i64*  %fld_idx"@)
    + line_text(depth + 1, "%p    = getelementptr i8, i8* %base, i64 %idx"@)
    + line_text(depth + 1, "ret i8* %p"@)
    + line_text(depth, "}"@)
}

/// Writes the definition of `bf_gep_cell_ptr`.
fn define_gep_cell_ptr(g: &mut Codegen)
    requires
        old(g).indent < usize::MAX,
    ensures
        final(g).out@ == old(g).out@ + gep_cell_ptr_def(
            old(g).indent as nat,
            old(g).sanitize,
        ),
        final(g).wrote_only(old(g)),
{
    g.line(
        "define internal i8* @bf_gep_cell_ptr(%State* nocapture nonnull %S) alwaysinline nounwind {",
    );
    g.indent += 1;
    g.line("%fld_base = getelementptr %State, %State* %S, i32 0, i32 0");
    g.line("%base = load i8*, i8** %fld_base");
    g.line("%fld_idx = getelementptr %State, %State* %S, i32 0, i32 1");
    g.line("%idx  = load i64,  i64*  %fld_idx");
    g.line("%p    = getelementptr i8, i8* %base, i64 %idx");
    g.line("ret i8* %p");
    g.indent -= 1;
    g.line("}");
    reveal(gep_cell_ptr_def);
    assert(g.out@ =~= old(g).out@ + gep_cell_ptr_def(
        old(g).indent as nat,
        g.sanitize,
    ));
}

/// The definition of `bf_lock_slot_addr`: the address of a cell's mutex: the
/// slab plus index times stride.
#[verifier::opaque]
pub open spec fn lock_slot_addr_def(depth: nat, sanitize: bool) -> Seq<char> {
    line_text(
        depth,
        "define internal i8* @bf_lock_slot_addr(%State* nocapture nonnull %S, i64 %idx) alwaysinline nounwind {"@,
    )
    + line_text(depth + 1, "%fld_slab = getelementptr %State, %State* %S, i32 0, i32 2"@)
    + line_text(depth + 1, "%slab = load i8*, i8** %fld_slab"@)
    + line_text(depth + 1, "%off  = mul i64 %idx, "@ + decimal(MUTEX_STRIDE as int))
    + line_text(depth + 1, "%slot = getelementptr i8, i8* %slab, i64 %off"@)
    + line_text(depth + 1, "ret i8* %slot"@)
    + line_text(depth, "}"@)
}

/// Writes the definition of `bf_lock_slot_addr`.
fn define_lock_slot_addr(g: &mut Codegen)
    requires
        old(g).indent < usize::MAX,
    ensures
        final(g).out@ == old(g).out@ + lock_slot_addr_def(
            old(g).indent as nat,
            old(g).sanitize,
        ),
        final(g).wrote_only(old(g)),
{
    g.line(
        "define internal i8* @bf_lock_slot_addr(%State* nocapture nonnull %S, i64 %idx) alwaysinline nounwind {",
    );
    g.indent += 1;
    g.line("%fld_slab = getelementptr %State, %State* %S, i32 0, i32 2");
    g.line("%slab = load i8*, i8** %fld_slab");
    g.line(
        String::from_str("%off  = mul i64 %idx, ")
            .concat(fmt_i64(MUTEX_STRIDE).as_str())
            .as_str(),
    );
    g.line("%slot = getelementptr i8, i8* %slab, i64 %off");
    g.line("ret i8* %slot");
    g.indent -= 1;
    g.line("}");
    reveal(lock_slot_addr_def);
    assert(g.out@ =~= old(g).out@ + lock_slot_addr_def(
        old(g).indent as nat,
        g.sanitize,
    ));
}

/// The definition of `push_lock`: pushing an index on the lock stack, which
/// doubles when it is full.
#[verifier::opaque]
pub open spec fn push_lock_def(depth: nat, sanitize: bool) -> Seq<char> {
    line_text(
        depth,
        "define internal void @push_lock(%State* nocapture nonnull %S, i64 %idx) nounwind {"@,
    )
    + line_text(depth + 1, "%fld_sp = getelementptr %State, %State* %S, i32 0, i32 4"@)
    + line_text(depth + 1, "%sp  = load i64,  i64*  %fld_sp"@)
    + line_text(depth + 1, "%fld_cap = getelementptr %State, %State* %S, i32 0, i32 5"@)
    + line_text(depth + 1, "%cap = load i64,  i64*  %fld_cap"@)
    + line_text(depth + 1, "%fld_buf = getelementptr %State, %State* %S, i32 0, i32 3"@)
    + line_text(depth + 1, "%need_grow = icmp eq i64 %sp, %cap"@)
    + line_text(depth + 1, "br i1 %need_grow, label %grow, label %push"@)
    + line_text(depth + 1, "grow:"@)
    + line_text(depth + 1, "%oldbuf = load i64*, i64** %fld_buf"@)
    + line_text(depth + 1, "%oldcap = load i64, i64* %fld_cap"@)
    + line_text(depth + 1, "%newcap = shl i64 %oldcap, 1"@)
    + line_text(depth + 1, "%oldbytes = mul i64 %oldcap, 8"@)
    + line_text(depth + 1, "%newbytes = mul i64 %newcap, 8"@)
    + line_text(depth + 1, "%newraw = call i8* @malloc(i64 %newbytes)"@)
    + line_text(depth + 1, "%newbuf = bitcast i8* %newraw to i64*"@)
    + line_text(depth + 1, "%dst = bitcast i64* %newbuf to i8*"@)
    + line_text(depth + 1, "%src = bitcast i64* %oldbuf to i8*"@)
    + line_text(
        depth + 1,
        "call void @llvm.memcpy.p0i8.p0i8.i64(i8* %dst, i8* %src, i64 %oldbytes, i1 false)"@,
    )
    + line_text(depth + 1, "call void @free(i8* %src)"@)
    + line_text(depth + 1, "store i64* %newbuf, i64** %fld_buf"@)
    + line_text(depth + 1, "store i64  %newcap, i64*  %fld_cap"@)
    + line_text(depth + 1, "br label %push"@)
    + line_text(depth + 1, "push:"@)
    + line_text(depth + 1, "%buf = load i64*, i64** %fld_buf"@)
    + line_text(depth + 1, "%slotp = getelementptr i64, i64* %buf, i64 %sp"@)
    + line_text(depth + 1, "store i64 %idx, i64* %slotp"@)
    + line_text(depth + 1, "%sp1 = add i64 %sp, 1"@)
    + line_text(depth + 1, "store i64 %sp1, i64* %fld_sp"@)
    + line_text(depth + 1, "ret void"@)
    + line_text(depth, "}"@)
}

/// Writes the definition of `push_lock`.
#[verifier::rlimit(40)]
fn define_push_lock(g: &mut Codegen)
    requires
        old(g).indent < usize::MAX,
    ensures
        final(g).out@ == old(g).out@ + push_lock_def(
            old(g).indent as nat,
            old(g).sanitize,
        ),
        final(g).wrote_only(old(g)),
{
    g.line("define internal void @push_lock(%State* nocapture nonnull %S, i64 %idx) nounwind {");
    g.indent += 1;
    g.line("%fld_sp = getelementptr %State, %State* %S, i32 0, i32 4");
    g.line("%sp  = load i64,  i64*  %fld_sp");
    g.line("%fld_cap = getelementptr %State, %State* %S, i32 0, i32 5");
    g.line("%cap = load i64,  i64*  %fld_cap");
    g.line("%fld_buf = getelementptr %State, %State* %S, i32 0, i32 3");
    g.line("%need_grow = icmp eq i64 %sp, %cap");
    g.line("br i1 %need_grow, label %grow, label %push");
    g.line("grow:");
    g.line("%oldbuf = load i64*, i64** %fld_buf");
    g.line("%oldcap = load i64, i64* %fld_cap");
    g.line("%newcap = shl i64 %oldcap, 1");
    g.line("%oldbytes = mul i64 %oldcap, 8");
    g.line("%newbytes = mul i64 %newcap, 8");
    g.line("%newraw = call i8* @malloc(i64 %newbytes)");
    g.line("%newbuf = bitcast i8* %newraw to i64*");
    g.line("%dst = bitcast i64* %newbuf to i8*");
    g.line("%src = bitcast i64* %oldbuf to i8*");
    g.line("call void @llvm.memcpy.p0i8.p0i8.i64(i8* %dst, i8* %src, i64 %oldbytes, i1 false)");
    g.line("call void @free(i8* %src)");
    g.line("store i64* %newbuf, i64** %fld_buf");
    g.line("store i64  %newcap, i64*  %fld_cap");
    g.line("br label %push");
    g.line("push:");
    g.line("%buf = load i64*, i64** %fld_buf");
    g.line("%slotp = getelementptr i64, i64* %buf, i64 %sp");
    g.line("store i64 %idx, i64* %slotp");
    g.line("%sp1 = add i64 %sp, 1");
    g.line("store i64 %sp1, i64* %fld_sp");
    g.line("ret void");
    g.indent -= 1;
    g.line("}");
    reveal(push_lock_def);
    assert(g.out@ =~= old(g).out@ + push_lock_def(
        old(g).indent as nat,
        g.sanitize,
    ));
}

/// The definition of `pop_lock`: popping the lock stack; the caller promises
/// that it is not empty.
#[verifier::opaque]
pub open spec fn pop_lock_def(depth: nat, sanitize: bool) -> Seq<char> {
    line_text(depth, "define internal i64 @pop_lock(%State* nocapture nonnull %S) nounwind {"@)
    + line_text(depth + 1, "%fld_sp2 = getelementptr %State, %State* %S, i32 0, i32 4"@)
    + line_text(depth + 1, "%sp  = load i64, i64* %fld_sp2"@)
    + line_text(depth + 1, "%sp1 = add i64 %sp, -1"@)
    + line_text(depth + 1, "store i64 %sp1, i64* %fld_sp2"@)
    + line_text(depth + 1, "%fld_buf2 = getelementptr %State, %State* %S, i32 0, i32 3"@)
    + line_text(depth + 1, "%buf = load i64*, i64** %fld_buf2"@)
    + line_text(depth + 1, "%slotp = getelementptr i64, i64* %buf, i64 %sp1"@)
    + line_text(depth + 1, "%idx = load i64, i64* %slotp"@)
    + line_text(depth + 1, "ret i64 %idx"@)
    + line_text(depth, "}"@)
}

/// Writes the definition of `pop_lock`.
fn define_pop_lock(g: &mut Codegen)
    requires
        old(g).indent < usize::MAX,
    ensures
        final(g).out@ == old(g).out@ + pop_lock_def(
            old(g).indent as nat,
            old(g).sanitize,
        ),
        final(g).wrote_only(old(g)),
{
    g.line("define internal i64 @pop_lock(%State* nocapture nonnull %S) nounwind {");
    g.indent += 1;
    g.line("%fld_sp2 = getelementptr %State, %State* %S, i32 0, i32 4");
    g.line("%sp  = load i64, i64* %fld_sp2");
    g.line("%sp1 = add i64 %sp, -1");
    g.line("store i64 %sp1, i64* %fld_sp2");
    g.line("%fld_buf2 = getelementptr %State, %State* %S, i32 0, i32 3");
    g.line("%buf = load i64*, i64** %fld_buf2");
    g.line("%slotp = getelementptr i64, i64* %buf, i64 %sp1");
    g.line("%idx = load i64, i64* %slotp");
    g.line("ret i64 %idx");
    g.indent -= 1;
    g.line("}");
    reveal(pop_lock_def);
    assert(g.out@ =~= old(g).out@ + pop_lock_def(
        old(g).indent as nat,
        g.sanitize,
    ));
}

/// The definition of `bf_inc_ptr`: moving the pointer index by a delta.
#[verifier::opaque]
pub open spec fn inc_ptr_def(depth: nat, sanitize: bool) -> Seq<char> {
    line_text(
        depth,
        "define internal void @bf_inc_ptr(%State* nocapture nonnull %S, i64 %delta) alwaysinline nounwind {"@,
    )
    + line_text(depth + 1, "%fld_ptr = getelementptr %State,%State* %S, i32 0, i32 1"@)
    + line_text(depth + 1, "%v = load i64, i64* %fld_ptr"@)
    + line_text(depth + 1, "%u = add i64 %v, %delta"@)
    + line_text(depth + 1, "store i64 %u, i64* %fld_ptr"@)
    + line_text(depth + 1, "ret void"@)
    + line_text(depth, "}"@)
}

/// Writes the definition of `bf_inc_ptr`.
fn define_inc_ptr(g: &mut Codegen)
    requires
        old(g).indent < usize::MAX,
    ensures
        final(g).out@ == old(g).out@ + inc_ptr_def(
            old(g).indent as nat,
            old(g).sanitize,
        ),
        final(g).wrote_only(old(g)),
{
    g.line(
        "define internal void @bf_inc_ptr(%State* nocapture nonnull %S, i64 %delta) alwaysinline nounwind {",
    );
    g.indent += 1;
    g.line("%fld_ptr = getelementptr %State,%State* %S, i32 0, i32 1");
    g.line("%v = load i64, i64* %fld_ptr");
    g.line("%u = add i64 %v, %delta");
    g.line("store i64 %u, i64* %fld_ptr");
    g.line("ret void");
    g.indent -= 1;
    g.line("}");
    reveal(inc_ptr_def);
    assert(g.out@ =~= old(g).out@ + inc_ptr_def(
        old(g).indent as nat,
        g.sanitize,
    ));
}

/// The definition of `bf_add_cell`: adding to the current cell, a plain byte
/// add that wraps.
#[verifier::opaque]
pub open spec fn add_cell_def(depth: nat, sanitize: bool) -> Seq<char> {
    line_text(
        depth,
        "define internal void @bf_add_cell(%State* nocapture nonnull %S, i32 %delta) alwaysinline nounwind {"@,
    )
    + line_text(depth + 1, "%p = call i8* @bf_gep_cell_ptr(%State* %S)"@)
    + only_if(sanitize, line_text(depth + 1, "call void @tsan_read(%State* %S)"@))
    + line_text(depth + 1, "%v0 = load i8, i8* %p"@)
    + line_text(depth + 1, "%d8 = trunc i32 %delta to i8"@)
    + line_text(depth + 1, "%v1 = add i8 %v0, %d8"@)
    + only_if(sanitize, line_text(depth + 1, "call void @tsan_write(%State* %S)"@))
    + line_text(depth + 1, "store i8 %v1, i8* %p"@)
    + line_text(depth + 1, "ret void"@)
    + line_text(depth, "}"@)
}

/// Writes the definition of `bf_add_cell`.
fn define_add_cell(g: &mut Codegen)
    requires
        old(g).indent < usize::MAX,
    ensures
        final(g).out@ == old(g).out@ + add_cell_def(
            old(g).indent as nat,
            old(g).sanitize,
        ),
        final(g).wrote_only(old(g)),
{
    g.line(
        "define internal void @bf_add_cell(%State* nocapture nonnull %S, i32 %delta) alwaysinline nounwind {",
    );
    g.indent += 1;
    g.line("%p = call i8* @bf_gep_cell_ptr(%State* %S)");
    if g.sanitize {
        g.line("call void @tsan_read(%State* %S)");
    }
    g.line("%v0 = load i8, i8* %p");
    g.line("%d8 = trunc i32 %delta to i8");
    g.line("%v1 = add i8 %v0, %d8");
    if g.sanitize {
        g.line("call void @tsan_write(%State* %S)");
    }
    g.line("store i8 %v1, i8* %p");
    g.line("ret void");
    g.indent -= 1;
    g.line("}");
    reveal(add_cell_def);
    assert(g.out@ =~= old(g).out@ + add_cell_def(
        old(g).indent as nat,
        g.sanitize,
    ));
}

/// The definition of `bf_output`: writing the current cell as one byte and
/// flushing at once.
#[verifier::opaque]
pub open spec fn output_def(depth: nat, sanitize: bool) -> Seq<char> {
    line_text(
        depth,
        "define internal void @bf_output(%State* nocapture nonnull %S) nounwind {"@,
    )
    + line_text(depth + 1, "%p = call i8* @bf_gep_cell_ptr(%State* %S)"@)
    + only_if(sanitize, line_text(depth + 1, "call void @tsan_read(%State* %S)"@))
    + line_text(depth + 1, "%v = load i8, i8* %p"@)
    + line_text(depth + 1, "%w = zext i8 %v to i32"@)
    + line_text(depth + 1, "call i32 @putchar(i32 %w)"@)
    + line_text(depth + 1, "call i32 @fflush(i8* null)"@)
    + line_text(depth + 1, "ret void"@)
    + line_text(depth, "}"@)
}

/// Writes the definition of `bf_output`.
fn define_output(g: &mut Codegen)
    requires
        old(g).indent < usize::MAX,
    ensures
        final(g).out@ == old(g).out@ + output_def(
            old(g).indent as nat,
            old(g).sanitize,
        ),
        final(g).wrote_only(old(g)),
{
    g.line("define internal void @bf_output(%State* nocapture nonnull %S) nounwind {");
    g.indent += 1;
    g.line("%p = call i8* @bf_gep_cell_ptr(%State* %S)");
    if g.sanitize {
        g.line("call void @tsan_read(%State* %S)");
    }
    g.line("%v = load i8, i8* %p");
    g.line("%w = zext i8 %v to i32");
    g.line("call i32 @putchar(i32 %w)");
    g.line("call i32 @fflush(i8* null)");
    g.line("ret void");
    g.indent -= 1;
    g.line("}");
    reveal(output_def);
    assert(g.out@ =~= old(g).out@ + output_def(
        old(g).indent as nat,
        g.sanitize,
    ));
}

/// The definition of `bf_input`: reading one byte into the current cell, zero
/// at end of input.
#[verifier::opaque]
pub open spec fn input_def(depth: nat, sanitize: bool) -> Seq<char> {
    line_text(depth, "define internal void @bf_input(%State* nocapture nonnull %S) nounwind {"@)
    + line_text(depth + 1, "%c = call i32 @getchar()"@)
    + line_text(depth + 1, "%eof = icmp slt i32 %c, 0"@)
    + line_text(depth + 1, "%cz = select i1 %eof, i32 0, i32 %c"@)
    + line_text(depth + 1, "%b = trunc i32 %cz to i8"@)
    + line_text(depth + 1, "%p = call i8* @bf_gep_cell_ptr(%State* %S)"@)
    + only_if(sanitize, line_text(depth + 1, "call void @tsan_write(%State* %S)"@))
    + line_text(depth + 1, "store i8 %b, i8* %p"@)
    + line_text(depth + 1, "ret void"@)
    + line_text(depth, "}"@)
}

/// Writes the definition of `bf_input`.
fn define_input(g: &mut Codegen)
    requires
        old(g).indent < usize::MAX,
    ensures
        final(g).out@ == old(g).out@ + input_def(
            old(g).indent as nat,
            old(g).sanitize,
        ),
        final(g).wrote_only(old(g)),
{
    g.line("define internal void @bf_input(%State* nocapture nonnull %S) nounwind {");
    g.indent += 1;
    g.line("%c = call i32 @getchar()");
    g.line("%eof = icmp slt i32 %c, 0");
    g.line("%cz = select i1 %eof, i32 0, i32 %c");
    g.line("%b = trunc i32 %cz to i8");
    g.line("%p = call i8* @bf_gep_cell_ptr(%State* %S)");
    if g.sanitize {
        g.line("call void @tsan_write(%State* %S)");
    }
    g.line("store i8 %b, i8* %p");
    g.line("ret void");
    g.indent -= 1;
    g.line("}");
    reveal(input_def);
    assert(g.out@ =~= old(g).out@ + input_def(
        old(g).indent as nat,
        g.sanitize,
    ));
}

/// The definition of `bf_sleep`: sleeping for a number of ticks: whole seconds
/// and the rest in nanoseconds.
#[verifier::opaque]
pub open spec fn sleep_def(depth: nat, sanitize: bool) -> Seq<char> {
    line_text(depth, "define internal void @bf_sleep(i32 %ticks) nounwind {"@)
    + line_text(depth + 1, "%t64 = zext i32 %ticks to i64"@)
    + line_text(depth + 1, "%ns_total = mul i64 %t64, 100000000"@)
    + line_text(depth + 1, "%sec  = udiv i64 %ns_total, 1000000000"@)
    + line_text(depth + 1, "%nsec = urem i64 %ns_total, 1000000000"@)
    + line_text(depth + 1, "%ts = alloca %timespec"@)
    + line_text(depth + 1, "%ts_sec  = getelementptr %timespec, %timespec* %ts, i32 0, i32 0"@)
    + line_text(depth + 1, "%ts_nsec = getelementptr %timespec, %timespec* %ts, i32 0, i32 1"@)
    + line_text(depth + 1, "store i64 %sec,  i64* %ts_sec"@)
    + line_text(depth + 1, "store i64 %nsec, i64* %ts_nsec"@)
    + line_text(depth + 1, "call i32 @nanosleep(%timespec* %ts, %timespec* null)"@)
    + line_text(depth + 1, "ret void"@)
    + line_text(depth, "}"@)
}

/// Writes the definition of `bf_sleep`.
#[verifier::rlimit(40)]
fn define_sleep(g: &mut Codegen)
    requires
        old(g).indent < usize::MAX,
    ensures
        final(g).out@ == old(g).out@ + sleep_def(
            old(g).indent as nat,
            old(g).sanitize,
        ),
        final(g).wrote_only(old(g)),
{
    g.line("define internal void @bf_sleep(i32 %ticks) nounwind {");
    g.indent += 1;
    g.line("%t64 = zext i32 %ticks to i64");
    g.line("%ns_total = mul i64 %t64, 100000000");
    g.line("%sec  = udiv i64 %ns_total, 1000000000");
    g.line("%nsec = urem i64 %ns_total, 1000000000");
    g.line("%ts = alloca %timespec");
    g.line("%ts_sec  = getelementptr %timespec, %timespec* %ts, i32 0, i32 0");
    g.line("%ts_nsec = getelementptr %timespec, %timespec* %ts, i32 0, i32 1");
    g.line("store i64 %sec,  i64* %ts_sec");
    g.line("store i64 %nsec, i64* %ts_nsec");
    g.line("call i32 @nanosleep(%timespec* %ts, %timespec* null)");
    g.line("ret void");
    g.indent -= 1;
    g.line("}");
    reveal(sleep_def);
    assert(g.out@ =~= old(g).out@ + sleep_def(
        old(g).indent as nat,
        g.sanitize,
    ));
}

/// The definition of `bf_lock_acquire`: locking the current cell's mutex and
/// then pushing its index.
#[verifier::opaque]
pub open spec fn lock_acquire_def(depth: nat, sanitize: bool) -> Seq<char> {
    line_text(
        depth,
        "define internal void @bf_lock_acquire(%State* nocapture nonnull %S) nounwind {"@,
    )
    + line_text(depth + 1, "%fld_ptr2 = getelementptr %State,%State* %S, i32 0, i32 1"@)
    + line_text(depth + 1, "%idx = load i64, i64* %fld_ptr2"@)
    + line_text(depth + 1, "%slot = call i8* @bf_lock_slot_addr(%State* %S, i64 %idx)"@)
    + line_text(depth + 1, "call i32 @pthread_mutex_lock(i8* %slot)"@)
    + only_if(sanitize, line_text(depth + 1, "call void @tsan_acquire(%State* %S, i64 %idx)"@))
    + line_text(depth + 1, "call void @push_lock(%State* %S, i64 %idx)"@)
    + line_text(depth + 1, "ret void"@)
    + line_text(depth, "}"@)
}

/// Writes the definition of `bf_lock_acquire`.
fn define_lock_acquire(g: &mut Codegen)
    requires
        old(g).indent < usize::MAX,
    ensures
        final(g).out@ == old(g).out@ + lock_acquire_def(
            old(g).indent as nat,
            old(g).sanitize,
        ),
        final(g).wrote_only(old(g)),
{
    g.line("define internal void @bf_lock_acquire(%State* nocapture nonnull %S) nounwind {");
    g.indent += 1;
    g.line("%fld_ptr2 = getelementptr %State,%State* %S, i32 0, i32 1");
    g.line("%idx = load i64, i64* %fld_ptr2");
    g.line("%slot = call i8* @bf_lock_slot_addr(%State* %S, i64 %idx)");
    g.line("call i32 @pthread_mutex_lock(i8* %slot)");
    if g.sanitize {
        g.line("call void @tsan_acquire(%State* %S, i64 %idx)");
    }
    g.line("call void @push_lock(%State* %S, i64 %idx)");
    g.line("ret void");
    g.indent -= 1;
    g.line("}");
    reveal(lock_acquire_def);
    assert(g.out@ =~= old(g).out@ + lock_acquire_def(
        old(g).indent as nat,
        g.sanitize,
    ));
}

/// The definition of `bf_lock_release`: popping an index and then unlocking
/// that cell's mutex.
#[verifier::opaque]
pub open spec fn lock_release_def(depth: nat, sanitize: bool) -> Seq<char> {
    line_text(
        depth,
        "define internal void @bf_lock_release(%State* nocapture nonnull %S) nounwind {"@,
    )
    + line_text(depth + 1, "%idx = call i64 @pop_lock(%State* %S)"@)
    + only_if(sanitize, line_text(depth + 1, "call void @tsan_release(%State* %S, i64 %idx)"@))
    + line_text(depth + 1, "%slot = call i8* @bf_lock_slot_addr(%State* %S, i64 %idx)"@)
    + line_text(depth + 1, "call i32 @pthread_mutex_unlock(i8* %slot)"@)
    + line_text(depth + 1, "ret void"@)
    + line_text(depth, "}"@)
}

/// Writes the definition of `bf_lock_release`.
fn define_lock_release(g: &mut Codegen)
    requires
        old(g).indent < usize::MAX,
    ensures
        final(g).out@ == old(g).out@ + lock_release_def(
            old(g).indent as nat,
            old(g).sanitize,
        ),
        final(g).wrote_only(old(g)),
{
    g.line("define internal void @bf_lock_release(%State* nocapture nonnull %S) nounwind {");
    g.indent += 1;
    g.line("%idx = call i64 @pop_lock(%State* %S)");
    if g.sanitize {
        g.line("call void @tsan_release(%State* %S, i64 %idx)");
    }
    g.line("%slot = call i8* @bf_lock_slot_addr(%State* %S, i64 %idx)");
    g.line("call i32 @pthread_mutex_unlock(i8* %slot)");
    g.line("ret void");
    g.indent -= 1;
    g.line("}");
    reveal(lock_release_def);
    assert(g.out@ =~= old(g).out@ + lock_release_def(
        old(g).indent as nat,
        g.sanitize,
    ));
}

/// The definition of `bf_cond_slot_addr`: the address of a cell's condition
/// variable.
#[verifier::opaque]
pub open spec fn cond_slot_addr_def(depth: nat, sanitize: bool) -> Seq<char> {
    line_text(
        depth,
        "define internal i8* @bf_cond_slot_addr(%State* nocapture nonnull %S, i64 %idx) alwaysinline nounwind {"@,
    )
    + line_text(depth + 1, "%csl = load i8*, i8** @cond_slab"@)
    + line_text(depth + 1, "%coff = mul i64 %idx, "@ + decimal(MUTEX_STRIDE as int))
    + line_text(depth + 1, "%cslot = getelementptr i8, i8* %csl, i64 %coff"@)
    + line_text(depth + 1, "ret i8* %cslot"@)
    + line_text(depth, "}"@)
}

/// Writes the definition of `bf_cond_slot_addr`.
fn define_cond_slot_addr(g: &mut Codegen)
    requires
        old(g).indent < usize::MAX,
    ensures
        final(g).out@ == old(g).out@ + cond_slot_addr_def(
            old(g).indent as nat,
            old(g).sanitize,
        ),
        final(g).wrote_only(old(g)),
{
    g.line(
        "define internal i8* @bf_cond_slot_addr(%State* nocapture nonnull %S, i64 %idx) alwaysinline nounwind {",
    );
    g.indent += 1;
    g.line("%csl = load i8*, i8** @cond_slab");
    g.line(
        String::from_str("%coff = mul i64 %idx, ")
            .concat(fmt_i64(MUTEX_STRIDE).as_str())
            .as_str(),
    );
    g.line("%cslot = getelementptr i8, i8* %csl, i64 %coff");
    g.line("ret i8* %cslot");
    g.indent -= 1;
    g.line("}");
    reveal(cond_slot_addr_def);
    assert(g.out@ =~= old(g).out@ + cond_slot_addr_def(
        old(g).indent as nat,
        g.sanitize,
    ));
}

/// The definition of `bf_cmtx_slot_addr`: the address of the mutex paired with
/// a cell's condition variable.
#[verifier::opaque]
pub open spec fn cmtx_slot_addr_def(depth: nat, sanitize: bool) -> Seq<char> {
    line_text(
        depth,
        "define internal i8* @bf_cmtx_slot_addr(%State* nocapture nonnull %S, i64 %idx) alwaysinline nounwind {"@,
    )
    + line_text(depth + 1, "%msl = load i8*, i8** @cond_mtx_slab"@)
    + line_text(depth + 1, "%moff = mul i64 %idx, "@ + decimal(MUTEX_STRIDE as int))
    + line_text(depth + 1, "%mslot = getelementptr i8, i8* %msl, i64 %moff"@)
    + line_text(depth + 1, "ret i8* %mslot"@)
    + line_text(depth, "}"@)
}

/// Writes the definition of `bf_cmtx_slot_addr`.
fn define_cmtx_slot_addr(g: &mut Codegen)
    requires
        old(g).indent < usize::MAX,
    ensures
        final(g).out@ == old(g).out@ + cmtx_slot_addr_def(
            old(g).indent as nat,
            old(g).sanitize,
        ),
        final(g).wrote_only(old(g)),
{
    g.line(
        "define internal i8* @bf_cmtx_slot_addr(%State* nocapture nonnull %S, i64 %idx) alwaysinline nounwind {",
    );
    g.indent += 1;
    g.line("%msl = load i8*, i8** @cond_mtx_slab");
    g.line(
        String::from_str("%moff = mul i64 %idx, ")
            .concat(fmt_i64(MUTEX_STRIDE).as_str())
            .as_str(),
    );
    g.line("%mslot = getelementptr i8, i8* %msl, i64 %moff");
    g.line("ret i8* %mslot");
    g.indent -= 1;
    g.line("}");
    reveal(cmtx_slot_addr_def);
    assert(g.out@ =~= old(g).out@ + cmtx_slot_addr_def(
        old(g).indent as nat,
        g.sanitize,
    ));
}

/// The definition of `bf_wait`: waiting on the current cell's condition, under
/// its paired mutex.
#[verifier::opaque]
pub open spec fn wait_def(depth: nat, sanitize: bool) -> Seq<char> {
    line_text(depth, "define internal void @bf_wait(%State* nocapture nonnull %S) nounwind {"@)
    + line_text(depth + 1, "%fld_ptrW = getelementptr %State, %State* %S, i32 0, i32 1"@)
    + line_text(depth + 1, "%idxW = load i64, i64* %fld_ptrW"@)
    + line_text(depth + 1, "%cmW = call i8* @bf_cmtx_slot_addr(%State* %S, i64 %idxW)"@)
    + line_text(depth + 1, "%cvW = call i8* @bf_cond_slot_addr(%State* %S, i64 %idxW)"@)
    + line_text(depth + 1, "call i32 @pthread_mutex_lock(i8* %cmW)"@)
    + line_text(depth + 1, "call i32 @pthread_cond_wait(i8* %cvW, i8* %cmW)"@)
    + line_text(depth + 1, "call i32 @pthread_mutex_unlock(i8* %cmW)"@)
    + line_text(depth + 1, "ret void"@)
    + line_text(depth, "}"@)
}

/// Writes the definition of `bf_wait`.
fn define_wait(g: &mut Codegen)
    requires
        old(g).indent < usize::MAX,
    ensures
        final(g).out@ == old(g).out@ + wait_def(
            old(g).indent as nat,
            old(g).sanitize,
        ),
        final(g).wrote_only(old(g)),
{
    g.line("define internal void @bf_wait(%State* nocapture nonnull %S) nounwind {");
    g.indent += 1;
    g.line("%fld_ptrW = getelementptr %State, %State* %S, i32 0, i32 1");
    g.line("%idxW = load i64, i64* %fld_ptrW");
    g.line("%cmW = call i8* @bf_cmtx_slot_addr(%State* %S, i64 %idxW)");
    g.line("%cvW = call i8* @bf_cond_slot_addr(%State* %S, i64 %idxW)");
    g.line("call i32 @pthread_mutex_lock(i8* %cmW)");
    g.line("call i32 @pthread_cond_wait(i8* %cvW, i8* %cmW)");
    g.line("call i32 @pthread_mutex_unlock(i8* %cmW)");
    g.line("ret void");
    g.indent -= 1;
    g.line("}");
    reveal(wait_def);
    assert(g.out@ =~= old(g).out@ + wait_def(
        old(g).indent as nat,
        g.sanitize,
    ));
}

/// The definition of `bf_notify`: waking all waiters of the current cell's
/// condition, under its paired mutex.
#[verifier::opaque]
pub open spec fn notify_def(depth: nat, sanitize: bool) -> Seq<char> {
    line_text(
        depth,
        "define internal void @bf_notify(%State* nocapture nonnull %S) nounwind {"@,
    )
    + line_text(depth + 1, "%fld_ptrN = getelementptr %State, %State* %S, i32 0, i32 1"@)
    + line_text(depth + 1, "%idxN = load i64, i64* %fld_ptrN"@)
    + line_text(depth + 1, "%cmN = call i8* @bf_cmtx_slot_addr(%State* %S, i64 %idxN)"@)
    + line_text(depth + 1, "%cvN = call i8* @bf_cond_slot_addr(%State* %S, i64 %idxN)"@)
    + line_text(depth + 1, "call i32 @pthread_mutex_lock(i8* %cmN)"@)
    + line_text(depth + 1, "call i32 @pthread_cond_broadcast(i8* %cvN)"@)
    + line_text(depth + 1, "call i32 @pthread_mutex_unlock(i8* %cmN)"@)
    + line_text(depth + 1, "ret void"@)
    + line_text(depth, "}"@)
}

/// Writes the definition of `bf_notify`.
fn define_notify(g: &mut Codegen)
    requires
        old(g).indent < usize::MAX,
    ensures
        final(g).out@ == old(g).out@ + notify_def(
            old(g).indent as nat,
            old(g).sanitize,
        ),
        final(g).wrote_only(old(g)),
{
    g.line("define internal void @bf_notify(%State* nocapture nonnull %S) nounwind {");
    g.indent += 1;
    g.line("%fld_ptrN = getelementptr %State, %State* %S, i32 0, i32 1");
    g.line("%idxN = load i64, i64* %fld_ptrN");
    g.line("%cmN = call i8* @bf_cmtx_slot_addr(%State* %S, i64 %idxN)");
    g.line("%cvN = call i8* @bf_cond_slot_addr(%State* %S, i64 %idxN)");
    g.line("call i32 @pthread_mutex_lock(i8* %cmN)");
    g.line("call i32 @pthread_cond_broadcast(i8* %cvN)");
    g.line("call i32 @pthread_mutex_unlock(i8* %cmN)");
    g.line("ret void");
    g.indent -= 1;
    g.line("}");
    reveal(notify_def);
    assert(g.out@ =~= old(g).out@ + notify_def(
        old(g).indent as nat,
        g.sanitize,
    ));
}

/// The definitions of all runtime helpers, in the order in which the module
/// holds them.
pub open spec fn runtime_helpers_text(depth: nat, sanitize: bool) -> Seq<char> {
    gep_cell_ptr_def(depth, sanitize)
    + lock_slot_addr_def(depth, sanitize)
    + push_lock_def(depth, sanitize)
    + pop_lock_def(depth, sanitize)
    + inc_ptr_def(depth, sanitize)
    + add_cell_def(depth, sanitize)
    + output_def(depth, sanitize)
    + input_def(depth, sanitize)
    + sleep_def(depth, sanitize)
    + lock_acquire_def(depth, sanitize)
    + lock_release_def(depth, sanitize)
    + cond_slot_addr_def(depth, sanitize)
    + cmtx_slot_addr_def(depth, sanitize)
    + wait_def(depth, sanitize)
    + notify_def(depth, sanitize)
}

/// Writes the definitions of all runtime helpers.
pub fn define_runtime_helpers(g: &mut Codegen)
    requires
        old(g).indent < usize::MAX,
    ensures
        final(g).out@ == old(g).out@ + runtime_helpers_text(old(g).indent as nat, old(g).sanitize),
        final(g).wrote_only(old(g)),
{
    define_gep_cell_ptr(g);
    define_lock_slot_addr(g);
    define_push_lock(g);
    define_pop_lock(g);
    define_inc_ptr(g);
    define_add_cell(g);
    define_output(g);
    define_input(g);
    define_sleep(g);
    define_lock_acquire(g);
    define_lock_release(g);
    define_cond_slot_addr(g);
    define_cmtx_slot_addr(g);
    define_wait(g);
    define_notify(g);
    assert(g.out@ =~= old(g).out@ + runtime_helpers_text(old(g).indent as nat, g.sanitize));
}

} // verus!
