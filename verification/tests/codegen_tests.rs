use partape::codegen::decl::{decl_externals, define_runtime_helpers};
use partape::codegen::emit::{count_ids, emit_nodes};
use partape::codegen::parallel::emit_parallel;
use partape::codegen::{
    generate_ir, try_generate_ir, Codegen, LOCK_STACK_INIT, MUTEX_STRIDE, TAPE_LEN,
};
use partape::lexer::lex;
use partape::parser::{parse, Node};

fn compile(source: &str, sanitize: bool) -> String {
    match parse(&lex(source)) {
        Ok(nodes) => generate_ir(&nodes, sanitize),
        Err(e) => panic!("no tree for {:?}: {:?}", source, e),
    }
}

/// What follows the definition of `main`: the queued definitions.
fn after_main(ir: &str) -> &str {
    let start = ir.find("define i32 @main() {").unwrap();
    let end = start + ir[start..].find("\n}\n").unwrap() + 3;
    &ir[end..]
}

/// The definition of `main`.
fn main_of(ir: &str) -> &str {
    let start = ir.find("define i32 @main() {").unwrap();
    let end = start + ir[start..].find("\n}\n").unwrap() + 3;
    &ir[start..end]
}

/// What stands before the definition of `main`.
fn before_main(ir: &str) -> &str {
    &ir[..ir.find("define i32 @main() {").unwrap()]
}

fn count(haystack: &str, needle: &str) -> usize {
    haystack.matches(needle).count()
}

const EMPTY_PLAIN: &str = r"@tape = internal global [30000 x i8] zeroinitializer
@mutex_slab = internal global i8* null
@cond_slab = internal global i8* null
@cond_mtx_slab = internal global i8* null
%State = type { i8*, i64, i8*, i64*, i64, i64 } ; (tape, ptr, slab, stack, sp, cap)
%timespec = type { i64, i64 } ; (tv_sec, tv_nsec)

declare i32 @putchar(i32)
declare i32 @getchar()
declare i32 @fflush(i8*)
declare i32 @nanosleep(%timespec*, %timespec*)
declare i8* @malloc(i64)
declare void @free(i8*)
declare i32 @pthread_create(i64*, i8*, i8* (i8*)*, i8*)
declare i32 @pthread_join(i64, i8**)
declare i32 @pthread_mutex_init(i8*, i8*)
declare i32 @pthread_mutex_lock(i8*)
declare i32 @pthread_mutex_unlock(i8*)
declare i32 @pthread_cond_init(i8*, i8*)
declare i32 @pthread_cond_wait(i8*, i8*)
declare i32 @pthread_cond_broadcast(i8*)
declare void @llvm.memcpy.p0i8.p0i8.i64(i8* nocapture writeonly, i8* nocapture readonly, i64, i1 immarg)
define internal i8* @bf_gep_cell_ptr(%State* nocapture nonnull %S) alwaysinline nounwind {
  %fld_base = getelementptr %State, %State* %S, i32 0, i32 0
  %base = load i8*, i8** %fld_base
  %fld_idx = getelementptr %State, %State* %S, i32 0, i32 1
  %idx  = load i64,  i64*  %fld_idx
  %p    = getelementptr i8, i8* %base, i64 %idx
  ret i8* %p
}
define internal i8* @bf_lock_slot_addr(%State* nocapture nonnull %S, i64 %idx) alwaysinline nounwind {
  %fld_slab = getelementptr %State, %State* %S, i32 0, i32 2
  %slab = load i8*, i8** %fld_slab
  %off  = mul i64 %idx, 64
  %slot = getelementptr i8, i8* %slab, i64 %off
  ret i8* %slot
}
define internal void @push_lock(%State* nocapture nonnull %S, i64 %idx) nounwind {
  %fld_sp = getelementptr %State, %State* %S, i32 0, i32 4
  %sp  = load i64,  i64*  %fld_sp
  %fld_cap = getelementptr %State, %State* %S, i32 0, i32 5
  %cap = load i64,  i64*  %fld_cap
  %fld_buf = getelementptr %State, %State* %S, i32 0, i32 3
  %need_grow = icmp eq i64 %sp, %cap
  br i1 %need_grow, label %grow, label %push
  grow:
  %oldbuf = load i64*, i64** %fld_buf
  %oldcap = load i64, i64* %fld_cap
  %newcap = shl i64 %oldcap, 1
  %oldbytes = mul i64 %oldcap, 8
  %newbytes = mul i64 %newcap, 8
  %newraw = call i8* @malloc(i64 %newbytes)
  %newbuf = bitcast i8* %newraw to i64*
  %dst = bitcast i64* %newbuf to i8*
  %src = bitcast i64* %oldbuf to i8*
  call void @llvm.memcpy.p0i8.p0i8.i64(i8* %dst, i8* %src, i64 %oldbytes, i1 false)
  call void @free(i8* %src)
  store i64* %newbuf, i64** %fld_buf
  store i64  %newcap, i64*  %fld_cap
  br label %push
  push:
  %buf = load i64*, i64** %fld_buf
  %slotp = getelementptr i64, i64* %buf, i64 %sp
  store i64 %idx, i64* %slotp
  %sp1 = add i64 %sp, 1
  store i64 %sp1, i64* %fld_sp
  ret void
}
define internal i64 @pop_lock(%State* nocapture nonnull %S) nounwind {
  %fld_sp2 = getelementptr %State, %State* %S, i32 0, i32 4
  %sp  = load i64, i64* %fld_sp2
  %sp1 = add i64 %sp, -1
  store i64 %sp1, i64* %fld_sp2
  %fld_buf2 = getelementptr %State, %State* %S, i32 0, i32 3
  %buf = load i64*, i64** %fld_buf2
  %slotp = getelementptr i64, i64* %buf, i64 %sp1
  %idx = load i64, i64* %slotp
  ret i64 %idx
}
define internal void @bf_inc_ptr(%State* nocapture nonnull %S, i64 %delta) alwaysinline nounwind {
  %fld_ptr = getelementptr %State,%State* %S, i32 0, i32 1
  %v = load i64, i64* %fld_ptr
  %u = add i64 %v, %delta
  store i64 %u, i64* %fld_ptr
  ret void
}
define internal void @bf_add_cell(%State* nocapture nonnull %S, i32 %delta) alwaysinline nounwind {
  %p = call i8* @bf_gep_cell_ptr(%State* %S)
  %v0 = load i8, i8* %p
  %d8 = trunc i32 %delta to i8
  %v1 = add i8 %v0, %d8
  store i8 %v1, i8* %p
  ret void
}
define internal void @bf_output(%State* nocapture nonnull %S) nounwind {
  %p = call i8* @bf_gep_cell_ptr(%State* %S)
  %v = load i8, i8* %p
  %w = zext i8 %v to i32
  call i32 @putchar(i32 %w)
  call i32 @fflush(i8* null)
  ret void
}
define internal void @bf_input(%State* nocapture nonnull %S) nounwind {
  %c = call i32 @getchar()
  %eof = icmp slt i32 %c, 0
  %cz = select i1 %eof, i32 0, i32 %c
  %b = trunc i32 %cz to i8
  %p = call i8* @bf_gep_cell_ptr(%State* %S)
  store i8 %b, i8* %p
  ret void
}
define internal void @bf_sleep(i32 %ticks) nounwind {
  %t64 = zext i32 %ticks to i64
  %ns_total = mul i64 %t64, 100000000
  %sec  = udiv i64 %ns_total, 1000000000
  %nsec = urem i64 %ns_total, 1000000000
  %ts = alloca %timespec
  %ts_sec  = getelementptr %timespec, %timespec* %ts, i32 0, i32 0
  %ts_nsec = getelementptr %timespec, %timespec* %ts, i32 0, i32 1
  store i64 %sec,  i64* %ts_sec
  store i64 %nsec, i64* %ts_nsec
  call i32 @nanosleep(%timespec* %ts, %timespec* null)
  ret void
}
define internal void @bf_lock_acquire(%State* nocapture nonnull %S) nounwind {
  %fld_ptr2 = getelementptr %State,%State* %S, i32 0, i32 1
  %idx = load i64, i64* %fld_ptr2
  %slot = call i8* @bf_lock_slot_addr(%State* %S, i64 %idx)
  call i32 @pthread_mutex_lock(i8* %slot)
  call void @push_lock(%State* %S, i64 %idx)
  ret void
}
define internal void @bf_lock_release(%State* nocapture nonnull %S) nounwind {
  %idx = call i64 @pop_lock(%State* %S)
  %slot = call i8* @bf_lock_slot_addr(%State* %S, i64 %idx)
  call i32 @pthread_mutex_unlock(i8* %slot)
  ret void
}
define internal i8* @bf_cond_slot_addr(%State* nocapture nonnull %S, i64 %idx) alwaysinline nounwind {
  %csl = load i8*, i8** @cond_slab
  %coff = mul i64 %idx, 64
  %cslot = getelementptr i8, i8* %csl, i64 %coff
  ret i8* %cslot
}
define internal i8* @bf_cmtx_slot_addr(%State* nocapture nonnull %S, i64 %idx) alwaysinline nounwind {
  %msl = load i8*, i8** @cond_mtx_slab
  %moff = mul i64 %idx, 64
  %mslot = getelementptr i8, i8* %msl, i64 %moff
  ret i8* %mslot
}
define internal void @bf_wait(%State* nocapture nonnull %S) nounwind {
  %fld_ptrW = getelementptr %State, %State* %S, i32 0, i32 1
  %idxW = load i64, i64* %fld_ptrW
  %cmW = call i8* @bf_cmtx_slot_addr(%State* %S, i64 %idxW)
  %cvW = call i8* @bf_cond_slot_addr(%State* %S, i64 %idxW)
  call i32 @pthread_mutex_lock(i8* %cmW)
  call i32 @pthread_cond_wait(i8* %cvW, i8* %cmW)
  call i32 @pthread_mutex_unlock(i8* %cmW)
  ret void
}
define internal void @bf_notify(%State* nocapture nonnull %S) nounwind {
  %fld_ptrN = getelementptr %State, %State* %S, i32 0, i32 1
  %idxN = load i64, i64* %fld_ptrN
  %cmN = call i8* @bf_cmtx_slot_addr(%State* %S, i64 %idxN)
  %cvN = call i8* @bf_cond_slot_addr(%State* %S, i64 %idxN)
  call i32 @pthread_mutex_lock(i8* %cmN)
  call i32 @pthread_cond_broadcast(i8* %cvN)
  call i32 @pthread_mutex_unlock(i8* %cmN)
  ret void
}

define i32 @main() {
entry:
  %slab_bytes = mul i64 30000, 64
  %slab = call i8* @malloc(i64 %slab_bytes)
  store i8* %slab, i8** @mutex_slab
  %cond_bytes = mul i64 30000, 64
  %cslab = call i8* @malloc(i64 %cond_bytes)
  store i8* %cslab, i8** @cond_slab
  %cmslab = call i8* @malloc(i64 %cond_bytes)
  store i8* %cmslab, i8** @cond_mtx_slab
  %i = alloca i64
  store i64 0, i64* %i
  br label %init.loop
init.loop:
  %cur = load i64, i64* %i
  %cond = icmp slt i64 %cur, 30000
  br i1 %cond, label %init.body, label %init.end
init.body:
  %off = mul i64 %cur, 64
  %sl0 = load i8*, i8** @mutex_slab
  %slot = getelementptr i8, i8* %sl0, i64 %off
  call i32 @pthread_mutex_init(i8* %slot, i8* null)
  %cl0 = load i8*, i8** @cond_slab
  %cslot = getelementptr i8, i8* %cl0, i64 %off
  call i32 @pthread_cond_init(i8* %cslot, i8* null)
  %ml0 = load i8*, i8** @cond_mtx_slab
  %mslot2 = getelementptr i8, i8* %ml0, i64 %off
  call i32 @pthread_mutex_init(i8* %mslot2, i8* null)
  %cur1 = add i64 %cur, 1
  store i64 %cur1, i64* %i
  br label %init.loop
init.end:
  %st_end = getelementptr %State, %State* null, i32 1
  %st_bytes = ptrtoint %State* %st_end to i64
  %st = call i8* @malloc(i64 %st_bytes)
  %S = bitcast i8* %st to %State*
  %base = getelementptr [30000 x i8], [30000 x i8]* @tape, i64 0, i64 0
  %fld0 = getelementptr %State, %State* %S, i32 0, i32 0
  store i8* %base, i8** %fld0
  %fld1 = getelementptr %State, %State* %S, i32 0, i32 1
  store i64 0, i64* %fld1
  %sl = load i8*, i8** @mutex_slab
  %fld2 = getelementptr %State, %State* %S, i32 0, i32 2
  store i8* %sl, i8** %fld2
  %lsz = mul i64 16, 8
  %stk = call i8* @malloc(i64 %lsz)
  %stk64 = bitcast i8* %stk to i64*
  %fld3 = getelementptr %State, %State* %S, i32 0, i32 3
  store i64* %stk64, i64** %fld3
  %fld4 = getelementptr %State, %State* %S, i32 0, i32 4
  store i64 0, i64* %fld4
  %fld5 = getelementptr %State, %State* %S, i32 0, i32 5
  store i64 16, i64* %fld5
  call void @thunk_main(%State* %S)
  ret i32 0
}
define internal void @thunk_main(%State* nocapture nonnull %S) {
entry:
  ret void
}

";

const EMPTY_SANITIZED: &str = r"@tape = internal global [30000 x i8] zeroinitializer
@mutex_slab = internal global i8* null
@cond_slab = internal global i8* null
@cond_mtx_slab = internal global i8* null
%State = type { i8*, i64, i8*, i64*, i64, i64, i64 } ; (tape, ptr, slab, stack, sp, cap, tid)
%timespec = type { i64, i64 } ; (tv_sec, tv_nsec)

declare i32 @putchar(i32)
declare i32 @getchar()
declare i32 @fflush(i8*)
declare i32 @nanosleep(%timespec*, %timespec*)
declare i8* @malloc(i64)
declare void @free(i8*)
declare i32 @pthread_create(i64*, i8*, i8* (i8*)*, i8*)
declare i32 @pthread_join(i64, i8**)
declare i32 @pthread_mutex_init(i8*, i8*)
declare i32 @pthread_mutex_lock(i8*)
declare i32 @pthread_mutex_unlock(i8*)
declare i32 @pthread_cond_init(i8*, i8*)
declare i32 @pthread_cond_wait(i8*, i8*)
declare i32 @pthread_cond_broadcast(i8*)
declare i64 @pthread_self()
declare void @tsan_read(%State*)
declare void @tsan_write(%State*)
declare void @tsan_acquire(%State*, i64)
declare void @tsan_release(%State*, i64)
declare void @tsan_fork(i64)
declare void @tsan_join(i64)
declare void @llvm.memcpy.p0i8.p0i8.i64(i8* nocapture writeonly, i8* nocapture readonly, i64, i1 immarg)
define internal i8* @bf_gep_cell_ptr(%State* nocapture nonnull %S) alwaysinline nounwind {
  %fld_base = getelementptr %State, %State* %S, i32 0, i32 0
  %base = load i8*, i8** %fld_base
  %fld_idx = getelementptr %State, %State* %S, i32 0, i32 1
  %idx  = load i64,  i64*  %fld_idx
  %p    = getelementptr i8, i8* %base, i64 %idx
  ret i8* %p
}
define internal i8* @bf_lock_slot_addr(%State* nocapture nonnull %S, i64 %idx) alwaysinline nounwind {
  %fld_slab = getelementptr %State, %State* %S, i32 0, i32 2
  %slab = load i8*, i8** %fld_slab
  %off  = mul i64 %idx, 64
  %slot = getelementptr i8, i8* %slab, i64 %off
  ret i8* %slot
}
define internal void @push_lock(%State* nocapture nonnull %S, i64 %idx) nounwind {
  %fld_sp = getelementptr %State, %State* %S, i32 0, i32 4
  %sp  = load i64,  i64*  %fld_sp
  %fld_cap = getelementptr %State, %State* %S, i32 0, i32 5
  %cap = load i64,  i64*  %fld_cap
  %fld_buf = getelementptr %State, %State* %S, i32 0, i32 3
  %need_grow = icmp eq i64 %sp, %cap
  br i1 %need_grow, label %grow, label %push
  grow:
  %oldbuf = load i64*, i64** %fld_buf
  %oldcap = load i64, i64* %fld_cap
  %newcap = shl i64 %oldcap, 1
  %oldbytes = mul i64 %oldcap, 8
  %newbytes = mul i64 %newcap, 8
  %newraw = call i8* @malloc(i64 %newbytes)
  %newbuf = bitcast i8* %newraw to i64*
  %dst = bitcast i64* %newbuf to i8*
  %src = bitcast i64* %oldbuf to i8*
  call void @llvm.memcpy.p0i8.p0i8.i64(i8* %dst, i8* %src, i64 %oldbytes, i1 false)
  call void @free(i8* %src)
  store i64* %newbuf, i64** %fld_buf
  store i64  %newcap, i64*  %fld_cap
  br label %push
  push:
  %buf = load i64*, i64** %fld_buf
  %slotp = getelementptr i64, i64* %buf, i64 %sp
  store i64 %idx, i64* %slotp
  %sp1 = add i64 %sp, 1
  store i64 %sp1, i64* %fld_sp
  ret void
}
define internal i64 @pop_lock(%State* nocapture nonnull %S) nounwind {
  %fld_sp2 = getelementptr %State, %State* %S, i32 0, i32 4
  %sp  = load i64, i64* %fld_sp2
  %sp1 = add i64 %sp, -1
  store i64 %sp1, i64* %fld_sp2
  %fld_buf2 = getelementptr %State, %State* %S, i32 0, i32 3
  %buf = load i64*, i64** %fld_buf2
  %slotp = getelementptr i64, i64* %buf, i64 %sp1
  %idx = load i64, i64* %slotp
  ret i64 %idx
}
define internal void @bf_inc_ptr(%State* nocapture nonnull %S, i64 %delta) alwaysinline nounwind {
  %fld_ptr = getelementptr %State,%State* %S, i32 0, i32 1
  %v = load i64, i64* %fld_ptr
  %u = add i64 %v, %delta
  store i64 %u, i64* %fld_ptr
  ret void
}
define internal void @bf_add_cell(%State* nocapture nonnull %S, i32 %delta) alwaysinline nounwind {
  %p = call i8* @bf_gep_cell_ptr(%State* %S)
  call void @tsan_read(%State* %S)
  %v0 = load i8, i8* %p
  %d8 = trunc i32 %delta to i8
  %v1 = add i8 %v0, %d8
  call void @tsan_write(%State* %S)
  store i8 %v1, i8* %p
  ret void
}
define internal void @bf_output(%State* nocapture nonnull %S) nounwind {
  %p = call i8* @bf_gep_cell_ptr(%State* %S)
  call void @tsan_read(%State* %S)
  %v = load i8, i8* %p
  %w = zext i8 %v to i32
  call i32 @putchar(i32 %w)
  call i32 @fflush(i8* null)
  ret void
}
define internal void @bf_input(%State* nocapture nonnull %S) nounwind {
  %c = call i32 @getchar()
  %eof = icmp slt i32 %c, 0
  %cz = select i1 %eof, i32 0, i32 %c
  %b = trunc i32 %cz to i8
  %p = call i8* @bf_gep_cell_ptr(%State* %S)
  call void @tsan_write(%State* %S)
  store i8 %b, i8* %p
  ret void
}
define internal void @bf_sleep(i32 %ticks) nounwind {
  %t64 = zext i32 %ticks to i64
  %ns_total = mul i64 %t64, 100000000
  %sec  = udiv i64 %ns_total, 1000000000
  %nsec = urem i64 %ns_total, 1000000000
  %ts = alloca %timespec
  %ts_sec  = getelementptr %timespec, %timespec* %ts, i32 0, i32 0
  %ts_nsec = getelementptr %timespec, %timespec* %ts, i32 0, i32 1
  store i64 %sec,  i64* %ts_sec
  store i64 %nsec, i64* %ts_nsec
  call i32 @nanosleep(%timespec* %ts, %timespec* null)
  ret void
}
define internal void @bf_lock_acquire(%State* nocapture nonnull %S) nounwind {
  %fld_ptr2 = getelementptr %State,%State* %S, i32 0, i32 1
  %idx = load i64, i64* %fld_ptr2
  %slot = call i8* @bf_lock_slot_addr(%State* %S, i64 %idx)
  call i32 @pthread_mutex_lock(i8* %slot)
  call void @tsan_acquire(%State* %S, i64 %idx)
  call void @push_lock(%State* %S, i64 %idx)
  ret void
}
define internal void @bf_lock_release(%State* nocapture nonnull %S) nounwind {
  %idx = call i64 @pop_lock(%State* %S)
  call void @tsan_release(%State* %S, i64 %idx)
  %slot = call i8* @bf_lock_slot_addr(%State* %S, i64 %idx)
  call i32 @pthread_mutex_unlock(i8* %slot)
  ret void
}
define internal i8* @bf_cond_slot_addr(%State* nocapture nonnull %S, i64 %idx) alwaysinline nounwind {
  %csl = load i8*, i8** @cond_slab
  %coff = mul i64 %idx, 64
  %cslot = getelementptr i8, i8* %csl, i64 %coff
  ret i8* %cslot
}
define internal i8* @bf_cmtx_slot_addr(%State* nocapture nonnull %S, i64 %idx) alwaysinline nounwind {
  %msl = load i8*, i8** @cond_mtx_slab
  %moff = mul i64 %idx, 64
  %mslot = getelementptr i8, i8* %msl, i64 %moff
  ret i8* %mslot
}
define internal void @bf_wait(%State* nocapture nonnull %S) nounwind {
  %fld_ptrW = getelementptr %State, %State* %S, i32 0, i32 1
  %idxW = load i64, i64* %fld_ptrW
  %cmW = call i8* @bf_cmtx_slot_addr(%State* %S, i64 %idxW)
  %cvW = call i8* @bf_cond_slot_addr(%State* %S, i64 %idxW)
  call i32 @pthread_mutex_lock(i8* %cmW)
  call i32 @pthread_cond_wait(i8* %cvW, i8* %cmW)
  call i32 @pthread_mutex_unlock(i8* %cmW)
  ret void
}
define internal void @bf_notify(%State* nocapture nonnull %S) nounwind {
  %fld_ptrN = getelementptr %State, %State* %S, i32 0, i32 1
  %idxN = load i64, i64* %fld_ptrN
  %cmN = call i8* @bf_cmtx_slot_addr(%State* %S, i64 %idxN)
  %cvN = call i8* @bf_cond_slot_addr(%State* %S, i64 %idxN)
  call i32 @pthread_mutex_lock(i8* %cmN)
  call i32 @pthread_cond_broadcast(i8* %cvN)
  call i32 @pthread_mutex_unlock(i8* %cmN)
  ret void
}

define i32 @main() {
entry:
  %slab_bytes = mul i64 30000, 64
  %slab = call i8* @malloc(i64 %slab_bytes)
  store i8* %slab, i8** @mutex_slab
  %cond_bytes = mul i64 30000, 64
  %cslab = call i8* @malloc(i64 %cond_bytes)
  store i8* %cslab, i8** @cond_slab
  %cmslab = call i8* @malloc(i64 %cond_bytes)
  store i8* %cmslab, i8** @cond_mtx_slab
  %i = alloca i64
  store i64 0, i64* %i
  br label %init.loop
init.loop:
  %cur = load i64, i64* %i
  %cond = icmp slt i64 %cur, 30000
  br i1 %cond, label %init.body, label %init.end
init.body:
  %off = mul i64 %cur, 64
  %sl0 = load i8*, i8** @mutex_slab
  %slot = getelementptr i8, i8* %sl0, i64 %off
  call i32 @pthread_mutex_init(i8* %slot, i8* null)
  %cl0 = load i8*, i8** @cond_slab
  %cslot = getelementptr i8, i8* %cl0, i64 %off
  call i32 @pthread_cond_init(i8* %cslot, i8* null)
  %ml0 = load i8*, i8** @cond_mtx_slab
  %mslot2 = getelementptr i8, i8* %ml0, i64 %off
  call i32 @pthread_mutex_init(i8* %mslot2, i8* null)
  %cur1 = add i64 %cur, 1
  store i64 %cur1, i64* %i
  br label %init.loop
init.end:
  %st_end = getelementptr %State, %State* null, i32 1
  %st_bytes = ptrtoint %State* %st_end to i64
  %st = call i8* @malloc(i64 %st_bytes)
  %S = bitcast i8* %st to %State*
  %base = getelementptr [30000 x i8], [30000 x i8]* @tape, i64 0, i64 0
  %fld0 = getelementptr %State, %State* %S, i32 0, i32 0
  store i8* %base, i8** %fld0
  %fld1 = getelementptr %State, %State* %S, i32 0, i32 1
  store i64 0, i64* %fld1
  %sl = load i8*, i8** @mutex_slab
  %fld2 = getelementptr %State, %State* %S, i32 0, i32 2
  store i8* %sl, i8** %fld2
  %lsz = mul i64 16, 8
  %stk = call i8* @malloc(i64 %lsz)
  %stk64 = bitcast i8* %stk to i64*
  %fld3 = getelementptr %State, %State* %S, i32 0, i32 3
  store i64* %stk64, i64** %fld3
  %fld4 = getelementptr %State, %State* %S, i32 0, i32 4
  store i64 0, i64* %fld4
  %fld5 = getelementptr %State, %State* %S, i32 0, i32 5
  store i64 16, i64* %fld5
  %tid = call i64 @pthread_self()
  %fld6 = getelementptr %State, %State* %S, i32 0, i32 6
  store i64 %tid, i64* %fld6
  call void @thunk_main(%State* %S)
  ret i32 0
}
define internal void @thunk_main(%State* nocapture nonnull %S) {
entry:
  ret void
}

";

#[test]
fn the_empty_program_plain() {
    assert_eq!(compile("", false), EMPTY_PLAIN);
}

#[test]
fn the_empty_program_sanitized() {
    assert_eq!(compile("", true), EMPTY_SANITIZED);
}

#[test]
fn the_constants_of_the_emitted_program() {
    assert_eq!(TAPE_LEN, 30000);
    assert_eq!(MUTEX_STRIDE, 64);
    assert_eq!(LOCK_STACK_INIT, 16);
    assert!(EMPTY_PLAIN.contains("@tape = internal global [30000 x i8] zeroinitializer\n"));
    assert!(EMPTY_PLAIN.contains("  %slab_bytes = mul i64 30000, 64\n"));
    assert!(EMPTY_PLAIN.contains("  %off  = mul i64 %idx, 64\n"));
    assert!(EMPTY_PLAIN.contains("  %lsz = mul i64 16, 8\n"));
    assert!(EMPTY_PLAIN.contains("  %ns_total = mul i64 %t64, 100000000\n"));
}

#[test]
fn the_state_has_the_thread_id_only_when_sanitizing() {
    assert!(EMPTY_PLAIN.contains("%State = type { i8*, i64, i8*, i64*, i64, i64 } ;"));
    assert!(EMPTY_SANITIZED.contains("%State = type { i8*, i64, i8*, i64*, i64, i64, i64 } ;"));
    assert!(!EMPTY_PLAIN.contains("pthread_self"));
    assert!(EMPTY_SANITIZED.contains("  %tid = call i64 @pthread_self()\n"));
}

#[test]
fn the_hooks_are_there_only_when_sanitizing() {
    assert_eq!(count(EMPTY_PLAIN, "tsan_"), 0);
    for hook in [
        "declare void @tsan_read(%State*)\n",
        "declare void @tsan_write(%State*)\n",
        "declare void @tsan_acquire(%State*, i64)\n",
        "declare void @tsan_release(%State*, i64)\n",
        "declare void @tsan_fork(i64)\n",
        "declare void @tsan_join(i64)\n",
    ] {
        assert_eq!(count(EMPTY_SANITIZED, hook), 1);
    }
    assert_eq!(count(EMPTY_SANITIZED, "  call void @tsan_read(%State* %S)\n"), 2);
    assert_eq!(count(EMPTY_SANITIZED, "  call void @tsan_write(%State* %S)\n"), 2);
    assert_eq!(count(EMPTY_SANITIZED, "  call void @tsan_acquire(%State* %S, i64 %idx)\n"), 1);
    assert_eq!(count(EMPTY_SANITIZED, "  call void @tsan_release(%State* %S, i64 %idx)\n"), 1);
}

#[test]
fn the_opening_does_not_depend_on_the_program() {
    for source in ["+", "[-]", "{+|+}", "{^|v}", "(((("] {
        assert_eq!(before_main(&compile(source, false)), before_main(EMPTY_PLAIN));
        assert_eq!(before_main(&compile(source, true)), before_main(EMPTY_SANITIZED));
    }
}

#[test]
fn the_lock_stack_starts_at_sixteen_and_doubles() {
    assert!(EMPTY_PLAIN.contains("  %need_grow = icmp eq i64 %sp, %cap\n"));
    assert!(EMPTY_PLAIN.contains("  %newcap = shl i64 %oldcap, 1\n"));
    assert!(EMPTY_PLAIN.contains("  store i64 16, i64* %fld5\n"));
}

const HELLO_QUEUED: &str = r"define internal void @thunk_main(%State* nocapture nonnull %S) {
entry:
  call void @bf_add_cell(%State* %S, i32 1)
  call void @bf_add_cell(%State* %S, i32 1)
  call void @bf_add_cell(%State* %S, i32 1)
  call void @bf_add_cell(%State* %S, i32 1)
  call void @bf_add_cell(%State* %S, i32 1)
  call void @bf_add_cell(%State* %S, i32 1)
  call void @bf_add_cell(%State* %S, i32 1)
  call void @bf_add_cell(%State* %S, i32 1)
  call void @bf_add_cell(%State* %S, i32 1)
  br label %loop.cond.0
loop.cond.0:
  %p0 = call i8* @bf_gep_cell_ptr(%State* %S)
  %v0 = load i8, i8* %p0
  %nz0 = icmp ne i8 %v0, 0
  br i1 %nz0, label %loop.body.0, label %loop.end.0
loop.body.0:
  call void @bf_inc_ptr(%State* %S, i64 1)
  call void @bf_add_cell(%State* %S, i32 1)
  call void @bf_add_cell(%State* %S, i32 1)
  call void @bf_add_cell(%State* %S, i32 1)
  call void @bf_add_cell(%State* %S, i32 1)
  call void @bf_add_cell(%State* %S, i32 1)
  call void @bf_add_cell(%State* %S, i32 1)
  call void @bf_add_cell(%State* %S, i32 1)
  call void @bf_add_cell(%State* %S, i32 1)
  call void @bf_inc_ptr(%State* %S, i64 -1)
  call void @bf_add_cell(%State* %S, i32 -1)
  br label %loop.cond.0
loop.end.0:
  call void @bf_inc_ptr(%State* %S, i64 1)
  call void @bf_output(%State* %S)
  ret void
}

";

#[test]
fn a_loop_that_prints() {
    assert_eq!(after_main(&compile("+++++++++[>++++++++<-]>.", false)), HELLO_QUEUED);
}

const RACE_QUEUED: &str = r"define internal void @thunk_p0_0(%State* nocapture nonnull %S) {
entry:
  call void @bf_add_cell(%State* %S, i32 1)
  ret void
}

define internal i8* @thread_start_p0_0(i8* %arg) nounwind {
  %S = bitcast i8* %arg to %State*
  %fld_tid = getelementptr %State, %State* %S, i32 0, i32 6
  %tid_parent = load i64, i64* %fld_tid
  call void @tsan_fork(i64 %tid_parent)
  %tid_self = call i64 @pthread_self()
  store i64 %tid_self, i64* %fld_tid
  call void @thunk_p0_0(%State* %S)
  ret i8* null
}

define internal void @thunk_p0_1(%State* nocapture nonnull %S) {
entry:
  call void @bf_add_cell(%State* %S, i32 1)
  ret void
}

define internal i8* @thread_start_p0_1(i8* %arg) nounwind {
  %S = bitcast i8* %arg to %State*
  %fld_tid = getelementptr %State, %State* %S, i32 0, i32 6
  %tid_parent = load i64, i64* %fld_tid
  call void @tsan_fork(i64 %tid_parent)
  %tid_self = call i64 @pthread_self()
  store i64 %tid_self, i64* %fld_tid
  call void @thunk_p0_1(%State* %S)
  ret i8* null
}

define internal void @thunk_main(%State* nocapture nonnull %S) {
entry:
  %threads0 = alloca [2 x i64]
  %st_end0_0 = getelementptr %State, %State* null, i32 1
  %st_bytes0_0 = ptrtoint %State* %st_end0_0 to i64
  %st0_0 = call i8* @malloc(i64 %st_bytes0_0)
  %Schild1 = bitcast i8* %st0_0 to %State*
  %fld_parent_base0_0 = getelementptr %State,%State* %S, i32 0, i32 0
  %base0_0 = load i8*, i8** %fld_parent_base0_0
  %fld_child_base0_0 = getelementptr %State,%State* %Schild1, i32 0, i32 0
  store i8* %base0_0, i8** %fld_child_base0_0
  %fld_parent_idx0_0 = getelementptr %State,%State* %S, i32 0, i32 1
  %idx0_0  = load i64,  i64*  %fld_parent_idx0_0
  %fld_child_idx0_0 = getelementptr %State,%State* %Schild1, i32 0, i32 1
  store i64 %idx0_0,  i64*  %fld_child_idx0_0
  %fld_parent_sl0_0 = getelementptr %State,%State* %S, i32 0, i32 2
  %sl0_0   = load i8*, i8** %fld_parent_sl0_0
  %fld_child_sl0_0 = getelementptr %State,%State* %Schild1, i32 0, i32 2
  store i8* %sl0_0,   i8** %fld_child_sl0_0
  %lsz0_0 = mul i64 16, 8
  %stk0_0 = call i8* @malloc(i64 %lsz0_0)
  %stk640_0 = bitcast i8* %stk0_0 to i64*
  %fld_child_stk0_0 = getelementptr %State,%State* %Schild1, i32 0, i32 3
  store i64* %stk640_0, i64** %fld_child_stk0_0
  %fld_child_sp0_0 = getelementptr %State,%State* %Schild1, i32 0, i32 4
  store i64 0, i64* %fld_child_sp0_0
  %fld_child_cap0_0 = getelementptr %State,%State* %Schild1, i32 0, i32 5
  store i64 16, i64* %fld_child_cap0_0
  %fld_parent_tid0_0 = getelementptr %State,%State* %S, i32 0, i32 6
  %tid0_0 = load i64, i64* %fld_parent_tid0_0
  %fld_child_tid0_0 = getelementptr %State,%State* %Schild1, i32 0, i32 6
  store i64 %tid0_0, i64* %fld_child_tid0_0
  %tptr0_0 = getelementptr [2 x i64], [2 x i64]* %threads0, i64 0, i64 0
  %arg0_0 = bitcast %State* %Schild1 to i8*
  call i32 @pthread_create(i64* %tptr0_0, i8* null, i8* (i8*)* @thread_start_p0_0, i8* %arg0_0)
  %st_end0_1 = getelementptr %State, %State* null, i32 1
  %st_bytes0_1 = ptrtoint %State* %st_end0_1 to i64
  %st0_1 = call i8* @malloc(i64 %st_bytes0_1)
  %Schild2 = bitcast i8* %st0_1 to %State*
  %fld_parent_base0_1 = getelementptr %State,%State* %S, i32 0, i32 0
  %base0_1 = load i8*, i8** %fld_parent_base0_1
  %fld_child_base0_1 = getelementptr %State,%State* %Schild2, i32 0, i32 0
  store i8* %base0_1, i8** %fld_child_base0_1
  %fld_parent_idx0_1 = getelementptr %State,%State* %S, i32 0, i32 1
  %idx0_1  = load i64,  i64*  %fld_parent_idx0_1
  %fld_child_idx0_1 = getelementptr %State,%State* %Schild2, i32 0, i32 1
  store i64 %idx0_1,  i64*  %fld_child_idx0_1
  %fld_parent_sl0_1 = getelementptr %State,%State* %S, i32 0, i32 2
  %sl0_1   = load i8*, i8** %fld_parent_sl0_1
  %fld_child_sl0_1 = getelementptr %State,%State* %Schild2, i32 0, i32 2
  store i8* %sl0_1,   i8** %fld_child_sl0_1
  %lsz0_1 = mul i64 16, 8
  %stk0_1 = call i8* @malloc(i64 %lsz0_1)
  %stk640_1 = bitcast i8* %stk0_1 to i64*
  %fld_child_stk0_1 = getelementptr %State,%State* %Schild2, i32 0, i32 3
  store i64* %stk640_1, i64** %fld_child_stk0_1
  %fld_child_sp0_1 = getelementptr %State,%State* %Schild2, i32 0, i32 4
  store i64 0, i64* %fld_child_sp0_1
  %fld_child_cap0_1 = getelementptr %State,%State* %Schild2, i32 0, i32 5
  store i64 16, i64* %fld_child_cap0_1
  %fld_parent_tid0_1 = getelementptr %State,%State* %S, i32 0, i32 6
  %tid0_1 = load i64, i64* %fld_parent_tid0_1
  %fld_child_tid0_1 = getelementptr %State,%State* %Schild2, i32 0, i32 6
  store i64 %tid0_1, i64* %fld_child_tid0_1
  %tptr0_1 = getelementptr [2 x i64], [2 x i64]* %threads0, i64 0, i64 1
  %arg0_1 = bitcast %State* %Schild2 to i8*
  call i32 @pthread_create(i64* %tptr0_1, i8* null, i8* (i8*)* @thread_start_p0_1, i8* %arg0_1)
  %tval0_0 = getelementptr [2 x i64], [2 x i64]* %threads0, i64 0, i64 0
  %tload0_0 = load i64, i64* %tval0_0
  call i32 @pthread_join(i64 %tload0_0, i8** null)
  call void @tsan_join(i64 %tload0_0)
  %tval0_1 = getelementptr [2 x i64], [2 x i64]* %threads0, i64 0, i64 1
  %tload0_1 = load i64, i64* %tval0_1
  call i32 @pthread_join(i64 %tload0_1, i8** null)
  call void @tsan_join(i64 %tload0_1)
  ret void
}

";

#[test]
fn two_unlocked_branches_sanitized() {
    assert_eq!(after_main(&compile("{+|+}", true)), RACE_QUEUED);
}

const HANDSHAKE_QUEUED: &str = r"define internal void @thunk_p0_0(%State* nocapture nonnull %S) {
entry:
  call void @bf_wait(%State* %S)
  ret void
}

define internal i8* @thread_start_p0_0(i8* %arg) nounwind {
  %S = bitcast i8* %arg to %State*
  call void @thunk_p0_0(%State* %S)
  ret i8* null
}

define internal void @thunk_p0_1(%State* nocapture nonnull %S) {
entry:
  call void @bf_notify(%State* %S)
  ret void
}

define internal i8* @thread_start_p0_1(i8* %arg) nounwind {
  %S = bitcast i8* %arg to %State*
  call void @thunk_p0_1(%State* %S)
  ret i8* null
}

define internal void @thunk_main(%State* nocapture nonnull %S) {
entry:
  %threads0 = alloca [2 x i64]
  %st_end0_0 = getelementptr %State, %State* null, i32 1
  %st_bytes0_0 = ptrtoint %State* %st_end0_0 to i64
  %st0_0 = call i8* @malloc(i64 %st_bytes0_0)
  %Schild1 = bitcast i8* %st0_0 to %State*
  %fld_parent_base0_0 = getelementptr %State,%State* %S, i32 0, i32 0
  %base0_0 = load i8*, i8** %fld_parent_base0_0
  %fld_child_base0_0 = getelementptr %State,%State* %Schild1, i32 0, i32 0
  store i8* %base0_0, i8** %fld_child_base0_0
  %fld_parent_idx0_0 = getelementptr %State,%State* %S, i32 0, i32 1
  %idx0_0  = load i64,  i64*  %fld_parent_idx0_0
  %fld_child_idx0_0 = getelementptr %State,%State* %Schild1, i32 0, i32 1
  store i64 %idx0_0,  i64*  %fld_child_idx0_0
  %fld_parent_sl0_0 = getelementptr %State,%State* %S, i32 0, i32 2
  %sl0_0   = load i8*, i8** %fld_parent_sl0_0
  %fld_child_sl0_0 = getelementptr %State,%State* %Schild1, i32 0, i32 2
  store i8* %sl0_0,   i8** %fld_child_sl0_0
  %lsz0_0 = mul i64 16, 8
  %stk0_0 = call i8* @malloc(i64 %lsz0_0)
  %stk640_0 = bitcast i8* %stk0_0 to i64*
  %fld_child_stk0_0 = getelementptr %State,%State* %Schild1, i32 0, i32 3
  store i64* %stk640_0, i64** %fld_child_stk0_0
  %fld_child_sp0_0 = getelementptr %State,%State* %Schild1, i32 0, i32 4
  store i64 0, i64* %fld_child_sp0_0
  %fld_child_cap0_0 = getelementptr %State,%State* %Schild1, i32 0, i32 5
  store i64 16, i64* %fld_child_cap0_0
  %tptr0_0 = getelementptr [2 x i64], [2 x i64]* %threads0, i64 0, i64 0
  %arg0_0 = bitcast %State* %Schild1 to i8*
  call i32 @pthread_create(i64* %tptr0_0, i8* null, i8* (i8*)* @thread_start_p0_0, i8* %arg0_0)
  %st_end0_1 = getelementptr %State, %State* null, i32 1
  %st_bytes0_1 = ptrtoint %State* %st_end0_1 to i64
  %st0_1 = call i8* @malloc(i64 %st_bytes0_1)
  %Schild2 = bitcast i8* %st0_1 to %State*
  %fld_parent_base0_1 = getelementptr %State,%State* %S, i32 0, i32 0
  %base0_1 = load i8*, i8** %fld_parent_base0_1
  %fld_child_base0_1 = getelementptr %State,%State* %Schild2, i32 0, i32 0
  store i8* %base0_1, i8** %fld_child_base0_1
  %fld_parent_idx0_1 = getelementptr %State,%State* %S, i32 0, i32 1
  %idx0_1  = load i64,  i64*  %fld_parent_idx0_1
  %fld_child_idx0_1 = getelementptr %State,%State* %Schild2, i32 0, i32 1
  store i64 %idx0_1,  i64*  %fld_child_idx0_1
  %fld_parent_sl0_1 = getelementptr %State,%State* %S, i32 0, i32 2
  %sl0_1   = load i8*, i8** %fld_parent_sl0_1
  %fld_child_sl0_1 = getelementptr %State,%State* %Schild2, i32 0, i32 2
  store i8* %sl0_1,   i8** %fld_child_sl0_1
  %lsz0_1 = mul i64 16, 8
  %stk0_1 = call i8* @malloc(i64 %lsz0_1)
  %stk640_1 = bitcast i8* %stk0_1 to i64*
  %fld_child_stk0_1 = getelementptr %State,%State* %Schild2, i32 0, i32 3
  store i64* %stk640_1, i64** %fld_child_stk0_1
  %fld_child_sp0_1 = getelementptr %State,%State* %Schild2, i32 0, i32 4
  store i64 0, i64* %fld_child_sp0_1
  %fld_child_cap0_1 = getelementptr %State,%State* %Schild2, i32 0, i32 5
  store i64 16, i64* %fld_child_cap0_1
  %tptr0_1 = getelementptr [2 x i64], [2 x i64]* %threads0, i64 0, i64 1
  %arg0_1 = bitcast %State* %Schild2 to i8*
  call i32 @pthread_create(i64* %tptr0_1, i8* null, i8* (i8*)* @thread_start_p0_1, i8* %arg0_1)
  %tval0_0 = getelementptr [2 x i64], [2 x i64]* %threads0, i64 0, i64 0
  %tload0_0 = load i64, i64* %tval0_0
  call i32 @pthread_join(i64 %tload0_0, i8** null)
  %tval0_1 = getelementptr [2 x i64], [2 x i64]* %threads0, i64 0, i64 1
  %tload0_1 = load i64, i64* %tval0_1
  call i32 @pthread_join(i64 %tload0_1, i8** null)
  ret void
}

";

#[test]
fn a_waiter_and_a_notifier() {
    assert_eq!(after_main(&compile("{^|v}", false)), HANDSHAKE_QUEUED);
}

const NESTED_QUEUED: &str = r"define internal void @thunk_p1_0(%State* nocapture nonnull %S) {
entry:
  br label %loop.cond.2
loop.cond.2:
  %p2 = call i8* @bf_gep_cell_ptr(%State* %S)
  call void @tsan_read(%State* %S)
  %v2 = load i8, i8* %p2
  %nz2 = icmp ne i8 %v2, 0
  br i1 %nz2, label %loop.body.2, label %loop.end.2
loop.body.2:
  call void @bf_add_cell(%State* %S, i32 1)
  br label %loop.cond.2
loop.end.2:
  ret void
}

define internal i8* @thread_start_p1_0(i8* %arg) nounwind {
  %S = bitcast i8* %arg to %State*
  %fld_tid = getelementptr %State, %State* %S, i32 0, i32 6
  %tid_parent = load i64, i64* %fld_tid
  call void @tsan_fork(i64 %tid_parent)
  %tid_self = call i64 @pthread_self()
  store i64 %tid_self, i64* %fld_tid
  call void @thunk_p1_0(%State* %S)
  ret i8* null
}

define internal void @thunk_p1_1(%State* nocapture nonnull %S) {
entry:
  call void @bf_sleep(i32 3)
  ret void
}

define internal i8* @thread_start_p1_1(i8* %arg) nounwind {
  %S = bitcast i8* %arg to %State*
  %fld_tid = getelementptr %State, %State* %S, i32 0, i32 6
  %tid_parent = load i64, i64* %fld_tid
  call void @tsan_fork(i64 %tid_parent)
  %tid_self = call i64 @pthread_self()
  store i64 %tid_self, i64* %fld_tid
  call void @thunk_p1_1(%State* %S)
  ret i8* null
}

define internal void @thunk_main(%State* nocapture nonnull %S) {
entry:
  br label %loop.cond.0
loop.cond.0:
  %p0 = call i8* @bf_gep_cell_ptr(%State* %S)
  call void @tsan_read(%State* %S)
  %v0 = load i8, i8* %p0
  %nz0 = icmp ne i8 %v0, 0
  br i1 %nz0, label %loop.body.0, label %loop.end.0
loop.body.0:
  %threads1 = alloca [2 x i64]
  %st_end1_0 = getelementptr %State, %State* null, i32 1
  %st_bytes1_0 = ptrtoint %State* %st_end1_0 to i64
  %st1_0 = call i8* @malloc(i64 %st_bytes1_0)
  %Schild3 = bitcast i8* %st1_0 to %State*
  %fld_parent_base1_0 = getelementptr %State,%State* %S, i32 0, i32 0
  %base1_0 = load i8*, i8** %fld_parent_base1_0
  %fld_child_base1_0 = getelementptr %State,%State* %Schild3, i32 0, i32 0
  store i8* %base1_0, i8** %fld_child_base1_0
  %fld_parent_idx1_0 = getelementptr %State,%State* %S, i32 0, i32 1
  %idx1_0  = load i64,  i64*  %fld_parent_idx1_0
  %fld_child_idx1_0 = getelementptr %State,%State* %Schild3, i32 0, i32 1
  store i64 %idx1_0,  i64*  %fld_child_idx1_0
  %fld_parent_sl1_0 = getelementptr %State,%State* %S, i32 0, i32 2
  %sl1_0   = load i8*, i8** %fld_parent_sl1_0
  %fld_child_sl1_0 = getelementptr %State,%State* %Schild3, i32 0, i32 2
  store i8* %sl1_0,   i8** %fld_child_sl1_0
  %lsz1_0 = mul i64 16, 8
  %stk1_0 = call i8* @malloc(i64 %lsz1_0)
  %stk641_0 = bitcast i8* %stk1_0 to i64*
  %fld_child_stk1_0 = getelementptr %State,%State* %Schild3, i32 0, i32 3
  store i64* %stk641_0, i64** %fld_child_stk1_0
  %fld_child_sp1_0 = getelementptr %State,%State* %Schild3, i32 0, i32 4
  store i64 0, i64* %fld_child_sp1_0
  %fld_child_cap1_0 = getelementptr %State,%State* %Schild3, i32 0, i32 5
  store i64 16, i64* %fld_child_cap1_0
  %fld_parent_tid1_0 = getelementptr %State,%State* %S, i32 0, i32 6
  %tid1_0 = load i64, i64* %fld_parent_tid1_0
  %fld_child_tid1_0 = getelementptr %State,%State* %Schild3, i32 0, i32 6
  store i64 %tid1_0, i64* %fld_child_tid1_0
  %tptr1_0 = getelementptr [2 x i64], [2 x i64]* %threads1, i64 0, i64 0
  %arg1_0 = bitcast %State* %Schild3 to i8*
  call i32 @pthread_create(i64* %tptr1_0, i8* null, i8* (i8*)* @thread_start_p1_0, i8* %arg1_0)
  %st_end1_1 = getelementptr %State, %State* null, i32 1
  %st_bytes1_1 = ptrtoint %State* %st_end1_1 to i64
  %st1_1 = call i8* @malloc(i64 %st_bytes1_1)
  %Schild4 = bitcast i8* %st1_1 to %State*
  %fld_parent_base1_1 = getelementptr %State,%State* %S, i32 0, i32 0
  %base1_1 = load i8*, i8** %fld_parent_base1_1
  %fld_child_base1_1 = getelementptr %State,%State* %Schild4, i32 0, i32 0
  store i8* %base1_1, i8** %fld_child_base1_1
  %fld_parent_idx1_1 = getelementptr %State,%State* %S, i32 0, i32 1
  %idx1_1  = load i64,  i64*  %fld_parent_idx1_1
  %fld_child_idx1_1 = getelementptr %State,%State* %Schild4, i32 0, i32 1
  store i64 %idx1_1,  i64*  %fld_child_idx1_1
  %fld_parent_sl1_1 = getelementptr %State,%State* %S, i32 0, i32 2
  %sl1_1   = load i8*, i8** %fld_parent_sl1_1
  %fld_child_sl1_1 = getelementptr %State,%State* %Schild4, i32 0, i32 2
  store i8* %sl1_1,   i8** %fld_child_sl1_1
  %lsz1_1 = mul i64 16, 8
  %stk1_1 = call i8* @malloc(i64 %lsz1_1)
  %stk641_1 = bitcast i8* %stk1_1 to i64*
  %fld_child_stk1_1 = getelementptr %State,%State* %Schild4, i32 0, i32 3
  store i64* %stk641_1, i64** %fld_child_stk1_1
  %fld_child_sp1_1 = getelementptr %State,%State* %Schild4, i32 0, i32 4
  store i64 0, i64* %fld_child_sp1_1
  %fld_child_cap1_1 = getelementptr %State,%State* %Schild4, i32 0, i32 5
  store i64 16, i64* %fld_child_cap1_1
  %fld_parent_tid1_1 = getelementptr %State,%State* %S, i32 0, i32 6
  %tid1_1 = load i64, i64* %fld_parent_tid1_1
  %fld_child_tid1_1 = getelementptr %State,%State* %Schild4, i32 0, i32 6
  store i64 %tid1_1, i64* %fld_child_tid1_1
  %tptr1_1 = getelementptr [2 x i64], [2 x i64]* %threads1, i64 0, i64 1
  %arg1_1 = bitcast %State* %Schild4 to i8*
  call i32 @pthread_create(i64* %tptr1_1, i8* null, i8* (i8*)* @thread_start_p1_1, i8* %arg1_1)
  %tval1_0 = getelementptr [2 x i64], [2 x i64]* %threads1, i64 0, i64 0
  %tload1_0 = load i64, i64* %tval1_0
  call i32 @pthread_join(i64 %tload1_0, i8** null)
  call void @tsan_join(i64 %tload1_0)
  %tval1_1 = getelementptr [2 x i64], [2 x i64]* %threads1, i64 0, i64 1
  %tload1_1 = load i64, i64* %tval1_1
  call i32 @pthread_join(i64 %tload1_1, i8** null)
  call void @tsan_join(i64 %tload1_1)
  br label %loop.cond.0
loop.end.0:
  call void @bf_wait(%State* %S)
  call void @bf_wait(%State* %S)
  ret void
}

";

#[test]
fn a_block_in_a_loop_sanitized() {
    assert_eq!(after_main(&compile("[{[+]|~~~}]^^", true)), NESTED_QUEUED);
}

const NESTED_MAIN: &str = r"define i32 @main() {
entry:
  %slab_bytes = mul i64 30000, 64
  %slab = call i8* @malloc(i64 %slab_bytes)
  store i8* %slab, i8** @mutex_slab
  %cond_bytes = mul i64 30000, 64
  %cslab = call i8* @malloc(i64 %cond_bytes)
  store i8* %cslab, i8** @cond_slab
  %cmslab = call i8* @malloc(i64 %cond_bytes)
  store i8* %cmslab, i8** @cond_mtx_slab
  %i = alloca i64
  store i64 0, i64* %i
  br label %init.loop
init.loop:
  %cur = load i64, i64* %i
  %cond = icmp slt i64 %cur, 30000
  br i1 %cond, label %init.body, label %init.end
init.body:
  %off = mul i64 %cur, 64
  %sl0 = load i8*, i8** @mutex_slab
  %slot = getelementptr i8, i8* %sl0, i64 %off
  call i32 @pthread_mutex_init(i8* %slot, i8* null)
  %cl0 = load i8*, i8** @cond_slab
  %cslot = getelementptr i8, i8* %cl0, i64 %off
  call i32 @pthread_cond_init(i8* %cslot, i8* null)
  %ml0 = load i8*, i8** @cond_mtx_slab
  %mslot2 = getelementptr i8, i8* %ml0, i64 %off
  call i32 @pthread_mutex_init(i8* %mslot2, i8* null)
  %cur1 = add i64 %cur, 1
  store i64 %cur1, i64* %i
  br label %init.loop
init.end:
  %st_end = getelementptr %State, %State* null, i32 1
  %st_bytes = ptrtoint %State* %st_end to i64
  %st = call i8* @malloc(i64 %st_bytes)
  %S = bitcast i8* %st to %State*
  %base = getelementptr [30000 x i8], [30000 x i8]* @tape, i64 0, i64 0
  %fld5 = getelementptr %State, %State* %S, i32 0, i32 0
  store i8* %base, i8** %fld5
  %fld6 = getelementptr %State, %State* %S, i32 0, i32 1
  store i64 0, i64* %fld6
  %sl = load i8*, i8** @mutex_slab
  %fld7 = getelementptr %State, %State* %S, i32 0, i32 2
  store i8* %sl, i8** %fld7
  %lsz = mul i64 16, 8
  %stk = call i8* @malloc(i64 %lsz)
  %stk64 = bitcast i8* %stk to i64*
  %fld8 = getelementptr %State, %State* %S, i32 0, i32 3
  store i64* %stk64, i64** %fld8
  %fld9 = getelementptr %State, %State* %S, i32 0, i32 4
  store i64 0, i64* %fld9
  %fld10 = getelementptr %State, %State* %S, i32 0, i32 5
  store i64 16, i64* %fld10
  %tid = call i64 @pthread_self()
  %fld11 = getelementptr %State, %State* %S, i32 0, i32 6
  store i64 %tid, i64* %fld11
  call void @thunk_main(%State* %S)
  ret i32 0
}
";

#[test]
fn main_takes_its_ids_after_the_program() {
    // The program takes the ids 0 to 4, so the fields of the root state are
    // numbered from 5.
    assert_eq!(main_of(&compile("[{[+]|~~~}]^^", true)), NESTED_MAIN);
    assert!(NESTED_MAIN.contains("  %fld5 = getelementptr %State, %State* %S, i32 0, i32 0\n"));
    assert!(NESTED_MAIN.contains("  store i64 %tid, i64* %fld11\n"));
    assert!(main_of(EMPTY_PLAIN).contains("  store i64 16, i64* %fld5\n"));
    assert!(!main_of(EMPTY_PLAIN).contains("%fld6"));
}

#[test]
fn eighteen_acquires_are_eighteen_calls() {
    let ir = compile("((((((((((((((((((", false);
    let mut expected = String::from("define internal void @thunk_main(%State* nocapture nonnull %S) {\nentry:\n");
    for _ in 0..18 {
        expected.push_str("  call void @bf_lock_acquire(%State* %S)\n");
    }
    expected.push_str("  ret void\n}\n\n");
    assert_eq!(after_main(&ir), expected);
}

#[test]
fn locked_branches_call_acquire_and_release_around_the_add() {
    let ir = compile("{(+)|(+)}", true);
    let body = "entry:\n  call void @bf_lock_acquire(%State* %S)\n  call void @bf_add_cell(%State* %S, i32 1)\n  call void @bf_lock_release(%State* %S)\n  ret void\n";
    assert_eq!(count(after_main(&ir), body), 2);
}

#[test]
fn every_leaf_is_one_call() {
    let nodes = vec![
        Node::IncPtr,
        Node::DecPtr,
        Node::IncCell,
        Node::DecCell,
        Node::Output,
        Node::Input,
        Node::LockAcquire,
        Node::LockRelease,
        Node::Sleep(12),
        Node::Wait(2),
        Node::Notify,
    ];
    let mut g = Codegen::new(false);
    g.indent = 1;
    emit_nodes(&mut g, "%X", &nodes);
    assert_eq!(
        g.finish(),
        "  call void @bf_inc_ptr(%State* %X, i64 1)\n\
         \x20 call void @bf_inc_ptr(%State* %X, i64 -1)\n\
         \x20 call void @bf_add_cell(%State* %X, i32 1)\n\
         \x20 call void @bf_add_cell(%State* %X, i32 -1)\n\
         \x20 call void @bf_output(%State* %X)\n\
         \x20 call void @bf_input(%State* %X)\n\
         \x20 call void @bf_lock_acquire(%State* %X)\n\
         \x20 call void @bf_lock_release(%State* %X)\n\
         \x20 call void @bf_sleep(i32 12)\n\
         \x20 call void @bf_wait(%State* %X)\n\
         \x20 call void @bf_wait(%State* %X)\n\
         \x20 call void @bf_notify(%State* %X)\n"
    );
}

#[test]
fn an_empty_run_of_waits_is_no_call() {
    let mut g = Codegen::new(true);
    emit_nodes(&mut g, "%S", &[Node::Wait(0)]);
    assert_eq!(g.out, "");
    assert_eq!(g.uniq, 0);
}

#[test]
fn line_indents_by_two_spaces_a_level() {
    let mut g = Codegen::new(false);
    g.line("a");
    g.indent = 1;
    g.line("b");
    g.indent = 3;
    g.line("c");
    g.line("");
    assert_eq!(g.finish(), "a\n  b\n      c\n      \n");
}

#[test]
fn label_is_never_indented() {
    let mut g = Codegen::new(false);
    g.indent = 2;
    g.label("entry");
    g.label("loop.cond.7");
    assert_eq!(g.out, "entry:\nloop.cond.7:\n");
    assert_eq!(g.indent, 2);
}

#[test]
fn fresh_names_count_up() {
    let mut g = Codegen::new(false);
    assert_eq!(g.fresh("fld"), "%fld0");
    assert_eq!(g.fresh("Schild"), "%Schild1");
    assert_eq!(g.fresh(""), "%2");
    g.uniq = 41;
    assert_eq!(g.fresh("fld"), "%fld41");
    assert_eq!(g.uniq, 42);
    assert_eq!(g.out, "");
}

#[test]
fn queued_definitions_come_out_in_the_order_queued() {
    let mut g = Codegen::new(false);
    g.line("head");
    g.push_def(String::from("first\n"));
    g.push_def(String::from("second\n"));
    g.push_def(String::from("third\n"));
    assert_eq!(g.out, "head\n");
    g.flush_deferred();
    assert_eq!(g.out, "head\nfirst\nsecond\nthird\n");
    assert!(g.deferred.is_empty());
    g.flush_deferred();
    assert_eq!(g.finish(), "head\nfirst\nsecond\nthird\n");
}

#[test]
fn a_temporary_buffer_keeps_the_text_apart() {
    let mut g = Codegen::new(false);
    g.indent = 2;
    g.line("outer");
    let saved = g.enter_temp_buffer();
    assert_eq!(g.out, "");
    assert_eq!(g.indent, 0);
    g.line("inner");
    let produced = g.leave_temp_buffer(saved);
    assert_eq!(produced, "inner\n");
    assert_eq!(g.out, "    outer\n");
    assert_eq!(g.indent, 2);
}

#[test]
fn a_thunk_is_queued_behind_what_its_body_queues() {
    let mut g = Codegen::new(false);
    g.indent = 3;
    g.line("here");
    let body = vec![Node::Parallel(vec![vec![Node::IncCell]])];
    g.defer_thunk("outer", &body);
    assert_eq!(g.out, "      here\n");
    assert_eq!(g.indent, 3);
    assert_eq!(g.uniq, 2);
    assert_eq!(g.deferred.len(), 3);
    assert!(g.deferred[0].starts_with("define internal void @thunk_p0_0(%State* nocapture nonnull %S) {\nentry:\n  call void @bf_add_cell(%State* %S, i32 1)\n  ret void\n}\n\n"));
    assert!(g.deferred[1].starts_with("define internal i8* @thread_start_p0_0(i8* %arg) nounwind {\n"));
    assert!(g.deferred[2].starts_with("define internal void @thunk_outer(%State* nocapture nonnull %S) {\nentry:\n  %threads0 = alloca [1 x i64]\n"));
    assert!(g.deferred[2].ends_with("  call i32 @pthread_join(i64 %tload0_0, i8** null)\n  ret void\n}\n\n"));
}

#[test]
fn a_thread_entry_reports_the_fork_when_sanitizing() {
    let mut plain = Codegen::new(false);
    plain.defer_thread_start("p3_1");
    assert_eq!(
        plain.deferred,
        vec![String::from(
            "define internal i8* @thread_start_p3_1(i8* %arg) nounwind {\n\
             \x20 %S = bitcast i8* %arg to %State*\n\
             \x20 call void @thunk_p3_1(%State* %S)\n\
             \x20 ret i8* null\n\
             }\n\n"
        )]
    );
    let mut sanitized = Codegen::new(true);
    sanitized.defer_thread_start("p3_1");
    assert_eq!(
        sanitized.deferred,
        vec![String::from(
            "define internal i8* @thread_start_p3_1(i8* %arg) nounwind {\n\
             \x20 %S = bitcast i8* %arg to %State*\n\
             \x20 %fld_tid = getelementptr %State, %State* %S, i32 0, i32 6\n\
             \x20 %tid_parent = load i64, i64* %fld_tid\n\
             \x20 call void @tsan_fork(i64 %tid_parent)\n\
             \x20 %tid_self = call i64 @pthread_self()\n\
             \x20 store i64 %tid_self, i64* %fld_tid\n\
             \x20 call void @thunk_p3_1(%State* %S)\n\
             \x20 ret i8* null\n\
             }\n\n"
        )]
    );
}

#[test]
fn a_parallel_block_takes_one_id_and_one_for_each_branch() {
    let mut g = Codegen::new(false);
    g.uniq = 10;
    let branches = vec![vec![Node::IncCell], vec![], vec![Node::Loop(vec![])]];
    emit_parallel(&mut g, "%S", &branches);
    // 10 names the block, 11 the loop in the last branch, 12 to 14 the states.
    assert_eq!(g.uniq, 15);
    assert_eq!(g.deferred.len(), 6);
    assert!(g.out.starts_with("%threads10 = alloca [3 x i64]\n"));
    assert!(g.out.contains("%Schild12 = bitcast i8* %st10_0 to %State*\n"));
    assert!(g.out.contains("%Schild13 = bitcast i8* %st10_1 to %State*\n"));
    assert!(g.out.contains("%Schild14 = bitcast i8* %st10_2 to %State*\n"));
    assert!(g.deferred[4].contains("loop.cond.11:\n"));
    assert!(g.out.ends_with("call i32 @pthread_join(i64 %tload10_2, i8** null)\n"));
    let create0 = g.out.find("@thread_start_p10_0").unwrap();
    let create2 = g.out.find("@thread_start_p10_2").unwrap();
    let join0 = g.out.find("call i32 @pthread_join(i64 %tload10_0").unwrap();
    assert!(create0 < create2 && create2 < join0);
}

#[test]
fn the_declarations_and_helpers_stand_in_the_opening() {
    let mut g = Codegen::new(true);
    decl_externals(&mut g);
    let declarations = g.out.clone();
    assert_eq!(count(&declarations, "declare "), 22);
    define_runtime_helpers(&mut g);
    let helpers = g.out[declarations.len()..].to_string();
    assert_eq!(count(&helpers, "define internal "), 15);
    assert!(EMPTY_SANITIZED.contains(&declarations));
    assert!(EMPTY_SANITIZED.contains(&helpers));
    let mut plain = Codegen::new(false);
    decl_externals(&mut plain);
    assert_eq!(count(&plain.out, "declare "), 15);
}

#[test]
fn the_ids_of_a_program_are_counted() {
    assert_eq!(count_ids(&[]), Some(0));
    assert_eq!(count_ids(&[Node::IncCell, Node::Wait(9)]), Some(0));
    assert_eq!(count_ids(&[Node::Loop(vec![Node::Loop(vec![])])]), Some(2));
    assert_eq!(count_ids(&[Node::Parallel(vec![vec![], vec![]])]), Some(3));
    match parse(&lex("[{[+]|~~~}]^^")) {
        Ok(nodes) => assert_eq!(count_ids(&nodes), Some(5)),
        Err(e) => panic!("no tree: {:?}", e),
    }
}

#[test]
fn try_generate_ir_gives_the_same_module() {
    for source in ["", "+[-]", "{+|{-|.}}"] {
        for sanitize in [false, true] {
            match parse(&lex(source)) {
                Ok(nodes) => assert_eq!(
                    try_generate_ir(&nodes, sanitize),
                    Some(generate_ir(&nodes, sanitize))
                ),
                Err(e) => panic!("no tree: {:?}", e),
            }
        }
    }
}

#[test]
fn generation_is_deterministic() {
    assert_eq!(compile("{+|[-]}{^|v}", true), compile("{+|[-]}{^|v}", true));
}
