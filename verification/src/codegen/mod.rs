//! The code generator: from an instruction tree to the text of an IR module.
//!
//! The generator appends lines to one buffer. A function that must stand at
//! the end of the module (the body of a parallel branch, the program itself)
//! is built in a buffer of its own and queued; the queue is written out last,
//! in the order in which it was filled.

use crate::codegen::emit::{count_ids, seq_ids};
use crate::codegen::entry::{main_ids, module_text};
use crate::parser::{trees_of, Node};
use crate::text::{digits, fmt_usize};
use vstd::prelude::*;
use vstd::string::StringExecFns;

pub mod decl;
pub mod emit;
pub mod entry;
pub mod parallel;

verus! {

/// Cells on the tape.
pub const TAPE_LEN: i64 = 30_000;

/// Bytes between two slots of a slab of mutexes or condition variables.
pub const MUTEX_STRIDE: i64 = 64;

/// Entries that a fresh lock stack has room for.
pub const LOCK_STACK_INIT: i64 = 16;

/// The state of the generator.
pub struct Codegen {
    /// The text written so far.
    pub out: String,
    /// The depth at which `line` indents.
    pub indent: usize,
    /// The next number to make a name unique with.
    pub uniq: usize,
    /// Definitions waiting for the end of the module, oldest first.
    pub deferred: Vec<String>,
    /// Whether the race-detection hooks are emitted.
    pub sanitize: bool,
}

/// Two spaces for each level of indentation.
pub open spec fn pad(depth: nat) -> Seq<char> {
    Seq::new(2 * depth, |i: int| ' ')
}

/// One indented line, with its newline.
#[verifier::opaque]
pub open spec fn line_text(depth: nat, s: Seq<char>) -> Seq<char> {
    pad(depth) + s + seq!['\n']
}

/// One label line: the name, a colon and a newline, never indented.
#[verifier::opaque]
pub open spec fn label_text(name: Seq<char>) -> Seq<char> {
    name + seq![':', '\n']
}

/// A local name made unique by a number.
pub open spec fn fresh_name(prefix: Seq<char>, id: nat) -> Seq<char> {
    seq!['%'] + prefix + digits(id)
}

/// The texts of a queue of definitions.
pub open spec fn texts(defs: Seq<String>) -> Seq<Seq<char>> {
    Seq::new(defs.len(), |i: int| defs[i]@)
}

/// All texts of a queue, one after the other.
pub open spec fn concat_all(defs: Seq<Seq<char>>) -> Seq<char>
    decreases defs.len(),
{
    if defs.len() == 0 {
        Seq::empty()
    } else {
        concat_all(defs.drop_last()) + defs.last()
    }
}

/// Compiles an instruction tree to the text of an IR module, with the
/// race-detection hooks where `sanitize` is set. The only limit is that the
/// unique ids must fit a machine word.
pub fn generate_ir(nodes: &[Node], sanitize: bool) -> (ir: String)
    requires
        seq_ids(trees_of(nodes@)) + main_ids(sanitize) <= usize::MAX,
    ensures
        ir@ == module_text(trees_of(nodes@), sanitize),
{
    let mut cg = Codegen::new(sanitize);
    cg.preamble();
    cg.defer_thunk("main", nodes);
    cg.define_main();
    cg.flush_deferred();
    assert(cg.out@ =~= module_text(trees_of(nodes@), sanitize));
    cg.finish()
}

/// Compiles an instruction tree like `generate_ir`, for a tree of any size:
/// `None` where the unique ids would not fit a machine word.
pub fn try_generate_ir(nodes: &[Node], sanitize: bool) -> (ir: Option<String>)
    ensures
        match ir {
            Some(text) => seq_ids(trees_of(nodes@)) + main_ids(sanitize) <= usize::MAX && text@
                == module_text(trees_of(nodes@), sanitize),
            None => seq_ids(trees_of(nodes@)) + main_ids(sanitize) > usize::MAX,
        },
{
    let for_main: usize = if sanitize {
        7
    } else {
        6
    };
    let fits = match count_ids(nodes) {
        Some(n) => n <= usize::MAX - for_main,
        None => false,
    };
    if fits {
        Some(generate_ir(nodes, sanitize))
    } else {
        None
    }
}

impl Codegen {
    /// The texts of the queued definitions, oldest first.
    pub open spec fn queue(&self) -> Seq<Seq<char>> {
        texts(self.deferred@)
    }

    /// Whether `self` differs from `before` in the text written at most.
    pub open spec fn wrote_only(&self, before: &Codegen) -> bool {
        &&& self.indent == before.indent
        &&& self.uniq == before.uniq
        &&& self.deferred == before.deferred
        &&& self.sanitize == before.sanitize
    }

    /// A generator that has written nothing yet.
    pub fn new(sanitize: bool) -> (g: Codegen)
        ensures
            g.out@ == Seq::<char>::empty(),
            g.indent == 0,
            g.uniq == 0,
            g.deferred@ == Seq::<String>::empty(),
            g.sanitize == sanitize,
    {
        Codegen { out: String::new(), indent: 0, uniq: 0, deferred: Vec::new(), sanitize }
    }

    /// Gives up the text written.
    pub fn finish(self) -> (text: String)
        ensures
            text@ == self.out@,
    {
        self.out
    }

    /// Writes one line at the current indentation.
    pub fn line(&mut self, s: &str)
        ensures
            final(self).out@ == old(self).out@ + line_text(old(self).indent as nat, s@),
            final(self).wrote_only(old(self)),
    {
        let ghost start = self.out@;
        let mut i: usize = 0;
        assert(self.out@ =~= start + pad(0));
        while i < self.indent
            invariant
                i <= self.indent,
                self.wrote_only(old(self)),
                self.out@ == start + pad(i as nat),
            decreases self.indent - i,
        {
            proof {
                reveal_strlit("  ");
            }
            self.out.append("  ");
            i = i + 1;
            assert(self.out@ =~= start + pad(i as nat));
        }
        self.out.append(s);
        proof {
            reveal_strlit("\n");
            reveal(line_text);
        }
        self.out.append("\n");
        assert(self.out@ =~= start + line_text(self.indent as nat, s@));
    }

    /// Writes one label line.
    pub fn label(&mut self, name: &str)
        ensures
            final(self).out@ == old(self).out@ + label_text(name@),
            final(self).wrote_only(old(self)),
    {
        self.out.append(name);
        proof {
            reveal_strlit(":\n");
            reveal(label_text);
        }
        self.out.append(":\n");
        assert(self.out@ =~= old(self).out@ + label_text(name@));
    }

    /// Makes a local name that no earlier call has made.
    pub fn fresh(&mut self, prefix: &str) -> (name: String)
        requires
            old(self).uniq < usize::MAX,
        ensures
            name@ == fresh_name(prefix@, old(self).uniq as nat),
            final(self).uniq == old(self).uniq + 1,
            final(self).out == old(self).out,
            final(self).indent == old(self).indent,
            final(self).deferred == old(self).deferred,
            final(self).sanitize == old(self).sanitize,
    {
        let id = self.uniq;
        self.uniq = self.uniq + 1;
        proof {
            reveal_strlit("%");
        }
        let name = String::from_str("%").concat(prefix).concat(fmt_usize(id).as_str());
        assert(name@ =~= fresh_name(prefix@, id as nat));
        name
    }

    /// Queues a definition for the end of the module.
    pub fn push_def(&mut self, def: String)
        ensures
            final(self).queue() == old(self).queue().push(def@),
            final(self).out == old(self).out,
            final(self).indent == old(self).indent,
            final(self).uniq == old(self).uniq,
            final(self).sanitize == old(self).sanitize,
    {
        self.deferred.push(def);
        assert(self.queue() =~= old(self).queue().push(def@));
    }

    /// Writes out the queued definitions, oldest first, and empties the
    /// queue.
    pub fn flush_deferred(&mut self)
        ensures
            final(self).out@ == old(self).out@ + concat_all(old(self).queue()),
            final(self).queue() == Seq::<Seq<char>>::empty(),
            final(self).indent == old(self).indent,
            final(self).uniq == old(self).uniq,
            final(self).sanitize == old(self).sanitize,
    {
        let mut defs: Vec<String> = Vec::new();
        core::mem::swap(&mut self.deferred, &mut defs);
        let ghost all = texts(defs@);
        let mut i: usize = 0;
        assert(self.out@ =~= old(self).out@ + concat_all(all.take(0)));
        while i < defs.len()
            invariant
                i <= defs.len(),
                all == texts(defs@),
                self.out@ == old(self).out@ + concat_all(all.take(i as int)),
                self.deferred@ == Seq::<String>::empty(),
                self.indent == old(self).indent,
                self.uniq == old(self).uniq,
                self.sanitize == old(self).sanitize,
            decreases defs.len() - i,
        {
            self.out.append(defs[i].as_str());
            proof {
                assert(all.take(i + 1).drop_last() =~= all.take(i as int));
                assert(all.take(i + 1).last() == defs[i as int]@);
                assert(self.out@ =~= old(self).out@ + concat_all(all.take(i + 1)));
            }
            i = i + 1;
        }
        assert(all.take(i as int) =~= all);
        assert(self.queue() =~= Seq::<Seq<char>>::empty());
    }

    /// Sets the text and the indentation aside, to build a definition on an
    /// empty buffer. Returns what was set aside.
    pub fn enter_temp_buffer(&mut self) -> (saved: (String, usize))
        ensures
            saved.0 == old(self).out,
            saved.1 == old(self).indent,
            final(self).out@ == Seq::<char>::empty(),
            final(self).indent == 0,
            final(self).uniq == old(self).uniq,
            final(self).deferred == old(self).deferred,
            final(self).sanitize == old(self).sanitize,
    {
        let mut saved_out = String::new();
        core::mem::swap(&mut self.out, &mut saved_out);
        let saved_indent = self.indent;
        self.indent = 0;
        (saved_out, saved_indent)
    }

    /// Puts back what `enter_temp_buffer` set aside and returns the text
    /// built in between.
    pub fn leave_temp_buffer(&mut self, saved: (String, usize)) -> (produced: String)
        ensures
            produced == old(self).out,
            final(self).out == saved.0,
            final(self).indent == saved.1,
            final(self).uniq == old(self).uniq,
            final(self).deferred == old(self).deferred,
            final(self).sanitize == old(self).sanitize,
    {
        let (mut text, indent) = saved;
        core::mem::swap(&mut self.out, &mut text);
        self.indent = indent;
        text
    }
}

} // verus!
