//! The runtime: it owns the processors and the code that was loaded last,
//! and offers the two ways to run a program: as bytes, and as source text.

pub mod proc;
pub mod repl;

pub use repl::{Input, Repl, Step};

use crate::assembler::{commands, encode, parse, program, translate, OperationView, STRIDE};
use crate::errors;
use crate::errors::ErrorView;
use proc::{
    carry_out, files, fresh, lemma_stream_runs, outcome, rewound, run, Machine, Processor,
};
use vstd::prelude::*;

verus! {

/// What assembling `text` and running it makes of the machine `m`, and how
/// that ends. Text that cannot be encoded is not run at all.
pub open spec fn assemble_and_run(m: Machine, text: Seq<char>) -> (Machine, Result<(), ErrorView>) {
    match encode(program(text)) {
        Err(e) => (m, Err(ErrorView::Parse(e))),
        Ok(code) => run(rewound(m), code),
    }
}

/// Source text runs as its statements say: to assemble and run it is to
/// carry out the commands of its statements, one after the other, unless an
/// operand is wrong, and then nothing is carried out.
pub proof fn lemma_assembled_runs(m: Machine, text: Seq<char>)
    ensures
        assemble_and_run(m, text) == match commands(program(text)) {
            Err(e) => (m, Err::<(), ErrorView>(ErrorView::Parse(e))),
            Ok(asked) => carry_out(rewound(m), asked),
        },
{
    match commands(program(text)) {
        Err(_) => {},
        Ok(asked) => {
            lemma_stream_runs(rewound(m), asked);
        },
    }
}

/// Empty source text is an empty program: it makes no statement and no
/// byte, and running it fails nowhere and changes nothing in a machine that
/// has consumed nothing.
pub proof fn lemma_empty_program(m: Machine)
    ensures
        program(Seq::<char>::empty()) == Seq::<OperationView>::empty(),
        encode(Seq::<OperationView>::empty()) == Ok::<Seq<u8>, errors::ParseErrorView>(
            Seq::<u8>::empty(),
        ),
        assemble_and_run(m, Seq::<char>::empty()) == (rewound(m), Ok::<(), ErrorView>(())),
        rewound(fresh()) == fresh(),
{
}

/// The processors of a machine and the code that was assembled for it last.
/// Only the first processor is ever driven.
pub struct Runtime {
    procs: Vec<Processor>,
    code: Vec<u8>,
}

impl Runtime {
    /// The processors.
    pub closed spec fn processors(&self) -> Seq<Processor> {
        self.procs@
    }

    /// The code that was assembled last.
    pub closed spec fn assembled(&self) -> Seq<u8> {
        self.code@
    }

    /// A runtime has at least one processor.
    pub open spec fn wf(&self) -> bool {
        self.processors().len() > 0
    }

    /// The processors that are not driven are the same in `self` and
    /// `other`.
    pub open spec fn same_idle_processors(&self, other: &Runtime) -> bool {
        &&& self.processors().len() == other.processors().len()
        &&& forall|i: int|
            0 < i < self.processors().len() ==> self.processors()[i] == other.processors()[i]
    }

    /// A runtime with one processor, which holds `program` and has not run.
    pub fn new(program: Vec<u8>) -> (runtime: Runtime)
        ensures
            runtime.wf(),
            runtime.processors().len() == 1,
            runtime.processors()[0]@ == fresh(),
            runtime.processors()[0].loaded() == program@,
            runtime.assembled() == Seq::<u8>::empty(),
    {
        let mut procs: Vec<Processor> = Vec::new();
        procs.push(Processor::new(program));
        Runtime { procs, code: Vec::new() }
    }

    /// The processor that is driven.
    pub fn processor(&self) -> (processor: &Processor)
        requires
            self.wf(),
        ensures
            *processor == self.processors()[0],
    {
        &self.procs[0]
    }

    /// The code that was assembled last.
    pub fn code(&self) -> (code: &Vec<u8>)
        ensures
            code@ == self.assembled(),
    {
        &self.code
    }

    /// Hands out the register files that the driven processor has reported
    /// and keeps none.
    pub fn take_output(&mut self) -> (output: Vec<[u64; 64]>)
        requires
            old(self).wf(),
        ensures
            final(self).wf(),
            final(self).same_idle_processors(old(self)),
            final(self).assembled() == old(self).assembled(),
            final(self).processors()[0].loaded() == old(self).processors()[0].loaded(),
            final(self).processors()[0]@ == (Machine {
                output: Seq::empty(),
                ..old(self).processors()[0]@
            }),
            files(output@) == old(self).processors()[0]@.output,
    {
        self.procs[0].take_output()
    }

    /// Runs the program that the driven processor holds, from its first
    /// byte.
    pub fn run_to_completion(&mut self) -> (done: errors::Result<()>)
        requires
            old(self).wf(),
            old(self).processors()[0].loaded().len() % STRIDE as nat == 0,
        ensures
            final(self).wf(),
            final(self).same_idle_processors(old(self)),
            final(self).assembled() == old(self).assembled(),
            final(self).processors()[0].loaded() == old(self).processors()[0].loaded(),
            (final(self).processors()[0]@, outcome(done)) == run(
                rewound(old(self).processors()[0]@),
                old(self).processors()[0].loaded(),
            ),
    {
        self.procs[0].run_to_completion()
    }

    /// Assembles `source` and runs it on the driven processor, which keeps its
    /// registers from one call to the next. Text that cannot be encoded
    /// changes nothing; other text replaces the code that was assembled
    /// last.
    pub fn run_asm(&mut self, source: &str) -> (done: errors::Result<()>)
        requires
            old(self).wf(),
        ensures
            final(self).wf(),
            final(self).same_idle_processors(old(self)),
            final(self).processors()[0].loaded() == old(self).processors()[0].loaded(),
            final(self).assembled() == match encode(program(source@)) {
                Ok(code) => code,
                Err(_) => old(self).assembled(),
            },
            (final(self).processors()[0]@, outcome(done)) == assemble_and_run(
                old(self).processors()[0]@,
                source@,
            ),
    {
        let ops = match parse(source) {
            Ok(ops) => ops,
            Err(e) => {
                return Err(e);
            },
        };
        let code = match translate(ops.as_slice()) {
            Ok(code) => code,
            Err(e) => {
                return Err(e);
            },
        };
        self.code = code;
        let done = self.procs[0].run_code(self.code.as_slice());
        done
    }
}

/// Assembles `s` and runs it on a fresh machine. Gives what the program
/// reported and how it ended; text that cannot be encoded is not run.
pub fn read_eval(s: &str) -> (evaluated: (Vec<[u64; 64]>, errors::Result<()>))
    ensures
        ({
            let (end, ended) = assemble_and_run(fresh(), s@);
            &&& files(evaluated.0@) == end.output
            &&& outcome(evaluated.1) == ended
        }),
{
    let ops = match parse(s) {
        Ok(ops) => ops,
        Err(e) => {
            return (Vec::new(), Err(e));
        },
    };
    let code = match translate(ops.as_slice()) {
        Ok(code) => code,
        Err(e) => {
            return (Vec::new(), Err(e));
        },
    };
    let mut r = Runtime::new(code);
    let done = r.run_to_completion();
    (r.take_output(), done)
}

} // verus!
