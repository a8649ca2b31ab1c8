//! The interactive loop, without its terminal: where the history is kept,
//! and what the loop does with each thing that reading a line can give.

use crate::assembler::{encode, program};
use crate::errors::{error_text, Error, ErrorView, StringError};
use crate::rt::proc::{files, Machine};
use crate::rt::{assemble_and_run, Runtime};
use std::path::PathBuf;
use vstd::prelude::*;
use vstd::string::StringExecFns;

verus! {

/// `std::path::PathBuf`: a path of the file system. Nothing is known of
/// what it holds.
#[verifier::external_type_specification]
#[verifier::external_body]
pub struct ExPathBuf(PathBuf);

/// Calls `home::home_dir`: the home directory of the user, where one can
/// be found. The answer depends on where the program runs, and nothing is
/// claimed of it.
#[verifier::external_body]
fn home_dir() -> (home: Option<PathBuf>) {
    home::home_dir()
}

/// Calls `PathBuf::from`: the path that `text` spells.
#[verifier::external_body]
fn path_of(text: &str) -> (path: PathBuf) {
    PathBuf::from(text)
}

/// Calls `Path::join`: the path of `name` below `base`.
#[verifier::external_body]
fn join(base: &PathBuf, name: &str) -> (path: PathBuf) {
    base.join(name)
}

/// What an attempt to read a line can give.
#[derive(Debug, Clone, PartialEq, Eq)]
pub enum Input {
    /// A line of source text.
    Line(String),
    /// The input has ended.
    Eof,
    /// The user has interrupted the session.
    Interrupted,
    /// The terminal has failed; the text says how.
    Failed(String),
}

/// What the loop does after an attempt to read a line.
#[derive(Debug, Clone, PartialEq, Eq)]
pub enum Step {
    /// Show the register files and then the message, and read the next line.
    Show { output: Vec<[u64; 64]>, message: String },
    /// Leave the loop; the session has ended as it should.
    Stop,
    /// Leave the loop with a failure.
    Fail(Error),
}

/// A [`Step`] as contracts speak of it.
pub enum StepView {
    Show { output: Seq<Seq<u64>>, message: Seq<char> },
    Stop,
    Fail(ErrorView),
}

impl View for Step {
    type V = StepView;

    open spec fn view(&self) -> StepView {
        match self {
            Step::Show { output, message } => StepView::Show {
                output: files(output@),
                message: message@,
            },
            Step::Stop => StepView::Stop,
            Step::Fail(e) => StepView::Fail(e@),
        }
    }
}

/// The message that the loop shows for a line that was run.
pub open spec fn verdict(ended: Result<(), ErrorView>) -> Seq<char> {
    match ended {
        Ok(()) => "()"@,
        Err(e) => error_text(e),
    }
}

/// What the loop does with `input` when the driven processor is `m`, and
/// what becomes of that processor.
///
/// A line is assembled and run, whatever it holds; what the processor has
/// reported is shown and handed out, then the verdict on the line, and the
/// loop goes on even if the line failed. The end of the input and an
/// interrupt end the loop. A failure of the terminal ends it with an error.
pub open spec fn respond_to(m: Machine, input: Input) -> (Machine, StepView) {
    match input {
        Input::Line(line) => {
            let (end, ended) = assemble_and_run(m, line@);
            (
                Machine { output: Seq::empty(), ..end },
                StepView::Show { output: end.output, message: verdict(ended) },
            )
        },
        Input::Eof | Input::Interrupted => (m, StepView::Stop),
        Input::Failed(text) => (m, StepView::Fail(ErrorView::Other("unknown: "@ + text@))),
    }
}

/// The settings of an interactive session.
#[derive(Debug, Clone, PartialEq, Eq)]
pub struct Repl {
    save_history: bool,
    history_path: Option<PathBuf>,
}

impl Repl {
    /// Whether the lines of the session are to be kept.
    pub closed spec fn saving(&self) -> bool {
        self.save_history
    }

    /// The file in which they are kept.
    pub closed spec fn history(&self) -> Option<PathBuf> {
        self.history_path
    }

    /// A session that keeps no history.
    pub fn new() -> (repl: Repl)
        ensures
            !repl.saving(),
            repl.history() is None,
    {
        Repl { save_history: false, history_path: None }
    }

    /// Whether the lines of the session are to be kept.
    pub fn saves_history(&self) -> (saving: bool)
        ensures
            saving == self.saving(),
    {
        self.save_history
    }

    /// The file in which the lines of the session are kept, if one is set.
    pub fn history_file(&self) -> (file: Option<&PathBuf>)
        ensures
            match file {
                Some(path) => self.history() == Some(*path),
                None => self.history() is None,
            },
    {
        self.history_path.as_ref()
    }

    /// Keeps the history, or not, as `b` says; the file is `.rok_history` in
    /// the home directory of the user, or in the working directory where no
    /// home is known. The file is set even where `b` is false.
    pub fn save_history(&mut self, b: bool) -> (repl: &mut Repl)
        ensures
            repl.saving() == b,
            repl.history() is Some,
            *final(self) == *final(repl),
    {
        let home = home_dir();
        self.save_history_under(b, home)
    }

    /// As [`Repl::save_history`], with the home directory given.
    pub fn save_history_under(&mut self, b: bool, home: Option<PathBuf>) -> (repl: &mut Repl)
        ensures
            repl.saving() == b,
            repl.history() is Some,
            *final(self) == *final(repl),
    {
        self.save_history = b;
        let base = match home {
            Some(home) => home,
            None => path_of("."),
        };
        self.history_path = Some(join(&base, ".rok_history"));
        self
    }

    /// Decides what the loop does after an attempt to read a line, and runs
    /// the line if there is one.
    pub fn respond(&self, runtime: &mut Runtime, input: Input) -> (step: Step)
        requires
            old(runtime).wf(),
        ensures
            final(runtime).wf(),
            final(runtime).same_idle_processors(old(runtime)),
            final(runtime).processors()[0].loaded() == old(runtime).processors()[0].loaded(),
            final(runtime).assembled() == match input {
                Input::Line(line) => match encode(program(line@)) {
                    Ok(code) => code,
                    Err(_) => old(runtime).assembled(),
                },
                _ => old(runtime).assembled(),
            },
            (final(runtime).processors()[0]@, step@) == respond_to(
                old(runtime).processors()[0]@,
                input,
            ),
    {
        match input {
            Input::Line(line) => {
                let done = runtime.run_asm(line.as_str());
                let output = runtime.take_output();
                let message = match done {
                    Ok(()) => String::from_str("()"),
                    Err(e) => e.to_string(),
                };
                Step::Show { output, message }
            },
            Input::Eof | Input::Interrupted => Step::Stop,
            Input::Failed(text) => Step::Fail(
                Error::Other(StringError(String::from_str("unknown: ").concat(text.as_str()))),
            ),
        }
    }

    /// Keeps the history in `path`.
    pub fn history_path(&mut self, path: PathBuf) -> (repl: &mut Repl)
        ensures
            repl.saving(),
            repl.history() == Some(path),
            *final(self) == *final(repl),
    {
        self.save_history = true;
        self.history_path = Some(path);
        self
    }
}

} // verus!
