//! Running `vagrant`: what is handed to the executable, and what its end
//! means for the exit code of this tool.

use vstd::prelude::*;
use vstd::string::*;
use crate::error::ProcessError;
use crate::text::copy_strings;
use crate::text::texts;

verus! {

/// The exit code of a run that went well.
pub const EXIT_SUCCESS: i32 = 0;

/// The exit code where a request failed, or where `vagrant` ended without
/// an exit code of its own.
pub const EXIT_FAILURE: i32 = 1;

/// The exit code where the command line could not be understood.
pub const EXIT_USAGE: i32 = 2;

/// How a process ended: with an exit code, or (killed by a signal) with
/// none.
#[derive(Debug, Clone, Copy, PartialEq, Eq)]
pub struct ExitStatus {
    code: Option<i32>,
}

/// The exit code that this tool passes on for a process that ended with
/// `code`.
pub open spec fn exit_code_of(code: Option<i32>) -> i32 {
    match code {
        Some(c) => c,
        None => EXIT_FAILURE,
    }
}

impl ExitStatus {
    pub closed spec fn spec_code(&self) -> Option<i32> {
        self.code
    }

    pub fn new(code: Option<i32>) -> (r: ExitStatus)
        ensures
            r.spec_code() == code,
    {
        ExitStatus { code }
    }

    /// The exit code of the process, if it ended with one.
    pub fn code(&self) -> (r: Option<i32>)
        ensures
            r == self.spec_code(),
    {
        self.code
    }

    /// Whether the process ended with exit code 0.
    pub fn success(&self) -> (r: bool)
        ensures
            r == (self.spec_code() == Some(EXIT_SUCCESS)),
    {
        match self.code {
            Some(c) => c == EXIT_SUCCESS,
            None => false,
        }
    }

    /// The exit code that this tool passes on: the process's own, or
    /// `EXIT_FAILURE` where it has none.
    pub fn exit_code(&self) -> (r: i32)
        ensures
            r == exit_code_of(self.spec_code()),
            self.spec_code() is None ==> r != EXIT_SUCCESS,
    {
        match self.code {
            Some(c) => c,
            None => EXIT_FAILURE,
        }
    }
}

/// Something that can run `vagrant`. An end of the process with a code
/// other than 0 is a status, not an error.
pub trait RunVagrant {
    /// Runs `vagrant` with `command` as its first argument and `options`
    /// after it, in the current working directory.
    fn subcommand(&self, command: &str, options: &Vec<String>) -> Result<ExitStatus, ProcessError>;

    /// Runs `vagrant` with `options` as its whole argument list.
    fn raw(&self, options: &Vec<String>) -> Result<ExitStatus, ProcessError>;
}

/// A program and the arguments to start it with.
#[derive(Debug, PartialEq, Eq)]
pub struct Invocation {
    pub program: String,
    pub args: Vec<String>,
}

/// What an `Invocation` holds, as character sequences.
pub struct InvocationView {
    pub program: Seq<char>,
    pub args: Seq<Seq<char>>,
}

impl View for Invocation {
    type V = InvocationView;

    open spec fn view(&self) -> InvocationView {
        InvocationView { program: self.program@, args: texts(self.args@) }
    }
}

/// The `vagrant` executable.
#[derive(Debug, PartialEq, Eq)]
pub struct Vagrant {
    path: String,
}

impl Clone for Vagrant {
    fn clone(&self) -> (r: Vagrant)
        ensures
            r.spec_path() == self.spec_path(),
    {
        Vagrant { path: self.path.clone() }
    }
}

impl Vagrant {
    /// The path or bare name of the executable.
    pub closed spec fn spec_path(&self) -> Seq<char> {
        self.path@
    }

    pub fn new(path: &str) -> (r: Vagrant)
        ensures
            r.spec_path() == path@,
    {
        Vagrant { path: String::from_str(path) }
    }

    pub fn path(&self) -> (r: &str)
        ensures
            r@ == self.spec_path(),
    {
        self.path.as_str()
    }

    /// What to start for `command` with `options`: the executable, with
    /// `command` as the first argument and `options` after it, in order.
    pub fn subcommand(&self, command: &str, options: &Vec<String>) -> (r: Invocation)
        ensures
            r@.program == self.spec_path(),
            r@.args == seq![command@] + texts(options@),
    {
        let mut args: Vec<String> = Vec::new();
        args.push(String::from_str(command));
        let n: usize = options.len();
        let mut i: usize = 0;
        while i < n
            invariant
                n == options@.len(),
                i <= n,
                args@.len() == i + 1,
                args@[0]@ == command@,
                forall|j: int| 0 <= j < i ==> args@[j + 1]@ == options@[j]@,
            decreases n - i,
        {
            args.push(options[i].clone());
            i = i + 1;
        }
        assert(texts(args@) =~= seq![command@] + texts(options@));
        Invocation { program: self.path.clone(), args }
    }

    /// What to start for `options` alone: the executable, with `options` as
    /// its whole argument list.
    pub fn raw(&self, options: &Vec<String>) -> (r: Invocation)
        ensures
            r@.program == self.spec_path(),
            r@.args == texts(options@),
    {
        Invocation { program: self.path.clone(), args: copy_strings(options) }
    }
}

} // verus!
