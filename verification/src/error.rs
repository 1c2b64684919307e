//! What can go wrong, and the words in which it is reported.

use vstd::prelude::*;
use vstd::string::*;

verus! {

/// No entry of the registry has the name that was asked for.
#[derive(Debug, PartialEq, Eq)]
pub struct VmInfoFindError {
    name: String,
}

impl Clone for VmInfoFindError {
    fn clone(&self) -> (r: VmInfoFindError)
        ensures
            r.spec_name() == self.spec_name(),
    {
        VmInfoFindError { name: self.name.clone() }
    }
}

/// The report of a name that the registry does not hold.
pub open spec fn not_found_text(name: Seq<char>) -> Seq<char> {
    "cannot find "@ + name + " from vm list in config file"@
}

impl VmInfoFindError {
    /// The name that was asked for.
    pub closed spec fn spec_name(&self) -> Seq<char> {
        self.name@
    }

    pub fn new(name: &str) -> (r: VmInfoFindError)
        ensures
            r.spec_name() == name@,
    {
        VmInfoFindError { name: String::from_str(name) }
    }

    pub fn name(&self) -> (r: &str)
        ensures
            r@ == self.spec_name(),
    {
        self.name.as_str()
    }

    /// The error in words.
    pub fn message(&self) -> (r: String)
        ensures
            r@ == not_found_text(self.spec_name()),
    {
        let mut out: String = String::from_str("cannot find ");
        out.append(self.name.as_str());
        out.append(" from vm list in config file");
        out
    }
}

/// The registry could not be read, written or copied, or what was read is
/// no registry.
#[derive(Debug, PartialEq, Eq)]
pub struct PersistenceError {
    message: String,
}

impl Clone for PersistenceError {
    fn clone(&self) -> (r: PersistenceError)
        ensures
            r.spec_message() == self.spec_message(),
    {
        PersistenceError { message: self.message.clone() }
    }
}

impl PersistenceError {
    pub closed spec fn spec_message(&self) -> Seq<char> {
        self.message@
    }

    pub fn new(message: &str) -> (r: PersistenceError)
        ensures
            r.spec_message() == message@,
    {
        PersistenceError { message: String::from_str(message) }
    }

    pub fn message(&self) -> (r: &str)
        ensures
            r@ == self.spec_message(),
    {
        self.message.as_str()
    }
}

/// The `vagrant` executable could not be found or started.
#[derive(Debug, PartialEq, Eq)]
pub struct ProcessError {
    message: String,
}

impl Clone for ProcessError {
    fn clone(&self) -> (r: ProcessError)
        ensures
            r.spec_message() == self.spec_message(),
    {
        ProcessError { message: self.message.clone() }
    }
}

impl ProcessError {
    pub closed spec fn spec_message(&self) -> Seq<char> {
        self.message@
    }

    pub fn new(message: &str) -> (r: ProcessError)
        ensures
            r.spec_message() == message@,
    {
        ProcessError { message: String::from_str(message) }
    }

    pub fn message(&self) -> (r: &str)
        ensures
            r@ == self.spec_message(),
    {
        self.message.as_str()
    }
}

/// Anything that ends a request early.
#[derive(Debug, PartialEq, Eq)]
pub enum VmError {
    /// A name that the registry does not hold.
    NotFound(VmInfoFindError),
    /// Trouble with the registry's file.
    Persistence(PersistenceError),
    /// Trouble starting `vagrant`.
    Process(ProcessError),
}

/// An error in words.
pub open spec fn error_text(e: VmError) -> Seq<char> {
    match e {
        VmError::NotFound(e) => not_found_text(e.spec_name()),
        VmError::Persistence(e) => e.spec_message(),
        VmError::Process(e) => e.spec_message(),
    }
}

impl Clone for VmError {
    fn clone(&self) -> (r: VmError)
        ensures
            error_text(r) == error_text(*self),
    {
        match self {
            VmError::NotFound(e) => VmError::NotFound(e.clone()),
            VmError::Persistence(e) => VmError::Persistence(e.clone()),
            VmError::Process(e) => VmError::Process(e.clone()),
        }
    }
}

impl VmError {
    /// The error in words.
    pub fn message(&self) -> (r: String)
        ensures
            r@ == error_text(*self),
    {
        match self {
            VmError::NotFound(e) => e.message(),
            VmError::Persistence(e) => String::from_str(e.message()),
            VmError::Process(e) => String::from_str(e.message()),
        }
    }
}

} // verus!
