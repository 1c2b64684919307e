//! Requests: what a parsed command line asks for.

use vstd::prelude::*;
use vstd::string::*;
use crate::text::split_words;
use crate::text::str_eq;
use crate::text::texts;
use crate::text::words;

verus! {

/// One request.
#[derive(Debug, PartialEq, Eq)]
pub enum SubCommand {
    /// Show the entries.
    List,
    /// Store an entry for `name` that stands for `path`.
    Add { name: String, path: String },
    /// Take the entry called `name` out; ask first unless `force` is set.
    Remove { name: String, force: bool },
    /// Copy the registry's file to a sibling that carries the time.
    BackupConfigFile,
    /// Look for files called `Vagrantfile` below `base_path`.
    FindVagrantfiles { base_path: String },
    /// Run `vagrant` with `options` in the directory of `vm_name`.
    Raw { vm_name: String, options: Vec<String> },
}

/// What a `SubCommand` holds, as character sequences.
pub enum SubCommandView {
    List,
    Add { name: Seq<char>, path: Seq<char> },
    Remove { name: Seq<char>, force: bool },
    BackupConfigFile,
    FindVagrantfiles { base_path: Seq<char> },
    Raw { vm_name: Seq<char>, options: Seq<Seq<char>> },
}

impl View for SubCommand {
    type V = SubCommandView;

    open spec fn view(&self) -> SubCommandView {
        match self {
            SubCommand::List => SubCommandView::List,
            SubCommand::Add { name, path } => SubCommandView::Add { name: name@, path: path@ },
            SubCommand::Remove { name, force } => SubCommandView::Remove {
                name: name@,
                force: *force,
            },
            SubCommand::BackupConfigFile => SubCommandView::BackupConfigFile,
            SubCommand::FindVagrantfiles { base_path } => SubCommandView::FindVagrantfiles {
                base_path: base_path@,
            },
            SubCommand::Raw { vm_name, options } => SubCommandView::Raw {
                vm_name: vm_name@,
                options: texts(options@),
            },
        }
    }
}

/// What a command line lacks.
#[derive(Debug, Clone, Copy, PartialEq, Eq)]
pub enum ArgsError {
    NoVmName,
    NoVmPath,
    NoFindVagrantfilesBasePath,
}

/// An `ArgsError` in words.
pub open spec fn args_error_text(e: ArgsError) -> Seq<char> {
    match e {
        ArgsError::NoVmName => "Not specified a VM name"@,
        ArgsError::NoVmPath => "Not specified a VM directory path"@,
        ArgsError::NoFindVagrantfilesBasePath => "Not specified a find path"@,
    }
}

impl ArgsError {
    /// The error in words.
    pub fn message(&self) -> (r: String)
        ensures
            r@ == args_error_text(*self),
    {
        match self {
            ArgsError::NoVmName => String::from_str("Not specified a VM name"),
            ArgsError::NoVmPath => String::from_str("Not specified a VM directory path"),
            ArgsError::NoFindVagrantfilesBasePath => String::from_str("Not specified a find path"),
        }
    }
}

/// What the command line's parser found: the subcommand that was named, if
/// any, and the value of each argument that was given.
#[derive(Debug, PartialEq, Eq)]
pub struct Matches {
    pub subcommand: Option<String>,
    pub add_name: Option<String>,
    pub add_path: Option<String>,
    pub remove_name: Option<String>,
    pub remove_force: bool,
    pub find_vagrantfiles_base_path: Option<String>,
    pub vm_name: Option<String>,
    pub vagrant_options: Option<String>,
}

/// Whether the subcommand `name` was given.
pub open spec fn names_subcommand(m: Matches, name: Seq<char>) -> bool {
    m.subcommand matches Some(s) && s@ == name
}

/// The request that `m` stands for, or what it lacks. Without one of the
/// five subcommands, the request is to run `vagrant` for `vm_name`, with
/// the words of `vagrant_options` as its options.
pub open spec fn request_of(m: Matches) -> Result<SubCommandView, ArgsError> {
    if names_subcommand(m, "list"@) {
        Ok(SubCommandView::List)
    } else if names_subcommand(m, "add"@) {
        match (m.add_name, m.add_path) {
            (None, _) => Err(ArgsError::NoVmName),
            (Some(_), None) => Err(ArgsError::NoVmPath),
            (Some(name), Some(path)) => Ok(SubCommandView::Add { name: name@, path: path@ }),
        }
    } else if names_subcommand(m, "remove"@) {
        match m.remove_name {
            None => Err(ArgsError::NoVmName),
            Some(name) => Ok(SubCommandView::Remove { name: name@, force: m.remove_force }),
        }
    } else if names_subcommand(m, "backup_config_file"@) {
        Ok(SubCommandView::BackupConfigFile)
    } else if names_subcommand(m, "find_vagrantfiles"@) {
        match m.find_vagrantfiles_base_path {
            None => Err(ArgsError::NoFindVagrantfilesBasePath),
            Some(base_path) => Ok(SubCommandView::FindVagrantfiles { base_path: base_path@ }),
        }
    } else {
        match m.vm_name {
            None => Err(ArgsError::NoVmName),
            Some(vm_name) => Ok(
                SubCommandView::Raw {
                    vm_name: vm_name@,
                    options: match m.vagrant_options {
                        Some(line) => words(line@),
                        None => Seq::empty(),
                    },
                },
            ),
        }
    }
}

/// A parsed command line.
#[derive(Debug, PartialEq, Eq)]
pub struct Args {
    pub subcommand: SubCommand,
}

/// Whether the subcommand `name` was given.
fn subcommand_is(m: &Matches, name: &str) -> (r: bool)
    ensures
        r == names_subcommand(*m, name@),
{
    match &m.subcommand {
        Some(s) => str_eq(s.as_str(), name),
        None => false,
    }
}

impl Args {
    /// The request that `matches` stands for.
    pub fn new(matches: Matches) -> (r: Result<Args, ArgsError>)
        ensures
            (match r {
                Ok(args) => request_of(matches) == Ok::<SubCommandView, ArgsError>(args.subcommand@),
                Err(e) => request_of(matches) == Err::<SubCommandView, ArgsError>(e),
            }),
    {
        let subcommand = if subcommand_is(&matches, "list") {
            SubCommand::List
        } else if subcommand_is(&matches, "add") {
            match (matches.add_name, matches.add_path) {
                (None, _) => {
                    return Err(ArgsError::NoVmName);
                },
                (Some(_), None) => {
                    return Err(ArgsError::NoVmPath);
                },
                (Some(name), Some(path)) => SubCommand::Add { name, path },
            }
        } else if subcommand_is(&matches, "remove") {
            match matches.remove_name {
                None => {
                    return Err(ArgsError::NoVmName);
                },
                Some(name) => SubCommand::Remove { name, force: matches.remove_force },
            }
        } else if subcommand_is(&matches, "backup_config_file") {
            SubCommand::BackupConfigFile
        } else if subcommand_is(&matches, "find_vagrantfiles") {
            match matches.find_vagrantfiles_base_path {
                None => {
                    return Err(ArgsError::NoFindVagrantfilesBasePath);
                },
                Some(base_path) => SubCommand::FindVagrantfiles { base_path },
            }
        } else {
            match matches.vm_name {
                None => {
                    return Err(ArgsError::NoVmName);
                },
                Some(vm_name) => {
                    let options: Vec<String> = match matches.vagrant_options {
                        Some(line) => split_words(line.as_str()),
                        None => Vec::new(),
                    };
                    assert(matches.vagrant_options is None ==> texts(options@)
                        =~= Seq::<Seq<char>>::empty());
                    SubCommand::Raw { vm_name, options }
                },
            }
        };
        Ok(Args { subcommand })
    }
}

} // verus!
