//! Named aliases for Vagrant project directories, and the decisions that
//! forward `vagrant` commands to them.

pub mod args;
pub mod config;
pub mod dispatch;
pub mod entries;
pub mod error;
pub mod path;
pub mod process;
pub mod scan;
pub mod stamp;
pub mod text;
pub mod vm;

pub use crate::args::Args;
pub use crate::args::ArgsError;
pub use crate::args::Matches;
pub use crate::args::SubCommand;
pub use crate::config::Config;
pub use crate::config::Info;
pub use crate::config::Stored;
pub use crate::dispatch::step;
pub use crate::dispatch::Action;
pub use crate::dispatch::Event;
pub use crate::dispatch::State;
pub use crate::error::PersistenceError;
pub use crate::error::ProcessError;
pub use crate::error::VmError;
pub use crate::error::VmInfoFindError;
pub use crate::process::ExitStatus;
pub use crate::process::Invocation;
pub use crate::process::RunVagrant;
pub use crate::process::Vagrant;
pub use crate::scan::find_vagrantfiles;
pub use crate::scan::visit;
pub use crate::scan::DirEntry;
pub use crate::scan::Found;
pub use crate::scan::Visit;
pub use crate::stamp::Timestamp;
pub use crate::vm::FileCopy;
pub use crate::vm::Vm;
