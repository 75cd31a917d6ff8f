//! What the tool is asked to do.

use crate::text::text_of;
use vstd::prelude::*;

verus! {

/// The command line, once read.
#[derive(Debug, PartialEq, Eq)]
pub struct Cli {
    pub command: Command,
}

/// The task of a run.
#[derive(Debug, PartialEq, Eq)]
pub enum Command {
    /// Copies the user local service.
    CopyService,
    /// Watches launcher entries; `config` is the path of a custom config file.
    Watch { config: Option<String> },
}

/// A command, as the contracts speak of it.
pub enum CommandView {
    CopyService,
    Watch { config: Option<Seq<char>> },
}

impl View for Command {
    type V = CommandView;

    open spec fn view(&self) -> CommandView {
        match self {
            Command::CopyService => CommandView::CopyService,
            Command::Watch { config } => CommandView::Watch { config: text_of(*config) },
        }
    }
}

impl View for Cli {
    type V = CommandView;

    open spec fn view(&self) -> CommandView {
        self.command@
    }
}

} // verus!
