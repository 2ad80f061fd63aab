//! The command line of a codec engine run, as plain data.
//!
//! The library decides what is run and with which arguments; whoever owns the
//! process table turns a `CodecCommand` into a child process.

use vstd::prelude::*;
use crate::paths::PathView;
use crate::paths::copy_path;

verus! {

/// One argument of a command line.
#[derive(Clone, Debug, PartialEq, Eq)]
pub enum CommandArg {
    /// A flag or value passed as written.
    Text(String),
    /// A file path, by its components.
    Path(Vec<String>),
}

/// What a `CommandArg` is to the contracts.
pub enum ArgView {
    Text(Seq<char>),
    Path(PathView),
}

impl View for CommandArg {
    type V = ArgView;

    open spec fn view(&self) -> ArgView {
        match self {
            CommandArg::Text(text) => ArgView::Text(text@),
            CommandArg::Path(path) => ArgView::Path(path.deep_view()),
        }
    }
}

/// A program name and its arguments, in order.
#[derive(Clone, Debug, PartialEq, Eq)]
pub struct CodecCommand {
    pub program: String,
    pub args: Vec<CommandArg>,
}

/// What a `CodecCommand` is to the contracts.
pub struct CommandView {
    pub program: Seq<char>,
    pub args: Seq<ArgView>,
}

impl View for CodecCommand {
    type V = CommandView;

    open spec fn view(&self) -> CommandView {
        CommandView { program: self.program@, args: self.args@.map_values(|a: CommandArg| a@) }
    }
}

impl CodecCommand {
    /// A command that runs `program` with no arguments yet.
    pub fn new(program: &str) -> (r: CodecCommand)
        ensures
            r@ == (CommandView { program: program@, args: Seq::empty() }),
    {
        let r = CodecCommand { program: String::from_str(program), args: Vec::new() };
        proof {
            assert(r@.args =~= Seq::empty());
        }
        r
    }

    /// Appends `text` as the next argument.
    pub fn arg(&mut self, text: &str)
        ensures
            final(self)@ == (CommandView {
                program: old(self)@.program,
                args: old(self)@.args.push(ArgView::Text(text@)),
            }),
    {
        self.args.push(CommandArg::Text(String::from_str(text)));
        proof {
            assert(self@.args =~= old(self)@.args.push(ArgView::Text(text@)));
        }
    }

    /// Appends the path `path` as the next argument.
    pub fn arg_path(&mut self, path: &Vec<String>)
        ensures
            final(self)@ == (CommandView {
                program: old(self)@.program,
                args: old(self)@.args.push(ArgView::Path(path.deep_view())),
            }),
    {
        self.args.push(CommandArg::Path(copy_path(path)));
        proof {
            assert(self@.args =~= old(self)@.args.push(ArgView::Path(path.deep_view())));
        }
    }
}

} // verus!
