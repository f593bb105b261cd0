//! The command-line surface: which subcommand runs, and the key/value
//! shapes of the configuration subcommands. The thin argument-parsing
//! layer around the binary converts into these.

use vstd::prelude::*;

verus! {

/// The parsed invocation: a subcommand and a logging verbosity.
pub struct Args {
    pub command: Commands,
    pub log: usize,
}

/// The available subcommands.
pub enum Commands {
    Ask(AskArgs),
    Server,
    Config(ConfigArgs),
    AddUser { username: String, password: String },
    CountTokens { input: String },
    Transcribe { model: String, input: String, output: String },
}

/// A one-shot question for the completion provider.
pub struct AskArgs {
    pub question: String,
}

pub struct ConfigArgs {
    pub command: ConfigCommands,
}

pub enum ConfigCommands {
    SetValue(SetArgs),
    Get(GetArgs),
}

/// The configuration entries reachable from the command line.
pub enum ConfigKeys {
    OpenaiApikey,
    LoginRequired,
    HS512Key,
    ProjectFolder,
}

pub struct SetArgs {
    pub key: ConfigKeys,
    pub value: String,
}

pub struct GetArgs {
    pub key: ConfigKeys,
}

} // verus!
