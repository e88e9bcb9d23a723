//! `sbc` connects a terminal to a Docker Sandbox, on this machine or over SSH,
//! and carries the clipboard across.
//!
//! This crate holds what the program decides and computes. Reading and writing
//! is left to its caller: each loop of the program is a state with a function
//! that takes what happened and says what to do next.

use vstd::prelude::*;

pub mod cli;
pub mod clipboard;
pub mod command;
pub mod config;
pub mod error;
pub mod laws;
pub mod program;
pub mod session;
pub mod shell;
pub mod target;
pub mod text;
pub mod transfer;

use crate::cli::Invocation;
use crate::command::SessionCommand;
use crate::config::Config;
use crate::error::Failure;
use crate::program::{Action, Event, Stage};
use crate::target::Target;

verus! {

/// Runs the program: takes one event, and says what to do next.
pub fn run(stage: Stage, event: Event) -> (r: (Stage, Action))
    requires
        program::event_fits(stage@, event@),
        event.wf(),
    ensures
        (r.0@, r.1@) == program::step(stage@, event@),
{
    match event {
        Event::Arguments(args) => (Stage::Parsing, Action::Parse(cli::parse_from(args))),
        Event::Parsed(Invocation::Connect(args)) => (
            Stage::Locating(args),
            Action::AskEnvironment,
        ),
        Event::Parsed(Invocation::Config(args)) => (Stage::Ended, Action::Configure(args)),
        Event::Environment { default_path, host } => match stage {
            Stage::Locating(args) => match config::resolved_path(&args.config, default_path) {
                Ok(path) => (
                    Stage::Loading { args, environment_host: host },
                    Action::LoadConfig(path),
                ),
                Err(error) => (Stage::Ended, Action::Fail(error)),
            },
            _ => (Stage::Ended, Action::Fail(Failure::ConfigDirectoryUnknown)),
        },
        Event::Loaded { path, source } => {
            let config = match Config::load(path.as_str(), source) {
                Ok(config) => config,
                Err(error) => {
                    return (Stage::Ended, Action::Fail(error));
                },
            };
            let (args, environment_host) = match stage {
                Stage::Loading { args, environment_host } => (args, environment_host),
                _ => {
                    return (Stage::Ended, Action::Fail(Failure::ConfigDirectoryUnknown));
                },
            };
            let target = match Target::resolve(&args, &config, &environment_host) {
                Ok(target) => target,
                Err(error) => {
                    return (Stage::Ended, Action::Fail(error));
                },
            };
            match SessionCommand::for_target(&target, args.command.as_slice()) {
                Ok(command) => (
                    Stage::Ended,
                    Action::Connect { command, target, clipboard_enabled: !args.no_clipboard },
                ),
                Err(error) => (Stage::Ended, Action::Fail(error)),
            }
        },
    }
}

} // verus!
