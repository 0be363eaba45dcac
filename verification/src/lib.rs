//! Verified core of a toolkit for RPG Maker MV game assets: the encrypted
//! image formats, the message text-code parser, and the decoding of event
//! command lists into readable Python.
use vstd::prelude::*;

pub mod decimal;
pub mod text;
pub mod rpgmvp;
pub mod encrypterator;
pub mod message_parser;
pub mod json;
pub mod types;
pub mod database;
pub mod config;
pub mod code;
pub mod command;
pub mod conditional_branch;
pub mod command_decode;
pub mod param_reader;
pub mod event_list;
pub mod function_call_writer;
pub mod generate;
pub mod dump;
pub mod line_size;
pub mod key_hex;
pub mod image_files;
pub mod completions;

verus! {
} // verus!
