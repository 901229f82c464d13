//! The framing of a JSON log: the records of a run are written one after
//! the other as the elements of one JSON list. What is decided here is the
//! text that goes between them; writing it is the caller's business.

use crate::common::str_eq;
use vstd::prelude::*;

verus! {

/// The name that stands for standard output in place of a file.
pub const STDOUT: &'static str = "-";

/// What opens the list.
pub const JSON_LIST_START: &'static str = "[\n";

/// What closes the list.
pub const JSON_LIST_END: &'static str = "\n]\n";

/// What separates two records of the list.
pub const JSON_LIST_SEP: &'static str = ",\n";

/// The state of a JSON log: where it goes, and whether the list was opened.
#[derive(Debug, Default, Clone)]
pub struct JsonLogger {
    pub json_file: Option<String>,
    pub json_file_initialized: bool,
}

impl JsonLogger {
    /// A log that goes to `log_file`, or nowhere; its list is not open yet.
    pub fn new(log_file: Option<String>) -> (logger: JsonLogger)
        ensures
            logger.json_file == log_file,
            !logger.json_file_initialized,
    {
        JsonLogger { json_file: log_file, json_file_initialized: false }
    }

    /// Whether anything is logged at all.
    pub fn is_enabled(&self) -> (enabled: bool)
        ensures
            enabled == self.json_file is Some,
    {
        self.json_file.is_some()
    }

    /// Whether the log goes to standard output rather than to a file.
    pub fn goes_to_stdout(&self) -> (stdout: bool)
        ensures
            stdout == (self.json_file matches Some(file) && file@ == STDOUT@),
    {
        match &self.json_file {
            Some(file) => str_eq(file.as_str(), STDOUT),
            None => false,
        }
    }

    /// The text that closes the log.
    pub fn close(&self) -> (text: &'static str)
        ensures
            text@ == JSON_LIST_END@,
    {
        JSON_LIST_END
    }

    /// Logs one record, given as JSON text: returns the pieces of text to
    /// write, in their order. The first record is preceded by what opens the
    /// list, every later one by the separator.
    pub fn log<'a>(&mut self, json: &'a str) -> (pieces: Vec<&'a str>)
        ensures
            final(self).json_file == old(self).json_file,
            final(self).json_file_initialized,
            pieces@.len() == 2,
            pieces@[0]@ == (if old(self).json_file_initialized {
                JSON_LIST_SEP@
            } else {
                JSON_LIST_START@
            }),
            pieces@[1]@ == json@,
    {
        let mut pieces: Vec<&'a str> = Vec::new();
        if !self.json_file_initialized {
            pieces.push(JSON_LIST_START);
            self.json_file_initialized = true;
        } else {
            pieces.push(JSON_LIST_SEP);
        }
        pieces.push(json);
        pieces
    }
}

} // verus!
