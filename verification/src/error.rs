//! Errors of the command-line tool, and how each one is reported.
use vstd::prelude::*;

verus! {

/// The text of an input/output failure.
#[derive(Debug, PartialEq, Eq, Clone)]
pub struct IOError(pub String);

/// Why the configuration language's interactive session could not start.
#[derive(Debug)]
pub enum ReplInitError {
    /// The standard library could not be loaded, parsed or typechecked.
    Stdlib,
    /// The terminal interface failed, with this message.
    ReadlineError(String),
}

/// A failure of a command. `Program` and `CliUsage` stand for errors that the
/// configuration program that ran into them reports itself.
#[derive(Debug)]
pub enum Error {
    Program,
    Io { error: IOError },
    Render { source_dir_without_definition: String },
    Repl { error: ReplInitError },
    CliUsage,
}

/// How an error is shown on the standard error stream.
#[derive(Debug)]
pub enum Report {
    /// The program that failed reports the error with its sources.
    Delegated,
    /// A diagnostic with a main label and an optional note.
    Standalone { label: String, note: Option<String> },
    /// One plain line.
    Line { text: String },
}

/// The text of an optional note.
pub open spec fn note_text(note: Option<String>) -> Option<Seq<char>> {
    match note {
        Some(n) => Some(n@),
        None => None,
    }
}

impl Error {
    /// How this error is reported.
    pub fn report(self) -> (report: Report)
        ensures
            match self {
                Error::Program => report is Delegated,
                Error::CliUsage => report is Delegated,
                Error::Io { error } => report matches Report::Standalone { label, note } && label@
                    == "IO error"@ && note_text(note) == Some(error.0@),
                Error::Render { source_dir_without_definition: dir } => report matches Report::Line {
                    text,
                } && text@ == "no definition.ncl in source directory: \""@ + dir@ + "\""@,
                Error::Repl { error: ReplInitError::Stdlib } => report matches Report::Standalone {
                    label,
                    note,
                } && label@ == "failed to initialize the standard library"@ && note is None,
                Error::Repl {
                    error: ReplInitError::ReadlineError(msg),
                } => report matches Report::Standalone { label, note } && label@
                    == "failed to initialize the terminal interface"@ && note_text(note) == Some(msg@),
            },
    {
        match self {
            Error::Program => Report::Delegated,
            Error::CliUsage => Report::Delegated,
            Error::Io { error } => Report::Standalone {
                label: String::from_str("IO error"),
                note: Some(error.0),
            },
            Error::Render { source_dir_without_definition } => {
                let mut text = String::from_str("no definition.ncl in source directory: \"");
                text.append(source_dir_without_definition.as_str());
                text.append("\"");
                Report::Line { text }
            },
            Error::Repl { error } => match error {
                ReplInitError::Stdlib => Report::Standalone {
                    label: String::from_str("failed to initialize the standard library"),
                    note: None,
                },
                ReplInitError::ReadlineError(msg) => Report::Standalone {
                    label: String::from_str("failed to initialize the terminal interface"),
                    note: Some(msg),
                },
            },
        }
    }
}

} // verus!
