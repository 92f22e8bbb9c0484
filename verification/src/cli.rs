//! The command surface: which fields a caller asks to read, and which
//! fields with which new values a caller asks to write.

use vstd::prelude::*;

verus! {

/// The fields a read asks for, and whether ID3v1-to-ID3v2.4 conversion may
/// be attempted when no ID3v2 tag is present.
#[derive(Clone, Copy, Debug, PartialEq, Eq, Structural)]
pub struct ReadFields {
    pub artist: bool,
    pub album: bool,
    pub track: bool,
    pub title: bool,
    pub year: bool,
    pub convert: bool,
}

/// The new values a write carries. An absent value leaves that field
/// untouched: setting is opt-in per field, never a blanket overwrite.
#[derive(Clone, Debug)]
pub struct WriteFields {
    pub artist: Option<String>,
    pub album: Option<String>,
    pub track: Option<u32>,
    pub title: Option<String>,
    pub year: Option<i32>,
    pub convert: bool,
}

/// The mathematical content of `WriteFields`.
pub ghost struct WriteFieldsModel {
    pub artist: Option<Seq<char>>,
    pub album: Option<Seq<char>>,
    pub track: Option<u32>,
    pub title: Option<Seq<char>>,
    pub year: Option<i32>,
    pub convert: bool,
}

impl View for WriteFields {
    type V = WriteFieldsModel;

    open spec fn view(&self) -> WriteFieldsModel {
        WriteFieldsModel {
            artist: match self.artist {
                Some(s) => Some(s@),
                None => None,
            },
            album: match self.album {
                Some(s) => Some(s@),
                None => None,
            },
            track: self.track,
            title: match self.title {
                Some(s) => Some(s@),
                None => None,
            },
            year: self.year,
            convert: self.convert,
        }
    }
}

/// A command: read the requested fields, or write the given values.
#[derive(Clone, Debug)]
pub enum Command {
    Read(ReadFields),
    Write(WriteFields),
}

/// The mathematical content of a `Command`.
pub ghost enum CommandModel {
    Read(ReadFields),
    Write(WriteFieldsModel),
}

impl View for Command {
    type V = CommandModel;

    open spec fn view(&self) -> CommandModel {
        match self {
            Command::Read(f) => CommandModel::Read(*f),
            Command::Write(w) => CommandModel::Write(w@),
        }
    }
}

/// One invocation: the path the caller named, and the command to run
/// against each file it denotes.
#[derive(Clone, Debug)]
pub struct Cli {
    pub path: String,
    pub cmd: Command,
}

/// The mathematical content of a `Cli`.
pub ghost struct CliModel {
    pub path: Seq<char>,
    pub cmd: CommandModel,
}

impl View for Cli {
    type V = CliModel;

    open spec fn view(&self) -> CliModel {
        CliModel { path: self.path@, cmd: self.cmd@ }
    }
}

} // verus!
