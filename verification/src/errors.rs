//! Error types of the installer.
//!
//! Underlying I/O and parse failures reach this crate as plain message
//! strings; every variant can render itself as the human-readable line the
//! command-line tool prints.

use vstd::prelude::*;
use crate::text::dec_spec;
use crate::text::usize_to_string;

verus! {

/// Failures while locating, parsing or resolving a manifest or an index.
#[derive(Debug, Clone, PartialEq, Eq)]
pub enum CharonIoError {
    GenericIoError(String),
    TomlDeError(String),
    TomlSerError(String),
    CharonFileNotFound,
    CharonFileEmpty,
    InvalidCharonFile(String),
    InvalidDirKey(String, usize),
    InvalidInstallItem(String, usize),
    TargetFileNotFound(String, usize),
    NoTargetProvided(usize),
    UnknownUtilName(Option<String>),
    InfoSourceBad(String),
}

/// Failures while executing one install item.
#[derive(Debug, Clone, PartialEq, Eq)]
pub enum CharonInstallError {
    GenericIoError(String),
    DryRun,
    BadPermissions(String),
    FileExistsNoOverwrite,
}

pub open spec fn io_error_message_spec(e: CharonIoError) -> Seq<char> {
    match e {
        CharonIoError::CharonFileNotFound => "Could not find charon file in $CWD."@,
        CharonIoError::CharonFileEmpty => "Charon file provided is empty."@,
        CharonIoError::TomlDeError(err) => "Error reading toml file. Error = "@ + err@ + "."@,
        CharonIoError::TomlSerError(err) => "Error reading toml file. Error = "@ + err@ + "."@,
        CharonIoError::InvalidDirKey(key, i) => "Invalid directory shortcut on line "@ + dec_spec(
            i as nat,
        ) + ": \""@ + key@ + "\"."@,
        CharonIoError::InvalidInstallItem(item, i) => "Invalid install item on line "@ + dec_spec(
            i as nat,
        ) + ": \""@ + item@ + "\"."@,
        CharonIoError::TargetFileNotFound(path, i) => "Could not find target item \""@ + path@
            + "\". Item declared on line "@ + dec_spec(i as nat) + " of Charon file."@,
        CharonIoError::GenericIoError(err) => "Error reading Charon file. Error = "@ + err@,
        CharonIoError::InvalidCharonFile(msg) => msg@ + "."@,
        CharonIoError::NoTargetProvided(i) => "Installation item without a target on line "@
            + dec_spec(i as nat) + "."@,
        CharonIoError::UnknownUtilName(Some(util)) => "Unknown util "@ + util@ + "."@,
        CharonIoError::UnknownUtilName(None) =>
            "Could not obtain util name from either charon file or $CWD."@,
        CharonIoError::InfoSourceBad(path) =>
            "Tried to interpret source path provided in info field as relative path, but canonicalization failed. SourcePath = \""@
            + path@ + "\""@,
    }
}

pub open spec fn install_error_message_spec(e: CharonInstallError) -> Seq<char> {
    match e {
        CharonInstallError::GenericIoError(err) => "An error occurred while copying file. Error = "@
            + err@ + "."@,
        CharonInstallError::DryRun => "Installation is dryrun, no changes were made."@,
        CharonInstallError::BadPermissions(err) =>
            "An error occurred while changing file permissions. Error = "@ + err@ + "."@,
        CharonInstallError::FileExistsNoOverwrite => "File exists and !overwrite."@,
    }
}

impl CharonIoError {
    /// The printable description of this error.
    pub fn to_message(&self) -> (r: String)
        ensures
            r@ == io_error_message_spec(*self),
    {
        match self {
            CharonIoError::CharonFileNotFound => "Could not find charon file in $CWD.".to_owned(),
            CharonIoError::CharonFileEmpty => "Charon file provided is empty.".to_owned(),
            CharonIoError::TomlDeError(err) => {
                let mut r = "Error reading toml file. Error = ".to_owned();
                r.append(err.as_str());
                r.append(".");
                r
            },
            CharonIoError::TomlSerError(err) => {
                let mut r = "Error reading toml file. Error = ".to_owned();
                r.append(err.as_str());
                r.append(".");
                r
            },
            CharonIoError::InvalidDirKey(key, i) => {
                let mut r = "Invalid directory shortcut on line ".to_owned();
                r.append(usize_to_string(*i).as_str());
                r.append(": \"");
                r.append(key.as_str());
                r.append("\".");
                r
            },
            CharonIoError::InvalidInstallItem(item, i) => {
                let mut r = "Invalid install item on line ".to_owned();
                r.append(usize_to_string(*i).as_str());
                r.append(": \"");
                r.append(item.as_str());
                r.append("\".");
                r
            },
            CharonIoError::TargetFileNotFound(path, i) => {
                let mut r = "Could not find target item \"".to_owned();
                r.append(path.as_str());
                r.append("\". Item declared on line ");
                r.append(usize_to_string(*i).as_str());
                r.append(" of Charon file.");
                r
            },
            CharonIoError::GenericIoError(err) => {
                let mut r = "Error reading Charon file. Error = ".to_owned();
                r.append(err.as_str());
                r
            },
            CharonIoError::InvalidCharonFile(msg) => {
                let mut r = msg.clone();
                r.append(".");
                r
            },
            CharonIoError::NoTargetProvided(i) => {
                let mut r = "Installation item without a target on line ".to_owned();
                r.append(usize_to_string(*i).as_str());
                r.append(".");
                r
            },
            CharonIoError::UnknownUtilName(Some(util)) => {
                let mut r = "Unknown util ".to_owned();
                r.append(util.as_str());
                r.append(".");
                r
            },
            CharonIoError::UnknownUtilName(None) => {
                "Could not obtain util name from either charon file or $CWD.".to_owned()
            },
            CharonIoError::InfoSourceBad(path) => {
                let mut r =
                    "Tried to interpret source path provided in info field as relative path, but canonicalization failed. SourcePath = \"".to_owned();
                r.append(path.as_str());
                r.append("\"");
                r
            },
        }
    }
}

impl CharonInstallError {
    /// The printable description of this error.
    pub fn to_message(&self) -> (r: String)
        ensures
            r@ == install_error_message_spec(*self),
    {
        match self {
            CharonInstallError::GenericIoError(err) => {
                let mut r = "An error occurred while copying file. Error = ".to_owned();
                r.append(err.as_str());
                r.append(".");
                r
            },
            CharonInstallError::DryRun => {
                "Installation is dryrun, no changes were made.".to_owned()
            },
            CharonInstallError::BadPermissions(err) => {
                let mut r = "An error occurred while changing file permissions. Error = ".to_owned();
                r.append(err.as_str());
                r.append(".");
                r
            },
            CharonInstallError::FileExistsNoOverwrite => "File exists and !overwrite.".to_owned(),
        }
    }
}

} // verus!
