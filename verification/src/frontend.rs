//! Frontends: where a committed rotation is sent.
//!
//! Writing to a sink is the caller's business. What is decided here is which
//! frontend to set up, what it is called, and what is written to it.

use vstd::prelude::*;
use crate::poll::ERR_NO_FRONTEND;
use crate::rotation::Rotation;
use crate::text::same_text;

verus! {

/// The default path of the file that the rotation is written to. `%d`
/// stands for the working directory.
pub const DEFAULT_SPINFILE: &'static str = "%d/spinnrd.spin";

/// The name of the frontend that writes the rotation to a file.
pub const FILE_FRONTEND: &'static str = "file";

/// Why a rotation could not be sent.
#[derive(Debug)]
pub enum SendError {
    IoError(std::io::Error),
}

/// Something that a rotation can be sent to.
pub trait Frontend {
    /// Sends the rotation on.
    fn send(&mut self, orientation: Rotation) -> Result<(), SendError>;
}

/// A frontend that is not there.
pub struct DummySender();

/// A frontend that writes the rotation to a file, which it creates anew for
/// each rotation.
#[derive(Debug)]
pub struct FileSender {
    path: String,
}

/// The frontends there are.
#[derive(Debug)]
pub enum FrontendKind {
    File(FileSender),
}

/// Why a frontend could not be set up.
#[derive(Debug)]
pub enum FrontendError {
    /// The frontend was left out when the program was built.
    NotCompiled(&'static str),
    /// There is no frontend of this name.
    NoSuchFrontend(String),
    /// The file at this path cannot be created.
    FileSender(std::io::Error, String),
}

/// The help text for the file frontend.
pub open spec fn file_sender_help_text() -> Seq<char> {
    "\n    For File:\n        path: The path to the spinfile. Defaults to "@ + DEFAULT_SPINFILE@
        + ".\n"@
}

/// Returns the help text for the file frontend.
fn file_sender_help() -> (help: String)
    ensures
        help@ == file_sender_help_text(),
{
    let mut help = "\n    For File:\n        path: The path to the spinfile. Defaults to ".to_owned();
    help.append(DEFAULT_SPINFILE);
    help.append(".\n");
    help
}

/// Returns the help text for the options of the frontends.
pub fn frontend_help() -> (help: String)
    ensures
        help@ == file_sender_help_text(),
{
    file_sender_help()
}

impl FileSender {
    /// The path of the file.
    pub closed spec fn path(&self) -> Seq<char> {
        self.path@
    }

    /// Sets up a sender for the file at `path`, given what came of an
    /// attempt to create that file.
    pub fn init(path: String, created: Result<(), std::io::Error>) -> (r: Result<
        FileSender,
        FrontendError,
    >)
        ensures
            match created {
                Ok(_) => r is Ok && r->Ok_0.path() == path@,
                Err(e) => r matches Err(FrontendError::FileSender(cause, at)) && cause == e && at
                    == path,
            },
    {
        match created {
            Ok(_) => Ok(FileSender { path }),
            Err(e) => Err(FrontendError::FileSender(e, path)),
        }
    }

    /// Returns the path of the file.
    pub fn to_string_lossy(&self) -> (path: &str)
        ensures
            path@ == self.path(),
    {
        self.path.as_str()
    }

    /// Returns what is written to the file for `orientation`: its name.
    pub fn contents(&self, orientation: Rotation) -> (text: &'static str)
        ensures
            text@ == orientation.spec_name(),
    {
        orientation.name()
    }
}

impl FrontendKind {
    /// What the frontend is called in messages.
    pub open spec fn description(&self) -> Seq<char> {
        match self {
            FrontendKind::File(sender) => "FileSender to "@ + sender.path(),
        }
    }

    /// Returns what the frontend is called in messages.
    pub fn describe(&self) -> (text: String)
        ensures
            text@ == self.description(),
    {
        match self {
            FrontendKind::File(sender) => {
                let mut text = "FileSender to ".to_owned();
                text.append(sender.to_string_lossy());
                text
            },
        }
    }
}

/// The path of the spinfile: the one given as an option, or the default.
pub fn spinfile_path(option: Option<&str>) -> (path: String)
    ensures
        path@ == match option {
            Some(given) => given@,
            None => DEFAULT_SPINFILE@,
        },
{
    match option {
        Some(given) => given.to_owned(),
        None => DEFAULT_SPINFILE.to_owned(),
    }
}

/// Sets up the file frontend for the file at `path`, given what came of an
/// attempt to create that file.
pub fn init_file(path: String, created: Result<(), std::io::Error>) -> (r: Result<
    FrontendKind,
    FrontendError,
>)
    ensures
        match created {
            Ok(_) => r matches Ok(FrontendKind::File(sender)) && sender.path() == path@,
            Err(e) => r matches Err(FrontendError::FileSender(cause, at)) && cause == e && at
                == path,
        },
{
    match FileSender::init(path, created) {
        Ok(sender) => Ok(FrontendKind::File(sender)),
        Err(e) => Err(e),
    }
}

/// Whether there is a frontend called `name`.
pub open spec fn is_frontend(name: Seq<char>) -> bool {
    name == FILE_FRONTEND@
}

/// Finds the frontend to set up next.
///
/// `frontends` holds the names asked for, in the order in which they are to
/// be tried, and `from` is the index to start at: 0 at first, and one more
/// than the index returned last where that frontend could not be set up.
/// The result is the index of the first name at or after `from` that is the
/// name of a frontend, or the status to leave with where there is none.
pub fn init_frontend(frontends: &Vec<String>, from: usize) -> (r: Result<usize, i32>)
    ensures
        match r {
            Ok(at) => {
                &&& from <= at < frontends@.len()
                &&& is_frontend(frontends@[at as int]@)
                &&& forall|i: int| from <= i < at ==> !is_frontend(#[trigger] frontends@[i]@)
            },
            Err(status) => {
                &&& status == ERR_NO_FRONTEND
                &&& forall|i: int|
                    from <= i < frontends@.len() ==> !is_frontend(#[trigger] frontends@[i]@)
            },
        },
{
    let mut at: usize = from;
    while at < frontends.len()
        invariant
            from <= at,
            forall|i: int| from <= i < at && i < frontends@.len() ==> !is_frontend(
                #[trigger] frontends@[i]@,
            ),
        decreases frontends@.len() - at,
    {
        if same_text(frontends[at].as_str(), FILE_FRONTEND) {
            return Ok(at);
        }
        at = at + 1;
    }
    Err(ERR_NO_FRONTEND)
}

} // verus!
