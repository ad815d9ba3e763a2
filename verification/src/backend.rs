//! Backends: where the orientation comes from.
//!
//! Reading a sensor is the caller's business. What is decided here is which
//! backend to set up.

use vstd::prelude::*;
use crate::accel::{
    DEFAULT_DATA_PREFIX,
    DEFAULT_DATA_SUFFIX,
    DEFAULT_DESCR_PREFIX,
    DEFAULT_DESCR_SUFFIX,
    DEFAULT_FIX_SIGN,
    DEFAULT_SCALE_FILE,
};
use crate::poll::ERR_NO_ORIENTATOR;
use crate::text::same_text;

verus! {

/// The name of the backend that reads an accelerometer through files and
/// smooths what it reads.
pub const FSACCEL_BACKEND: &'static str = "fsaccel";

/// The name of the backend that reads an accelerometer through files and
/// takes each reading as it comes.
pub const FSACCEL_RAW_BACKEND: &'static str = "fsaccel_raw";

/// The backends there are.
#[derive(Debug, PartialEq, Eq, Structural, Clone, Copy)]
pub enum OrientatorKind {
    /// An accelerometer read through files, behind a low-pass filter.
    FsAccel,
    /// An accelerometer read through files, unfiltered.
    FsAccelRaw,
}

/// Why a backend could not be set up.
#[derive(Debug)]
pub enum BackendError {
    /// The backend was left out when the program was built.
    NotCompiled(&'static str),
    /// There is no backend of this name.
    NoSuchBackend(String),
    /// The files of the accelerometer could not be found or opened.
    FsAccel(std::io::Error),
}

/// The help text for the backend that reads an accelerometer through files.
pub open spec fn fsbackendhelp_text() -> Seq<char> {
    "\n    For fsaccel:\n        path: The path to the accelerometer files.\n            [Autodetects if not set]\n        scale: Use a set scale instead of reading the scale file.\n        defscale: A default scale to use in case the scale file can't be found.\n        scalefile: The name of the file to check for the scale.\n            [Defaults to \""@
        + DEFAULT_SCALE_FILE@
        + "\"]\n        data_prefix: The part of the channel data file name before the \n            channel name. [Defaults to \""@
        + DEFAULT_DATA_PREFIX@
        + "\"]\n        descr_prefix: The part of the channel description file name before \n            the channel name. [Defaults to \""@
        + DEFAULT_DESCR_PREFIX@
        + "\"]\n        data_suffix: The part of the channel data file name after the \n            channel name. [Defaults to \""@
        + DEFAULT_DATA_SUFFIX@
        + "\"]\n        descr_suffix: The part of the channel description file name after \n            the channel name. [Defaults to \""@
        + DEFAULT_DESCR_SUFFIX@
        + "\"]\n        fix_sign: Whether to apply signfix (when signed integers are \n            written as unsigned). [Defaults to "@
        + DEFAULT_FIX_SIGN@ + "]\n"@
}

/// Returns the help text for the backend that reads an accelerometer through
/// files.
fn fsbackendhelp() -> (help: String)
    ensures
        help@ == fsbackendhelp_text(),
{
    let mut help =
        "\n    For fsaccel:\n        path: The path to the accelerometer files.\n            [Autodetects if not set]\n        scale: Use a set scale instead of reading the scale file.\n        defscale: A default scale to use in case the scale file can't be found.\n        scalefile: The name of the file to check for the scale.\n            [Defaults to \"".to_owned();
    help.append(DEFAULT_SCALE_FILE);
    help.append(
        "\"]\n        data_prefix: The part of the channel data file name before the \n            channel name. [Defaults to \"",
    );
    help.append(DEFAULT_DATA_PREFIX);
    help.append(
        "\"]\n        descr_prefix: The part of the channel description file name before \n            the channel name. [Defaults to \"",
    );
    help.append(DEFAULT_DESCR_PREFIX);
    help.append(
        "\"]\n        data_suffix: The part of the channel data file name after the \n            channel name. [Defaults to \"",
    );
    help.append(DEFAULT_DATA_SUFFIX);
    help.append(
        "\"]\n        descr_suffix: The part of the channel description file name after \n            the channel name. [Defaults to \"",
    );
    help.append(DEFAULT_DESCR_SUFFIX);
    help.append(
        "\"]\n        fix_sign: Whether to apply signfix (when signed integers are \n            written as unsigned). [Defaults to ",
    );
    help.append(DEFAULT_FIX_SIGN);
    help.append("]\n");
    help
}

/// Returns the help text for the options of the backends.
pub fn backend_help() -> (help: String)
    ensures
        help@ == fsbackendhelp_text(),
{
    fsbackendhelp()
}

/// The backend called `name`, if there is one.
pub open spec fn backend_named(name: Seq<char>) -> Option<OrientatorKind> {
    if name == FSACCEL_RAW_BACKEND@ {
        Some(OrientatorKind::FsAccelRaw)
    } else if name == FSACCEL_BACKEND@ {
        Some(OrientatorKind::FsAccel)
    } else {
        None
    }
}

/// Returns the backend called `name`, if there is one.
pub fn backend_kind(name: &str) -> (kind: Option<OrientatorKind>)
    ensures
        kind == backend_named(name@),
{
    if same_text(name, FSACCEL_RAW_BACKEND) {
        Some(OrientatorKind::FsAccelRaw)
    } else if same_text(name, FSACCEL_BACKEND) {
        Some(OrientatorKind::FsAccel)
    } else {
        None
    }
}

/// Finds the backend to set up next.
///
/// `backends` holds the names asked for, in the order in which they are to
/// be tried, and `from` is the index to start at: 0 at first, and one more
/// than the index returned last where that backend could not be set up. The
/// result is the index of the first name at or after `from` that is the name
/// of a backend, with the backend, or the status to leave with where there
/// is none.
pub fn init_orientator(backends: &Vec<String>, from: usize) -> (r: Result<
    (usize, OrientatorKind),
    i32,
>)
    ensures
        match r {
            Ok((at, kind)) => {
                &&& from <= at < backends@.len()
                &&& backend_named(backends@[at as int]@) == Some(kind)
                &&& forall|i: int|
                    from <= i < at ==> backend_named(#[trigger] backends@[i]@) is None
            },
            Err(status) => {
                &&& status == ERR_NO_ORIENTATOR
                &&& forall|i: int|
                    from <= i < backends@.len() ==> backend_named(#[trigger] backends@[i]@) is None
            },
        },
{
    let mut at: usize = from;
    while at < backends.len()
        invariant
            from <= at,
            forall|i: int|
                from <= i < at && i < backends@.len() ==> backend_named(
                    #[trigger] backends@[i]@,
                ) is None,
        decreases backends@.len() - at,
    {
        match backend_kind(backends[at].as_str()) {
            Some(kind) => {
                return Ok((at, kind));
            },
            None => {},
        }
        at = at + 1;
    }
    Err(ERR_NO_ORIENTATOR)
}

} // verus!
