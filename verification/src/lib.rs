//! Orientation sensing for devices with a three-axis accelerometer.
//!
//! The library holds the parts of the daemon that decide something: how a
//! channel descriptor is read, how a raw sample becomes a signed value, which
//! rotation a tilt stands for, and when a rotation has been held long enough
//! to be reported. Every function here is verified against its contract, but
//! for the searches in `pattern`, which are the work of the `regex` crate.

pub mod accel;
pub mod backend;
pub mod canonical;
pub mod debounce;
pub mod decode;
pub mod descriptor;
pub mod frontend;
pub mod logging;
pub mod options;
pub mod oserror;
pub mod pattern;
pub mod poll;
pub mod rotation;
pub mod template;
pub mod text;
