//! The four rotations a display can take, and things that can sense them.

use vstd::prelude::*;

verus! {

/// A display rotation. Only equality is meaningful; the order of the variants
/// carries no meaning.
#[derive(Debug, PartialEq, Eq, Structural, Clone, Copy)]
pub enum Rotation {
    Normal,
    Left,
    Inverted,
    Right,
}

/// Why a text could not be read as a rotation.
#[derive(Debug)]
pub enum RotParseErrKind {
    TooShort,
    TooLong,
    NoMatch,
}

impl Default for Rotation {
    fn default() -> (r: Rotation)
        ensures
            r == Rotation::Normal,
    {
        Rotation::Normal
    }
}

impl Rotation {
    /// The lower-case name under which a rotation is written out.
    pub open spec fn spec_name(self) -> Seq<char> {
        match self {
            Rotation::Normal => "normal"@,
            Rotation::Left => "left"@,
            Rotation::Inverted => "inverted"@,
            Rotation::Right => "right"@,
        }
    }

    /// Returns the name of the rotation: `normal`, `left`, `inverted` or `right`.
    pub fn name(&self) -> (s: &'static str)
        ensures
            s@ == self.spec_name(),
    {
        match self {
            Rotation::Normal => "normal",
            Rotation::Left => "left",
            Rotation::Inverted => "inverted",
            Rotation::Right => "right",
        }
    }
}

/// Something that can give the device's orientation.
pub trait Orientator {
    /// Returns the current orientation, if it can be told.
    fn orientation(&mut self) -> Option<Rotation>;
}

/// An orientator that never senses anything.
pub struct DummyOrientator();

impl Orientator for DummyOrientator {
    fn orientation(&mut self) -> (r: Option<Rotation>)
        ensures
            r is None,
    {
        None
    }
}

} // verus!
