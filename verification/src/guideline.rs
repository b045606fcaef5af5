//! Guidelines.

use vstd::prelude::*;

use crate::identifier::Identifier;
use crate::shared_types::{Color, FloatBits, Plist};

verus! {

/// An infinite line.
#[derive(Debug, Clone, Copy, PartialEq, Eq)]
pub enum Line {
    /// A vertical line, passing through a given `x` coordinate.
    Vertical(FloatBits),
    /// A horizontal line, passing through a given `y` coordinate.
    Horizontal(FloatBits),
    /// An angled line passing through `(x, y)` at `degrees` degrees counter-clockwise
    /// to the horizontal.
    Angle {
        /// x coordinate.
        x: FloatBits,
        /// y coordinate.
        y: FloatBits,
        /// angle degrees.
        degrees: FloatBits,
    },
}

/// Why the coordinates given for a guideline make no line.
#[derive(Debug, Clone, Copy, PartialEq, Eq)]
pub enum LineShapeError {
    /// Neither `x` nor `y` is given.
    MissingCoordinate,
    /// An angle is given with only one of `x` and `y`.
    AngleWithOneCoordinate,
    /// Both `x` and `y` are given, without an angle.
    MissingAngle,
}

/// The line that these coordinates and angle describe: `x` alone a vertical line, `y`
/// alone a horizontal one, all three an angled one; any other combination is an
/// error.
pub open spec fn spec_line_of(x: Option<FloatBits>, y: Option<FloatBits>, angle: Option<FloatBits>) -> Result<Line, LineShapeError> {
    match (x, y, angle) {
        (Some(x), None, None) => Ok(Line::Vertical(x)),
        (None, Some(y), None) => Ok(Line::Horizontal(y)),
        (Some(x), Some(y), Some(degrees)) => Ok(Line::Angle { x, y, degrees }),
        (None, None, _) => Err(LineShapeError::MissingCoordinate),
        (Some(_), Some(_), None) => Err(LineShapeError::MissingAngle),
        _ => Err(LineShapeError::AngleWithOneCoordinate),
    }
}

/// The line that these coordinates and angle describe, as [`spec_line_of`] says.
pub fn line_of(x: Option<FloatBits>, y: Option<FloatBits>, angle: Option<FloatBits>) -> (res: Result<Line, LineShapeError>)
    ensures
        res == spec_line_of(x, y, angle),
{
    match (x, y, angle) {
        (Some(x), None, None) => Ok(Line::Vertical(x)),
        (None, Some(y), None) => Ok(Line::Horizontal(y)),
        (Some(x), Some(y), Some(degrees)) => Ok(Line::Angle { x, y, degrees }),
        (None, None, _) => Err(LineShapeError::MissingCoordinate),
        (Some(_), Some(_), None) => Err(LineShapeError::MissingAngle),
        _ => Err(LineShapeError::AngleWithOneCoordinate),
    }
}

/// A guideline associated with a glyph or a font.
#[derive(Debug, Clone)]
pub struct Guideline {
    /// The line itself.
    pub line: Line,
    /// An arbitrary name for the guideline.
    pub name: Option<String>,
    /// The color of the line.
    pub color: Option<Color>,
    /// Unique identifier for the guideline. Only required when a lib is present.
    identifier: Option<Identifier>,
    /// The guideline's lib for arbitary data.
    lib: Option<Plist>,
}

impl Guideline {
    /// The guideline's line.
    pub closed spec fn spec_line(&self) -> Line {
        self.line
    }

    /// The guideline's name, if any.
    pub closed spec fn spec_name(&self) -> Option<String> {
        self.name
    }

    /// The guideline's color, if any.
    pub closed spec fn spec_color(&self) -> Option<Color> {
        self.color
    }

    /// The guideline's identifier, if any.
    pub closed spec fn spec_identifier(&self) -> Option<Identifier> {
        self.identifier
    }

    /// The guideline's lib, if any.
    pub closed spec fn spec_lib(&self) -> Option<Plist> {
        self.lib
    }

    /// Returns a new [`Guideline`].
    ///
    /// When a lib is given and no identifier, a fresh random identifier is set.
    pub fn new(
        line: Line,
        name: Option<String>,
        color: Option<Color>,
        identifier: Option<Identifier>,
        lib: Option<Plist>,
    ) -> (res: Self)
        ensures
            res.spec_line() == line,
            res.spec_name() == name,
            res.spec_color() == color,
            res.spec_lib() == lib,
            identifier is Some ==> res.spec_identifier() == identifier,
            identifier is None ==> (res.spec_identifier() is Some <==> lib is Some),
    {
        let mut this = Self { line, name, color, identifier: None, lib: None };
        if let Some(id) = identifier {
            this.replace_identifier(id);
        }
        if let Some(lib) = lib {
            this.replace_lib(lib);
        }
        this
    }

    /// Returns a reference to the guideline's lib.
    pub fn lib(&self) -> (res: Option<&Plist>)
        ensures
            res == match self.spec_lib() {
                Some(l) => Some(&l),
                None => None::<&Plist>,
            },
    {
        match &self.lib {
            Some(l) => Some(l),
            None => None,
        }
    }

    /// Returns a mutable reference to the guideline's lib.
    pub fn lib_mut(&mut self) -> (res: Option<&mut Plist>)
        ensures
            (res is Some) == (old(self).spec_lib() is Some),
            res matches Some(l) ==> old(self).spec_lib() == Some(*l) && final(self).spec_lib() == Some(*final(l)),
            res is None ==> final(self).spec_lib() is None,
            final(self).spec_identifier() == old(self).spec_identifier(),
            final(self).spec_line() == old(self).spec_line(),
            final(self).spec_name() == old(self).spec_name(),
            final(self).spec_color() == old(self).spec_color(),
    {
        match &mut self.lib {
            Some(l) => Some(l),
            None => None,
        }
    }

    /// Replaces the lib by the given one, returning the old lib if present.
    /// Sets a new random identifier if none is set already.
    pub fn replace_lib(&mut self, lib: Plist) -> (res: Option<Plist>)
        ensures
            res == old(self).spec_lib(),
            final(self).spec_lib() == Some(lib),
            old(self).spec_identifier() is Some ==> final(self).spec_identifier() == old(self).spec_identifier(),
            final(self).spec_identifier() is Some,
            final(self).spec_line() == old(self).spec_line(),
            final(self).spec_name() == old(self).spec_name(),
            final(self).spec_color() == old(self).spec_color(),
    {
        if self.identifier.is_none() {
            self.identifier = Some(Identifier::from_uuidv4());
        }
        let old_lib = self.lib.take();
        self.lib = Some(lib);
        old_lib
    }

    /// Takes the lib out of the guideline, leaving a None in its place.
    pub fn take_lib(&mut self) -> (res: Option<Plist>)
        ensures
            res == old(self).spec_lib(),
            final(self).spec_lib() is None,
            final(self).spec_identifier() == old(self).spec_identifier(),
            final(self).spec_line() == old(self).spec_line(),
            final(self).spec_name() == old(self).spec_name(),
            final(self).spec_color() == old(self).spec_color(),
    {
        self.lib.take()
    }

    /// Returns the guideline's name.
    pub fn name_ref(&self) -> (res: &Option<String>)
        ensures
            *res == self.spec_name(),
    {
        &self.name
    }

    /// Returns the guideline's line.
    pub fn line_value(&self) -> (res: Line)
        ensures
            res == self.spec_line(),
    {
        self.line
    }

    /// Returns the guideline's color.
    pub fn color_ref(&self) -> (res: &Option<Color>)
        ensures
            *res == self.spec_color(),
    {
        &self.color
    }

    /// Returns a reference to the guideline's identifier.
    pub fn identifier(&self) -> (res: Option<&Identifier>)
        ensures
            res == match self.spec_identifier() {
                Some(i) => Some(&i),
                None => None::<&Identifier>,
            },
    {
        match &self.identifier {
            Some(i) => Some(i),
            None => None,
        }
    }

    /// Replaces the identifier by the given one, returning the old identifier if present.
    pub fn replace_identifier(&mut self, id: Identifier) -> (res: Option<Identifier>)
        ensures
            res == old(self).spec_identifier(),
            final(self).spec_identifier() == Some(id),
            final(self).spec_lib() == old(self).spec_lib(),
            final(self).spec_line() == old(self).spec_line(),
            final(self).spec_name() == old(self).spec_name(),
            final(self).spec_color() == old(self).spec_color(),
    {
        let old_id = self.identifier.take();
        self.identifier = Some(id);
        old_id
    }
}

} // verus!
