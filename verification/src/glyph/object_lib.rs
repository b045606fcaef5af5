//! The identifier and lib that several glyph objects carry.

use vstd::prelude::*;

use crate::identifier::Identifier;
use crate::shared_types::Plist;

verus! {

/// The optional identifier and the optional lib of an object in a glyph (a point, a
/// contour, a component or an anchor).
///
/// An object with a lib always has an identifier: it is what the lib is filed under
/// when the glyph is written.
#[derive(Debug)]
pub struct ObjectLib {
    identifier: Option<Identifier>,
    lib: Option<Plist>,
}

impl Clone for ObjectLib {
    fn clone(&self) -> (res: Self)
        ensures
            res.spec_lib() == self.spec_lib(),
            res.spec_identifier() is Some <==> self.spec_identifier() is Some,
            res.spec_identifier() matches Some(i) ==> i@ == self.spec_identifier()->Some_0@,
    {
        proof {
            use_type_invariant(self);
        }
        let identifier = match &self.identifier {
            Some(i) => Some(i.clone()),
            None => None,
        };
        let lib = match &self.lib {
            Some(l) => Some(l.clone()),
            None => None,
        };
        ObjectLib { identifier, lib }
    }
}

/// A mutable reference to the value of an option, if it holds one.
fn option_as_mut<T>(o: &mut Option<T>) -> (res: Option<&mut T>)
    ensures
        (res is Some) == (*old(o) is Some),
        res matches Some(v) ==> *old(o) == Some(*v) && *final(o) == Some(*final(v)),
        res is None ==> *final(o) is None,
    no_unwind
{
    match o {
        Some(v) => Some(v),
        None => None,
    }
}

impl ObjectLib {
    #[verifier::type_invariant]
    closed spec fn inv(self) -> bool {
        self.lib is Some ==> self.identifier is Some
    }

    /// The identifier, if any.
    pub closed spec fn spec_identifier(self) -> Option<Identifier> {
        self.identifier
    }

    /// The lib, if any.
    pub closed spec fn spec_lib(self) -> Option<Plist> {
        self.lib
    }

    /// An object with a lib has an identifier.
    pub fn lib_has_identifier(&self)
        ensures
            self.spec_lib() is Some ==> self.spec_identifier() is Some,
    {
        proof {
            use_type_invariant(self);
        }
    }

    /// Returns the identifier and lib of a new object. When a lib is given and no
    /// identifier, a fresh random identifier is set.
    pub fn new(identifier: Option<Identifier>, lib: Option<Plist>) -> (res: Self)
        ensures
            res.spec_lib() == lib,
            identifier is Some ==> res.spec_identifier() == identifier,
            identifier is None ==> (res.spec_identifier() is Some <==> lib is Some),
    {
        let mut this = ObjectLib { identifier: None, lib: None };
        if let Some(id) = identifier {
            this.replace_identifier(id);
        }
        if let Some(lib) = lib {
            this.replace_lib(lib);
        }
        this
    }

    /// Returns a reference to the lib.
    pub fn lib(&self) -> (res: Option<&Plist>)
        ensures
            res == match self.spec_lib() {
                Some(l) => Some(&l),
                None => None::<&Plist>,
            },
    {
        match &self.lib {
            Some(l) => Some(l),
            None => None,
        }
    }

    /// Returns a mutable reference to the lib.
    pub fn lib_mut(&mut self) -> (res: Option<&mut Plist>)
        ensures
            (res is Some) == (old(self).spec_lib() is Some),
            res matches Some(l) ==> old(self).spec_lib() == Some(*l) && final(self).spec_lib() == Some(*final(l)),
            res is None ==> final(self).spec_lib() is None,
            final(self).spec_identifier() == old(self).spec_identifier(),
        no_unwind
    {
        proof {
            use_type_invariant(&*self);
        }
        option_as_mut(&mut self.lib)
    }

    /// Replaces the lib by the given one, returning the old lib if present. Sets a new
    /// random identifier if none is set already.
    pub fn replace_lib(&mut self, lib: Plist) -> (res: Option<Plist>)
        ensures
            res == old(self).spec_lib(),
            final(self).spec_lib() == Some(lib),
            old(self).spec_identifier() is Some ==> final(self).spec_identifier() == old(
                self,
            ).spec_identifier(),
            final(self).spec_identifier() is Some,
    {
        let mut taken = ObjectLib { identifier: None, lib: None };
        std::mem::swap(&mut taken, self);
        let ObjectLib { identifier, lib: old_lib } = taken;
        let id = match identifier {
            Some(id) => id,
            None => Identifier::from_uuidv4(),
        };
        *self = ObjectLib { identifier: Some(id), lib: Some(lib) };
        old_lib
    }

    /// Takes the lib out, leaving a None in its place.
    pub fn take_lib(&mut self) -> (res: Option<Plist>)
        ensures
            res == old(self).spec_lib(),
            final(self).spec_lib() is None,
            final(self).spec_identifier() == old(self).spec_identifier(),
    {
        let mut taken = ObjectLib { identifier: None, lib: None };
        std::mem::swap(&mut taken, self);
        let ObjectLib { identifier, lib } = taken;
        *self = ObjectLib { identifier, lib: None };
        lib
    }

    /// Returns a reference to the identifier.
    pub fn identifier(&self) -> (res: Option<&Identifier>)
        ensures
            res == match self.spec_identifier() {
                Some(i) => Some(&i),
                None => None::<&Identifier>,
            },
    {
        match &self.identifier {
            Some(i) => Some(i),
            None => None,
        }
    }

    /// Replaces the identifier by the given one, returning the old identifier if present.
    pub fn replace_identifier(&mut self, id: Identifier) -> (res: Option<Identifier>)
        ensures
            res == old(self).spec_identifier(),
            final(self).spec_identifier() == Some(id),
            final(self).spec_lib() == old(self).spec_lib(),
    {
        let mut taken = ObjectLib { identifier: None, lib: None };
        std::mem::swap(&mut taken, self);
        let ObjectLib { identifier: old_id, lib } = taken;
        *self = ObjectLib { identifier: Some(id), lib };
        old_id
    }
}

} // verus!
