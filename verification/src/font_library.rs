//! The fonts of a renderer, by name.
use vstd::prelude::*;
use crate::names::{find, lookup, register, registered};

verus! {

/// The fonts of a renderer, by name.
pub struct FontLibrary<F> {
    fonts: Vec<(&'static str, F)>,
}

impl<F> FontLibrary<F> {
    /// The font registered under `name`, if any.
    pub closed spec fn font(&self, name: Seq<char>) -> Option<F> {
        lookup(self.fonts@, name)
    }

    /// A library with no fonts.
    pub fn new() -> (r: FontLibrary<F>)
        ensures
            forall|name: Seq<char>| #[trigger] r.font(name) is None,
    {
        FontLibrary { fonts: Vec::new() }
    }

    /// Registers `font` under `name`, replacing any font of that name.
    pub fn add_font(&mut self, name: &'static str, font: F)
        ensures
            forall|k: Seq<char>|
                #[trigger] final(self).font(k) == if k == name@ {
                    Some(font)
                } else {
                    old(self).font(k)
                },
    {
        register(&mut self.fonts, name, font);
        assert(registered(old(self).fonts@, self.fonts@, name@, font));
    }

    /// The font registered under `name`, if any.
    pub fn get(&self, name: &'static str) -> (r: Option<&F>)
        ensures
            match r {
                Some(f) => self.font(name@) == Some(*f),
                None => self.font(name@) is None,
            },
    {
        return find(&self.fonts, name);
    }
}

} // verus!
