use vstd::prelude::*;

use crate::model::AppData;

verus! {

/// A read-only accessor into a piece of model state: a path descriptor, not
/// a value. It owns no data and never mutates; two lenses are equal exactly
/// when they denote the same path. The model here exposes one readable
/// field, so the descriptor has one path.
#[derive(Clone, Copy, PartialEq, Eq, Structural, Debug)]
pub enum Lens {
    Count,
}

/// What a lens path reads from a model value.
pub open spec fn lens_read(l: Lens, d: AppData) -> i32 {
    match l {
        Lens::Count => d.count,
    }
}

impl Lens {
    /// Evaluate the lens against a model value.
    pub fn get(&self, model: &AppData) -> (v: i32)
        ensures
            v == lens_read(*self, *model),
    {
        match self {
            Lens::Count => model.count,
        }
    }

    /// Path equality: the equality rule bindings use for change detection.
    pub fn path_eq(&self, other: &Lens) -> (r: bool)
        ensures
            r == (*self == *other),
    {
        match (self, other) {
            (Lens::Count, Lens::Count) => true,
        }
    }
}

} // verus!
