//! The entity stored by the repository: an identifier and a display name.

use vstd::prelude::*;

verus! {

/// Mathematical view of a [`Hero`]: both fields as character sequences.
pub ghost struct HeroView {
    pub id: Seq<char>,
    pub name: Seq<char>,
}

/// The views of a sequence of entities, elementwise.
pub open spec fn views_of(heroes: Seq<Hero>) -> Seq<HeroView> {
    heroes.map_values(|h: Hero| h@)
}

/// A stored record: an opaque identifier and a display name. Immutable once
/// constructed; the service only reads these.
#[derive(Debug)]
pub struct Hero {
    pub id: String,
    pub name: String,
}

impl View for Hero {
    type V = HeroView;

    open spec fn view(&self) -> HeroView {
        HeroView { id: self.id@, name: self.name@ }
    }
}

impl Hero {
    /// Builds an entity from its identifier and display name.
    pub fn new(id: &str, name: &str) -> (h: Hero)
        ensures
            h@.id == id@,
            h@.name == name@,
    {
        Hero { id: id.to_owned(), name: name.to_owned() }
    }
}

impl Clone for Hero {
    fn clone(&self) -> (h: Self)
        ensures
            h@ == self@,
    {
        Hero { id: self.id.clone(), name: self.name.clone() }
    }
}

impl PartialEq for Hero {
    fn eq(&self, other: &Hero) -> bool {
        self.id == other.id && self.name == other.name
    }
}

impl vstd::std_specs::cmp::PartialEqSpecImpl for Hero {
    open spec fn obeys_eq_spec() -> bool {
        true
    }

    open spec fn eq_spec(&self, other: &Hero) -> bool {
        self.id@ == other.id@ && self.name@ == other.name@
    }
}

impl Default for Hero {
    /// The entity with empty identifier and name.
    fn default() -> (h: Hero)
        ensures
            h@.id == Seq::<char>::empty(),
            h@.name == Seq::<char>::empty(),
    {
        Hero { id: String::new(), name: String::new() }
    }
}

} // verus!
