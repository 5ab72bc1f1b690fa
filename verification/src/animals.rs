//! A tiny menagerie: each animal has a name, a sound, and a food.

use vstd::prelude::*;

verus! {

use vstd::string::StringExecFns;

/// An animal that can introduce itself, make its sound, and name its food.
pub trait Animal {
    /// The animal's name.
    spec fn spec_name(&self) -> Seq<char>;

    /// The sound the animal makes.
    spec fn spec_say(&self) -> Seq<char>;

    /// What the animal eats.
    spec fn spec_eat(&self) -> Seq<char>;

    /// The animal's name.
    fn name(&self) -> (r: String)
        ensures
            r@ == self.spec_name(),
    ;

    /// The sound the animal makes.
    fn say(&self) -> (r: String)
        ensures
            r@ == self.spec_say(),
    ;

    /// What the animal eats.
    fn eat(&self) -> (r: String)
        ensures
            r@ == self.spec_eat(),
    ;
}

/// A cow: says "moo", eats grass.
pub struct Cow {}

impl Animal for Cow {
    open spec fn spec_name(&self) -> Seq<char> {
        "Cow"@
    }

    open spec fn spec_say(&self) -> Seq<char> {
        "moo"@
    }

    open spec fn spec_eat(&self) -> Seq<char> {
        "grass"@
    }

    fn name(&self) -> String {
        String::from_str("Cow")
    }

    fn say(&self) -> String {
        String::from_str("moo")
    }

    fn eat(&self) -> String {
        String::from_str("grass")
    }
}

/// A fish: says "blub", eats krill.
pub struct Fish {}

impl Animal for Fish {
    open spec fn spec_name(&self) -> Seq<char> {
        "Fish"@
    }

    open spec fn spec_say(&self) -> Seq<char> {
        "blub"@
    }

    open spec fn spec_eat(&self) -> Seq<char> {
        "krill"@
    }

    fn name(&self) -> String {
        String::from_str("Fish")
    }

    fn say(&self) -> String {
        String::from_str("blub")
    }

    fn eat(&self) -> String {
        String::from_str("krill")
    }
}

/// A bat: says "click", eats moths.
pub struct Bat {}

impl Animal for Bat {
    open spec fn spec_name(&self) -> Seq<char> {
        "Bat"@
    }

    open spec fn spec_say(&self) -> Seq<char> {
        "click"@
    }

    open spec fn spec_eat(&self) -> Seq<char> {
        "moth"@
    }

    fn name(&self) -> String {
        String::from_str("Bat")
    }

    fn say(&self) -> String {
        String::from_str("click")
    }

    fn eat(&self) -> String {
        String::from_str("moth")
    }
}

} // verus!
