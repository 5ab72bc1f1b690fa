//! A list of planet names and a terraforming pass that renames them all.

use vstd::prelude::*;

verus! {

use vstd::string::StringExecFns;

/// A list of planet names.
#[derive(Debug)]
pub struct Planets(Vec<String>);

impl Planets {
    /// The names, each as its character sequence.
    pub closed spec fn names(&self) -> Seq<Seq<char>> {
        self.0.deep_view()
    }

    /// A list holding the given names.
    pub fn new(planets: Vec<String>) -> (p: Self)
        ensures
            p.names() == planets.deep_view(),
    {
        Self(planets)
    }

    /// How many planets the list holds.
    pub fn len(&self) -> (n: usize)
        ensures
            n == self.names().len(),
    {
        self.0.len()
    }

    /// The name of the planet at position `i`.
    pub fn name_at(&self, i: usize) -> (s: &String)
        requires
            i < self.names().len(),
        ensures
            s@ == self.names()[i as int],
    {
        let s = &self.0[i];
        proof {
            assert(self.names()[i as int] == self.0@[i as int].deep_view());
        }
        s
    }

    /// Renames every planet by appending " Nova" to it.
    pub fn terraform(&mut self)
        ensures
            final(self).names().len() == old(self).names().len(),
            forall|i: int|
                0 <= i < old(self).names().len() ==> final(self).names()[i] == old(self).names()[i]
                    + " Nova"@,
    {
        let ghost before = self.names();
        proof {
            assert forall|j: int| 0 <= j < before.len() implies #[trigger] self.0@[j]@
                == before[j] by {
                assert(before[j] == self.0@[j].deep_view());
            }
        }
        let n = self.0.len();
        for i in 0..n
            invariant
                n == self.0.len(),
                before.len() == n,
                forall|j: int| 0 <= j < i ==> #[trigger] self.0@[j]@ == before[j] + " Nova"@,
                forall|j: int| i <= j < n ==> #[trigger] self.0@[j]@ == before[j],
        {
            let renamed = self.0[i].clone().concat(" Nova");
            assert(renamed@ == before[i as int] + " Nova"@);
            self.0.set(i, renamed);
        }
        proof {
            assert forall|j: int| 0 <= j < n implies #[trigger] self.names()[j] == before[j]
                + " Nova"@ by {
                assert(self.names()[j] == self.0@[j].deep_view());
                assert(self.0@[j]@ == before[j] + " Nova"@);
            }
            assert(self.names().len() == n);
        }
    }
}

/// A stand-in for a value only known at run time.
pub fn which() -> (w: usize)
    ensures
        w == 8,
{
    8
}

} // verus!
