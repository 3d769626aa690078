use vstd::prelude::*;

verus! {

/// Whether no code occurs twice in the list.
pub open spec fn unique_codes(codes: Seq<Seq<char>>) -> bool {
    forall|j: int, k: int| 0 <= j < k < codes.len() ==> codes[j] != codes[k]
}

/// The active rule set's registry, built once at startup: the codes of the
/// registered rules, in registration order, with duplicates rejected so
/// that every code identifies at most one rule. The rules themselves stay
/// with the caller; the registry only guards the uniqueness contract.
pub struct Registry {
    codes: Vec<String>,
}

impl View for Registry {
    type V = Seq<Seq<char>>;

    closed spec fn view(&self) -> Seq<Seq<char>> {
        self.codes@.map_values(|c: String| c@)
    }
}

impl Registry {
    /// Every registry reachable through this interface holds pairwise
    /// distinct codes.
    pub open spec fn inv(&self) -> bool {
        unique_codes(self@)
    }

    /// An empty registry.
    pub fn new() -> (r: Registry)
        ensures
            r@ == Seq::<Seq<char>>::empty(),
            r.inv(),
    {
        let r = Registry { codes: Vec::new() };
        proof {
            assert(r@ =~= Seq::<Seq<char>>::empty());
        }
        r
    }

    /// Whether a rule with this code is already registered.
    pub fn contains_code(&self, code: &str) -> (found: bool)
        ensures
            found == self@.contains(code@),
    {
        let wanted = code.to_owned();
        let mut i: usize = 0;
        while i < self.codes.len()
            invariant
                i <= self.codes.len(),
                wanted@ == code@,
                forall|j: int| 0 <= j < i ==> self@[j] != code@,
            decreases self.codes.len() - i,
        {
            if self.codes[i] == wanted {
                proof {
                    assert(self@[i as int] == code@);
                }
                return true;
            }
            i = i + 1;
        }
        proof {
            assert(forall|j: int| 0 <= j < self@.len() ==> self@[j] != code@);
        }
        false
    }

    /// Registers one rule's code. Succeeds exactly when the code is not
    /// taken yet; a duplicate is rejected and leaves the registry
    /// unchanged.
    pub fn register(&mut self, code: &str) -> (ok: bool)
        requires
            old(self).inv(),
        ensures
            final(self).inv(),
            ok == !old(self)@.contains(code@),
            ok ==> final(self)@ == old(self)@.push(code@),
            !ok ==> final(self)@ == old(self)@,
    {
        if self.contains_code(code) {
            false
        } else {
            self.codes.push(code.to_owned());
            proof {
                assert(self@ =~= old(self)@.push(code@));
                assert forall|j: int, k: int| 0 <= j < k < self@.len() implies self@[j]
                    != self@[k] by {
                    if k < self@.len() - 1 {
                        assert(self@[j] == old(self)@[j] && self@[k] == old(self)@[k]);
                    } else {
                        assert(self@[k] == code@);
                        assert(!old(self)@.contains(code@));
                        assert(self@[j] == old(self)@[j]);
                    }
                }
            }
            true
        }
    }

    /// The number of registered rules.
    pub fn len(&self) -> (n: usize)
        ensures
            n == self@.len(),
    {
        self.codes.len()
    }
}

} // verus!
