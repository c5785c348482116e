//! Absolute filesystem paths, modelled as the sequence of their component
//! names. All path arithmetic that the crate performs — appending components
//! and expressing one path relative to another — lives here, on plain values.

use vstd::prelude::*;

verus! {

/// An absolute filesystem path, held as the sequence of its component names
/// from the root downward. The shell that talks to the operating system
/// converts between this form and the platform's native path type.
#[derive(Debug, Clone, PartialEq, Eq)]
pub struct DirPath {
    pub parts: Vec<String>,
}

impl View for DirPath {
    type V = Seq<Seq<char>>;

    open spec fn view(&self) -> Seq<Seq<char>> {
        self.parts@.map_values(|s: String| s@)
    }
}

/// Clones a vector of strings, component for component.
fn clone_strings(v: &Vec<String>) -> (r: Vec<String>)
    ensures
        r@ == v@,
{
    let mut r: Vec<String> = Vec::new();
    let mut i: usize = 0;
    while i < v.len()
        invariant
            i <= v.len(),
            r@ == v@.subrange(0, i as int),
        decreases v.len() - i,
    {
        r.push(v[i].clone());
        proof {
            assert(v@.subrange(0, i as int).push(v@[i as int]) =~= v@.subrange(
                0,
                i as int + 1,
            ));
        }
        i = i + 1;
    }
    proof {
        assert(v@.subrange(0, v@.len() as int) =~= v@);
    }
    r
}

impl DirPath {
    /// Makes a copy whose components are equal to this path's.
    pub fn duplicate(&self) -> (r: DirPath)
        ensures
            r@ == self@,
    {
        DirPath { parts: clone_strings(&self.parts) }
    }

    /// The path extended by one further component.
    pub fn join(&self, name: &str) -> (r: DirPath)
        ensures
            r@ == self@.push(name@),
    {
        let mut parts = clone_strings(&self.parts);
        parts.push(name.to_owned());
        let r = DirPath { parts };
        proof {
            assert(r@ =~= self@.push(name@));
        }
        r
    }

    /// The path extended by a relative path, component by component.
    pub fn join_all(&self, rel: &Vec<String>) -> (r: DirPath)
        ensures
            r@ == self@ + rel@.map_values(|s: String| s@),
    {
        let mut parts = clone_strings(&self.parts);
        let mut i: usize = 0;
        while i < rel.len()
            invariant
                i <= rel.len(),
                parts@ == self.parts@ + rel@.subrange(0, i as int),
            decreases rel.len() - i,
        {
            parts.push(rel[i].clone());
            proof {
                assert((self.parts@ + rel@.subrange(0, i as int)).push(rel@[i as int]) =~= self.parts@
                    + rel@.subrange(0, i as int + 1));
            }
            i = i + 1;
        }
        let r = DirPath { parts };
        proof {
            assert(rel@.subrange(0, rel@.len() as int) =~= rel@);
            assert(r@ =~= self@ + rel@.map_values(|s: String| s@));
        }
        r
    }

    /// This path expressed relative to `base`: `Some` of the components that
    /// follow `base`'s exactly when `base` is a prefix of this path, `None`
    /// otherwise.
    pub fn strip_prefix(&self, base: &DirPath) -> (r: Option<Vec<String>>)
        ensures
            match r {
                Some(rel) => base@.is_prefix_of(self@) && rel@.map_values(|s: String| s@) == self@
                    .skip(base@.len() as int),
                None => !base@.is_prefix_of(self@),
            },
    {
        if base.parts.len() > self.parts.len() {
            return None;
        }
        let mut i: usize = 0;
        while i < base.parts.len()
            invariant
                i <= base.parts.len() <= self.parts.len(),
                forall|j: int| 0 <= j < i ==> base@[j] == self@[j],
            decreases base.parts.len() - i,
        {
            if !(base.parts[i] == self.parts[i]) {
                proof {
                    assert(base@[i as int] != self@[i as int]);
                    assert(!base@.is_prefix_of(self@));
                }
                return None;
            }
            i = i + 1;
        }
        proof {
            assert(base@ =~= self@.subrange(0, base@.len() as int));
        }
        let mut rel: Vec<String> = Vec::new();
        let mut k: usize = base.parts.len();
        while k < self.parts.len()
            invariant
                base.parts.len() <= k <= self.parts.len(),
                rel@ == self.parts@.subrange(base.parts@.len() as int, k as int),
            decreases self.parts.len() - k,
        {
            rel.push(self.parts[k].clone());
            proof {
                assert(self.parts@.subrange(base.parts@.len() as int, k as int).push(
                    self.parts@[k as int],
                ) =~= self.parts@.subrange(base.parts@.len() as int, k as int + 1));
            }
            k = k + 1;
        }
        proof {
            assert(rel@.map_values(|s: String| s@) =~= self@.skip(base@.len() as int));
        }
        Some(rel)
    }
}

} // verus!
