use crate::content::bytes_eq;
use std::collections::HashMap;
use vstd::prelude::*;

verus! {

broadcast use vstd::std_specs::hash::group_hash_axioms;

/// For each side of a comparison, the path at which each object (by inode
/// number) was first seen.
#[derive(Debug)]
pub struct InodeMaps {
    first: HashMap<u64, Vec<u8>>,
    second: HashMap<u64, Vec<u8>>,
}

/// The two maps of `InodeMaps`, paths seen as sequences.
pub struct InodeMapsView {
    pub first: Map<u64, Seq<u8>>,
    pub second: Map<u64, Seq<u8>>,
}

/// A map from inode numbers to paths, paths seen as sequences.
pub open spec fn paths_view(m: Map<u64, Vec<u8>>) -> Map<u64, Seq<u8>> {
    m.map_values(|p: Vec<u8>| p@)
}

impl View for InodeMaps {
    type V = InodeMapsView;

    closed spec fn view(&self) -> InodeMapsView {
        InodeMapsView { first: paths_view(self.first@), second: paths_view(self.second@) }
    }
}

/// The path recorded for `ino` in `m`, if any.
pub open spec fn recorded(m: Map<u64, Seq<u8>>, ino: u64) -> Option<Seq<u8>> {
    if m.contains_key(ino) {
        Some(m[ino])
    } else {
        None
    }
}

/// What registering a pair of entries found.
#[derive(Debug)]
pub enum Registration {
    /// Neither object was seen before: both are now recorded.
    New,
    /// Both objects were seen before, at the same path.
    Seen,
    /// One object was seen and the other not, or they were seen at
    /// different paths: these paths.
    Mismatch(Option<Vec<u8>>, Option<Vec<u8>>),
}

/// What registering the pair reports.
pub enum RegistrationView {
    New,
    Seen,
    Mismatch(Option<Seq<u8>>, Option<Seq<u8>>),
}

impl View for Registration {
    type V = RegistrationView;

    open spec fn view(&self) -> RegistrationView {
        match self {
            Registration::New => RegistrationView::New,
            Registration::Seen => RegistrationView::Seen,
            Registration::Mismatch(a, b) => RegistrationView::Mismatch(
                crate::comparison::opt_bytes(*a),
                crate::comparison::opt_bytes(*b),
            ),
        }
    }
}

impl InodeMapsView {
    /// What registering object `first_ino` at `first_path` on the first side
    /// and `second_ino` at `second_path` on the second side reports.
    pub open spec fn registration(self, first_ino: u64, second_ino: u64) -> RegistrationView {
        let a = recorded(self.first, first_ino);
        let b = recorded(self.second, second_ino);
        if a != b {
            RegistrationView::Mismatch(a, b)
        } else if a is None {
            RegistrationView::New
        } else {
            RegistrationView::Seen
        }
    }

    /// The maps after that registration: the paths are recorded when both
    /// objects are new.
    pub open spec fn registered(
        self,
        first_ino: u64,
        first_path: Seq<u8>,
        second_ino: u64,
        second_path: Seq<u8>,
    ) -> InodeMapsView {
        if self.registration(first_ino, second_ino) is New {
            InodeMapsView {
                first: self.first.insert(first_ino, first_path),
                second: self.second.insert(second_ino, second_path),
            }
        } else {
            self
        }
    }

    /// The same maps, sides swapped.
    pub open spec fn swapped(self) -> InodeMapsView {
        InodeMapsView { first: self.second, second: self.first }
    }
}

/// The path recorded under `key`, if any.
pub fn entry_get(map: &HashMap<u64, Vec<u8>>, key: u64) -> (r: Option<&Vec<u8>>)
    ensures
        match r {
            Some(v) => map@.contains_key(key) && *v == map@[key],
            None => !map@.contains_key(key),
        },
{
    map.get(&key)
}

impl InodeMaps {
    /// Maps with nothing recorded.
    pub fn new() -> (r: InodeMaps)
        ensures
            r@.first == Map::<u64, Seq<u8>>::empty(),
            r@.second == Map::<u64, Seq<u8>>::empty(),
    {
        let r = InodeMaps { first: HashMap::new(), second: HashMap::new() };
        assert(paths_view(r.first@) =~= Map::<u64, Seq<u8>>::empty());
        assert(paths_view(r.second@) =~= Map::<u64, Seq<u8>>::empty());
        r
    }

    /// Looks both objects up, and records both paths when neither object
    /// was seen before.
    pub fn register(&mut self, first_ino: u64, first_path: &[u8], second_ino: u64, second_path: &[u8]) -> (r:
        Registration)
        ensures
            r@ == old(self)@.registration(first_ino, second_ino),
            final(self)@ == old(self)@.registered(first_ino, first_path@, second_ino, second_path@),
    {
        let first_value = entry_get(&self.first, first_ino);
        let second_value = entry_get(&self.second, second_ino);
        let outcome = match (first_value, second_value) {
            (None, None) => Registration::New,
            (Some(a), Some(b)) => {
                if bytes_eq(a.as_slice(), b.as_slice()) {
                    Registration::Seen
                } else {
                    Registration::Mismatch(
                        Some(vstd::slice::slice_to_vec(a.as_slice())),
                        Some(vstd::slice::slice_to_vec(b.as_slice())),
                    )
                }
            },
            (Some(a), None) => Registration::Mismatch(Some(vstd::slice::slice_to_vec(a.as_slice())), None),
            (None, Some(b)) => Registration::Mismatch(None, Some(vstd::slice::slice_to_vec(b.as_slice()))),
        };
        if let Registration::New = outcome {
            self.first.insert(first_ino, vstd::slice::slice_to_vec(first_path));
            self.second.insert(second_ino, vstd::slice::slice_to_vec(second_path));
            proof {
                assert(paths_view(self.first@) =~= paths_view(old(self).first@).insert(first_ino, first_path@));
                assert(paths_view(self.second@) =~= paths_view(old(self).second@).insert(second_ino, second_path@));
            }
        }
        outcome
    }
}

} // verus!
