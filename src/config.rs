use crate::comparison::names_view;
use crate::content::bytes_eq;
use vstd::prelude::*;

verus! {

/// The parameters of one comparison run: the two roots, an optional limit on
/// the content bytes read per file, and the entry names left out of every
/// directory listing.
#[derive(Debug)]
pub struct Config {
    first: Vec<u8>,
    second: Vec<u8>,
    full_compare_limit: Option<u64>,
    ignored_dirs: Vec<Vec<u8>>,
}

/// The parameters of a `Config`, paths seen as sequences.
pub struct ConfigView {
    pub first: Seq<u8>,
    pub second: Seq<u8>,
    pub full_compare_limit: Option<u64>,
    pub ignored_dirs: Seq<Seq<u8>>,
}

impl View for Config {
    type V = ConfigView;

    closed spec fn view(&self) -> ConfigView {
        ConfigView {
            first: self.first@,
            second: self.second@,
            full_compare_limit: self.full_compare_limit,
            ignored_dirs: names_view(self.ignored_dirs@),
        }
    }
}

/// `names` in their order, without those listed in `ignored`.
pub open spec fn without_ignored(names: Seq<Seq<u8>>, ignored: Seq<Seq<u8>>) -> Seq<Seq<u8>>
    decreases names.len(),
{
    if names.len() == 0 {
        names
    } else {
        let rest = without_ignored(names.drop_last(), ignored);
        if ignored.contains(names.last()) {
            rest
        } else {
            rest.push(names.last())
        }
    }
}

/// A name is kept exactly when it is listed and not ignored; a list without
/// repeated names stays so.
pub proof fn lemma_without_ignored(names: Seq<Seq<u8>>, ignored: Seq<Seq<u8>>)
    ensures
        forall|n: Seq<u8>|
            #[trigger] without_ignored(names, ignored).contains(n) <==> names.contains(n)
                && !ignored.contains(n),
        names.no_duplicates() ==> without_ignored(names, ignored).no_duplicates(),
    decreases names.len(),
{
    if names.len() > 0 {
        let init = names.drop_last();
        lemma_without_ignored(init, ignored);
        assert(names =~= init.push(names.last()));
        assert forall|n: Seq<u8>| #[trigger] names.contains(n) <==> init.contains(n) || n == names.last() by {
            if names.contains(n) {
                let i = choose|i: int| 0 <= i < names.len() && names[i] == n;
                if i < init.len() {
                    assert(init[i] == n);
                }
            }
            if init.contains(n) {
                let i = choose|i: int| 0 <= i < init.len() && init[i] == n;
                assert(names[i] == n);
            }
            if n == names.last() {
                assert(names[names.len() - 1] == n);
            }
        }
        let rest = without_ignored(init, ignored);
        assert forall|n: Seq<u8>| #[trigger] rest.push(names.last()).contains(n) <==> rest.contains(n) || n
            == names.last() by {
            if rest.push(names.last()).contains(n) {
                let i = choose|i: int| 0 <= i < rest.len() + 1 && rest.push(names.last())[i] == n;
                if i < rest.len() {
                    assert(rest[i] == n);
                }
            }
            if rest.contains(n) {
                let i = choose|i: int| 0 <= i < rest.len() && rest[i] == n;
                assert(rest.push(names.last())[i] == n);
            }
            if n == names.last() {
                assert(rest.push(names.last())[rest.len() as int] == n);
            }
        }
        if names.no_duplicates() {
            assert(init.no_duplicates()) by {
                assert forall|i: int, j: int| 0 <= i < init.len() && 0 <= j < init.len() && i != j implies init[i]
                    != init[j] by {
                    assert(names[i] == init[i] && names[j] == init[j]);
                }
            }
            assert(!init.contains(names.last())) by {
                if init.contains(names.last()) {
                    let i = choose|i: int| 0 <= i < init.len() && init[i] == names.last();
                    assert(names[i] == names[names.len() - 1]);
                }
            }
            if !ignored.contains(names.last()) {
                let pushed = rest.push(names.last());
                assert forall|i: int, j: int| 0 <= i < pushed.len() && 0 <= j < pushed.len() && i != j implies pushed[i]
                    != pushed[j] by {
                    if i < rest.len() && j < rest.len() {
                        assert(pushed[i] == rest[i] && pushed[j] == rest[j]);
                    } else if i < rest.len() {
                        assert(rest.contains(pushed[i]));
                    } else {
                        assert(rest.contains(pushed[j]));
                    }
                }
            }
        }
    }
}

/// Whether `names` lists `name`.
pub fn contains_name(names: &[Vec<u8>], name: &[u8]) -> (r: bool)
    ensures
        r == names_view(names@).contains(name@),
{
    let ghost all = names_view(names@);
    let mut i: usize = 0;
    while i < names.len()
        invariant
            i <= names@.len(),
            all == names_view(names@),
            forall|j: int| 0 <= j < i ==> all[j] != name@,
        decreases names@.len() - i,
    {
        if bytes_eq(names[i].as_slice(), name) {
            assert(all[i as int] == name@);
            return true;
        }
        i += 1;
    }
    proof {
        if all.contains(name@) {
            let j = choose|j: int| 0 <= j < all.len() && all[j] == name@;
            assert(all[j] != name@);
        }
    }
    false
}

impl Config {
    /// A configuration of the given parameters.
    pub fn new(
        first: Vec<u8>,
        second: Vec<u8>,
        full_compare_limit: Option<u64>,
        ignored_dirs: Vec<Vec<u8>>,
    ) -> (r: Config)
        ensures
            r@.first == first@,
            r@.second == second@,
            r@.full_compare_limit == full_compare_limit,
            r@.ignored_dirs == names_view(ignored_dirs@),
    {
        Config { first, second, full_compare_limit, ignored_dirs }
    }

    /// The first root.
    pub fn first(&self) -> (r: &Vec<u8>)
        ensures
            r@ == self@.first,
    {
        &self.first
    }

    /// The second root.
    pub fn second(&self) -> (r: &Vec<u8>)
        ensures
            r@ == self@.second,
    {
        &self.second
    }

    /// The limit on the content bytes read per file, if any.
    pub fn full_compare_limit(&self) -> (r: Option<u64>)
        ensures
            r == self@.full_compare_limit,
    {
        self.full_compare_limit
    }

    /// The names left out of directory listings.
    pub fn ignored_dirs(&self) -> (r: &Vec<Vec<u8>>)
        ensures
            names_view(r@) == self@.ignored_dirs,
    {
        &self.ignored_dirs
    }

    /// Whether `name` is left out of directory listings.
    pub fn is_ignored(&self, name: &[u8]) -> (r: bool)
        ensures
            r == self@.ignored_dirs.contains(name@),
    {
        contains_name(self.ignored_dirs.as_slice(), name)
    }

    /// The names of a directory listing that are not ignored, in order.
    pub fn filter_names(&self, names: &[Vec<u8>]) -> (r: Vec<Vec<u8>>)
        ensures
            names_view(r@) == without_ignored(names_view(names@), self@.ignored_dirs),
    {
        let ghost all = names_view(names@);
        let mut kept: Vec<Vec<u8>> = Vec::new();
        let mut i: usize = 0;
        while i < names.len()
            invariant
                i <= names@.len(),
                all == names_view(names@),
                names_view(kept@) == without_ignored(all.subrange(0, i as int), self@.ignored_dirs),
            decreases names@.len() - i,
        {
            let ghost before = kept@;
            assert(all.subrange(0, i + 1).drop_last() =~= all.subrange(0, i as int));
            assert(all.subrange(0, i + 1).last() == names@[i as int]@);
            if !self.is_ignored(names[i].as_slice()) {
                kept.push(vstd::slice::slice_to_vec(names[i].as_slice()));
                assert(names_view(kept@) =~= names_view(before).push(names@[i as int]@));
            }
            i += 1;
        }
        assert(all.subrange(0, names@.len() as int) =~= all);
        kept
    }
}

} // verus!
