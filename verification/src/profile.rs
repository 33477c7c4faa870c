//! Profiles: the manifest of installed packages that a profile generation
//! records.
use vstd::prelude::*;
use crate::assoc::{keys_of, put, puts_of, lemma_put_keeps_keys_distinct};

verus! {

/// One installed package of a profile.
pub struct ManifestElement {
    pub active: bool,
    pub store_paths: Vec<String>,
    /// The flake attribute it was installed from.
    pub attr_path: Option<String>,
    /// The flake reference as given.
    pub original_url: Option<String>,
    /// The locked flake reference.
    pub url: Option<String>,
}

/// The packages of a profile generation, by name.
pub struct Manifest {
    pub version: u64,
    pub elements: Vec<(String, ManifestElement)>,
}

/// The first store path of a package, if it has one.
pub open spec fn first_path(e: ManifestElement) -> Option<Seq<char>> {
    if e.store_paths@.len() > 0 {
        Some(e.store_paths@[0]@)
    } else {
        None
    }
}

/// The store path a package is compared by: its first one, or empty.
pub open spec fn first_path_or_empty(e: ManifestElement) -> Seq<char> {
    match first_path(e) {
        Some(p) => p,
        None => Seq::empty(),
    }
}

impl Manifest {
    /// The package names, in order.
    pub open spec fn names(&self) -> Seq<Seq<char>> {
        keys_of(self.elements@)
    }

    /// No name occurs twice (the manifest is a map from names).
    pub open spec fn wf(&self) -> bool {
        self.names().no_duplicates()
    }

    /// The manifest with the packages `entries`, put in turn into a map by
    /// name: a name given twice keeps its last package, at the place of its
    /// first.
    pub fn from_entries(version: u64, entries: Vec<(String, ManifestElement)>) -> (r: Manifest)
        ensures
            r.version == version,
            r.elements@ == puts_of(entries@),
            r.wf(),
    {
        let ghost all = entries@;
        let mut rest = entries;
        let n = rest.len();
        let mut elements: Vec<(String, ManifestElement)> = Vec::new();
        let mut i: usize = 0;
        proof {
            assert(all.take(0) =~= Seq::<(String, ManifestElement)>::empty());
            assert(keys_of(elements@) =~= Seq::<Seq<char>>::empty());
        }
        while rest.len() > 0
            invariant
                i <= all.len(),
                all.len() == n,
                rest@ == all.skip(i as int),
                elements@ == puts_of(all.take(i as int)),
                keys_of(elements@).no_duplicates(),
            decreases rest@.len(),
        {
            assert(i < all.len());
            let (k, e) = rest.remove(0);
            proof {
                assert(all.skip(i as int)[0] == all[i as int]);
                assert(all.take(i + 1).drop_last() =~= all.take(i as int));
                assert(all.take(i + 1).last() == all[i as int]);
                lemma_put_keeps_keys_distinct(elements@, k, e);
            }
            put(&mut elements, k, e);
            assert(all.skip(i as int).drop_first() =~= all.skip(i + 1));
            i = i + 1;
        }
        assert(all.take(i as int) =~= all);
        Manifest { version, elements }
    }

    /// The manifest of a generation that records no packages.
    pub fn empty() -> (r: Manifest)
        ensures
            r.version == 3,
            r.elements@.len() == 0,
            r.wf(),
    {
        let r = Manifest { version: 3, elements: Vec::new() };
        assert(r.names() =~= Seq::<Seq<char>>::empty());
        r
    }
}

/// The store path a package is compared by: its first one, or empty.
pub fn first_path_of(e: &ManifestElement) -> (r: String)
    ensures
        r@ == first_path_or_empty(*e),
{
    if e.store_paths.len() > 0 {
        crate::text::owned(e.store_paths[0].as_str())
    } else {
        String::new()
    }
}

} // verus!
