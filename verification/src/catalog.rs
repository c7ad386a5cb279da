//! The API catalog: the known functions and their declared parameter types.
//!
//! The catalog is read-only input to one inference pass. The walk only
//! queries it; building it (for instance by scanning a library's public
//! declarations) is the host's concern.

use vstd::prelude::*;

verus! {

/// The mathematical view of one catalog entry.
#[verifier::ext_equal]
pub ghost struct SpecEntry {
    pub name: Seq<char>,
    pub param_types: Seq<Seq<char>>,
}

/// One known API function: its fully-qualified name and the declared types
/// of its parameters, in order.
pub struct CatalogEntry {
    pub name: String,
    pub param_types: Vec<String>,
}

impl View for CatalogEntry {
    type V = SpecEntry;

    open spec fn view(&self) -> SpecEntry {
        SpecEntry { name: self.name@, param_types: self.param_types@.map_values(|t: String| t@) }
    }
}

/// The read-only mapping from fully-qualified function name to declared
/// parameter types.
pub struct Catalog {
    pub entries: Vec<CatalogEntry>,
}

impl View for Catalog {
    type V = Seq<SpecEntry>;

    open spec fn view(&self) -> Seq<SpecEntry> {
        self.entries@.map_values(|e: CatalogEntry| e@)
    }
}

/// The declared parameter types of the first entry named `name`, or `None`
/// when the catalog has no entry of that name.
pub open spec fn spec_lookup(catalog: Seq<SpecEntry>, name: Seq<char>) -> Option<Seq<Seq<char>>>
    decreases catalog.len(),
{
    if catalog.len() == 0 {
        None
    } else if catalog[0].name == name {
        Some(catalog[0].param_types)
    } else {
        spec_lookup(catalog.subrange(1, catalog.len() as int), name)
    }
}

impl Catalog {
    /// Look up the declared parameter types of the function named `name`.
    pub fn lookup<'a>(&'a self, name: &String) -> (r: Option<&'a Vec<String>>)
        ensures
            match r {
                Some(tys) => spec_lookup(self@, name@) == Some(
                    tys@.map_values(|t: String| t@),
                ),
                None => spec_lookup(self@, name@) is None,
            },
    {
        let n = self.entries.len();
        proof {
            assert(self@.subrange(0, n as int) =~= self@);
        }
        for i in 0..n
            invariant
                n == self.entries.len(),
                spec_lookup(self@, name@) == spec_lookup(
                    self@.subrange(i as int, n as int),
                    name@,
                ),
        {
            assert(self@[i as int] == self.entries@[i as int]@);
            if self.entries[i].name == *name {
                return Some(&self.entries[i].param_types);
            }
            proof {
                assert(self@.subrange(i as int, n as int).subrange(1, (n - i) as int)
                    =~= self@.subrange(i + 1, n as int));
            }
        }
        proof {
            assert(self@.subrange(n as int, n as int) =~= Seq::<SpecEntry>::empty());
        }
        None
    }
}

} // verus!
