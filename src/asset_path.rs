//! Asset path references: which native construction a descriptor asks for.
use vstd::prelude::*;
use vstd::string::StrSliceExecFns;

verus! {

/// A reference to an asset: a primary path, and optionally the path that
/// it has already been resolved to.
pub struct AssetPathRefDescriptor {
    pub path: String,
    pub resolved_path: Option<String>,
}

/// The two native constructions of an asset path. There is no form with a
/// resolved path alone.
pub enum AssetPathConstruction {
    FromPath { path: String },
    FromPathAndResolved { path: String, resolved_path: String },
}

/// A path that cannot be handed over as a null-terminated string: it holds
/// a NUL character at `position`.
#[derive(Clone, Copy, Debug, PartialEq, Eq, Structural)]
pub enum AssetPathError {
    NulInPath { position: usize },
    NulInResolvedPath { position: usize },
}

/// The position of the first NUL character of `s`, if any.
pub open spec fn first_nul(s: Seq<char>) -> Option<int> {
    if exists|i: int| 0 <= i < s.len() && s[i] == '\0' {
        Some(choose|i: int| 0 <= i < s.len() && s[i] == '\0' && forall|j: int| 0 <= j < i ==> s[j] != '\0')
    } else {
        None
    }
}

/// The position of the first NUL character of `s`, if any.
pub fn find_nul(s: &str) -> (r: Option<usize>)
    ensures
        r matches Some(p) ==> first_nul(s@) == Some(p as int),
        r is None ==> first_nul(s@) is None,
{
    let n = s.unicode_len();
    let mut i: usize = 0;
    while i < n
        invariant
            n == s@.len(),
            0 <= i <= n,
            forall|j: int| 0 <= j < i ==> s@[j] != '\0',
        decreases n - i,
    {
        if s.get_char(i) == '\0' {
            let ghost k = choose|k: int| 0 <= k < s@.len() && s@[k] == '\0' && forall|j: int| 0 <= j < k ==> s@[j] != '\0';
            assert(k == i) by {
                if k < i {
                    assert(s@[k] != '\0');
                } else if k > i {
                    assert(s@[i as int] != '\0');
                }
            }
            return Some(i);
        }
        i = i + 1;
    }
    None
}

/// What a descriptor's construction owes: the first NUL of the primary
/// path, else the first NUL of the resolved path, else the construction
/// from the path alone or from both paths.
pub open spec fn construction_post(
    path: Seq<char>,
    resolved: Option<Seq<char>>,
    r: Result<AssetPathConstruction, AssetPathError>,
) -> bool {
    match first_nul(path) {
        Some(p) => r == Err::<AssetPathConstruction, AssetPathError>(AssetPathError::NulInPath { position: p as usize }),
        None => match resolved {
            None => r matches Ok(AssetPathConstruction::FromPath { path: q }) && q@ == path,
            Some(rv) => match first_nul(rv) {
                Some(p) => r == Err::<AssetPathConstruction, AssetPathError>(AssetPathError::NulInResolvedPath { position: p as usize }),
                None => r matches Ok(AssetPathConstruction::FromPathAndResolved { path: q, resolved_path: s })
                    && q@ == path && s@ == rv,
            },
        },
    }
}

impl AssetPathRefDescriptor {
    /// The resolved path, if any, as characters.
    pub open spec fn resolved_view(&self) -> Option<Seq<char>> {
        match &self.resolved_path {
            Some(s) => Some(s@),
            None => None,
        }
    }

    /// The native construction that this descriptor asks for.
    pub fn construction(&self) -> (r: Result<AssetPathConstruction, AssetPathError>)
        ensures
            construction_post(self.path@, self.resolved_view(), r),
    {
        if let Some(p) = find_nul(self.path.as_str()) {
            return Err(AssetPathError::NulInPath { position: p });
        }
        match &self.resolved_path {
            None => Ok(AssetPathConstruction::FromPath { path: self.path.clone() }),
            Some(rp) => {
                if let Some(p) = find_nul(rp.as_str()) {
                    return Err(AssetPathError::NulInResolvedPath { position: p });
                }
                Ok(AssetPathConstruction::FromPathAndResolved { path: self.path.clone(), resolved_path: rp.clone() })
            },
        }
    }
}

impl AssetPathConstruction {
    /// The primary path, whichever the form.
    pub fn path(&self) -> (r: &String)
        ensures
            r@ == match self {
                AssetPathConstruction::FromPath { path } => path@,
                AssetPathConstruction::FromPathAndResolved { path, .. } => path@,
            },
    {
        match self {
            AssetPathConstruction::FromPath { path } => path,
            AssetPathConstruction::FromPathAndResolved { path, .. } => path,
        }
    }
}


/// A descriptor with a primary path alone and one with both paths go to
/// the two distinct constructions, and both keep the primary path.
pub proof fn lemma_two_construction_forms(
    path: Seq<char>,
    resolved: Seq<char>,
    r1: Result<AssetPathConstruction, AssetPathError>,
    r2: Result<AssetPathConstruction, AssetPathError>,
)
    requires
        first_nul(path) is None,
        first_nul(resolved) is None,
        construction_post(path, None, r1),
        construction_post(path, Some(resolved), r2),
    ensures
        r1 matches Ok(AssetPathConstruction::FromPath { path: p }) && p@ == path,
        r2 matches Ok(AssetPathConstruction::FromPathAndResolved { path: p, resolved_path: q })
            && p@ == path && q@ == resolved,
{
}

} // verus!
