//! Where an oracle is found; results are remembered per location.

use vstd::prelude::*;
use vstd::string::*;

verus! {

/// The place of an oracle: the URL of a web service or the path of a script.
#[derive(Clone, Debug)]
pub enum OracleLocation {
    Web(String),
    Script(String),
}

/// An oracle's place as a value.
pub enum OracleLocationView {
    Web(Seq<char>),
    Script(Seq<char>),
}

impl View for OracleLocation {
    type V = OracleLocationView;

    open spec fn view(&self) -> OracleLocationView {
        match self {
            OracleLocation::Web(url) => OracleLocationView::Web(url@),
            OracleLocation::Script(path) => OracleLocationView::Script(path@),
        }
    }
}

impl OracleLocation {
    /// Whether both are the same kind of oracle at the same place.
    pub fn same_as(&self, other: &OracleLocation) -> (same: bool)
        ensures
            same == (self@ == other@),
    {
        match (self, other) {
            (OracleLocation::Web(left), OracleLocation::Web(right)) => *left == *right,
            (OracleLocation::Script(left), OracleLocation::Script(right)) => *left == *right,
            _ => false,
        }
    }

    /// A copy of this location.
    pub fn duplicate(&self) -> (copy: OracleLocation)
        ensures
            copy@ == self@,
    {
        match self {
            OracleLocation::Web(url) => OracleLocation::Web(url.clone()),
            OracleLocation::Script(path) => OracleLocation::Script(path.clone()),
        }
    }

    /// Whether this is a web oracle.
    pub fn is_web(&self) -> (web: bool)
        ensures
            web == (self@ is Web),
    {
        match self {
            OracleLocation::Web(_) => true,
            OracleLocation::Script(_) => false,
        }
    }
}

} // verus!
