//! The decoded manifest: package identity and the optional dependency
//! table, and the renderer that turns the table into output lines.

use vstd::prelude::*;
use crate::depmap::{lines_of, DepsSet};
use crate::deps::{displayable, texts_view};

verus! {

/// Package identity: a name and a version, with an optional authors list.
#[derive(Debug, Clone, PartialEq)]
pub struct Package {
    pub name: String,
    pub version: String,
    pub authors: Option<Vec<String>>,
}

/// Mathematical image of the package identity.
pub struct PackageView {
    pub name: Seq<char>,
    pub version: Seq<char>,
    pub authors: Option<Seq<Seq<char>>>,
}

impl View for Package {
    type V = PackageView;

    open spec fn view(&self) -> PackageView {
        PackageView {
            name: self.name@,
            version: self.version@,
            authors: match self.authors {
                Some(v) => Some(texts_view(v@)),
                None => None,
            },
        }
    }
}

/// A decoded manifest. The dependency table is optional at the format
/// level; rendering demands it.
#[derive(Debug, Clone, PartialEq)]
pub struct Manifest {
    pub package: Package,
    pub dependencies: Option<DepsSet>,
}

/// Why rendering failed: the manifest has no dependency table, or some
/// detailed dependency has no version to show.
#[derive(Debug, Clone, Copy, PartialEq, Eq, Structural)]
pub enum RenderError {
    MissingDependencies,
    MissingVersion,
}

impl Manifest {
    /// Whether the dependency table is present and every entry displayable:
    /// exactly the manifests that render.
    pub open spec fn renderable(&self) -> bool {
        &&& self.dependencies matches Some(d)
        &&& forall|i: int| 0 <= i < d@.len() ==> displayable(d@[i].1)
    }

    /// Renders the dependency table, one `name:value` line per entry, in
    /// listing order. Fails exactly on the manifests `renderable` rejects,
    /// telling the two reasons apart.
    pub fn render_deps(&self) -> (r: Result<String, RenderError>)
        ensures
            r is Ok <==> self.renderable(),
            r matches Ok(s) ==> (self.dependencies matches Some(d) && s@ == lines_of(d@)),
            r == Err::<String, RenderError>(RenderError::MissingDependencies) <==> self.dependencies is None,
    {
        match &self.dependencies {
            None => Err(RenderError::MissingDependencies),
            Some(d) => match d.render_lines() {
                Some(s) => Ok(s),
                None => Err(RenderError::MissingVersion),
            },
        }
    }
}

} // verus!
