//! The dependency value model: a bare version string, or a detailed record.

use vstd::prelude::*;

verus! {

/// A dependency expressed as a detailed record. Every field a manifest may
/// spell out is optional except `features` (defaults to the empty list) and
/// `optional` (defaults to false).
#[derive(Debug, Clone, PartialEq)]
pub struct DependencyDetail {
    pub version: Option<String>,
    pub registry: Option<String>,
    pub registry_index: Option<String>,
    pub path: Option<String>,
    pub git: Option<String>,
    pub branch: Option<String>,
    pub tag: Option<String>,
    pub rev: Option<String>,
    pub features: Vec<String>,
    pub optional: bool,
    pub default_features: Option<bool>,
    pub package: Option<String>,
}

/// A dependency table entry: either a bare version-constraint string or a
/// detailed record.
#[derive(Debug, Clone, PartialEq)]
pub enum Dependency {
    Simple(String),
    Detailed(DependencyDetail),
}

/// Mathematical image of an optional string.
pub open spec fn opt_text_view(o: Option<String>) -> Option<Seq<char>> {
    match o {
        Some(s) => Some(s@),
        None => None,
    }
}

/// Mathematical image of a list of strings.
pub open spec fn texts_view(v: Seq<String>) -> Seq<Seq<char>> {
    v.map_values(|s: String| s@)
}

/// Mathematical image of a detailed record.
pub struct DetailView {
    pub version: Option<Seq<char>>,
    pub registry: Option<Seq<char>>,
    pub registry_index: Option<Seq<char>>,
    pub path: Option<Seq<char>>,
    pub git: Option<Seq<char>>,
    pub branch: Option<Seq<char>>,
    pub tag: Option<Seq<char>>,
    pub rev: Option<Seq<char>>,
    pub features: Seq<Seq<char>>,
    pub optional: bool,
    pub default_features: Option<bool>,
    pub package: Option<Seq<char>>,
}

/// Mathematical image of a dependency.
pub enum DepView {
    Simple(Seq<char>),
    Detailed(DetailView),
}

impl View for DependencyDetail {
    type V = DetailView;

    open spec fn view(&self) -> DetailView {
        DetailView {
            version: opt_text_view(self.version),
            registry: opt_text_view(self.registry),
            registry_index: opt_text_view(self.registry_index),
            path: opt_text_view(self.path),
            git: opt_text_view(self.git),
            branch: opt_text_view(self.branch),
            tag: opt_text_view(self.tag),
            rev: opt_text_view(self.rev),
            features: texts_view(self.features@),
            optional: self.optional,
            default_features: self.default_features,
            package: opt_text_view(self.package),
        }
    }
}

impl View for Dependency {
    type V = DepView;

    open spec fn view(&self) -> DepView {
        match self {
            Dependency::Simple(s) => DepView::Simple(s@),
            Dependency::Detailed(d) => DepView::Detailed(d@),
        }
    }
}

impl Default for DependencyDetail {
    /// The record every field of which is absent, with the stated defaults.
    fn default() -> (r: Self)
        ensures
            r@ == (DetailView {
                version: None,
                registry: None,
                registry_index: None,
                path: None,
                git: None,
                branch: None,
                tag: None,
                rev: None,
                features: Seq::<Seq<char>>::empty(),
                optional: false,
                default_features: None,
                package: None,
            }),
    {
        let r = DependencyDetail {
            version: None,
            registry: None,
            registry_index: None,
            path: None,
            git: None,
            branch: None,
            tag: None,
            rev: None,
            features: Vec::new(),
            optional: false,
            default_features: None,
            package: None,
        };
        proof {
            assert(texts_view(r.features@) =~= Seq::<Seq<char>>::empty());
        }
        r
    }
}

/// Whether a dependency can be rendered: a bare string always, a detailed
/// record only when its version field is populated.
pub open spec fn displayable(d: DepView) -> bool {
    match d {
        DepView::Simple(_) => true,
        DepView::Detailed(dd) => dd.version is Some,
    }
}

/// The one-line value a dependency is rendered as.
pub open spec fn value_of(d: DepView) -> Seq<char>
    recommends
        displayable(d),
{
    match d {
        DepView::Simple(s) => s,
        DepView::Detailed(dd) => dd.version.unwrap(),
    }
}

impl Dependency {
    /// The rendered value. Rendering is partial: a detailed record without a
    /// version has no rendering, and callers must not hand one in.
    pub fn value_string(&self) -> (r: String)
        requires
            displayable(self@),
        ensures
            r@ == value_of(self@),
    {
        match self {
            Dependency::Simple(s) => s.clone(),
            Dependency::Detailed(d) => match &d.version {
                Some(v) => v.clone(),
                None => vstd::pervasive::unreached(),
            },
        }
    }

    /// Total companion of `value_string`: the rendered value exactly when
    /// the dependency is displayable.
    pub fn try_value_string(&self) -> (r: Option<String>)
        ensures
            r is Some <==> displayable(self@),
            r matches Some(s) ==> s@ == value_of(self@),
    {
        match self {
            Dependency::Simple(s) => Some(s.clone()),
            Dependency::Detailed(d) => match &d.version {
                Some(v) => Some(v.clone()),
                None => None,
            },
        }
    }
}

/// A detailed record with a version renders as exactly that version,
/// whatever its other fields hold.
pub proof fn lemma_detailed_displays_version(d: DetailView)
    requires
        d.version is Some,
    ensures
        displayable(DepView::Detailed(d)),
        value_of(DepView::Detailed(d)) == d.version.unwrap(),
{
}

} // verus!
