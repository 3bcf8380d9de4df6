//! The decoding policy: how a parsed document becomes a `Manifest`.
//!
//! The spec functions here state the policy over the `TomlShape` model; the
//! executable decoders are proved to follow them exactly. A dependency
//! entry that is a bare string becomes `Simple`; one that is a table
//! becomes `Detailed`, with each recognized field filled when present and
//! given its stated default when absent; unrecognized fields are ignored;
//! a recognized field of the wrong kind fails the decode.

use vstd::prelude::*;
use crate::depmap::{entries_map, lemma_entries_map_contains, DepsSet};
use crate::deps::{DepView, Dependency, DependencyDetail, DetailView};
use crate::manifest::{Manifest, Package, PackageView};
use crate::tomlio::{get_flag, get_sub_table, get_text, get_texts, parse_table, table_keys,
    table_shape, parsed_doc, Lookup, TomlShape};

verus! {

/// Why decoding failed: the text is not well-formed TOML, the package
/// section is missing or ill-formed, or the dependency table is
/// ill-formed.
#[derive(Debug, Clone, Copy, PartialEq, Eq, Structural)]
pub enum DecodeError {
    Syntax,
    BadPackage,
    BadDependencies,
}

/// An optional string field: absent is fine, a non-string entry is not.
pub open spec fn text_field(m: Map<Seq<char>, TomlShape>, k: Seq<char>) -> Option<Option<Seq<char>>> {
    if !m.contains_key(k) {
        Some(None)
    } else {
        match m[k] {
            TomlShape::Text(s) => Some(Some(s)),
            _ => None,
        }
    }
}

/// A required string field: absent or non-string entries both fail.
pub open spec fn required_text_field(m: Map<Seq<char>, TomlShape>, k: Seq<char>) -> Option<Seq<char>> {
    match text_field(m, k) {
        Some(Some(s)) => Some(s),
        _ => None,
    }
}

/// An optional list-of-strings field.
pub open spec fn texts_field(m: Map<Seq<char>, TomlShape>, k: Seq<char>) -> Option<
    Option<Seq<Seq<char>>>,
> {
    if !m.contains_key(k) {
        Some(None)
    } else {
        match m[k] {
            TomlShape::TextList(v) => Some(Some(v)),
            _ => None,
        }
    }
}

/// An optional boolean field.
pub open spec fn flag_field(m: Map<Seq<char>, TomlShape>, k: Seq<char>) -> Option<Option<bool>> {
    if !m.contains_key(k) {
        Some(None)
    } else {
        match m[k] {
            TomlShape::Flag(b) => Some(Some(b)),
            _ => None,
        }
    }
}

/// Whether every recognized field of a detailed entry has the right kind.
pub open spec fn detail_fields_ok(m: Map<Seq<char>, TomlShape>) -> bool {
    &&& text_field(m, "version"@) is Some
    &&& text_field(m, "registry"@) is Some
    &&& text_field(m, "registry-index"@) is Some
    &&& text_field(m, "path"@) is Some
    &&& text_field(m, "git"@) is Some
    &&& text_field(m, "branch"@) is Some
    &&& text_field(m, "tag"@) is Some
    &&& text_field(m, "rev"@) is Some
    &&& texts_field(m, "features"@) is Some
    &&& flag_field(m, "optional"@) is Some
    &&& flag_field(m, "default-features"@) is Some
    &&& text_field(m, "package"@) is Some
}

/// The detailed record a table decodes to: recognized fields are filled
/// when present; `features` defaults to the empty list and `optional` to
/// false; unrecognized fields are ignored.
pub open spec fn detail_of(m: Map<Seq<char>, TomlShape>) -> Option<DetailView> {
    if detail_fields_ok(m) {
        Some(DetailView {
            version: text_field(m, "version"@).unwrap(),
            registry: text_field(m, "registry"@).unwrap(),
            registry_index: text_field(m, "registry-index"@).unwrap(),
            path: text_field(m, "path"@).unwrap(),
            git: text_field(m, "git"@).unwrap(),
            branch: text_field(m, "branch"@).unwrap(),
            tag: text_field(m, "tag"@).unwrap(),
            rev: text_field(m, "rev"@).unwrap(),
            features: match texts_field(m, "features"@).unwrap() {
                Some(v) => v,
                None => Seq::empty(),
            },
            optional: match flag_field(m, "optional"@).unwrap() {
                Some(b) => b,
                None => false,
            },
            default_features: flag_field(m, "default-features"@).unwrap(),
            package: text_field(m, "package"@).unwrap(),
        })
    } else {
        None
    }
}

/// The dependency a single table entry decodes to: a string becomes
/// Simple, a table becomes Detailed, anything else fails.
pub open spec fn dep_of(sh: TomlShape) -> Option<DepView> {
    match sh {
        TomlShape::Text(s) => Some(DepView::Simple(s)),
        TomlShape::SubTable(m) => match detail_of(m) {
            Some(d) => Some(DepView::Detailed(d)),
            None => None,
        },
        _ => None,
    }
}

/// Whether every entry of a dependency table decodes.
pub open spec fn deps_ok(m: Map<Seq<char>, TomlShape>) -> bool {
    forall|k: Seq<char>| #[trigger] m.contains_key(k) ==> dep_of(m[k]) is Some
}

/// The mapping a dependency table decodes to.
pub open spec fn deps_of(m: Map<Seq<char>, TomlShape>) -> Map<Seq<char>, DepView>
    recommends
        deps_ok(m),
{
    Map::new(|k: Seq<char>| m.contains_key(k), |k: Seq<char>| dep_of(m[k]).unwrap())
}

/// The package identity a package table decodes to: name and version are
/// required strings, authors an optional list of strings.
pub open spec fn package_of(m: Map<Seq<char>, TomlShape>) -> Option<PackageView> {
    match (required_text_field(m, "name"@), required_text_field(m, "version"@), texts_field(
        m,
        "authors"@,
    )) {
        (Some(n), Some(v), Some(a)) => Some(PackageView { name: n, version: v, authors: a }),
        _ => None,
    }
}

/// Mathematical image of a whole decoded manifest.
pub struct ManifestView {
    pub package: PackageView,
    pub deps: Option<Map<Seq<char>, DepView>>,
}

/// What a parsed document decodes to: a manifest, or the error naming the
/// first section at fault (package before dependencies).
pub open spec fn manifest_of(doc: Map<Seq<char>, TomlShape>) -> Result<ManifestView, DecodeError> {
    if !doc.contains_key("package"@) {
        Err(DecodeError::BadPackage)
    } else {
        match doc["package"@] {
            TomlShape::SubTable(pm) => match package_of(pm) {
                None => Err(DecodeError::BadPackage),
                Some(pv) => {
                    if !doc.contains_key("dependencies"@) {
                        Ok(ManifestView { package: pv, deps: None })
                    } else {
                        match doc["dependencies"@] {
                            TomlShape::SubTable(dm) => {
                                if deps_ok(dm) {
                                    Ok(ManifestView { package: pv, deps: Some(deps_of(dm)) })
                                } else {
                                    Err(DecodeError::BadDependencies)
                                }
                            },
                            _ => Err(DecodeError::BadDependencies),
                        }
                    }
                },
            },
            _ => Err(DecodeError::BadPackage),
        }
    }
}

/// Decodes one detailed dependency table.
fn decode_detail(t: &toml::Table) -> (r: Option<DependencyDetail>)
    ensures
        r is Some <==> detail_of(table_shape(*t)) is Some,
        r matches Some(d) ==> detail_of(table_shape(*t)) == Some(d@),
{
    let version = match get_text(t, "version") {
        Lookup::Found(s) => Some(s),
        Lookup::Absent => None,
        Lookup::Wrong => return None,
    };
    let registry = match get_text(t, "registry") {
        Lookup::Found(s) => Some(s),
        Lookup::Absent => None,
        Lookup::Wrong => return None,
    };
    let registry_index = match get_text(t, "registry-index") {
        Lookup::Found(s) => Some(s),
        Lookup::Absent => None,
        Lookup::Wrong => return None,
    };
    let path = match get_text(t, "path") {
        Lookup::Found(s) => Some(s),
        Lookup::Absent => None,
        Lookup::Wrong => return None,
    };
    let git = match get_text(t, "git") {
        Lookup::Found(s) => Some(s),
        Lookup::Absent => None,
        Lookup::Wrong => return None,
    };
    let branch = match get_text(t, "branch") {
        Lookup::Found(s) => Some(s),
        Lookup::Absent => None,
        Lookup::Wrong => return None,
    };
    let tag = match get_text(t, "tag") {
        Lookup::Found(s) => Some(s),
        Lookup::Absent => None,
        Lookup::Wrong => return None,
    };
    let rev = match get_text(t, "rev") {
        Lookup::Found(s) => Some(s),
        Lookup::Absent => None,
        Lookup::Wrong => return None,
    };
    let features = match get_texts(t, "features") {
        Lookup::Found(v) => v,
        Lookup::Absent => Vec::new(),
        Lookup::Wrong => return None,
    };
    let optional = match get_flag(t, "optional") {
        Lookup::Found(b) => b,
        Lookup::Absent => false,
        Lookup::Wrong => return None,
    };
    let default_features = match get_flag(t, "default-features") {
        Lookup::Found(b) => Some(b),
        Lookup::Absent => None,
        Lookup::Wrong => return None,
    };
    let package = match get_text(t, "package") {
        Lookup::Found(s) => Some(s),
        Lookup::Absent => None,
        Lookup::Wrong => return None,
    };
    let d = DependencyDetail {
        version,
        registry,
        registry_index,
        path,
        git,
        branch,
        tag,
        rev,
        features,
        optional,
        default_features,
        package,
    };
    proof {
        if d.features@.len() == 0 {
            assert(crate::deps::texts_view(d.features@) =~= Seq::<Seq<char>>::empty());
        }
    }
    Some(d)
}

/// Decodes the entry a dependency table holds under one key.
fn decode_dep(t: &toml::Table, k: &str) -> (r: Option<Dependency>)
    requires
        table_shape(*t).contains_key(k@),
    ensures
        r is Some <==> dep_of(table_shape(*t)[k@]) is Some,
        r matches Some(d) ==> dep_of(table_shape(*t)[k@]) == Some(d@),
{
    match get_text(t, k) {
        Lookup::Found(s) => Some(Dependency::Simple(s)),
        Lookup::Absent => vstd::pervasive::unreached(),
        Lookup::Wrong => match get_sub_table(t, k) {
            Lookup::Found(sub) => match decode_detail(&sub) {
                Some(d) => Some(Dependency::Detailed(d)),
                None => None,
            },
            _ => None,
        },
    }
}

/// Decodes a whole dependency table into the sorted dependency set.
fn decode_deps(t: &toml::Table) -> (r: Option<DepsSet>)
    ensures
        r is Some <==> deps_ok(table_shape(*t)),
        r matches Some(ds) ==> (ds.wf() && entries_map(ds@) == deps_of(table_shape(*t))),
{
    let ghost m = table_shape(*t);
    let keys = table_keys(t);
    let mut out = DepsSet::new();
    let mut i: usize = 0;
    proof {
        assert(entries_map(out@) =~= deps_of(m).restrict(Set::<Seq<char>>::empty()));
    }
    while i < keys.len()
        invariant
            i <= keys@.len(),
            out.wf(),
            m == table_shape(*t),
            forall|p: int, q: int| 0 <= p < q < keys@.len() ==> keys@[p]@ != keys@[q]@,
            forall|p: int| 0 <= p < keys@.len() ==> m.contains_key(#[trigger] keys@[p]@),
            forall|k: Seq<char>| #[trigger] m.contains_key(k) ==> (exists|p: int|
                0 <= p < keys@.len() && keys@[p]@ == k),
            forall|p: int| 0 <= p < i ==> dep_of(m[#[trigger] keys@[p]@]) is Some,
            entries_map(out@) == deps_of(m).restrict(
                Set::new(|k: Seq<char>| exists|p: int| 0 <= p < i && keys@[p]@ == k),
            ),
        decreases keys@.len() - i,
    {
        let ghost before = Set::new(|k: Seq<char>| exists|p: int| 0 <= p < i && keys@[p]@ == k);
        let k = &keys[i];
        let d = match decode_dep(t, k.as_str()) {
            Some(d) => d,
            None => {
                return None;
            },
        };
        proof {
            lemma_entries_map_contains(out@, k@);
            if entries_map(out@).contains_key(k@) {
                let p = choose|p: int| 0 <= p < i && keys@[p]@ == k@;
                assert(keys@[p]@ == keys@[i as int]@);
            }
        }
        let ok = out.insert(k.clone(), d);
        proof {
            assert(ok);
            let after = Set::new(
                |kk: Seq<char>| exists|p: int| 0 <= p < i + 1 && keys@[p]@ == kk,
            );
            assert(deps_of(m).restrict(before).insert(k@, d@) =~= deps_of(m).restrict(after))
                by {
                assert(keys@[i as int]@ == k@);
                assert(after.contains(k@));
                assert forall|kk: Seq<char>| #[trigger] after.contains(kk) && kk != k@
                    implies before.contains(kk) by {
                    let p = choose|p: int| 0 <= p < i + 1 && keys@[p]@ == kk;
                    assert(0 <= p < i && keys@[p]@ == kk);
                }
            }
        }
        i += 1;
    }
    proof {
        let full = Set::new(|k: Seq<char>| exists|p: int| 0 <= p < i && keys@[p]@ == k);
        assert forall|k: Seq<char>| #[trigger] m.contains_key(k) implies dep_of(m[k]) is Some by {
            let p = choose|p: int| 0 <= p < keys@.len() && keys@[p]@ == k;
            assert(dep_of(m[keys@[p]@]) is Some);
        }
        assert(deps_of(m).restrict(full) =~= deps_of(m));
    }
    Some(out)
}

/// Decodes the package table.
fn decode_package(t: &toml::Table) -> (r: Option<Package>)
    ensures
        r is Some <==> package_of(table_shape(*t)) is Some,
        r matches Some(p) ==> package_of(table_shape(*t)) == Some(p@),
{
    let name = match get_text(t, "name") {
        Lookup::Found(s) => s,
        _ => return None,
    };
    let version = match get_text(t, "version") {
        Lookup::Found(s) => s,
        _ => return None,
    };
    let authors = match get_texts(t, "authors") {
        Lookup::Found(v) => Some(v),
        Lookup::Absent => None,
        Lookup::Wrong => return None,
    };
    Some(Package { name, version, authors })
}

/// Decodes a manifest text: parses it as TOML and applies the decoding
/// policy `manifest_of` states.
pub fn decode_manifest(text: &str) -> (r: Result<Manifest, DecodeError>)
    ensures
        parsed_doc(text@) is None <==> r == Err::<Manifest, DecodeError>(DecodeError::Syntax),
        parsed_doc(text@) matches Some(doc) ==> match manifest_of(doc) {
            Ok(mv) => {
                &&& r matches Ok(m)
                &&& m.package@ == mv.package
                &&& (m.dependencies is Some <==> mv.deps is Some)
                &&& (m.dependencies matches Some(d) ==> (d.wf() && entries_map(d@)
                    == mv.deps.unwrap()))
            },
            Err(e) => r == Err::<Manifest, DecodeError>(e),
        },
{
    let doc = match parse_table(text) {
        Some(t) => t,
        None => {
            return Err(DecodeError::Syntax);
        },
    };
    let package_table = match get_sub_table(&doc, "package") {
        Lookup::Found(p) => p,
        _ => {
            return Err(DecodeError::BadPackage);
        },
    };
    let package = match decode_package(&package_table) {
        Some(p) => p,
        None => {
            return Err(DecodeError::BadPackage);
        },
    };
    let dependencies = match get_sub_table(&doc, "dependencies") {
        Lookup::Absent => None,
        Lookup::Wrong => {
            return Err(DecodeError::BadDependencies);
        },
        Lookup::Found(dt) => match decode_deps(&dt) {
            Some(ds) => Some(ds),
            None => {
                return Err(DecodeError::BadDependencies);
            },
        },
    };
    Ok(Manifest { package, dependencies })
}

/// Round trip of a bare version string: the entry decodes to a Simple
/// dependency that is displayable and shows as exactly that string.
pub proof fn lemma_simple_round_trip(s: Seq<char>)
    ensures
        dep_of(TomlShape::Text(s)) == Some(DepView::Simple(s)),
        crate::deps::displayable(DepView::Simple(s)),
        crate::deps::value_of(DepView::Simple(s)) == s,
{
}

/// Defaults: a detailed entry that decodes without a `features` key has
/// the empty feature list; without an `optional` key, `optional` is false.
pub proof fn lemma_detail_defaults(m: Map<Seq<char>, TomlShape>)
    ensures
        (!m.contains_key("features"@) && detail_of(m) is Some) ==> detail_of(
            m,
        ).unwrap().features == Seq::<Seq<char>>::empty(),
        (!m.contains_key("optional"@) && detail_of(m) is Some) ==> !detail_of(
            m,
        ).unwrap().optional,
{
}

} // verus!
