//! The fields each kind of artifact document must have to be read as that
//! kind: what reading a document into the artifact's own type requires.

use crate::artifact::ArtifactKind;
use crate::yaml::{
    as_text, field, field2, get, list_view, lemma_list_view, oview, text, yaml_view, Yaml, YamlV,
};
use vstd::prelude::*;

verus! {

/// A value that is absent, null, or a plain string: an optional text field.
pub open spec fn text_or_null(o: Option<YamlV>) -> bool {
    o is None || o == Some(YamlV::Null) || text(o) is Some
}

/// A value that is absent, null, or a mapping: an optional structure.
pub open spec fn mapping_or_null(o: Option<YamlV>) -> bool {
    match o {
        None => true,
        Some(YamlV::Null) => true,
        Some(YamlV::Mapping(_)) => true,
        _ => false,
    }
}

/// A mapping with plain string fields `k1` and `k2`.
pub open spec fn has_texts(v: YamlV, k1: Seq<char>, k2: Seq<char>) -> bool {
    text(field(v, k1)) is Some && text(field(v, k2)) is Some
}

/// The items of a value that is a list.
pub open spec fn list_items(o: Option<YamlV>) -> Option<Seq<YamlV>> {
    match o {
        Some(YamlV::List(s)) => Some(s),
        _ => None,
    }
}

/// A list each of whose items is a mapping with plain string fields `k1`
/// and `k2`.
pub open spec fn items_have_texts(o: Option<YamlV>, k1: Seq<char>, k2: Seq<char>) -> bool {
    match list_items(o) {
        Some(s) => forall|i: int| 0 <= i < s.len() ==> has_texts(#[trigger] s[i], k1, k2),
        None => false,
    }
}

/// A model entry of a package: a `name`, a `node`, and `resources` whose
/// `volume` and `network` are optional texts.
pub open spec fn model_entry_ok(m: YamlV) -> bool {
    has_texts(m, "name"@, "node"@) && match field(m, "resources"@) {
        Some(r) => r is Mapping && text_or_null(field(r, "volume"@)) && text_or_null(
            field(r, "network"@),
        ),
        None => false,
    }
}

/// The fields every artifact has: `apiVersion`, `kind` and `metadata.name`,
/// all plain strings.
pub open spec fn envelope_ok(v: YamlV) -> bool {
    text(field(v, "apiVersion"@)) is Some && text(field(v, "kind"@)) is Some && text(
        field2(v, "metadata"@, "name"@),
    ) is Some
}

/// What reading a document as an artifact of kind `k` requires, beyond the
/// common fields:
/// - a scenario's `spec` has the texts `action` and `target`, and its
///   `condition` is absent, null or a mapping;
/// - a package's `spec` has a `pattern` list of entries with a `type` text
///   and a `models` list of model entries;
/// - a model's `spec` has a `containers` list of entries with the texts
///   `name` and `image`;
/// - the `spec` of a volume or a network is absent, null or a mapping.
pub open spec fn schema_ok(k: ArtifactKind, v: YamlV) -> bool {
    envelope_ok(v) && match k {
        ArtifactKind::Scenario => match field(v, "spec"@) {
            Some(sp) => has_texts(sp, "action"@, "target"@) && mapping_or_null(
                field(sp, "condition"@),
            ),
            None => false,
        },
        ArtifactKind::Package => match field(v, "spec"@) {
            Some(sp) => items_have_texts(field(sp, "pattern"@), "type"@, "type"@) && match list_items(
                field(sp, "models"@),
            ) {
                Some(ms) => forall|i: int| 0 <= i < ms.len() ==> model_entry_ok(#[trigger] ms[i]),
                None => false,
            },
            None => false,
        },
        ArtifactKind::Model => match field(v, "spec"@) {
            Some(sp) => items_have_texts(field(sp, "containers"@), "name"@, "image"@),
            None => false,
        },
        ArtifactKind::Volume | ArtifactKind::Network => mapping_or_null(field(v, "spec"@)),
        ArtifactKind::Node | ArtifactKind::Schedule => true,
    }
}

/// Whether an optional value is absent, null or a plain string.
fn check_text_or_null(o: Option<&Yaml>) -> (b: bool)
    ensures
        b == text_or_null(oview(o)),
{
    match o {
        None => true,
        Some(Yaml::Null) => true,
        Some(Yaml::Text(_)) => true,
        Some(_) => false,
    }
}

/// Whether an optional value is absent, null or a mapping.
fn check_mapping_or_null(o: Option<&Yaml>) -> (b: bool)
    ensures
        b == mapping_or_null(oview(o)),
{
    match o {
        None => true,
        Some(Yaml::Null) => true,
        Some(Yaml::Mapping(_)) => true,
        Some(_) => false,
    }
}

/// Whether a value is a mapping with plain string fields `k1` and `k2`.
fn check_texts(v: &Yaml, k1: &str, k2: &str) -> (b: bool)
    ensures
        b == has_texts(yaml_view(*v), k1@, k2@),
{
    as_text(get(v, k1)).is_some() && as_text(get(v, k2)).is_some()
}

/// Whether a model entry of a package has its fields.
fn check_model_entry(m: &Yaml) -> (b: bool)
    ensures
        b == model_entry_ok(yaml_view(*m)),
{
    if !check_texts(m, "name", "node") {
        return false;
    }
    match get(m, "resources") {
        Some(r) => {
            let is_map = match r {
                Yaml::Mapping(_) => true,
                _ => false,
            };
            is_map && check_text_or_null(get(r, "volume")) && check_text_or_null(
                get(r, "network"),
            )
        },
        None => false,
    }
}

/// Whether an optional value is a list each of whose items is a mapping
/// with plain string fields `k1` and `k2`.
fn check_items(o: Option<&Yaml>, k1: &str, k2: &str) -> (b: bool)
    ensures
        b == items_have_texts(oview(o), k1@, k2@),
{
    match o {
        Some(Yaml::List(items)) => {
            let ghost lv = list_view(items@);
            proof {
                lemma_list_view(items@);
            }
            let mut i: usize = 0;
            while i < items.len()
                invariant
                    0 <= i <= items@.len(),
                    lv == list_view(items@),
                    oview(o) == Some(YamlV::List(lv)),
                    lv.len() == items@.len(),
                    forall|j: int| 0 <= j < items@.len() ==> #[trigger] lv[j] == yaml_view(items@[j]),
                    forall|j: int| 0 <= j < i ==> has_texts(#[trigger] lv[j], k1@, k2@),
                decreases items@.len() - i,
            {
                if !check_texts(&items[i], k1, k2) {
                    assert(list_items(oview(o)) is Some);
                    assert(list_items(oview(o))->0 == lv);
                    assert(!has_texts(lv[i as int], k1@, k2@));
                    return false;
                }
                i = i + 1;
            }
            true
        },
        _ => false,
    }
}

/// Whether an optional value is a list of model entries.
fn check_models(o: Option<&Yaml>) -> (b: bool)
    ensures
        b == match list_items(oview(o)) {
            Some(ms) => forall|i: int| 0 <= i < ms.len() ==> model_entry_ok(#[trigger] ms[i]),
            None => false,
        },
{
    match o {
        Some(Yaml::List(items)) => {
            let ghost lv = list_view(items@);
            proof {
                lemma_list_view(items@);
            }
            let mut i: usize = 0;
            while i < items.len()
                invariant
                    0 <= i <= items@.len(),
                    lv == list_view(items@),
                    oview(o) == Some(YamlV::List(lv)),
                    lv.len() == items@.len(),
                    forall|j: int| 0 <= j < items@.len() ==> #[trigger] lv[j] == yaml_view(items@[j]),
                    forall|j: int| 0 <= j < i ==> model_entry_ok(#[trigger] lv[j]),
                decreases items@.len() - i,
            {
                if !check_model_entry(&items[i]) {
                    assert(list_items(oview(o)) is Some);
                    assert(list_items(oview(o))->0 == lv);
                    assert(!model_entry_ok(lv[i as int]));
                    return false;
                }
                i = i + 1;
            }
            true
        },
        _ => false,
    }
}

/// Whether a document has the fields that reading it as an artifact of kind
/// `k` requires.
pub fn schema_check(k: ArtifactKind, v: &Yaml) -> (b: bool)
    ensures
        b == schema_ok(k, yaml_view(*v)),
{
    let envelope = as_text(get(v, "apiVersion")).is_some() && as_text(get(v, "kind")).is_some()
        && match get(v, "metadata") {
        Some(m) => as_text(get(m, "name")).is_some(),
        None => false,
    };
    if !envelope {
        return false;
    }
    match k {
        ArtifactKind::Scenario => match get(v, "spec") {
            Some(sp) => check_texts(sp, "action", "target") && check_mapping_or_null(
                get(sp, "condition"),
            ),
            None => false,
        },
        ArtifactKind::Package => match get(v, "spec") {
            Some(sp) => check_items(get(sp, "pattern"), "type", "type") && check_models(
                get(sp, "models"),
            ),
            None => false,
        },
        ArtifactKind::Model => match get(v, "spec") {
            Some(sp) => check_items(get(sp, "containers"), "name", "image"),
            None => false,
        },
        ArtifactKind::Volume | ArtifactKind::Network => check_mapping_or_null(get(v, "spec")),
        ArtifactKind::Node | ArtifactKind::Schedule => true,
    }
}

} // verus!
