//! YAML documents as a tree of plain values, read and written by
//! `serde_yaml`, with the lookups that artifact handling needs.

use crate::text::{str_eq, string_of};
use vstd::prelude::*;

verus! {

/// `serde_yaml::Value`, a YAML document as `serde_yaml` holds it.
#[verifier::external_type_specification]
#[verifier::external_body]
pub struct ExYamlValue(serde_yaml::Value);

/// `serde_yaml::Number`, a YAML number.
#[verifier::external_type_specification]
#[verifier::external_body]
pub struct ExYamlNumber(serde_yaml::Number);

/// `serde_yaml::value::Tag`, the tag of a `!Tag` value.
#[verifier::external_type_specification]
#[verifier::external_body]
pub struct ExYamlTag(serde_yaml::value::Tag);

/// A YAML value, node for node as `serde_yaml::Value` holds it. Numbers and
/// tags are carried as they are; mappings keep their keys in order.
#[derive(Debug)]
pub enum Yaml {
    Null,
    Bool(bool),
    Number(serde_yaml::Number),
    Text(String),
    List(Vec<Yaml>),
    Mapping(Vec<(Yaml, Yaml)>),
    Tagged(serde_yaml::value::Tag, Box<Yaml>),
}

/// The mathematical value of a YAML tree: texts as character sequences,
/// lists and mappings as sequences.
pub enum YamlV {
    Null,
    Bool(bool),
    Number(serde_yaml::Number),
    Text(Seq<char>),
    List(Seq<YamlV>),
    Mapping(Seq<(YamlV, YamlV)>),
    Tagged(serde_yaml::value::Tag, Box<YamlV>),
}

/// The value of a tree.
pub open spec fn yaml_view(y: Yaml) -> YamlV
    decreases y,
{
    match y {
        Yaml::Null => YamlV::Null,
        Yaml::Bool(b) => YamlV::Bool(b),
        Yaml::Number(n) => YamlV::Number(n),
        Yaml::Text(s) => YamlV::Text(s@),
        Yaml::List(v) => YamlV::List(list_view(v@)),
        Yaml::Mapping(v) => YamlV::Mapping(pairs_view(v@)),
        Yaml::Tagged(t, b) => YamlV::Tagged(t, Box::new(yaml_view(*b))),
    }
}

/// The values of a sequence of trees.
pub open spec fn list_view(s: Seq<Yaml>) -> Seq<YamlV>
    decreases s,
{
    if s.len() == 0 {
        Seq::empty()
    } else {
        list_view(s.subrange(0, s.len() - 1)).push(yaml_view(s[s.len() - 1]))
    }
}

/// The values of a sequence of key-value pairs of trees.
pub open spec fn pairs_view(s: Seq<(Yaml, Yaml)>) -> Seq<(YamlV, YamlV)>
    decreases s,
{
    if s.len() == 0 {
        Seq::empty()
    } else {
        pairs_view(s.subrange(0, s.len() - 1)).push(
            (yaml_view(s[s.len() - 1].0), yaml_view(s[s.len() - 1].1)),
        )
    }
}

/// A sequence of trees has one value per tree, in order.
pub proof fn lemma_list_view(s: Seq<Yaml>)
    ensures
        list_view(s).len() == s.len(),
        forall|i: int| 0 <= i < s.len() ==> #[trigger] list_view(s)[i] == yaml_view(s[i]),
    decreases s.len(),
{
    if s.len() > 0 {
        let t = s.subrange(0, s.len() - 1);
        lemma_list_view(t);
        assert forall|i: int| 0 <= i < s.len() implies #[trigger] list_view(s)[i] == yaml_view(
            s[i],
        ) by {
            if i < s.len() - 1 {
                assert(t[i] == s[i]);
            }
        }
    }
}

/// A sequence of pairs of trees has one pair of values per pair, in order.
pub proof fn lemma_pairs_view(s: Seq<(Yaml, Yaml)>)
    ensures
        pairs_view(s).len() == s.len(),
        forall|i: int|
            0 <= i < s.len() ==> #[trigger] pairs_view(s)[i] == (yaml_view(s[i].0), yaml_view(
                s[i].1,
            )),
    decreases s.len(),
{
    if s.len() > 0 {
        let t = s.subrange(0, s.len() - 1);
        lemma_pairs_view(t);
        assert forall|i: int| 0 <= i < s.len() implies #[trigger] pairs_view(s)[i] == (yaml_view(
            s[i].0,
        ), yaml_view(s[i].1)) by {
            if i < s.len() - 1 {
                assert(t[i] == s[i]);
            }
        }
    }
}

/// The value of the first pair whose key is the text `key`.
pub open spec fn first_value(ps: Seq<(YamlV, YamlV)>, key: Seq<char>) -> Option<YamlV>
    decreases ps.len(),
{
    if ps.len() == 0 {
        None
    } else if ps[0].0 == YamlV::Text(key) {
        Some(ps[0].1)
    } else {
        first_value(ps.drop_first(), key)
    }
}

/// The value under the text key `key` of a mapping; `None` where `v` is no
/// mapping or has no such key.
pub open spec fn field(v: YamlV, key: Seq<char>) -> Option<YamlV> {
    match v {
        YamlV::Mapping(ps) => first_value(ps, key),
        _ => None,
    }
}

/// The value at the path `k1`, `k2` of nested mappings.
pub open spec fn field2(v: YamlV, k1: Seq<char>, k2: Seq<char>) -> Option<YamlV> {
    match field(v, k1) {
        Some(w) => field(w, k2),
        None => None,
    }
}

/// The text of a value that is a plain (untagged) string.
pub open spec fn text(v: Option<YamlV>) -> Option<Seq<char>> {
    match v {
        Some(YamlV::Text(s)) => Some(s),
        _ => None,
    }
}

/// The value of an optional tree.
pub open spec fn oview(o: Option<&Yaml>) -> Option<YamlV> {
    match o {
        Some(y) => Some(yaml_view(*y)),
        None => None,
    }
}

/// The value under the text key `key` of a mapping.
pub fn get<'a>(v: &'a Yaml, key: &str) -> (r: Option<&'a Yaml>)
    ensures
        oview(r) == field(yaml_view(*v), key@),
{
    match v {
        Yaml::Mapping(ps) => {
            let ghost pv = pairs_view(ps@);
            assert(*v == Yaml::Mapping(*ps));
            proof {
                lemma_pairs_view(ps@);
            }
            assert(pv.skip(0) =~= pv);
            let mut i: usize = 0;
            while i < ps.len()
                invariant
                    0 <= i <= ps@.len(),
                    pv == pairs_view(ps@),
                    yaml_view(*v) == YamlV::Mapping(pv),
                    pv.len() == ps@.len(),
                    forall|j: int|
                        0 <= j < ps@.len() ==> #[trigger] pv[j] == (yaml_view(ps@[j].0), yaml_view(
                            ps@[j].1,
                        )),
                    first_value(pv, key@) == first_value(pv.skip(i as int), key@),
                decreases ps@.len() - i,
            {
                assert(pv.skip(i as int).drop_first() =~= pv.skip(i + 1));
                assert(pv.skip(i as int)[0] == pv[i as int]);
                let is_key = match &ps[i].0 {
                    Yaml::Text(s) => str_eq(s.as_str(), key),
                    _ => false,
                };
                assert(is_key == (yaml_view(ps@[i as int].0) == YamlV::Text(key@)));
                if is_key {
                    assert(pv.skip(i as int)[0].0 == YamlV::Text(key@));
                    assert(first_value(pv.skip(i as int), key@) == Some(pv[i as int].1));
                    return Some(&ps[i].1);
                }
                i = i + 1;
            }
            assert(pv.skip(i as int) =~= Seq::<(YamlV, YamlV)>::empty());
            None
        },
        _ => None,
    }
}

/// The value under the text key `key` of an optional mapping.
pub fn get_in<'a>(o: Option<&'a Yaml>, key: &str) -> (r: Option<&'a Yaml>)
    ensures
        oview(r) == match oview(o) {
            Some(v) => field(v, key@),
            None => None,
        },
{
    match o {
        Some(v) => get(v, key),
        None => None,
    }
}

/// The text of a plain string value.
pub fn as_text(v: Option<&Yaml>) -> (r: Option<&str>)
    ensures
        text(oview(v)) == match r {
            Some(s) => Some(s@),
            None => None::<Seq<char>>,
        },
{
    match v {
        Some(Yaml::Text(s)) => Some(s.as_str()),
        _ => None,
    }
}

/// `ps` with the value of the first pair whose key is the text `key` set to
/// `val`, or with that pair added at the end where there is none.
pub open spec fn set_first(ps: Seq<(YamlV, YamlV)>, key: Seq<char>, val: YamlV) -> Seq<
    (YamlV, YamlV),
>
    decreases ps.len(),
{
    if ps.len() == 0 {
        seq![(YamlV::Text(key), val)]
    } else if ps[0].0 == YamlV::Text(key) {
        ps.update(0, (ps[0].0, val))
    } else {
        seq![ps[0]] + set_first(ps.drop_first(), key, val)
    }
}

/// A mapping with its field `key` set to `val`; any other value unchanged.
pub open spec fn with_field(m: YamlV, key: Seq<char>, val: YamlV) -> YamlV {
    match m {
        YamlV::Mapping(ps) => YamlV::Mapping(set_first(ps, key, val)),
        _ => m,
    }
}

/// A mapping with the field `k2` of its field `k1` set to `val`; unchanged
/// where it has no field `k1`.
pub open spec fn with_nested(m: YamlV, k1: Seq<char>, k2: Seq<char>, val: YamlV) -> YamlV {
    match field(m, k1) {
        Some(inner) => with_field(m, k1, with_field(inner, k2, val)),
        None => m,
    }
}

/// `i` is the index of the first pair whose key is the text `key`, or the
/// length where there is none.
pub open spec fn first_key_at(ps: Seq<(YamlV, YamlV)>, key: Seq<char>, i: int) -> bool {
    &&& 0 <= i <= ps.len()
    &&& forall|j: int| 0 <= j < i ==> (#[trigger] ps[j]).0 != YamlV::Text(key)
    &&& i < ps.len() ==> ps[i].0 == YamlV::Text(key)
}

proof fn lemma_first_key(ps: Seq<(YamlV, YamlV)>, key: Seq<char>, i: int, val: YamlV)
    requires
        first_key_at(ps, key, i),
    ensures
        first_value(ps, key) == if i < ps.len() {
            Some(ps[i].1)
        } else {
            None::<YamlV>
        },
        set_first(ps, key, val) == if i < ps.len() {
            ps.update(i, (YamlV::Text(key), val))
        } else {
            ps.push((YamlV::Text(key), val))
        },
    decreases i,
{
    if ps.len() == 0 {
        assert(seq![(YamlV::Text(key), val)] =~= ps.push((YamlV::Text(key), val)));
    } else if i == 0 {
    } else {
        let t = ps.drop_first();
        assert forall|j: int| 0 <= j < i - 1 implies (#[trigger] t[j]).0 != YamlV::Text(key) by {
            assert(t[j] == ps[j + 1]);
        }
        lemma_first_key(t, key, i - 1, val);
        assert(ps[0].0 != YamlV::Text(key));
        if i < ps.len() {
            assert(seq![ps[0]] + t.update(i - 1, (YamlV::Text(key), val)) =~= ps.update(
                i,
                (YamlV::Text(key), val),
            ));
        } else {
            assert(seq![ps[0]] + t.push((YamlV::Text(key), val)) =~= ps.push(
                (YamlV::Text(key), val),
            ));
        }
    }
}

/// The index of the first pair whose key is the text `key`.
fn key_index(ps: &Vec<(Yaml, Yaml)>, key: &str) -> (r: usize)
    ensures
        first_key_at(pairs_view(ps@), key@, r as int),
{
    let ghost pv = pairs_view(ps@);
    proof {
        lemma_pairs_view(ps@);
    }
    let mut i: usize = 0;
    while i < ps.len()
        invariant
            0 <= i <= ps@.len(),
            pv == pairs_view(ps@),
            pv.len() == ps@.len(),
            forall|j: int|
                0 <= j < ps@.len() ==> #[trigger] pv[j] == (yaml_view(ps@[j].0), yaml_view(
                    ps@[j].1,
                )),
            forall|j: int| 0 <= j < i ==> (#[trigger] pv[j]).0 != YamlV::Text(key@),
        decreases ps@.len() - i,
    {
        let is_key = match &ps[i].0 {
            Yaml::Text(s) => str_eq(s.as_str(), key),
            _ => false,
        };
        assert(is_key == (yaml_view(ps@[i as int].0) == YamlV::Text(key@)));
        if is_key {
            return i;
        }
        i = i + 1;
    }
    i
}

/// A mapping with its field `key` set to `val`; any other value unchanged.
pub fn set_field(m: Yaml, key: &str, val: Yaml) -> (r: Yaml)
    ensures
        yaml_view(r) == with_field(yaml_view(m), key@, yaml_view(val)),
{
    match m {
        Yaml::Mapping(ps) => {
            let mut ps = ps;
            let ghost pv = pairs_view(ps@);
            let ghost vv = yaml_view(val);
            let i = key_index(&ps, key);
            proof {
                lemma_pairs_view(ps@);
                lemma_first_key(pv, key@, i as int, vv);
            }
            let entry = (Yaml::Text(string_of(key)), val);
            assert(yaml_view(entry.0) == YamlV::Text(key@));
            if i < ps.len() {
                let ghost before = ps@;
                let _old = ps.remove(i);
                ps.insert(i, entry);
                proof {
                    assert(ps@ =~= before.update(i as int, entry));
                    lemma_pairs_view(ps@);
                    assert(pairs_view(ps@) =~= pv.update(i as int, (YamlV::Text(key@), vv)));
                }
            } else {
                let ghost before = ps@;
                ps.push(entry);
                proof {
                    lemma_pairs_view(ps@);
                    assert(pairs_view(ps@) =~= pv.push((YamlV::Text(key@), vv)));
                }
            }
            Yaml::Mapping(ps)
        },
        other => other,
    }
}

/// The value of the field `key` of a mapping, taken out of it.
pub fn take_field(m: Yaml, key: &str) -> (r: Option<Yaml>)
    ensures
        match r {
            Some(x) => field(yaml_view(m), key@) == Some(yaml_view(x)),
            None => field(yaml_view(m), key@) is None,
        },
{
    match m {
        Yaml::Mapping(ps) => {
            let mut ps = ps;
            let ghost pv = pairs_view(ps@);
            let i = key_index(&ps, key);
            proof {
                lemma_pairs_view(ps@);
                lemma_first_key(pv, key@, i as int, YamlV::Null);
            }
            if i < ps.len() {
                let (_k, x) = ps.remove(i);
                Some(x)
            } else {
                None
            }
        },
        _ => None,
    }
}

/// A mapping with the field `k2` of its field `k1` set to `val`; unchanged
/// where it has no field `k1`.
pub fn set_nested(m: Yaml, k1: &str, k2: &str, val: Yaml) -> (r: Yaml)
    ensures
        yaml_view(r) == with_nested(yaml_view(m), k1@, k2@, yaml_view(val)),
{
    match m {
        Yaml::Mapping(ps) => {
            let mut ps = ps;
            let ghost pv = pairs_view(ps@);
            let i = key_index(&ps, k1);
            proof {
                lemma_pairs_view(ps@);
                lemma_first_key(pv, k1@, i as int, YamlV::Null);
            }
            if i < ps.len() {
                let ghost before = ps@;
                let (_k, inner) = ps.remove(i);
                let ghost iv = yaml_view(inner);
                let updated = set_field(inner, k2, val);
                let ghost uv = yaml_view(updated);
                proof {
                    lemma_first_key(pv, k1@, i as int, uv);
                }
                let entry = (Yaml::Text(string_of(k1)), updated);
                assert(yaml_view(entry.0) == YamlV::Text(k1@));
                ps.insert(i, entry);
                proof {
                    assert(ps@ =~= before.update(i as int, entry));
                    lemma_pairs_view(ps@);
                    assert(pairs_view(ps@) =~= pv.update(i as int, (YamlV::Text(k1@), uv)));
                }
                Yaml::Mapping(ps)
            } else {
                Yaml::Mapping(ps)
            }
        },
        other => other,
    }
}

/// What `serde_yaml::from_str` gives when it reads `doc` as a
/// `serde_yaml::Value`, as a tree; `None` where `doc` is no YAML document.
pub uninterp spec fn yaml_parse(doc: Seq<char>) -> Option<YamlV>;

/// What `serde_yaml::to_string` writes for the `serde_yaml::Value` whose
/// tree is `v`; `None` where it fails.
pub uninterp spec fn yaml_emit(v: YamlV) -> Option<Seq<char>>;

/// The tree of a `serde_yaml::Value`, variant for variant.
#[verifier::external_body]
fn tree_of(v: serde_yaml::Value) -> Yaml {
    match v {
        serde_yaml::Value::Null => Yaml::Null,
        serde_yaml::Value::Bool(b) => Yaml::Bool(b),
        serde_yaml::Value::Number(n) => Yaml::Number(n),
        serde_yaml::Value::String(s) => Yaml::Text(s),
        serde_yaml::Value::Sequence(s) => Yaml::List(s.into_iter().map(tree_of).collect()),
        serde_yaml::Value::Mapping(m) => Yaml::Mapping(
            m.into_iter().map(|(k, x)| (tree_of(k), tree_of(x))).collect(),
        ),
        serde_yaml::Value::Tagged(t) => Yaml::Tagged(t.tag, Box::new(tree_of(t.value))),
    }
}

/// The `serde_yaml::Value` of a tree, variant for variant.
#[verifier::external_body]
fn value_of(y: &Yaml) -> serde_yaml::Value {
    match y {
        Yaml::Null => serde_yaml::Value::Null,
        Yaml::Bool(b) => serde_yaml::Value::Bool(*b),
        Yaml::Number(n) => serde_yaml::Value::Number(n.clone()),
        Yaml::Text(s) => serde_yaml::Value::String(s.clone()),
        Yaml::List(v) => serde_yaml::Value::Sequence(v.iter().map(value_of).collect()),
        Yaml::Mapping(ps) => serde_yaml::Value::Mapping(
            ps.iter().map(|(k, x)| (value_of(k), value_of(x))).collect(),
        ),
        Yaml::Tagged(t, b) => serde_yaml::Value::Tagged(
            Box::new(serde_yaml::value::TaggedValue { tag: t.clone(), value: value_of(b) }),
        ),
    }
}

/// Calls `serde_yaml::from_str` into a `serde_yaml::Value` and takes its
/// tree. Claimed: it succeeds exactly where `yaml_parse` gives a value, and
/// gives that value; which error comes back is left unsaid.
#[verifier::external_body]
pub(crate) fn read_yaml(doc: &str) -> (res: Result<Yaml, serde_yaml::Error>)
    ensures
        res is Ok <==> yaml_parse(doc@) is Some,
        res matches Ok(y) ==> yaml_parse(doc@) == Some(yaml_view(y)),
{
    serde_yaml::from_str::<serde_yaml::Value>(doc).map(tree_of)
}

/// Calls `serde_yaml::to_string` on the `serde_yaml::Value` of a tree.
/// Claimed: it succeeds exactly where `yaml_emit` gives a text, and gives
/// that text; which error comes back is left unsaid.
#[verifier::external_body]
pub(crate) fn write_yaml(y: &Yaml) -> (res: Result<String, serde_yaml::Error>)
    ensures
        res is Ok <==> yaml_emit(yaml_view(*y)) is Some,
        res matches Ok(t) ==> yaml_emit(yaml_view(*y)) == Some(t@),
{
    serde_yaml::to_string(&value_of(y))
}

} // verus!
