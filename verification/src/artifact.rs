//! Artifact handling of the API server: the signature that guards a YAML
//! payload, the kinds of artifact documents, splitting a payload into
//! documents, and the decisions of `apply` and `withdraw`.

pub mod schema;

use crate::sha256::{hashable_len, hmac_sha256, hmac_sha256_bytes};
use crate::artifact::schema::{list_items, model_entry_ok, schema_check, schema_ok};
use crate::text::{chars_of, push_decimal, push_str, str_eq, string_of};
use crate::yaml::{
    as_text, field, field2, get, get_in, lemma_list_view, list_view, read_yaml, take_field, text,
    write_yaml, yaml_emit, yaml_parse, yaml_view, set_nested, with_nested, Yaml, YamlV,
};
use vstd::prelude::*;
use vstd::string::*;

pub use crate::sha256::sha256_bytes;

verus! {

/// `base64::DecodeError`, the error of a failed Base64 decoding.
#[verifier::external_type_specification]
#[verifier::external_body]
pub struct ExDecodeError(base64::DecodeError);

/// The bytes that the standard Base64 alphabet with padding
/// (`base64::engine::general_purpose::STANDARD`) decodes the UTF-8 text
/// `input` into, or `None` where that text is no valid encoding.
pub uninterp spec fn base64_standard_decode(input: Seq<char>) -> Option<Seq<u8>>;

/// Calls `base64::Engine::decode` of `base64::engine::general_purpose::STANDARD`
/// on `input`. Claimed: it fails exactly where `base64_standard_decode` has no
/// value, and otherwise returns those bytes; which `DecodeError` comes back is
/// left unsaid.
#[verifier::external_body]
fn decode_base64_standard(input: &str) -> (res: Result<Vec<u8>, base64::DecodeError>)
    ensures
        res is Ok <==> base64_standard_decode(input@) is Some,
        res matches Ok(bytes) ==> bytes@ == base64_standard_decode(input@)->0,
{
    base64::Engine::decode(&base64::engine::general_purpose::STANDARD, input)
}

/// Unicode `White_Space` characters, the whitespace that `str::trim` removes.
pub open spec fn is_white_space(c: char) -> bool {
    let u = c as u32;
    ||| 0x09 <= u <= 0x0d
    ||| u == 0x20
    ||| u == 0x85
    ||| u == 0xa0
    ||| u == 0x1680
    ||| 0x2000 <= u <= 0x200a
    ||| u == 0x2028
    ||| u == 0x2029
    ||| u == 0x202f
    ||| u == 0x205f
    ||| u == 0x3000
}

/// `s` without its leading whitespace.
pub open spec fn trim_start(s: Seq<char>) -> Seq<char>
    decreases s.len(),
{
    if s.len() > 0 && is_white_space(s[0]) {
        trim_start(s.drop_first())
    } else {
        s
    }
}

/// `s` without its trailing whitespace.
pub open spec fn trim_end(s: Seq<char>) -> Seq<char>
    decreases s.len(),
{
    if s.len() > 0 && is_white_space(s.last()) {
        trim_end(s.drop_last())
    } else {
        s
    }
}

/// `s` without leading and trailing whitespace.
pub open spec fn trimmed(s: Seq<char>) -> Seq<char> {
    trim_end(trim_start(s))
}

/// Whether `c` is a Unicode `White_Space` character.
pub fn is_white_space_char(c: char) -> (b: bool)
    ensures
        b == is_white_space(c),
{
    let u = c as u32;
    (0x09 <= u && u <= 0x0d) || u == 0x20 || u == 0x85 || u == 0xa0 || u == 0x1680 || (0x2000 <= u
        && u <= 0x200a) || u == 0x2028 || u == 0x2029 || u == 0x202f || u == 0x205f || u == 0x3000
}

/// `s` without leading and trailing Unicode whitespace, as `str::trim`
/// documents it.
pub fn trim(s: &str) -> (r: String)
    ensures
        r@ == trimmed(s@),
{
    let v = chars_of(s);
    let n = v.len();
    let mut i: usize = 0;
    assert(v@.skip(0) =~= v@);
    while i < n && is_white_space_char(v[i])
        invariant
            0 <= i <= n,
            n == v@.len(),
            trim_start(v@) == trim_start(v@.skip(i as int)),
        decreases n - i,
    {
        assert(v@.skip(i as int).drop_first() =~= v@.skip(i + 1));
        i = i + 1;
    }
    let ghost t = v@.skip(i as int);
    assert(trim_start(v@) == t);
    let mut j: usize = n;
    assert(t.take((n - i) as int) =~= t);
    while j > i && is_white_space_char(v[j - 1])
        invariant
            i <= j <= n,
            n == v@.len(),
            t == v@.skip(i as int),
            trim_end(t) == trim_end(t.take(j - i)),
        decreases j,
    {
        assert(t.take(j - i).drop_last() =~= t.take(j - 1 - i));
        assert(t.take(j - i).last() == v@[j - 1]);
        j = j - 1;
    }
    let ghost u = t.take(j - i);
    assert(trim_end(u) == u) by {
        if u.len() > 0 {
            assert(u.last() == v@[j - 1]);
        }
    }
    let mut r = String::new();
    let mut k: usize = i;
    while k < j
        invariant
            i <= k <= j <= n,
            n == v@.len(),
            r@ == v@.subrange(i as int, k as int),
        decreases j - k,
    {
        r.push(v[k]);
        k = k + 1;
        assert(r@ =~= v@.subrange(i as int, k as int));
    }
    assert(r@ =~= u);
    r
}

/// Why a signed payload was refused.
#[derive(Debug)]
pub enum SignatureError {
    /// A signing key is configured but the request carries no signature.
    MissingSignature,
    /// The signature is not valid standard Base64.
    InvalidBase64(base64::DecodeError),
    /// The decoded signature is not 32 bytes long.
    LengthMismatch,
    /// The signature is not the HMAC-SHA256 of the body under the key.
    InvalidSignature,
}

/// Whether `a` and `b` differ, compared in time independent of where they
/// differ: the OR of the XOR of every pair of bytes.
fn mismatch(a: &Vec<u8>, b: &[u8; 32]) -> (m: u8)
    requires
        a@.len() == 32,
    ensures
        (m == 0) == (a@ == b@),
{
    let mut acc: u8 = 0;
    let mut i: usize = 0;
    while i < 32
        invariant
            0 <= i <= 32,
            a@.len() == 32,
            (acc == 0) == (forall|j: int| 0 <= j < i ==> a@[j] == b@[j]),
        decreases 32 - i,
    {
        let x = a[i];
        let y = b[i];
        let next = acc | (x ^ y);
        assert((next == 0) == (acc == 0 && x == y)) by (bit_vector)
            requires
                next == acc | (x ^ y),
        ;
        acc = next;
        i = i + 1;
    }
    assert((acc == 0) ==> a@ =~= b@);
    acc
}

/// Checks a decoded signature against the HMAC-SHA256 of `body` under `key`:
/// it must be 32 bytes long and equal to that HMAC; the comparison takes the
/// same time wherever the bytes differ.
pub fn check_signature_bytes(provided: &Vec<u8>, key: &[u8], body: &[u8]) -> (res: Result<
    (),
    SignatureError,
>)
    requires
        hashable_len(key@.len()),
        hashable_len(body@.len() + 64),
    ensures
        provided@.len() != 32 ==> res == Err::<(), SignatureError>(SignatureError::LengthMismatch),
        provided@.len() == 32 && provided@ == hmac_sha256(key@, body@) ==> res is Ok,
        provided@.len() == 32 && provided@ != hmac_sha256(key@, body@) ==> res == Err::<
            (),
            SignatureError,
        >(SignatureError::InvalidSignature),
{
    let expected = hmac_sha256_bytes(key, body);
    if provided.len() != 32 {
        return Err(SignatureError::LengthMismatch);
    }
    if mismatch(provided, &expected) != 0 {
        return Err(SignatureError::InvalidSignature);
    }
    Ok(())
}

/// Checks the HMAC-SHA256 signature of a YAML payload.
///
/// With no signing key configured every payload is accepted. With a key, the
/// signature must be present, decode as standard Base64 after trimming
/// surrounding whitespace, and equal the HMAC-SHA256 of the body's UTF-8
/// bytes under the key's UTF-8 bytes; the comparison takes the same time
/// wherever the bytes differ.
pub fn verify_yaml_signature_with_key(
    signing_key: Option<&str>,
    body: &str,
    signature_b64: Option<&str>,
) -> (res: Result<(), SignatureError>)
    requires
        signing_key matches Some(k) ==> hashable_len(k.spec_bytes().len()) && hashable_len(
            body.spec_bytes().len() + 64,
        ),
    ensures
        signing_key is None ==> res is Ok,
        signing_key is Some && signature_b64 is None ==> res == Err::<(), SignatureError>(
            SignatureError::MissingSignature,
        ),
        signing_key matches Some(k) ==> signature_b64 matches Some(sig) ==> match base64_standard_decode(
            trimmed(sig@),
        ) {
            None => res matches Err(SignatureError::InvalidBase64(_)),
            Some(d) => if d.len() != 32 {
                res == Err::<(), SignatureError>(SignatureError::LengthMismatch)
            } else if d == hmac_sha256(k.spec_bytes(), body.spec_bytes()) {
                res is Ok
            } else {
                res == Err::<(), SignatureError>(SignatureError::InvalidSignature)
            },
        },
{
    match (signing_key, signature_b64) {
        (None, _) => Ok(()),
        (Some(_), None) => Err(SignatureError::MissingSignature),
        (Some(key), Some(sig_b64)) => {
            let trimmed_sig = trim(sig_b64);
            let provided = match decode_base64_standard(trimmed_sig.as_str()) {
                Ok(bytes) => bytes,
                Err(e) => {
                    return Err(SignatureError::InvalidBase64(e));
                },
            };
            check_signature_bytes(&provided, key.as_bytes(), body.as_bytes())
        },
    }
}


/// The kinds of artifact documents the API server stores.
#[derive(Clone, Copy, Debug, PartialEq, Eq)]
pub enum ArtifactKind {
    Scenario,
    Package,
    Volume,
    Network,
    Node,
    Model,
    Schedule,
}

/// The `kind` text of each artifact kind.
pub open spec fn kind_text(k: ArtifactKind) -> Seq<char> {
    match k {
        ArtifactKind::Scenario => "Scenario"@,
        ArtifactKind::Package => "Package"@,
        ArtifactKind::Volume => "Volume"@,
        ArtifactKind::Network => "Network"@,
        ArtifactKind::Node => "Node"@,
        ArtifactKind::Model => "Model"@,
        ArtifactKind::Schedule => "Schedule"@,
    }
}

/// The artifact kind whose `kind` text is `s`, if any.
pub open spec fn kind_of(s: Seq<char>) -> Option<ArtifactKind> {
    if s == "Scenario"@ {
        Some(ArtifactKind::Scenario)
    } else if s == "Package"@ {
        Some(ArtifactKind::Package)
    } else if s == "Volume"@ {
        Some(ArtifactKind::Volume)
    } else if s == "Network"@ {
        Some(ArtifactKind::Network)
    } else if s == "Node"@ {
        Some(ArtifactKind::Node)
    } else if s == "Model"@ {
        Some(ArtifactKind::Model)
    } else if s == "Schedule"@ {
        Some(ArtifactKind::Schedule)
    } else {
        None
    }
}

impl ArtifactKind {
    /// The `kind` text of this kind.
    pub fn as_str(&self) -> (s: &'static str)
        ensures
            s@ == kind_text(*self),
    {
        match self {
            ArtifactKind::Scenario => "Scenario",
            ArtifactKind::Package => "Package",
            ArtifactKind::Volume => "Volume",
            ArtifactKind::Network => "Network",
            ArtifactKind::Node => "Node",
            ArtifactKind::Model => "Model",
            ArtifactKind::Schedule => "Schedule",
        }
    }
}

/// The artifact kind named by a document's `kind` field.
pub fn classify_kind(kind: &str) -> (k: Option<ArtifactKind>)
    ensures
        k == kind_of(kind@),
{
    if str_eq(kind, "Scenario") {
        Some(ArtifactKind::Scenario)
    } else if str_eq(kind, "Package") {
        Some(ArtifactKind::Package)
    } else if str_eq(kind, "Volume") {
        Some(ArtifactKind::Volume)
    } else if str_eq(kind, "Network") {
        Some(ArtifactKind::Network)
    } else if str_eq(kind, "Node") {
        Some(ArtifactKind::Node)
    } else if str_eq(kind, "Model") {
        Some(ArtifactKind::Model)
    } else if str_eq(kind, "Schedule") {
        Some(ArtifactKind::Schedule)
    } else {
        None
    }
}

/// The kind and name of a document read as an artifact: its `kind` text,
/// where that names an artifact kind and the document has the fields of that
/// kind, with its `metadata.name`. Other documents have no info.
pub open spec fn artifact_info(v: YamlV) -> Option<(Seq<char>, Seq<char>)> {
    match text(field(v, "kind"@)) {
        Some(k) => match kind_of(k) {
            Some(ak) => if schema_ok(ak, v) {
                Some((k, text(field2(v, "metadata"@, "name"@))->0))
            } else {
                None
            },
            None => None,
        },
        None => None,
    }
}

/// The text fields of an optional kind and name.
pub open spec fn info_view(o: Option<(String, String)>) -> Option<(Seq<char>, Seq<char>)> {
    match o {
        Some((k, n)) => Some((k@, n@)),
        None => None,
    }
}

/// The kind and name of an artifact document: `None` where its `kind` is no
/// artifact kind or it lacks a field that kind requires.
pub fn parse_artifact_info(value: &Yaml) -> (info: Option<(String, String)>)
    ensures
        info_view(info) == artifact_info(yaml_view(*value)),
{
    let kind = match as_text(get(value, "kind")) {
        Some(k) => k,
        None => {
            return None;
        },
    };
    let ak = match classify_kind(kind) {
        Some(a) => a,
        None => {
            return None;
        },
    };
    if !schema_check(ak, value) {
        return None;
    }
    let name = match get(value, "metadata") {
        Some(m) => match as_text(get(m, "name")) {
            Some(n) => n,
            None => {
                return None;
            },
        },
        None => {
            return None;
        },
    };
    Some((string_of(kind), string_of(name)))
}

/// The store key of an artifact: `{kind}/{name}`.
pub fn artifact_key(kind: &str, name: &str) -> (key: String)
    ensures
        key@ == kind@ + "/"@ + name@,
{
    let mut key = String::new();
    push_str(&mut key, kind);
    push_str(&mut key, "/");
    push_str(&mut key, name);
    key
}

/// Whether the document separator `---` starts at `i` in `s`.
pub open spec fn separator_at(s: Seq<char>, i: int) -> bool {
    0 <= i && i + 3 <= s.len() && s[i] == '-' && s[i + 1] == '-' && s[i + 2] == '-'
}

/// The pieces of `s` between occurrences of `---`, found left to right
/// without overlap; empty pieces are kept.
pub open spec fn split_documents_spec(s: Seq<char>) -> Seq<Seq<char>>
    decreases s.len(),
{
    if s.len() == 0 {
        seq![Seq::empty()]
    } else if separator_at(s, 0) {
        seq![Seq::<char>::empty()] + split_documents_spec(s.skip(3))
    } else {
        let r = split_documents_spec(s.drop_first());
        r.update(0, seq![s[0]] + r[0])
    }
}

/// The pieces of `s` with `p` put in front of the first.
pub open spec fn split_after(p: Seq<char>, s: Seq<char>) -> Seq<Seq<char>> {
    let r = split_documents_spec(s);
    r.update(0, p + r[0])
}

/// Splitting always gives at least one piece.
pub proof fn lemma_split_nonempty(s: Seq<char>)
    ensures
        split_documents_spec(s).len() >= 1,
    decreases s.len(),
{
    if s.len() > 0 {
        if separator_at(s, 0) {
            lemma_split_nonempty(s.skip(3));
        } else {
            lemma_split_nonempty(s.drop_first());
        }
    }
}

/// The pieces joined back together with `---` between neighbours.
pub open spec fn join_documents(pieces: Seq<Seq<char>>) -> Seq<char>
    decreases pieces.len(),
{
    if pieces.len() == 0 {
        Seq::empty()
    } else if pieces.len() == 1 {
        pieces[0]
    } else {
        pieces[0] + seq!['-', '-', '-'] + join_documents(pieces.drop_first())
    }
}

/// Splitting loses nothing: joining the pieces with `---` gives back the
/// payload.
pub proof fn lemma_split_then_join(s: Seq<char>)
    ensures
        join_documents(split_documents_spec(s)) == s,
    decreases s.len(),
{
    if s.len() == 0 {
    } else if separator_at(s, 0) {
        let rest = split_documents_spec(s.skip(3));
        lemma_split_nonempty(s.skip(3));
        lemma_split_then_join(s.skip(3));
        let whole = seq![Seq::<char>::empty()] + rest;
        assert(whole.drop_first() =~= rest);
        assert(s =~= Seq::<char>::empty() + seq!['-', '-', '-'] + s.skip(3));
    } else {
        let r = split_documents_spec(s.drop_first());
        lemma_split_nonempty(s.drop_first());
        lemma_split_then_join(s.drop_first());
        let u = r.update(0, seq![s[0]] + r[0]);
        assert(u.drop_first() =~= r.drop_first());
        assert(s =~= seq![s[0]] + s.drop_first());
        if r.len() == 1 {
            assert(s =~= seq![s[0]] + r[0]);
        } else {
            assert(join_documents(r) == r[0] + seq!['-', '-', '-'] + join_documents(r.drop_first()));
            assert(s =~= (seq![s[0]] + r[0]) + seq!['-', '-', '-'] + join_documents(
                r.drop_first(),
            ));
        }
    }
}

/// Splits a multi-document YAML payload at every `---`.
pub fn split_documents(body: &str) -> (docs: Vec<String>)
    ensures
        docs@.map_values(|d: String| d@) == split_documents_spec(body@),
{
    let chars = chars_of(body);
    let n = chars.len();
    let mut docs: Vec<String> = Vec::new();
    let mut cur = String::new();
    let mut i: usize = 0;
    proof {
        lemma_split_nonempty(chars@);
        assert(chars@.skip(0) =~= chars@);
        assert(split_after(Seq::empty(), chars@) =~= split_documents_spec(chars@));
    }
    while i < n
        invariant
            0 <= i <= n,
            n == chars@.len(),
            chars@ == body@,
            docs@.map_values(|d: String| d@) + split_after(cur@, chars@.skip(i as int))
                == split_documents_spec(chars@),
        decreases n - i,
    {
        let ghost t = chars@.skip(i as int);
        proof {
            lemma_split_nonempty(t);
        }
        if n - i >= 3 && chars[i] == '-' && chars[i + 1] == '-' && chars[i + 2] == '-' {
            assert(separator_at(t, 0));
            let ghost old_docs = docs@.map_values(|d: String| d@);
            let ghost p = cur@;
            let piece = cur;
            docs.push(piece);
            cur = String::new();
            i = i + 3;
            proof {
                assert(t.skip(3) =~= chars@.skip(i as int));
                lemma_split_nonempty(t.skip(3));
                assert(docs@.map_values(|d: String| d@) =~= old_docs.push(p));
                assert(split_after(cur@, chars@.skip(i as int)) =~= split_documents_spec(
                    chars@.skip(i as int),
                ));
                assert(split_after(p, t) =~= seq![p] + split_documents_spec(t.skip(3)));
                assert(old_docs + split_after(p, t) =~= old_docs.push(p) + split_documents_spec(
                    t.skip(3),
                ));
            }
        } else {
            assert(!separator_at(t, 0));
            let ghost p = cur@;
            let c = chars[i];
            cur.push(c);
            i = i + 1;
            proof {
                assert(t.drop_first() =~= chars@.skip(i as int));
                lemma_split_nonempty(t.drop_first());
                let r = split_documents_spec(t.drop_first());
                assert(t.len() > 0);
                assert(t[0] == c);
                assert(split_documents_spec(t) == r.update(0, seq![c] + r[0]));
                assert(cur@ == p.push(c));
                assert(p + (seq![c] + r[0]) =~= p.push(c) + r[0]);
                assert(split_after(p, t) =~= split_after(cur@, chars@.skip(i as int)));
            }
        }
    }
    proof {
        assert(chars@.skip(n as int) =~= Seq::<char>::empty());
    }
    let ghost before = docs@.map_values(|d: String| d@);
    let ghost last = cur@;
    docs.push(cur);
    assert(docs@.map_values(|d: String| d@) =~= before.push(last));
    assert(split_after(last, Seq::empty()) =~= seq![last]);
    docs
}


/// Why applying or withdrawing a payload failed after its documents were
/// read.
#[derive(Clone, Copy, Debug, PartialEq, Eq)]
pub enum ArtifactError {
    /// The payload holds no scenario.
    NoScenario,
    /// The payload holds no package.
    NoPackage,
}

impl ArtifactError {
    /// The error text.
    pub fn message(&self) -> (m: &'static str)
        ensures
            *self == ArtifactError::NoScenario ==> m@ == "There is not any scenario in yaml string"@,
            *self == ArtifactError::NoPackage ==> m@ == "There is not any package in yaml string"@,
    {
        match self {
            ArtifactError::NoScenario => "There is not any scenario in yaml string",
            ArtifactError::NoPackage => "There is not any package in yaml string",
        }
    }
}

/// What `apply` has collected from the documents of a payload so far: the
/// text of the last scenario and of the last package stored.
pub struct ApplyState {
    pub scenario: String,
    pub package: String,
}

impl ApplyState {
    /// Nothing collected yet.
    pub fn new() -> (s: ApplyState)
        ensures
            s.scenario@.len() == 0,
            s.package@.len() == 0,
    {
        ApplyState { scenario: String::new(), package: String::new() }
    }

    /// Notes a stored document of kind `kind` whose YAML text is `artifact`:
    /// a scenario or package replaces the one collected before, other kinds
    /// change nothing.
    pub fn record(&mut self, kind: &str, artifact: String)
        ensures
            kind@ == "Scenario"@ ==> final(self).scenario@ == artifact@ && final(self).package@
                == old(self).package@,
            kind@ == "Package"@ ==> final(self).package@ == artifact@ && final(self).scenario@
                == old(self).scenario@,
            kind@ != "Scenario"@ && kind@ != "Package"@ ==> final(self).scenario@ == old(
                self,
            ).scenario@ && final(self).package@ == old(self).package@,
    {
        proof {
            reveal_strlit("Scenario");
            reveal_strlit("Package");
            assert("Scenario"@[0] != "Package"@[0]);
        }
        if str_eq(kind, "Scenario") {
            self.scenario = artifact;
        } else if str_eq(kind, "Package") {
            self.package = artifact;
        }
    }

    /// The outcome of `apply` once every document is stored: the scenario and
    /// the package, or which of them is missing (the scenario first).
    pub fn finish(self) -> (res: Result<(String, String), ArtifactError>)
        ensures
            self.scenario@.len() == 0 ==> res == Err::<(String, String), ArtifactError>(
                ArtifactError::NoScenario,
            ),
            self.scenario@.len() > 0 && self.package@.len() == 0 ==> res == Err::<
                (String, String),
                ArtifactError,
            >(ArtifactError::NoPackage),
            self.scenario@.len() > 0 && self.package@.len() > 0 ==> (res matches Ok((s, p)) && s@
                == self.scenario@ && p@ == self.package@),
    {
        if self.scenario.as_str().is_empty() {
            Err(ArtifactError::NoScenario)
        } else if self.package.as_str().is_empty() {
            Err(ArtifactError::NoPackage)
        } else {
            Ok((self.scenario, self.package))
        }
    }
}

/// The store key `withdraw` deletes for a document with this info: only a
/// scenario is withdrawn, since other scenarios may share a package.
pub fn withdraw_key(info: &Option<(String, String)>) -> (key: Option<String>)
    ensures
        match info {
            Some((k, n)) => if k@ == "Scenario"@ {
                key matches Some(key) && key@ == "Scenario/"@ + n@
            } else {
                key is None
            },
            None => key is None,
        },
{
    match info {
        Some((kind, name)) => {
            if str_eq(kind.as_str(), "Scenario") {
                let key = artifact_key("Scenario", name.as_str());
                proof {
                    reveal_strlit("Scenario");
                    reveal_strlit("/");
                    reveal_strlit("Scenario/");
                    assert("Scenario"@ + "/"@ =~= "Scenario/"@);
                }
                Some(key)
            } else {
                None
            }
        },
        None => None,
    }
}

/// The value of `ResourceType::Scenario` in state change messages.
pub const RESOURCE_TYPE_SCENARIO: i32 = 1;

/// A state change request to the state manager.
#[derive(Clone, Debug, PartialEq)]
pub struct StateChange {
    pub resource_type: i32,
    pub resource_name: String,
    pub current_state: String,
    pub target_state: String,
    pub transition_id: String,
    pub timestamp_ns: i64,
    pub source: String,
}

/// The decimal text of a signed integer.
pub open spec fn signed_decimal(x: int) -> Seq<char> {
    if x < 0 {
        "-"@ + crate::text::decimal((-x) as nat)
    } else {
        crate::text::decimal(x as nat)
    }
}

/// The request that sets the initial state of a newly applied scenario: no
/// current state, the target state, made by the API server at `timestamp_ns`
/// and identified by that time.
pub fn scenario_init_change(scenario_name: &str, target_state: &str, timestamp_ns: i64) -> (c:
    StateChange)
    ensures
        c.resource_type == RESOURCE_TYPE_SCENARIO,
        c.resource_name@ == scenario_name@,
        c.current_state@.len() == 0,
        c.target_state@ == target_state@,
        c.transition_id@ == "apiserver-scenario-init-"@ + signed_decimal(timestamp_ns as int),
        c.timestamp_ns == timestamp_ns,
        c.source@ == "apiserver"@,
{
    let mut id = String::new();
    push_str(&mut id, "apiserver-scenario-init-");
    if timestamp_ns < 0 {
        push_str(&mut id, "-");
        let magnitude: u64 = (-(timestamp_ns as i128)) as u64;
        push_decimal(&mut id, magnitude);
    } else {
        push_decimal(&mut id, timestamp_ns as u64);
    }
    StateChange {
        resource_type: RESOURCE_TYPE_SCENARIO,
        resource_name: string_of(scenario_name),
        current_state: String::new(),
        target_state: string_of(target_state),
        transition_id: id,
        timestamp_ns,
        source: string_of("apiserver"),
    }
}


/// `serde_yaml::Error`, the error of reading or writing YAML.
#[verifier::external_type_specification]
#[verifier::external_body]
pub struct ExYamlError(serde_yaml::Error);

/// The text of an optional string.
pub open spec fn opt_view(o: Option<String>) -> Option<Seq<char>> {
    match o {
        Some(s) => Some(s@),
        None => None,
    }
}

/// What reading one document of a payload gives: `None` where it is no YAML
/// document or cannot be written back out; otherwise the kind, name and
/// written-out YAML text of the artifact it is, or `None` inside where it is
/// no artifact.
pub open spec fn read_document(doc: Seq<char>) -> Option<Option<(Seq<char>, Seq<char>, Seq<char>)>> {
    match yaml_parse(doc) {
        None => None,
        Some(v) => match yaml_emit(v) {
            None => None,
            Some(t) => Some(
                match artifact_info(v) {
                    Some((k, n)) => Some((k, n, t)),
                    None => None,
                },
            ),
        },
    }
}

/// The text fields of an optional kind, name and text.
pub open spec fn triple_view(o: Option<(String, String, String)>) -> Option<
    (Seq<char>, Seq<char>, Seq<char>),
> {
    match o {
        Some((k, n, t)) => Some((k@, n@, t@)),
        None => None,
    }
}

/// Reads one artifact document: fails where the text is no YAML document;
/// otherwise gives its kind, name and YAML text as written back out, or
/// `None` for a document that is no artifact.
pub fn process_document(doc: &str) -> (res: Result<Option<(String, String, String)>, serde_yaml::Error>)
    ensures
        res is Ok <==> read_document(doc@) is Some,
        res matches Ok(r) ==> read_document(doc@) == Some(triple_view(r)),
{
    let value = match read_yaml(doc) {
        Ok(v) => v,
        Err(e) => {
            return Err(e);
        },
    };
    let text = match write_yaml(&value) {
        Ok(t) => t,
        Err(e) => {
            return Err(e);
        },
    };
    match parse_artifact_info(&value) {
        Some((k, n)) => Ok(Some((k, n, text))),
        None => Ok(None),
    }
}

/// What withdrawing gives for the documents `docs`, read in order: the key
/// `Scenario/{name}` and the written-out text of the first scenario; `Err`
/// where a document before it is no YAML, or that scenario cannot be
/// written out; `Ok(None)` where there is no scenario.
pub open spec fn withdraw_outcome(docs: Seq<Seq<char>>) -> Result<Option<(Seq<char>, Seq<char>)>, ()>
    decreases docs.len(),
{
    if docs.len() == 0 {
        Ok(None)
    } else {
        match yaml_parse(docs[0]) {
            None => Err(()),
            Some(v) => match artifact_info(v) {
                Some((k, n)) => if k == "Scenario"@ {
                    match yaml_emit(v) {
                        Some(t) => Ok(Some(("Scenario/"@ + n, t))),
                        None => Err(()),
                    }
                } else {
                    withdraw_outcome(docs.drop_first())
                },
                None => withdraw_outcome(docs.drop_first()),
            },
        }
    }
}

/// Why withdrawing a payload failed.
#[derive(Debug)]
pub enum WithdrawError {
    /// A document before the first scenario is no YAML document.
    Yaml(serde_yaml::Error),
    /// The payload holds no scenario with a name.
    NoScenario,
}

/// The store key and YAML text of the scenario that withdrawing `body`
/// deletes: the first scenario document of the payload. Only scenarios are
/// withdrawn, since other scenarios may share a package.
pub fn withdraw_document(body: &str) -> (res: Result<(String, String), WithdrawError>)
    ensures
        match withdraw_outcome(split_documents_spec(body@)) {
            Ok(Some((key, text))) => res matches Ok((k, t)) && k@ == key && t@ == text,
            Ok(None) => res matches Err(WithdrawError::NoScenario),
            Err(_) => res matches Err(WithdrawError::Yaml(_)),
        },
{
    let docs = split_documents(body);
    let ghost all = docs@.map_values(|d: String| d@);
    let mut i: usize = 0;
    assert(all.skip(0) =~= all);
    while i < docs.len()
        invariant
            0 <= i <= docs@.len(),
            all == docs@.map_values(|d: String| d@),
            all == split_documents_spec(body@),
            withdraw_outcome(all) == withdraw_outcome(all.skip(i as int)),
        decreases docs@.len() - i,
    {
        let ghost rest = all.skip(i as int);
        assert(rest[0] == docs@[i as int]@);
        assert(rest.drop_first() =~= all.skip(i + 1));
        match read_yaml(docs[i].as_str()) {
            Err(e) => {
                return Err(WithdrawError::Yaml(e));
            },
            Ok(value) => {
                let info = parse_artifact_info(&value);
                proof {
                    reveal_strlit("Scenario");
                }
                match withdraw_key(&info) {
                    Some(key) => {
                        return match write_yaml(&value) {
                            Ok(text) => Ok((key, text)),
                            Err(e) => Err(WithdrawError::Yaml(e)),
                        };
                    },
                    None => {},
                }
            },
        }
        i = i + 1;
    }
    assert(all.skip(i as int) =~= Seq::<Seq<char>>::empty());
    Err(WithdrawError::NoScenario)
}


/// The kind, name and text of each artifact that reading the documents
/// `docs` in order stores, up to the first document that is no YAML or
/// cannot be written out; and whether such a document was met.
pub open spec fn stored_prefix(docs: Seq<Seq<char>>) -> (Seq<(Seq<char>, Seq<char>, Seq<char>)>, bool)
    decreases docs.len(),
{
    if docs.len() == 0 {
        (Seq::empty(), false)
    } else {
        match read_document(docs[0]) {
            None => (Seq::empty(), true),
            Some(r) => {
                let rest = stored_prefix(docs.drop_first());
                match r {
                    Some(a) => (seq![a] + rest.0, rest.1),
                    None => rest,
                }
            },
        }
    }
}

/// The text of the last artifact of kind `kind` in `arts`; empty where there
/// is none.
pub open spec fn last_text(arts: Seq<(Seq<char>, Seq<char>, Seq<char>)>, kind: Seq<char>) -> Seq<
    char,
>
    decreases arts.len(),
{
    if arts.len() == 0 {
        Seq::empty()
    } else if arts.last().0 == kind {
        arts.last().2
    } else {
        last_text(arts.drop_last(), kind)
    }
}

/// The text fields of stored artifacts.
pub open spec fn stored_view(v: Seq<(String, String, String)>) -> Seq<(Seq<char>, Seq<char>, Seq<char>)> {
    v.map_values(|t: (String, String, String)| (t.0@, t.1@, t.2@))
}

/// Why a payload could not be applied.
#[derive(Debug)]
pub enum ApplyFailure {
    /// A document is no YAML document.
    Yaml(serde_yaml::Error),
    /// The payload lacks a scenario or a package.
    Missing(ArtifactError),
}

/// What applying a payload does, read from its documents: the artifacts to
/// store, in order, and then the scenario and package, or why it fails.
#[derive(Debug)]
pub struct ApplyPlan {
    /// Kind, name and YAML text of each artifact to store under
    /// `{kind}/{name}`.
    pub stored: Vec<(String, String, String)>,
    /// The scenario and package texts once all are stored, or the failure.
    pub outcome: Result<(String, String), ApplyFailure>,
}

/// Reads the documents of a payload as applying it does: every document of
/// an artifact kind with a name is stored, in order, until one is no YAML
/// document, which fails the payload; then the last scenario and the last
/// package stored are its result, the scenario's absence reported first.
pub fn read_payload(body: &str) -> (plan: ApplyPlan)
    ensures
        ({
            let (arts, failed) = stored_prefix(split_documents_spec(body@));
            let s = last_text(arts, "Scenario"@);
            let p = last_text(arts, "Package"@);
            &&& stored_view(plan.stored@) == arts
            &&& if failed {
                plan.outcome matches Err(ApplyFailure::Yaml(_))
            } else if s.len() == 0 {
                plan.outcome matches Err(ApplyFailure::Missing(ArtifactError::NoScenario))
            } else if p.len() == 0 {
                plan.outcome matches Err(ApplyFailure::Missing(ArtifactError::NoPackage))
            } else {
                plan.outcome matches Ok((rs, rp)) && rs@ == s && rp@ == p
            }
        }),
{
    let docs = split_documents(body);
    let ghost all = docs@.map_values(|d: String| d@);
    let mut stored: Vec<(String, String, String)> = Vec::new();
    let mut state = ApplyState::new();
    let mut i: usize = 0;
    assert(all.skip(0) =~= all);
    assert(stored_view(stored@) =~= Seq::<(Seq<char>, Seq<char>, Seq<char>)>::empty());
    while i < docs.len()
        invariant
            0 <= i <= docs@.len(),
            all == docs@.map_values(|d: String| d@),
            all == split_documents_spec(body@),
            stored_prefix(all) == (
                stored_view(stored@) + stored_prefix(all.skip(i as int)).0,
                stored_prefix(all.skip(i as int)).1,
            ),
            state.scenario@ == last_text(stored_view(stored@), "Scenario"@),
            state.package@ == last_text(stored_view(stored@), "Package"@),
        decreases docs@.len() - i,
    {
        let ghost rest = all.skip(i as int);
        let ghost before = stored_view(stored@);
        assert(rest[0] == docs@[i as int]@);
        assert(rest.drop_first() =~= all.skip(i + 1));
        match process_document(docs[i].as_str()) {
            Err(e) => {
                assert(before + Seq::<(Seq<char>, Seq<char>, Seq<char>)>::empty() =~= before);
                return ApplyPlan { stored, outcome: Err(ApplyFailure::Yaml(e)) };
            },
            Ok(None) => {},
            Ok(Some((kind, name, text))) => {
                let ghost a = (kind@, name@, text@);
                state.record(kind.as_str(), text.clone());
                stored.push((kind, name, text));
                proof {
                    assert(stored_view(stored@) =~= before.push(a));
                    assert(before.push(a).drop_last() =~= before);
                    let r = stored_prefix(all.skip(i + 1));
                    assert(before + (seq![a] + r.0) =~= before.push(a) + r.0);
                }
            },
        }
        i = i + 1;
    }
    assert(all.skip(i as int) =~= Seq::<Seq<char>>::empty());
    assert(stored_view(stored@) + Seq::<(Seq<char>, Seq<char>, Seq<char>)>::empty() =~= stored_view(
        stored@,
    ));
    proof {
        reveal_strlit("Scenario");
        reveal_strlit("Package");
    }
    let outcome = match state.finish() {
        Ok(sp) => Ok(sp),
        Err(e) => Err(ApplyFailure::Missing(e)),
    };
    ApplyPlan { stored, outcome }
}


/// The key and text of the first scenario among stored artifacts.
pub open spec fn first_scenario(arts: Seq<(Seq<char>, Seq<char>, Seq<char>)>) -> Option<
    (Seq<char>, Seq<char>),
>
    decreases arts.len(),
{
    if arts.len() == 0 {
        None
    } else if arts[0].0 == "Scenario"@ {
        Some(("Scenario/"@ + arts[0].1, arts[0].2))
    } else {
        first_scenario(arts.drop_first())
    }
}

proof fn lemma_withdraw_matches_stored(docs: Seq<Seq<char>>)
    ensures
        match first_scenario(stored_prefix(docs).0) {
            Some(ks) => withdraw_outcome(docs) == Ok::<Option<(Seq<char>, Seq<char>)>, ()>(
                Some(ks),
            ),
            None => !stored_prefix(docs).1 ==> withdraw_outcome(docs) == Ok::<
                Option<(Seq<char>, Seq<char>)>,
                (),
            >(None),
        },
    decreases docs.len(),
{
    if docs.len() > 0 {
        lemma_withdraw_matches_stored(docs.drop_first());
        reveal_strlit("Scenario");
        match yaml_parse(docs[0]) {
            None => {},
            Some(v) => {
                let r = stored_prefix(docs.drop_first());
                match yaml_emit(v) {
                    None => {},
                    Some(t) => {
                        match artifact_info(v) {
                            Some((k, n)) => {
                                let arts = seq![(k, n, t)] + r.0;
                                assert(arts[0] == (k, n, t));
                                assert(arts.drop_first() =~= r.0);
                            },
                            None => {},
                        }
                    },
                }
            },
        }
    }
}

/// Withdrawing a payload deletes the scenario that applying it stored first:
/// its key `Scenario/{name}` and text are those of the first scenario among
/// the artifacts that applying the payload stores. Where applying reads every
/// document and stores no scenario, withdrawing finds none.
pub proof fn lemma_withdraw_undoes_apply(body: Seq<char>)
    ensures
        ({
            let docs = split_documents_spec(body);
            let (arts, failed) = stored_prefix(docs);
            match first_scenario(arts) {
                Some(ks) => withdraw_outcome(docs) == Ok::<Option<(Seq<char>, Seq<char>)>, ()>(
                    Some(ks),
                ),
                None => !failed ==> withdraw_outcome(docs) == Ok::<
                    Option<(Seq<char>, Seq<char>)>,
                    (),
                >(None),
            }
        }),
{
    lemma_withdraw_matches_stored(split_documents_spec(body));
}


/// The `kind` text of each artifact kind names that kind.
proof fn lemma_kind_text_names(k: ArtifactKind)
    ensures
        kind_of(kind_text(k)) == Some(k),
{
    reveal_strlit("Scenario");
    reveal_strlit("Package");
    reveal_strlit("Volume");
    reveal_strlit("Network");
    reveal_strlit("Node");
    reveal_strlit("Model");
    reveal_strlit("Schedule");
    assert("Package"@[0] != "Scenario"@[0]);
    assert("Network"@[0] != "Package"@[0]);
    assert("Schedule"@[2] != "Scenario"@[2]);
    assert("Scenario"@.len() == 8 && "Package"@.len() == 7 && "Volume"@.len() == 6);
    assert("Network"@.len() == 7 && "Node"@.len() == 4 && "Model"@.len() == 5);
    assert("Schedule"@.len() == 8);
}

/// Reading a document's kind and name agrees with reading it as its kind. A
/// document that reads as an artifact of kind `k` (as packages, models,
/// volumes and networks are read to build pods) and whose `kind` is that
/// kind's text is an artifact of that kind, named by its `metadata.name`;
/// and a document that is an artifact reads as the kind its `kind` names.
pub proof fn lemma_info_agrees_with_kind_reading(k: ArtifactKind, doc: Seq<char>)
    ensures
        (read_as(k, doc) is Ok && text(field(read_as(k, doc)->Ok_0, "kind"@)) == Some(kind_text(k)))
            ==> artifact_info(read_as(k, doc)->Ok_0) == Some(
            (kind_text(k), text(field2(read_as(k, doc)->Ok_0, "metadata"@, "name"@))->0),
        ),
        (yaml_parse(doc) is Some && text(field(yaml_parse(doc)->0, "kind"@)) == Some(kind_text(k))
            && artifact_info(yaml_parse(doc)->0) is Some) ==> read_as(k, doc) == Ok::<
            YamlV,
            Fault,
        >(yaml_parse(doc)->0),
{
    lemma_kind_text_names(k);
}

/// Reading a payload goes on over every document: the artifacts stored from
/// two runs of documents, one after the other, are those of the first run
/// followed by those of the second, unless a document of the first run ends
/// the reading.
pub proof fn lemma_stored_prefix_concat(a: Seq<Seq<char>>, b: Seq<Seq<char>>)
    ensures
        stored_prefix(a + b) == if stored_prefix(a).1 {
            stored_prefix(a)
        } else {
            (stored_prefix(a).0 + stored_prefix(b).0, stored_prefix(b).1)
        },
    decreases a.len(),
{
    if a.len() == 0 {
        assert(a + b =~= b);
        assert(Seq::<(Seq<char>, Seq<char>, Seq<char>)>::empty() + stored_prefix(b).0
            =~= stored_prefix(b).0);
    } else {
        let t = a.drop_first();
        lemma_stored_prefix_concat(t, b);
        assert((a + b).drop_first() =~= t + b);
        assert((a + b)[0] == a[0]);
        match read_document(a[0]) {
            None => {},
            Some(r) => match r {
                Some(x) => {
                    if !stored_prefix(t).1 {
                        assert(seq![x] + (stored_prefix(t).0 + stored_prefix(b).0) =~= (seq![x]
                            + stored_prefix(t).0) + stored_prefix(b).0);
                    }
                },
                None => {},
            },
        }
    }
}

/// A document that is YAML but no artifact (an empty document among them)
/// adds nothing and ends nothing: applying and withdrawing read on past it.
pub proof fn lemma_non_artifact_is_skipped(d: Seq<char>, rest: Seq<Seq<char>>)
    requires
        read_document(d) == Some(None::<(Seq<char>, Seq<char>, Seq<char>)>),
    ensures
        stored_prefix(seq![d] + rest) == stored_prefix(rest),
        withdraw_outcome(seq![d] + rest) == withdraw_outcome(rest),
{
    let docs = seq![d] + rest;
    assert(docs[0] == d);
    assert(docs.drop_first() =~= rest);
}

/// Why a stored document could not be read as the artifact it should be.
#[derive(Debug)]
pub enum DocumentError {
    /// The text is no YAML document, or the result cannot be written out.
    Yaml(serde_yaml::Error),
    /// The document lacks a field that its kind requires.
    Invalid,
}

/// The kinds of `DocumentError`.
#[derive(Clone, Copy, Debug, PartialEq, Eq)]
pub enum Fault {
    NotYaml,
    Invalid,
}

/// Whether an outcome failed with an error of the given kind.
pub open spec fn fails_with<T>(res: Result<T, DocumentError>, f: Fault) -> bool {
    match f {
        Fault::NotYaml => res matches Err(DocumentError::Yaml(_)),
        Fault::Invalid => res matches Err(DocumentError::Invalid),
    }
}

/// What reading a document as an artifact of kind `k` gives: its value, or
/// the kind of error: the text is no YAML document, or it lacks a field of
/// that kind.
pub open spec fn read_as(k: ArtifactKind, doc: Seq<char>) -> Result<YamlV, Fault> {
    match yaml_parse(doc) {
        None => Err(Fault::NotYaml),
        Some(v) => if schema_ok(k, v) {
            Ok(v)
        } else {
            Err(Fault::Invalid)
        },
    }
}

/// Reads a document as an artifact of kind `k`.
fn read_artifact(k: ArtifactKind, doc: &str) -> (res: Result<Yaml, DocumentError>)
    ensures
        match read_as(k, doc@) {
            Ok(v) => res matches Ok(y) && yaml_view(y) == v,
            Err(f) => fails_with(res, f),
        },
{
    let v = match read_yaml(doc) {
        Ok(v) => v,
        Err(e) => {
            return Err(DocumentError::Yaml(e));
        },
    };
    if schema_check(k, &v) {
        Ok(v)
    } else {
        Err(DocumentError::Invalid)
    }
}

/// The store keys a pod of a listed model is built from.
pub struct PodSources {
    /// `Model/{name}`.
    pub model_key: String,
    /// `Volume/{volume}`, where the model has a volume resource.
    pub volume_key: Option<String>,
    /// `Network/{network}`, where the model has a network resource.
    pub network_key: Option<String>,
}

/// The model entries a package lists.
pub open spec fn package_models(v: YamlV) -> Seq<YamlV> {
    list_items(field2(v, "spec"@, "models"@))->0
}

/// The store keys of a model entry of a package and of its resources.
pub open spec fn pod_sources_of(m: YamlV) -> (Seq<char>, Option<Seq<char>>, Option<Seq<char>>) {
    (
        "Model/"@ + text(field(m, "name"@))->0,
        match text(field2(m, "resources"@, "volume"@)) {
            Some(v) => Some("Volume/"@ + v),
            None => None,
        },
        match text(field2(m, "resources"@, "network"@)) {
            Some(n) => Some("Network/"@ + n),
            None => None,
        },
    )
}

/// The text fields of pod sources.
pub open spec fn pod_sources_view(p: PodSources) -> (Seq<char>, Option<Seq<char>>, Option<Seq<char>>) {
    (p.model_key@, opt_view(p.volume_key), opt_view(p.network_key))
}

/// `{kind}/{name}` for an optional name.
fn optional_key(kind: &str, name: Option<&str>) -> (key: Option<String>)
    ensures
        opt_view(key) == match name {
            Some(n) => Some(kind@ + "/"@ + n@),
            None => None,
        },
{
    match name {
        Some(n) => Some(artifact_key(kind, n)),
        None => None,
    }
}

/// The store keys of the models a package lists, and of their volume and
/// network resources, in the package's order; fails where the package text
/// is no YAML document or no package.
pub fn pod_sources(package_text: &str) -> (res: Result<Vec<PodSources>, DocumentError>)
    ensures
        match read_as(ArtifactKind::Package, package_text@) {
            Ok(v) => res matches Ok(out) && out@.map_values(|p: PodSources| pod_sources_view(p))
                == package_models(v).map_values(|m: YamlV| pod_sources_of(m)),
            Err(f) => fails_with(res, f),
        },
{
    let package = match read_artifact(ArtifactKind::Package, package_text) {
        Ok(p) => p,
        Err(e) => {
            return Err(e);
        },
    };
    let ghost pv = yaml_view(package);
    let items = match get_in(get(&package, "spec"), "models") {
        Some(Yaml::List(items)) => items,
        _ => {
            return Err(DocumentError::Invalid);
        },
    };
    let ghost lv = list_view(items@);
    proof {
        lemma_list_view(items@);
        assert(package_models(pv) == lv);
    }
    let mut out: Vec<PodSources> = Vec::new();
    let mut i: usize = 0;
    while i < items.len()
        invariant
            0 <= i <= items@.len(),
            lv == list_view(items@),
            lv.len() == items@.len(),
            forall|j: int| 0 <= j < items@.len() ==> #[trigger] lv[j] == yaml_view(items@[j]),
            forall|j: int| 0 <= j < lv.len() ==> model_entry_ok(#[trigger] lv[j]),
            out@.map_values(|p: PodSources| pod_sources_view(p)) == lv.take(i as int).map_values(
                |m: YamlV| pod_sources_of(m),
            ),
        decreases items@.len() - i,
    {
        let m = &items[i];
        assert(model_entry_ok(lv[i as int]));
        let name = match as_text(get(m, "name")) {
            Some(n) => n,
            None => {
                return Err(DocumentError::Invalid);
            },
        };
        let resources = get(m, "resources");
        let model_key = artifact_key("Model", name);
        let volume_key = optional_key("Volume", as_text(get_in(resources, "volume")));
        let network_key = optional_key("Network", as_text(get_in(resources, "network")));
        let ghost before = out@.map_values(|p: PodSources| pod_sources_view(p));
        let src = PodSources { model_key, volume_key, network_key };
        proof {
            reveal_strlit("Model");
            reveal_strlit("Volume");
            reveal_strlit("Network");
            reveal_strlit("/");
            reveal_strlit("Model/");
            reveal_strlit("Volume/");
            reveal_strlit("Network/");
            assert("Model"@ + "/"@ =~= "Model/"@);
            assert("Volume"@ + "/"@ =~= "Volume/"@);
            assert("Network"@ + "/"@ =~= "Network/"@);
            assert(pod_sources_view(src) == pod_sources_of(lv[i as int]));
        }
        out.push(src);
        proof {
            assert(out@.map_values(|p: PodSources| pod_sources_view(p)) =~= before.push(
                pod_sources_of(lv[i as int]),
            ));
            assert(lv.take(i + 1).map_values(|m: YamlV| pod_sources_of(m)) =~= lv.take(
                i as int,
            ).map_values(|m: YamlV| pod_sources_of(m)).push(pod_sources_of(lv[i as int])));
        }
        i = i + 1;
    }
    assert(lv.take(items@.len() as int) =~= lv);
    Ok(out)
}

/// The value of an optional tree.
pub open spec fn opt_tree(o: Option<Yaml>) -> Option<YamlV> {
    match o {
        Some(y) => Some(yaml_view(y)),
        None => None,
    }
}

/// The pod of a model: the model with the `spec.volumes` of its pod spec set
/// to the `spec.volume` list of its volume (null where the volume's spec has
/// none), where it has a volume whose spec is a mapping.
pub open spec fn pod_of(model: YamlV, volume: Option<YamlV>) -> YamlV {
    match volume {
        Some(vol) => match field(vol, "spec"@) {
            Some(sp) => if sp is Mapping {
                with_nested(
                    model,
                    "spec"@,
                    "volumes"@,
                    match field(sp, "volume"@) {
                        Some(x) => x,
                        None => YamlV::Null,
                    },
                )
            } else {
                model
            },
            None => model,
        },
        None => model,
    }
}

/// Builds the pod of a model with its volume.
pub fn build_pod(model: Yaml, volume: Option<Yaml>) -> (pod: Yaml)
    ensures
        yaml_view(pod) == pod_of(yaml_view(model), opt_tree(volume)),
{
    match volume {
        None => model,
        Some(vol) => match take_field(vol, "spec") {
            Some(sp) => {
                let is_map = match &sp {
                    Yaml::Mapping(_) => true,
                    _ => false,
                };
                if is_map {
                    let list = match take_field(sp, "volume") {
                        Some(x) => x,
                        None => Yaml::Null,
                    };
                    set_nested(model, "spec", "volumes", list)
                } else {
                    model
                }
            },
            None => model,
        },
    }
}

/// What building and writing out the pod of a model gives: the model is
/// read first, then its volume and its network where given (the network
/// only to check it); then the pod is written out. Its name is the model's
/// `metadata.name`.
pub open spec fn pod_outcome(
    model_text: Seq<char>,
    volume_text: Option<Seq<char>>,
    network_text: Option<Seq<char>>,
) -> Result<(Seq<char>, Seq<char>), Fault> {
    match read_as(ArtifactKind::Model, model_text) {
        Err(f) => Err(f),
        Ok(m) => {
            let vol: Result<Option<YamlV>, Fault> = match volume_text {
                None => Ok(None),
                Some(t) => match read_as(ArtifactKind::Volume, t) {
                    Err(f) => Err(f),
                    Ok(v) => Ok(Some(v)),
                },
            };
            let net: Result<(), Fault> = match network_text {
                None => Ok(()),
                Some(t) => match read_as(ArtifactKind::Network, t) {
                    Err(f) => Err(f),
                    Ok(_) => Ok(()),
                },
            };
            match vol {
                Err(f) => Err(f),
                Ok(vo) => match net {
                    Err(f) => Err(f),
                    Ok(_) => match yaml_emit(pod_of(m, vo)) {
                        None => Err(Fault::NotYaml),
                        Some(t) => Ok((text(field2(m, "metadata"@, "name"@))->0, t)),
                    },
                },
            }
        },
    }
}

/// The text of an optional string slice.
pub open spec fn opt_str(o: Option<&str>) -> Option<Seq<char>> {
    match o {
        Some(s) => Some(s@),
        None => None,
    }
}

/// The pod built from a model's YAML text, with the volumes of its volume
/// resource where it has one: its name and YAML text.
pub fn load_model_with_resources(model_text: &str, volume_text: Option<&str>, network_text: Option<
    &str,
>) -> (res: Result<(String, String), DocumentError>)
    ensures
        match pod_outcome(model_text@, opt_str(volume_text), opt_str(network_text)) {
            Ok((n, t)) => res matches Ok((rn, rt)) && rn@ == n && rt@ == t,
            Err(f) => fails_with(res, f),
        },
{
    let model = match read_artifact(ArtifactKind::Model, model_text) {
        Ok(m) => m,
        Err(e) => {
            return Err(e);
        },
    };
    let volume: Option<Yaml> = match volume_text {
        Some(t) => match read_artifact(ArtifactKind::Volume, t) {
            Ok(v) => Some(v),
            Err(e) => {
                return Err(e);
            },
        },
        None => None,
    };
    match network_text {
        Some(t) => match read_artifact(ArtifactKind::Network, t) {
            Ok(_) => {},
            Err(e) => {
                return Err(e);
            },
        },
        None => {},
    }
    let name = match get_in(get(&model, "metadata"), "name") {
        Some(Yaml::Text(n)) => string_of(n.as_str()),
        _ => {
            return Err(DocumentError::Invalid);
        },
    };
    let pod = build_pod(model, volume);
    match write_yaml(&pod) {
        Ok(t) => Ok((name, t)),
        Err(e) => Err(DocumentError::Yaml(e)),
    }
}

} // verus!
