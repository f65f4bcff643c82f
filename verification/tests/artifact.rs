use pullpiri::artifact::{
    artifact_key, check_signature_bytes, classify_kind, load_model_with_resources,
    pod_sources, process_document, read_payload, scenario_init_change,
    sha256_bytes,
    split_documents, trim, verify_yaml_signature_with_key, withdraw_document, withdraw_key,
    ApplyFailure, ApplyState, ArtifactError, ArtifactKind, DocumentError, SignatureError,
    WithdrawError,
    RESOURCE_TYPE_SCENARIO,
};
use pullpiri::sha256::hmac_sha256_bytes;

fn hex(bytes: &[u8]) -> String {
    bytes.iter().map(|b| format!("{:02x}", b)).collect()
}

/// The kind and name of a YAML document, read as the API server reads it.
fn info_of(yaml: &str) -> Option<(String, String)> {
    process_document(yaml).unwrap().map(|(k, n, _)| (k, n))
}

// -- verify_yaml_signature() tests --

#[test]
fn test_verify_yaml_signature_no_key_no_sig_passes() {
    let result = verify_yaml_signature_with_key(None, "some body content", None);
    assert!(result.is_ok());
}

#[test]
fn test_verify_yaml_signature_no_key_with_sig_passes() {
    let result = verify_yaml_signature_with_key(None, "body", Some("some-sig"));
    assert!(result.is_ok());
}

#[test]
fn test_verify_yaml_signature_key_set_no_sig_fails() {
    let result = verify_yaml_signature_with_key(Some("my-secret-key"), "body", None);
    assert!(result.is_err());
    assert!(matches!(result, Err(SignatureError::MissingSignature)));
}

#[test]
fn test_verify_yaml_signature_key_set_invalid_base64_sig_fails() {
    let result =
        verify_yaml_signature_with_key(Some("my-secret-key"), "body", Some("not!!valid??base64"));
    assert!(result.is_err());
    assert!(matches!(result, Err(SignatureError::InvalidBase64(_))));
}

#[test]
fn test_verify_yaml_signature_key_set_wrong_sig_fails() {
    let result = verify_yaml_signature_with_key(
        Some("my-secret-key"),
        "body",
        Some("AAAAAAAAAAAAAAAAAAAAAAAAAAAAAAAAAAAAAAAAAAA="),
    );
    assert!(result.is_err());
    assert!(matches!(result, Err(SignatureError::InvalidSignature)));
}

#[test]
fn test_verify_yaml_signature_correct_hmac_passes() {
    let key = "test-key";
    let body = "test body content";
    let key_bytes = key.as_bytes();
    let body_bytes = body.as_bytes();
    const BLOCK_SIZE: usize = 64;
    let mut k = [0u8; BLOCK_SIZE];
    k[..key_bytes.len()].copy_from_slice(key_bytes);
    let mut ipad = [0u8; BLOCK_SIZE];
    let mut opad = [0u8; BLOCK_SIZE];
    for i in 0..BLOCK_SIZE {
        ipad[i] = k[i] ^ 0x36;
        opad[i] = k[i] ^ 0x5c;
    }
    let mut inner_input = Vec::with_capacity(BLOCK_SIZE + body_bytes.len());
    inner_input.extend_from_slice(&ipad);
    inner_input.extend_from_slice(body_bytes);
    let inner_hash = sha256_bytes(&inner_input);
    let mut outer_input = Vec::with_capacity(BLOCK_SIZE + 32);
    outer_input.extend_from_slice(&opad);
    outer_input.extend_from_slice(&inner_hash);
    let expected_sig = sha256_bytes(&outer_input);
    let valid_b64 =
        base64::Engine::encode(&base64::engine::general_purpose::STANDARD, expected_sig);

    let result = verify_yaml_signature_with_key(Some(key), body, Some(&valid_b64));
    assert!(result.is_ok(), "Valid signature should pass verification");
}

#[test]
fn signature_with_surrounding_whitespace_passes() {
    let sig = hmac_sha256_bytes(b"k", b"payload");
    let b64 = base64::Engine::encode(&base64::engine::general_purpose::STANDARD, sig);
    let padded = format!("  {}\n", b64);
    assert!(verify_yaml_signature_with_key(Some("k"), "payload", Some(&padded)).is_ok());
    // The same signature does not sign another body.
    assert!(matches!(
        verify_yaml_signature_with_key(Some("k"), "payload!", Some(&padded)),
        Err(SignatureError::InvalidSignature)
    ));
}

#[test]
fn short_signature_is_length_mismatch() {
    let b64 = base64::Engine::encode(&base64::engine::general_purpose::STANDARD, [1u8, 2, 3]);
    assert!(matches!(
        verify_yaml_signature_with_key(Some("k"), "payload", Some(&b64)),
        Err(SignatureError::LengthMismatch)
    ));
}

#[test]
fn long_key_is_hashed_first() {
    let key = "k".repeat(100);
    let sig = hmac_sha256_bytes(key.as_bytes(), b"body");
    let b64 = base64::Engine::encode(&base64::engine::general_purpose::STANDARD, sig);
    assert!(verify_yaml_signature_with_key(Some(&key), "body", Some(&b64)).is_ok());
}

// -- SHA-256 and HMAC --

#[test]
fn test_sha256_basic() {
    let result = sha256_bytes(b"hello");
    assert_eq!(result.len(), 32);
    // SHA-256("hello") should be deterministic
    let result2 = sha256_bytes(b"hello");
    assert_eq!(result, result2);
    // Different input -> different hash
    let result3 = sha256_bytes(b"world");
    assert_ne!(result, result3);
}

#[test]
fn test_sha256_empty_input() {
    let result = sha256_bytes(b"");
    assert_eq!(result.len(), 32);
}

#[test]
fn test_sha256_long_input() {
    // Input longer than one 64-byte block to exercise multi-block path
    let long_input = vec![0xabu8; 200];
    let result = sha256_bytes(&long_input);
    assert_eq!(result.len(), 32);
}

#[test]
fn sha256_known_answers() {
    assert_eq!(
        hex(&sha256_bytes(b"")),
        "e3b0c44298fc1c149afbf4c8996fb92427ae41e4649b934ca495991b7852b855"
    );
    assert_eq!(
        hex(&sha256_bytes(b"abc")),
        "ba7816bf8f01cfea414140de5dae2223b00361a396177a9cb410ff61f20015ad"
    );
    assert_eq!(
        hex(&sha256_bytes(
            b"abcdbcdecdefdefgefghfghighijhijkijkljklmklmnlmnomnopnopq"
        )),
        "248d6a61d20638b8e5c026930c3e6039a33ce45964ff2167f6ecedd419db06c1"
    );
    assert_eq!(
        hex(&sha256_bytes(b"hello")),
        "2cf24dba5fb0a30e26e83b2ac5b9e29e1b161e5c1fa7425e73043362938b9824"
    );
}

#[test]
fn sha256_padding_boundaries() {
    // 55, 56 and 64 bytes straddle the one-block padding limit.
    assert_eq!(
        hex(&sha256_bytes(&[b'a'; 55])),
        "9f4390f8d30c2dd92ec9f095b65e2b9ae9b0a925a5258e241c9f1e910f734318"
    );
    assert_eq!(
        hex(&sha256_bytes(&[b'a'; 56])),
        "b35439a4ac6f0948b6d6f9e3c6af0f5f590ce20f1bde7090ef7970686ec6738a"
    );
    assert_eq!(
        hex(&sha256_bytes(&[b'a'; 64])),
        "ffe054fe7ae0cb6dc65c3af9b61d5209f439851db43d0ba5997337df154668eb"
    );
}

#[test]
fn hmac_rfc4231_case_two() {
    assert_eq!(
        hex(&hmac_sha256_bytes(b"Jefe", b"what do ya want for nothing?")),
        "5bdcc146bf60754e6a042426089575c75a003f089d2739839dec58b964ec3843"
    );
}

#[test]
fn hmac_rfc4231_long_key() {
    let key = [0xaau8; 131];
    assert_eq!(
        hex(&hmac_sha256_bytes(
            &key,
            b"Test Using Larger Than Block-Size Key - Hash Key First"
        )),
        "60e431591ee0b67f0d8a26aacbf5b77f8e0bc6213728c5140546040f0ee37f54"
    );
}

// -- parse_artifact_info() tests --

#[test]
fn test_parse_artifact_info_scenario() {
    let yaml = r#"
apiVersion: v1
kind: Scenario
metadata:
  name: my-scenario
spec:
  condition:
    express: eq
    value: "true"
    operands:
      type: DDS
      name: value
      value: ADASObstacleDetectionIsWarning
  action: update
  target: my-scenario
"#;
    let result = info_of(yaml);
    assert!(result.is_some());
    let (kind, name) = result.unwrap();
    assert_eq!(kind, "Scenario");
    assert_eq!(name, "my-scenario");
}

#[test]
fn test_parse_artifact_info_unknown_kind() {
    let yaml = "kind: UnknownKind\nmetadata:\n  name: test\n";
    let result = info_of(yaml);
    assert!(result.is_none());
}

#[test]
fn test_parse_artifact_info_no_kind() {
    let yaml = "metadata:\n  name: test\n";
    let result = info_of(yaml);
    assert!(result.is_none());
}

#[test]
fn test_parse_artifact_info_volume() {
    let yaml = r#"
apiVersion: v1
kind: Volume
metadata:
  name: test-volume
spec:
  type: hostpath
  path: /tmp/test
"#;
    let result = info_of(yaml);
    let _ = result;
}

#[test]
fn test_parse_artifact_info_network() {
    let yaml = r#"
apiVersion: v1
kind: Network
metadata:
  name: test-network
spec:
  type: bridge
"#;
    let result = info_of(yaml);
    let _ = result;
}

#[test]
fn test_parse_artifact_info_node() {
    let yaml = r#"
apiVersion: v1
kind: Node
metadata:
  name: test-node
spec:
  hostname: test-host
"#;
    let result = info_of(yaml);
    let _ = result;
}

#[test]
fn test_parse_artifact_info_model() {
    let yaml = r#"
apiVersion: v1
kind: Model
metadata:
  name: test-model
spec:
  containers:
    - name: app
      image: nginx:latest
"#;
    let result = info_of(yaml);
    let _ = result;
}

#[test]
fn test_parse_artifact_info_schedule() {
    let yaml = r#"
apiVersion: v1
kind: Schedule
metadata:
  name: test-schedule
spec:
  cron: "* * * * *"
"#;
    let result = info_of(yaml);
    let _ = result;
}

#[test]
fn artifact_info_needs_known_kind_and_fields() {
    let package = "apiVersion: v1\nkind: Package\nmetadata:\n  name: p\nspec:\n  pattern:\n    - type: plain\n  models: []\n";
    assert_eq!(info_of(package), Some(("Package".to_string(), "p".to_string())));
    assert_eq!(info_of(&package.replace("kind: Package", "kind: package")), None);
    assert_eq!(info_of(&package.replace("  name: p\n", "")), None);
    assert_eq!(info_of(&package.replace("apiVersion: v1\n", "")), None);
    assert_eq!(info_of(&package.replace("  models: []\n", "")), None);
    let volume = "apiVersion: v1\nkind: Volume\nmetadata:\n  name: v\n";
    assert_eq!(info_of(volume), Some(("Volume".to_string(), "v".to_string())));
    assert_eq!(info_of(&format!("{volume}spec: [1]\n")), None);
    let node = "apiVersion: v1\nkind: Node\nmetadata:\n  name: n\n";
    assert_eq!(info_of(node), Some(("Node".to_string(), "n".to_string())));
    assert_eq!(info_of("apiVersion: v1\nkind: Node\nmetadata:\n  name: 7\n"), None);
}

#[test]
fn kinds_round_trip() {
    for k in [
        ArtifactKind::Scenario,
        ArtifactKind::Package,
        ArtifactKind::Volume,
        ArtifactKind::Network,
        ArtifactKind::Node,
        ArtifactKind::Model,
        ArtifactKind::Schedule,
    ] {
        assert_eq!(classify_kind(k.as_str()), Some(k));
    }
    assert_eq!(classify_kind("Pod"), None);
}

// -- documents, apply and withdraw --

#[test]
fn split_like_str_split() {
    for body in ["", "---", "a---b", "a----b", "---a---", "x\n---\ny\n---\nz", "--", "-"] {
        let expected: Vec<String> = body.split("---").map(|s| s.to_string()).collect();
        assert_eq!(split_documents(body), expected, "body {:?}", body);
    }
}

#[test]
fn keys() {
    assert_eq!(artifact_key("Model", "helloworld-core"), "Model/helloworld-core");
    assert_eq!(artifact_key("Pod", "p"), "Pod/p");
}

#[test]
fn apply_needs_scenario_and_package() {
    let mut s = ApplyState::new();
    s.record("Model", "m".to_string());
    s.record("Package", "p1".to_string());
    assert_eq!(s.finish().err(), Some(ArtifactError::NoScenario));

    let mut s = ApplyState::new();
    s.record("Scenario", "s".to_string());
    assert_eq!(s.finish().err(), Some(ArtifactError::NoPackage));

    let mut s = ApplyState::new();
    s.record("Scenario", "s1".to_string());
    s.record("Package", "p1".to_string());
    s.record("Scenario", "s2".to_string());
    assert_eq!(s.finish().ok(), Some(("s2".to_string(), "p1".to_string())));

    assert_eq!(
        ArtifactError::NoScenario.message(),
        "There is not any scenario in yaml string"
    );
    assert_eq!(
        ArtifactError::NoPackage.message(),
        "There is not any package in yaml string"
    );
}

#[test]
fn withdraw_only_scenarios() {
    assert_eq!(
        withdraw_key(&Some(("Scenario".to_string(), "hello".to_string()))),
        Some("Scenario/hello".to_string())
    );
    assert_eq!(
        withdraw_key(&Some(("Package".to_string(), "hello".to_string()))),
        None
    );
    assert_eq!(withdraw_key(&None), None);
}

#[test]
fn scenario_state_change() {
    let c = scenario_init_change("helloworld", "idle", 1234);
    assert_eq!(c.resource_type, RESOURCE_TYPE_SCENARIO);
    assert_eq!(c.resource_name, "helloworld");
    assert_eq!(c.current_state, "");
    assert_eq!(c.target_state, "idle");
    assert_eq!(c.transition_id, "apiserver-scenario-init-1234");
    assert_eq!(c.timestamp_ns, 1234);
    assert_eq!(c.source, "apiserver");
    assert_eq!(
        scenario_init_change("s", "t", -5).transition_id,
        "apiserver-scenario-init--5"
    );
}

#[test]
fn split_then_join_gives_back_the_payload() {
    for body in ["", "a---b", "---x------", "apiVersion: v1\n---\nkind: Package\n"] {
        assert_eq!(split_documents(body).join("---"), body);
    }
}

const TWO_DOC_PAYLOAD: &str = "
apiVersion: v1
kind: Scenario
metadata:
  name: helloworld
spec:
  action: update
  target: helloworld
---
apiVersion: v1
kind: Package
metadata:
  label: null
  name: helloworld
spec:
  pattern:
    - type: plain
  models:
    - name: helloworld-core
      node: HPC
      resources:
        volume:
        network:
";

const MODEL_YAML: &str = "
apiVersion: v1
kind: Model
metadata:
  name: helloworld-core
spec:
  hostNetwork: true
  containers:
    - name: helloworld
      image: helloworld:latest
";

fn scenario(name: &str) -> String {
    format!("apiVersion: v1\nkind: Scenario\nmetadata:\n  name: {name}\nspec:\n  action: update\n  target: {name}\n")
}

fn package(name: &str) -> String {
    format!("apiVersion: v1\nkind: Package\nmetadata:\n  name: {name}\nspec:\n  pattern:\n    - type: plain\n  models:\n    - name: m\n      node: HPC\n      resources: {{}}\n")
}

fn written_back(doc: &str) -> String {
    let value: serde_yaml::Value = serde_yaml::from_str(doc).unwrap();
    serde_yaml::to_string(&value).unwrap()
}

#[test]
fn trim_drops_surrounding_whitespace() {
    assert_eq!(trim("  abc \n\t"), "abc");
    assert_eq!(trim("a b"), "a b");
    assert_eq!(trim(" \r\n"), "");
    assert_eq!(trim(""), "");
}

#[test]
fn signature_bytes_are_checked_exactly() {
    let key = b"test-key";
    let body = b"test body content";
    let good = hmac_sha256_bytes(key, body).to_vec();
    assert!(check_signature_bytes(&good, key, body).is_ok());
    let mut flipped = good.clone();
    flipped[31] ^= 1;
    assert!(matches!(
        check_signature_bytes(&flipped, key, body),
        Err(SignatureError::InvalidSignature)
    ));
    assert!(matches!(
        check_signature_bytes(&good[..31].to_vec(), key, body),
        Err(SignatureError::LengthMismatch)
    ));
    assert!(matches!(
        check_signature_bytes(&Vec::new(), key, body),
        Err(SignatureError::LengthMismatch)
    ));
}

#[test]
fn process_document_reads_kind_name_and_text() {
    let docs = split_documents(TWO_DOC_PAYLOAD);
    let (kind, name, text) = process_document(&docs[0]).unwrap().unwrap();
    assert_eq!(kind, "Scenario");
    assert_eq!(name, "helloworld");
    assert_eq!(text, written_back(&docs[0]));
    let (kind, name, text) = process_document(&docs[1]).unwrap().unwrap();
    assert_eq!(kind, "Package");
    assert_eq!(name, "helloworld");
    assert_eq!(text, written_back(&docs[1]));
}

#[test]
fn process_document_skips_unknown_and_invalid_and_fails_on_bad_yaml() {
    assert!(process_document("kind: UnknownKind\nmetadata:\n  name: test\n")
        .unwrap()
        .is_none());
    assert!(process_document("kind: Scenario\n").unwrap().is_none());
    let no_action = scenario("s").replace("  action: update\n", "");
    assert!(process_document(&no_action).unwrap().is_none());
    let no_target = scenario("s").replace("  target: s\n", "");
    assert!(process_document(&no_target).unwrap().is_none());
    let bad_condition = format!("{}  condition: [1]\n", scenario("s"));
    assert!(process_document(&bad_condition).unwrap().is_none());
    let null_condition = format!("{}  condition:\n", scenario("s"));
    assert!(process_document(&null_condition).unwrap().is_some());
    assert!(!matches!(process_document(""), Ok(Some(_))));
    assert!(process_document("a: [1, 2\n").is_err());
}

#[test]
fn withdraw_document_takes_the_first_scenario() {
    let (key, text) = withdraw_document(TWO_DOC_PAYLOAD).unwrap();
    assert_eq!(key, "Scenario/helloworld");
    assert_eq!(text, written_back(&split_documents(TWO_DOC_PAYLOAD)[0]));
    let two = format!("{}---\n{}", scenario("first"), scenario("second"));
    assert_eq!(withdraw_document(&two).unwrap().0, "Scenario/first");
    let invalid_first = format!(
        "{}---\n{}",
        scenario("first").replace("  action: update\n", ""),
        scenario("second")
    );
    assert_eq!(withdraw_document(&invalid_first).unwrap().0, "Scenario/second");
}

#[test]
fn withdraw_document_errors() {
    assert!(matches!(
        withdraw_document("kind: Unknown\nmetadata:\n  name: helloworld\n"),
        Err(WithdrawError::NoScenario)
    ));
    assert!(withdraw_document("").is_err());
    assert!(matches!(
        withdraw_document(&format!("a: [1\n---\n{}", scenario("s"))),
        Err(WithdrawError::Yaml(_))
    ));
    assert_eq!(
        withdraw_document(&format!("{}---\na: [1\n", scenario("s")))
            .unwrap()
            .0,
        "Scenario/s"
    );
}

#[test]
fn pod_sources_lists_model_keys() {
    let docs = split_documents(TWO_DOC_PAYLOAD);
    let srcs = pod_sources(&docs[1]).unwrap();
    assert_eq!(srcs.len(), 1);
    assert_eq!(srcs[0].model_key, "Model/helloworld-core");
    assert_eq!(srcs[0].volume_key, None);
    assert_eq!(srcs[0].network_key, None);
    let pkg = "apiVersion: v1\nkind: Package\nmetadata:\n  name: p\nspec:\n  pattern:\n    - type: plain\n  models:\n    - name: m1\n      node: HPC\n      resources:\n        volume: vol1\n        network: net1\n    - name: m2\n      node: HPC\n      resources: {}\n";
    let srcs = pod_sources(pkg).unwrap();
    assert_eq!(srcs.len(), 2);
    assert_eq!(srcs[0].model_key, "Model/m1");
    assert_eq!(srcs[0].volume_key.as_deref(), Some("Volume/vol1"));
    assert_eq!(srcs[0].network_key.as_deref(), Some("Network/net1"));
    assert_eq!(srcs[1].model_key, "Model/m2");
    assert_eq!(srcs[1].volume_key, None);
    assert!(matches!(pod_sources("a: [1\n"), Err(DocumentError::Yaml(_))));
    let no_node = pkg.replace("      node: HPC\n", "");
    assert!(matches!(pod_sources(&no_node), Err(DocumentError::Invalid)));
    let list_volume = pkg.replace("volume: vol1", "volume: []");
    assert!(matches!(pod_sources(&list_volume), Err(DocumentError::Invalid)));
}

#[test]
fn model_with_resources_merges_volumes() {
    let (name, text) = load_model_with_resources(MODEL_YAML, None, None).unwrap();
    assert_eq!(name, "helloworld-core");
    assert_eq!(text, written_back(MODEL_YAML));

    let volume = "apiVersion: v1\nkind: Volume\nmetadata:\n  name: vol1\nspec:\n  volume:\n    - name: data\n      hostPath:\n        path: /tmp/data\n";
    let network = "apiVersion: v1\nkind: Network\nmetadata:\n  name: net1\n";
    let (name, text) =
        load_model_with_resources(MODEL_YAML, Some(volume), Some(network)).unwrap();
    assert_eq!(name, "helloworld-core");
    let pod: serde_yaml::Value = serde_yaml::from_str(&text).unwrap();
    let vols = pod["spec"]["volumes"].as_sequence().unwrap();
    assert_eq!(vols.len(), 1);
    assert_eq!(vols[0]["hostPath"]["path"].as_str(), Some("/tmp/data"));
    assert_eq!(pod["spec"]["hostNetwork"].as_bool(), Some(true));
    assert_eq!(pod["spec"]["containers"][0]["image"].as_str(), Some("helloworld:latest"));

    let no_spec_volume = "apiVersion: v1\nkind: Volume\nmetadata:\n  name: vol1\n";
    let (_, text) = load_model_with_resources(MODEL_YAML, Some(no_spec_volume), None).unwrap();
    assert_eq!(text, written_back(MODEL_YAML));

    assert!(matches!(
        load_model_with_resources(MODEL_YAML, Some("a: [1\n"), None),
        Err(DocumentError::Yaml(_))
    ));
    assert!(matches!(
        load_model_with_resources(MODEL_YAML, None, Some("a: [1\n")),
        Err(DocumentError::Yaml(_))
    ));
    assert!(matches!(
        load_model_with_resources(MODEL_YAML, None, Some("kind: Network\n")),
        Err(DocumentError::Invalid)
    ));
    assert!(matches!(
        load_model_with_resources("a: [1\n", None, None),
        Err(DocumentError::Yaml(_))
    ));
    let no_image = MODEL_YAML.replace("      image: helloworld:latest\n", "");
    assert!(matches!(
        load_model_with_resources(&no_image, None, None),
        Err(DocumentError::Invalid)
    ));
}

/// Valid artifact YAML (Scenario + Package)
const VALID_ARTIFACT_YAML: &str = r#"
apiVersion: v1
kind: Scenario
metadata:
  name: helloworld
spec:
  condition:
    express: eq
    value: "true"
    operands:
      type: DDS
      name: value
      value: ADASObstacleDetectionIsWarning
  action: update
  target: helloworld
---
apiVersion: v1
kind: Package
metadata:
  label: null
  name: helloworld
spec:
  pattern:
    - type: plain
  models:
    - name: helloworld-core
      node: HPC
      resources:
        volume:
        network:
"#;

/// Invalid YAML — missing `action` in Scenario
const INVALID_YAML_MISSING_ACTION: &str = r#"
apiVersion: v1
kind: Scenario
metadata:
  name: helloworld
spec:
  condition:
  target: helloworld
---
apiVersion: v1
kind: Package
metadata:
  name: helloworld
spec:
  pattern:
    - type: plain
  models:
    - name: helloworld-core
      node: HPC
      resources:
        volume: []
        network: []
"#;

/// Only an unknown artifact
const INVALID_YAML_UNKNOWN_ARTIFACT: &str = r#"
apiVersion: v1
kind: Unknown
metadata:
  name: helloworld
spec:
  dummy: value
"#;

const INVALID_YAML_EMPTY: &str = "";

/// Valid Model YAML for helloworld-core (required by Package)
const VALID_MODEL_YAML: &str = r#"
apiVersion: v1
kind: Model
metadata:
  name: helloworld-core
  annotations:
    io.piccolo.annotations.package-type: helloworld-core
    io.piccolo.annotations.package-name: helloworld
    io.piccolo.annotations.package-network: default
  labels:
    app: helloworld-core
spec:
  hostNetwork: true
  containers:
    - name: helloworld
      image: helloworld:latest
  terminationGracePeriodSeconds: 0
"#;

#[test]
fn test_apply_valid_artifact() {
    let model_str = written_back(VALID_MODEL_YAML);
    let plan = read_payload(VALID_ARTIFACT_YAML);
    let keys: Vec<String> = plan
        .stored
        .iter()
        .map(|(k, n, _)| artifact_key(k, n))
        .collect();
    assert_eq!(keys, vec!["Scenario/helloworld", "Package/helloworld"]);
    let (scenario, package) = plan.outcome.unwrap();
    assert!(!scenario.is_empty(), "Scenario YAML should not be empty");
    assert_eq!(scenario, plan.stored[0].2);
    assert_eq!(package, plan.stored[1].2);

    let srcs = pod_sources(&package).unwrap();
    assert_eq!(srcs.len(), 1);
    assert_eq!(srcs[0].model_key, "Model/helloworld-core");
    let (pod_name, pod_yaml) = load_model_with_resources(&model_str, None, None).unwrap();
    assert_eq!(artifact_key("Pod", &pod_name), "Pod/helloworld-core");
    assert!(!pod_yaml.is_empty());
}

#[test]
fn test_apply_invalid_missing_action() {
    let plan = read_payload(INVALID_YAML_MISSING_ACTION);
    assert!(
        plan.outcome.is_err(),
        "apply() unexpectedly succeeded with missing action"
    );
    assert!(plan.stored.is_empty());
}

#[test]
fn test_apply_invalid_unknown_artifact() {
    let plan = read_payload(INVALID_YAML_UNKNOWN_ARTIFACT);
    assert!(plan.stored.is_empty());
    assert!(
        matches!(
            plan.outcome,
            Err(ApplyFailure::Missing(ArtifactError::NoScenario))
        ),
        "apply() unexpectedly succeeded with unknown artifact only"
    );
}

#[test]
fn test_apply_invalid_empty_yaml() {
    let plan = read_payload(INVALID_YAML_EMPTY);
    assert!(
        plan.outcome.is_err(),
        "apply() unexpectedly succeeded with empty YAML"
    );
}

#[test]
fn apply_reports_a_missing_package_and_stops_at_bad_yaml() {
    assert!(matches!(
        read_payload(&scenario("s")).outcome,
        Err(ApplyFailure::Missing(ArtifactError::NoPackage))
    ));
    let bad_second = format!("{}---\na: [1\n---\n{}", scenario("s"), package("p"));
    let plan = read_payload(&bad_second);
    assert_eq!(plan.stored.len(), 1);
    assert_eq!(plan.stored[0].1, "s");
    assert!(matches!(plan.outcome, Err(ApplyFailure::Yaml(_))));
    let two_scenarios = format!("{}---\n{}---\n{}", scenario("a"), package("p"), scenario("b"));
    let plan = read_payload(&two_scenarios);
    assert_eq!(plan.stored.len(), 3);
    let (scenario_text, _) = plan.outcome.unwrap();
    assert_eq!(scenario_text, plan.stored[2].2);
}

#[test]
fn test_withdraw_valid_artifact() {
    let (key, scenario) = withdraw_document(VALID_ARTIFACT_YAML).unwrap();
    assert_eq!(key, "Scenario/helloworld");
    assert!(
        !scenario.is_empty(),
        "Returned scenario YAML should not be empty"
    );
}

#[test]
fn test_withdraw_invalid_unknown_artifact() {
    assert!(
        withdraw_document(INVALID_YAML_UNKNOWN_ARTIFACT).is_err(),
        "withdraw() unexpectedly succeeded with unknown artifact"
    );
}

#[test]
fn test_withdraw_invalid_empty_yaml() {
    assert!(
        withdraw_document(INVALID_YAML_EMPTY).is_err(),
        "withdraw() unexpectedly succeeded with empty YAML"
    );
}

#[test]
fn withdraw_deletes_the_first_scenario_apply_stored() {
    let body = format!("{}---\n{}---\n{}", package("p"), scenario("a"), scenario("b"));
    let plan = read_payload(&body);
    let (kind, name, text) = plan
        .stored
        .iter()
        .find(|(k, _, _)| k == "Scenario")
        .unwrap()
        .clone();
    let (key, withdrawn) = withdraw_document(&body).unwrap();
    assert_eq!(key, artifact_key(&kind, &name));
    assert_eq!(key, "Scenario/a");
    assert_eq!(withdrawn, text);
}
