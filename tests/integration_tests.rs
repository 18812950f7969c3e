use fak::{
    compute_content_hash, ArtifactManager, CapabilityManifest, CostFigure, CostLedger,
    ExecutionTrace, FakError, InvariantDSL, InvariantSpec, JsonValue, PolicyIR, ProofBundle,
    ProofEngine, ProofType, ProofWitness, Verifier,
};

fn s(t: &str) -> String {
    t.to_string()
}

fn num(t: &str) -> JsonValue {
    JsonValue::Number(t.to_string())
}

fn text(t: &str) -> JsonValue {
    JsonValue::Str(t.to_string())
}

fn obj(members: Vec<(&str, JsonValue)>) -> JsonValue {
    JsonValue::Object(members.into_iter().map(|(k, v)| (k.to_string(), v)).collect())
}

fn field<'a>(v: &'a JsonValue, key: &str) -> Option<&'a JsonValue> {
    match v {
        JsonValue::Object(members) => members.iter().find(|(k, _)| k == key).map(|(_, v)| v),
        _ => None,
    }
}

fn sample_trace() -> ExecutionTrace {
    ExecutionTrace::new(
        s("trace-001"),
        vec![obj(vec![("step", num("1")), ("action", text("init"))])],
        Vec::new(),
    )
}

fn sample_capabilities() -> CapabilityManifest {
    let graph = vec![(s("admin"), vec![s("read"), s("write")])];
    CapabilityManifest::new(s("cap-001"), s("agent-001"), vec![s("read")], graph, Vec::new())
}

fn sample_cost_ledger() -> CostLedger {
    CostLedger::new(
        s("cost-001"),
        vec![obj(vec![("op", text("inference")), ("cost", num("0.001"))])],
        CostFigure::Amount { negative: false, units: 1, scale: 3 },
        Vec::new(),
    )
}

fn sample_policy_ir() -> PolicyIR {
    let ast = vec![(s("rules"), JsonValue::Array(Vec::new()))];
    PolicyIR::new(s("policy-001"), ast, vec![0x00, 0x01], Vec::new())
}

#[test]
fn test_artifact_manager_store_retrieve() {
    let mut mgr = ArtifactManager::new();
    let artifact = obj(vec![("test", text("data")), ("nested", obj(vec![("value", num("42"))]))]);

    let id = mgr.store_artifact(&artifact).expect("store should succeed");
    assert!(!id.is_empty());

    let retrieved = mgr.retrieve_artifact(&id).expect("retrieve should succeed");
    assert_eq!(artifact, retrieved);
}

#[test]
fn test_artifact_manager_integrity_validation() {
    let mut mgr = ArtifactManager::new();
    let artifact = obj(vec![("key", text("value"))]);
    let id = mgr.store_artifact(&artifact).expect("store");

    assert!(mgr.validate_artifact_integrity(&id, &artifact));
    assert!(!mgr.validate_artifact_integrity("wrong-id", &artifact));
}

#[test]
fn test_artifact_not_found() {
    let mgr = ArtifactManager::new();
    let result = mgr.retrieve_artifact("nonexistent-id");
    assert!(matches!(result, Err(FakError::ArtifactNotFound { .. })));
}

#[test]
fn test_artifact_manager_contains() {
    let mut mgr = ArtifactManager::new();
    let artifact = obj(vec![("x", num("1"))]);
    let id = mgr.store_artifact(&artifact).expect("store");

    assert!(mgr.contains(&id).expect("contains check"));
    assert!(!mgr.contains("missing").expect("contains check"));
}

#[test]
fn test_artifact_manager_clear() {
    let mut mgr = ArtifactManager::new();
    let artifact = obj(vec![("x", num("1"))]);
    let id = mgr.store_artifact(&artifact).expect("store");

    assert!(mgr.contains(&id).expect("exists before clear"));
    mgr.clear().expect("clear");
    assert!(!mgr.contains(&id).expect("gone after clear"));
}

#[test]
fn test_artifact_manager_clone() {
    let mut mgr = ArtifactManager::new();
    let artifact = obj(vec![("x", num("1"))]);
    let id = mgr.store_artifact(&artifact).expect("store");

    let cloned = mgr.clone();
    assert!(cloned.contains(&id).expect("cloned contains artifact"));
}

#[test]
fn test_proof_engine_verify_empty_invariants() {
    let engine = ProofEngine::new();
    let trace = sample_trace();
    let caps = sample_capabilities();
    let cost = sample_cost_ledger();
    let policy = sample_policy_ir();

    let witness = engine
        .verify_invariants(&trace, &caps, &cost, &policy, &[])
        .expect("verification should succeed");

    assert!(!witness.proof_id.is_empty());
    assert!(witness.counterexamples.is_empty());
}

#[test]
fn test_proof_engine_with_invariants() {
    let engine = ProofEngine::new();
    let trace = sample_trace();
    let caps = sample_capabilities();
    let cost = sample_cost_ledger();
    let policy = sample_policy_ir();

    let invariants = vec![
        InvariantSpec::new(
            s("cost_non_negative"),
            s("Cost must be non-negative"),
            None,
            Some(s("total_cost >= 0")),
            vec![],
            ProofType::EconomicInvariance,
        ),
        InvariantSpec::new(
            s("policy_valid"),
            s("Policy must have ID"),
            None,
            None,
            vec![],
            ProofType::SemanticPreservation,
        ),
    ];

    let witness = engine
        .verify_invariants(&trace, &caps, &cost, &policy, &invariants)
        .expect("verification should succeed");

    assert!(witness.counterexamples.is_empty());
    assert_eq!(witness.invariants.len(), 2);
}

#[test]
fn test_proof_engine_resource_limit() {
    let engine = ProofEngine::new();
    let trace = sample_trace();
    let caps = sample_capabilities();
    let cost = sample_cost_ledger();
    let policy = sample_policy_ir();

    let too_many: Vec<InvariantSpec> = (0..1001)
        .map(|i| {
            InvariantSpec::new(
                format!("inv_{}", i),
                String::new(),
                None,
                None,
                vec![],
                ProofType::BehavioralSoundness,
            )
        })
        .collect();

    let result = engine.verify_invariants(&trace, &caps, &cost, &policy, &too_many);
    assert!(matches!(
        result,
        Err(FakError::ResourceLimit { resource, .. }) if resource == "invariants"
    ));
}

#[test]
fn test_proof_engine_generate_bundle() {
    let engine = ProofEngine::new();
    let trace = sample_trace();
    let caps = sample_capabilities();
    let cost = sample_cost_ledger();
    let policy = sample_policy_ir();

    let witness = engine
        .verify_invariants(&trace, &caps, &cost, &policy, &[])
        .expect("verify");

    let bundle = engine.generate_bundle(&[witness]).expect("bundle");
    assert!(!bundle.id.is_empty());
    assert_eq!(bundle.witnesses.len(), 1);
}

#[test]
fn test_proof_engine_empty_witnesses_rejected() {
    let engine = ProofEngine::new();
    let result = engine.generate_bundle(&[]);
    assert!(matches!(
        result,
        Err(FakError::Validation { field, .. }) if field == "witnesses"
    ));
}

#[test]
fn test_verifier_valid_bundle() {
    let mut mgr = ArtifactManager::new();
    let trace = sample_trace();
    let caps = sample_capabilities();
    let cost = sample_cost_ledger();
    let policy = sample_policy_ir();

    let bundle = mgr
        .create_bundle(&trace, &caps, &cost, &policy)
        .expect("bundle creation");

    let verifier = Verifier::new();
    let result = verifier.verify_bundle(&bundle);

    assert!(result.success, "Verification failed: {:?}", result.error);
    assert_eq!(result.witness_results.len(), 1);
    assert!(result.witness_results[0].success);
}

#[test]
fn test_verifier_json_output() {
    let mut mgr = ArtifactManager::new();
    let trace = sample_trace();
    let caps = sample_capabilities();
    let cost = sample_cost_ledger();
    let policy = sample_policy_ir();

    let bundle = mgr.create_bundle(&trace, &caps, &cost, &policy).expect("bundle");
    let verifier = Verifier::new();
    let json = verifier.verify_bundle_json(&bundle);

    assert!(matches!(field(&json, "success"), Some(JsonValue::Bool(true))));
    assert!(field(&json, "bundle_id").is_some());
}

#[test]
fn test_dsl_parse_invariant() {
    let spec = r#"
        invariant cost_bound
        precondition: budget > 0
        postcondition: spent <= budget
        temporal_properties: [always cost_valid]
    "#;

    let parsed = InvariantDSL::parse_invariant(spec).expect("parsing should succeed");

    assert_eq!(parsed.name, "cost_bound");
    assert_eq!(parsed.precondition, Some("budget > 0".to_string()));
    assert_eq!(parsed.postcondition, Some("spent <= budget".to_string()));
    assert_eq!(parsed.temporal_properties, vec!["always cost_valid"]);
}

#[test]
fn test_dsl_parse_with_comments() {
    let spec = r#"
        # This is a comment
        invariant test_inv  # inline comment
        precondition: x > 0
    "#;

    let parsed = InvariantDSL::parse_invariant(spec).expect("parse");
    assert_eq!(parsed.name, "test_inv");
    assert_eq!(parsed.precondition, Some("x > 0".to_string()));
}

#[test]
fn test_dsl_missing_name() {
    let spec = "precondition: x > 0";
    let result = InvariantDSL::parse_invariant(spec);
    assert!(matches!(result, Err(FakError::ParseError { .. })));
}

#[test]
fn test_dsl_parse_temporal_property() {
    let prop = InvariantDSL::parse_temporal_property("always x > 0").expect("parse");
    assert_eq!(prop.operator, "always");
    assert_eq!(prop.expression, "x > 0");

    let prop = InvariantDSL::parse_temporal_property("eventually done").expect("parse");
    assert_eq!(prop.operator, "eventually");
}

#[test]
fn test_dsl_temporal_empty_expression() {
    let result = InvariantDSL::parse_temporal_property("always");
    assert!(matches!(result, Err(FakError::ParseError { .. })));
}

#[test]
fn test_dsl_unknown_temporal_operator() {
    let result = InvariantDSL::parse_temporal_property("sometimes x");
    assert!(matches!(result, Err(FakError::ParseError { .. })));
}

#[test]
fn test_execution_trace_validation() {
    let empty_id = ExecutionTrace::new(String::new(), vec![], Vec::new());
    assert!(matches!(
        empty_id.validate(),
        Err(FakError::Validation { field, .. }) if field == "id"
    ));

    let valid = sample_trace();
    assert!(valid.validate().is_ok());
}

#[test]
fn test_capability_manifest_validation() {
    let empty_id = CapabilityManifest::new(String::new(), s("agent"), vec![], Vec::new(), Vec::new());
    assert!(matches!(
        empty_id.validate(),
        Err(FakError::Validation { field, .. }) if field == "id"
    ));

    let empty_agent = CapabilityManifest::new(s("id"), String::new(), vec![], Vec::new(), Vec::new());
    assert!(matches!(
        empty_agent.validate(),
        Err(FakError::Validation { field, .. }) if field == "agent_id"
    ));
}

#[test]
fn test_cost_ledger_validation() {
    let negative = CostLedger::new(
        s("id"),
        vec![],
        CostFigure::Amount { negative: true, units: 1, scale: 0 },
        Vec::new(),
    );
    assert!(matches!(
        negative.validate(),
        Err(FakError::Validation { field, .. }) if field == "total_cost"
    ));

    let nan = CostLedger::new(s("id"), vec![], CostFigure::NotANumber, Vec::new());
    assert!(matches!(
        nan.validate(),
        Err(FakError::Validation { field, .. }) if field == "total_cost"
    ));

    let inf = CostLedger::new(s("id"), vec![], CostFigure::Infinite { negative: false }, Vec::new());
    assert!(matches!(
        inf.validate(),
        Err(FakError::Validation { field, .. }) if field == "total_cost"
    ));
}

#[test]
fn test_policy_ir_validation() {
    let empty = PolicyIR::new(String::new(), Vec::new(), vec![], Vec::new());
    assert!(matches!(
        empty.validate(),
        Err(FakError::Validation { field, .. }) if field == "id"
    ));
}

#[test]
fn test_invariant_spec_validation() {
    let empty = InvariantSpec::new(
        String::new(),
        String::new(),
        None,
        None,
        vec![],
        ProofType::BehavioralSoundness,
    );
    assert!(matches!(
        empty.validate(),
        Err(FakError::Validation { field, .. }) if field == "name"
    ));
}

#[test]
fn test_proof_type_from_str() {
    assert!(matches!(ProofType::from_str("behavioral_soundness"), Ok(ProofType::BehavioralSoundness)));
    assert!(matches!(
        ProofType::from_str("authority_non_escalation"),
        Ok(ProofType::AuthorityNonEscalation)
    ));
    assert!(matches!(ProofType::from_str("economic_invariance"), Ok(ProofType::EconomicInvariance)));
    assert!(matches!(
        ProofType::from_str("semantic_preservation"),
        Ok(ProofType::SemanticPreservation)
    ));

    // Case insensitive
    assert!(matches!(ProofType::from_str("BEHAVIORAL_SOUNDNESS"), Ok(ProofType::BehavioralSoundness)));

    // Unknown
    assert!(matches!(ProofType::from_str("unknown"), Err(FakError::UnknownProofType { .. })));
}

#[test]
fn test_proof_type_as_str() {
    assert_eq!(ProofType::BehavioralSoundness.as_str(), "behavioral_soundness");
    assert_eq!(ProofType::AuthorityNonEscalation.as_str(), "authority_non_escalation");
    assert_eq!(ProofType::EconomicInvariance.as_str(), "economic_invariance");
    assert_eq!(ProofType::SemanticPreservation.as_str(), "semantic_preservation");
}

#[test]
fn test_proof_type_display() {
    assert_eq!(ProofType::BehavioralSoundness.as_str(), "behavioral_soundness");
}

#[test]
fn test_deterministic_hashing() {
    let obj1 = obj(vec![
        ("b", num("2")),
        ("a", num("1")),
        ("c", obj(vec![("z", num("26")), ("y", num("25"))])),
    ]);
    let hash1 = compute_content_hash(&obj1);
    let hash2 = compute_content_hash(&obj1);
    assert_eq!(hash1, hash2, "Hashes must be deterministic");
}

#[test]
fn test_hash_key_order_independence() {
    let obj1 = obj(vec![("b", num("2")), ("a", num("1"))]);
    let obj2 = obj(vec![("a", num("1")), ("b", num("2"))]);
    assert_eq!(
        compute_content_hash(&obj1),
        compute_content_hash(&obj2),
        "Key order should not affect hash"
    );
}

#[test]
fn test_hash_nested_key_order() {
    let obj1 = obj(vec![("outer", obj(vec![("b", num("2")), ("a", num("1"))]))]);
    let obj2 = obj(vec![("outer", obj(vec![("a", num("1")), ("b", num("2"))]))]);
    assert_eq!(
        compute_content_hash(&obj1),
        compute_content_hash(&obj2),
        "Nested key order should not affect hash"
    );
}

#[test]
fn test_hash_different_values() {
    let obj1 = obj(vec![("a", num("1"))]);
    let obj2 = obj(vec![("a", num("2"))]);
    assert_ne!(
        compute_content_hash(&obj1),
        compute_content_hash(&obj2),
        "Different values must produce different hashes"
    );
}

#[test]
fn test_defaults() {
    let _trace = ExecutionTrace::default();
    let _caps = CapabilityManifest::default();
    let _cost = CostLedger::default();
    let _policy = PolicyIR::default();
    let _inv = InvariantSpec::default();
    let _witness = ProofWitness::default();
    let _bundle = ProofBundle::default();
    let _mgr = ArtifactManager::default();
    let _engine = ProofEngine::default();
    let _verifier = Verifier::default();
}

#[test]
fn test_full_workflow() {
    let trace = sample_trace();
    let caps = sample_capabilities();
    let cost = sample_cost_ledger();
    let policy = sample_policy_ir();

    let invariants = vec![InvariantSpec::new(
        s("economic_check"),
        s("Costs must be non-negative"),
        None,
        Some(s("total_cost >= 0")),
        vec![],
        ProofType::EconomicInvariance,
    )];

    let engine = ProofEngine::new();
    let witness = engine
        .verify_invariants(&trace, &caps, &cost, &policy, &invariants)
        .expect("verification");

    assert!(witness.counterexamples.is_empty());

    let bundle = engine.generate_bundle(&[witness]).expect("bundle");

    let verifier = Verifier::new();
    let result = verifier.verify_bundle(&bundle);

    assert!(result.success);
    assert_eq!(result.witness_results.len(), 1);
    assert!(result.witness_results[0].success);
    assert_eq!(result.witness_results[0].invariant_count, 1);
    assert_eq!(result.witness_results[0].counterexample_count, 0);
}
