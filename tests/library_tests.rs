use fak::engine::compute_bundle_id;
use fak::json::canonical_json;
use fak::{
    compute_content_hash, ArtifactManager, CapabilityManifest, CostFigure, CostLedger,
    EngineConfig, ExecutionTrace, FakError, InvariantDSL, InvariantSpec, JsonValue, PolicyIR,
    ProofBundle, ProofEngine, ProofType, ProofWitness, VerificationContext, Verifier,
};

fn s(t: &str) -> String {
    t.to_string()
}

fn num(t: &str) -> JsonValue {
    JsonValue::Number(t.to_string())
}

fn text(t: &str) -> JsonValue {
    JsonValue::Str(t.to_string())
}

fn obj(members: Vec<(&str, JsonValue)>) -> JsonValue {
    JsonValue::Object(members.into_iter().map(|(k, v)| (k.to_string(), v)).collect())
}

fn field<'a>(v: &'a JsonValue, key: &str) -> Option<&'a JsonValue> {
    match v {
        JsonValue::Object(members) => members.iter().find(|(k, _)| k == key).map(|(_, v)| v),
        _ => None,
    }
}

fn trace() -> ExecutionTrace {
    ExecutionTrace::new(s("trace-001"), vec![obj(vec![("step", num("1"))])], Vec::new())
}

fn caps() -> CapabilityManifest {
    CapabilityManifest::new(
        s("cap-001"),
        s("agent-001"),
        vec![s("read")],
        vec![(s("admin"), vec![s("read")])],
        Vec::new(),
    )
}

fn ledger() -> CostLedger {
    CostLedger::new(
        s("cost-001"),
        vec![],
        CostFigure::Amount { negative: false, units: 1, scale: 3 },
        Vec::new(),
    )
}

fn policy() -> PolicyIR {
    PolicyIR::new(s("policy-001"), Vec::new(), vec![1, 2], Vec::new())
}

fn inv(name: &str, pre: Option<&str>, ty: ProofType) -> InvariantSpec {
    InvariantSpec::new(s(name), String::new(), pre.map(s), None, vec![], ty)
}

fn bundle_of(witnesses: Vec<ProofWitness>) -> ProofBundle {
    ProofEngine::new().generate_bundle(&witnesses).expect("bundle")
}

#[test]
fn canonical_rendering_sorts_keys_and_quotes() {
    let v = obj(vec![("b", num("2")), ("a", num("1"))]);
    assert_eq!(canonical_json(&v), "{\"a\":1,\"b\":2}");
    let w = JsonValue::Array(vec![JsonValue::Null, JsonValue::Bool(true), JsonValue::Bool(false), text("x\"y")]);
    assert_eq!(canonical_json(&w), "[null,true,false,\"x\\\"y\"]");
}

#[test]
fn content_hash_known_digests() {
    assert_eq!(
        compute_content_hash(&JsonValue::Null),
        "74234e98afe7498fb5daf1f36ac2d78acc339464f950703b8c019892f982b90b"
    );
    let v = obj(vec![("b", num("2")), ("a", num("1"))]);
    let h = compute_content_hash(&v);
    assert_eq!(h, "43258cff783fe7036d8a43033f830adfc60ec037382473548ac742b888292777");
    assert_eq!(h.len(), 64);
}

#[test]
fn array_order_changes_hash() {
    let a = JsonValue::Array(vec![num("1"), num("2")]);
    let b = JsonValue::Array(vec![num("2"), num("1")]);
    assert_ne!(compute_content_hash(&a), compute_content_hash(&b));
}

#[test]
fn changing_a_leaf_string_changes_hash() {
    let a = obj(vec![("outer", obj(vec![("k", text("v1"))]))]);
    let b = obj(vec![("outer", obj(vec![("k", text("v2"))]))]);
    assert_ne!(compute_content_hash(&a), compute_content_hash(&b));
    let c = obj(vec![("k", JsonValue::Bool(true))]);
    let d = obj(vec![("k", JsonValue::Bool(false))]);
    assert_ne!(compute_content_hash(&c), compute_content_hash(&d));
}

#[test]
fn proof_type_parsing_ignores_case_and_spaces() {
    assert!(matches!(ProofType::from_str("  Economic_Invariance "), Ok(ProofType::EconomicInvariance)));
    assert!(matches!(ProofType::from_str("SEMANTICPRESERVATION"), Ok(ProofType::SemanticPreservation)));
    assert!(matches!(ProofType::from_str("AuthorityNonEscalation"), Ok(ProofType::AuthorityNonEscalation)));
    assert_eq!(ProofType::from_lowercase("economicinvariance"), Some(ProofType::EconomicInvariance));
    assert_eq!(ProofType::from_lowercase("Economic_Invariance"), None);
    match ProofType::from_str("nope") {
        Err(FakError::UnknownProofType { value }) => assert_eq!(value, "nope"),
        _ => panic!("expected an unknown proof type"),
    }
}

#[test]
fn error_messages() {
    let e = FakError::ResourceLimit { resource: s("invariants"), limit: 1000, actual: 1001 };
    assert_eq!(e.message(), "invariants limit exceeded: 1001 > 1000");
    let e = FakError::Validation { field: s("id"), message: s("bad") };
    assert_eq!(e.message(), "validation error on 'id': bad");
    let e = FakError::Timeout { operation: s("check"), limit_millis: 30000 };
    assert_eq!(e.message(), "check timed out after 30000ms");
    let e = FakError::ArtifactNotFound { artifact_id: s("x") };
    assert_eq!(e.message(), "artifact 'x' not found");
    let e = FakError::IntegrityFailure { artifact_id: s("a"), expected: s("b"), actual: s("c") };
    assert_eq!(e.message(), "integrity check failed for 'a': expected 'b', got 'c'");
    let e = FakError::ParseError { source: s("dsl"), message: s("m") };
    assert_eq!(e.message(), "parse error in 'dsl': m");
    let e = FakError::VerificationFailure { invariant_name: s("i"), reason: s("r") };
    assert_eq!(e.message(), "verification failed for 'i': r");
    let e = FakError::Serialization { message: s("m") };
    assert_eq!(e.message(), "serialization error: m");
    let e = FakError::UnknownProofType { value: s("v") };
    assert_eq!(e.message(), "unknown proof type: 'v'");
    let e = FakError::BundleVerificationFailed { bundle_id: s("b"), reason: s("r") };
    assert_eq!(e.message(), "bundle 'b' verification failed: r");
    let e = FakError::LockPoisoned { resource: s("artifacts") };
    assert_eq!(e.message(), "lock poisoned for resource: artifacts");
    let e = FakError::ResourceLimit { resource: s("r"), limit: 0, actual: 10 };
    assert_eq!(e.message(), "r limit exceeded: 10 > 0");
}

#[test]
fn store_is_idempotent_and_ignores_key_order() {
    let mut mgr = ArtifactManager::new();
    let a = obj(vec![("b", num("2")), ("a", num("1"))]);
    let b = obj(vec![("a", num("1")), ("b", num("2"))]);
    let id1 = mgr.store_artifact(&a).expect("store");
    let id2 = mgr.store_artifact(&a).expect("store");
    assert_eq!(id1, id2);
    assert_eq!(id1, compute_content_hash(&b));
    assert_eq!(mgr.retrieve_artifact(&id1).expect("retrieve"), a);
}

#[test]
fn store_round_trip_and_missing_id() {
    let mut mgr = ArtifactManager::new();
    let v = JsonValue::Array(vec![text("x"), JsonValue::Null]);
    let id = mgr.store_artifact(&v).expect("store");
    assert_eq!(mgr.retrieve_artifact(&id).expect("retrieve"), v);
    match mgr.retrieve_artifact("not-an-id") {
        Err(FakError::ArtifactNotFound { artifact_id }) => assert_eq!(artifact_id, "not-an-id"),
        _ => panic!("expected not found"),
    }
}

#[test]
fn integrity_check_of_stored_value() {
    let mut mgr = ArtifactManager::new();
    let v = obj(vec![("k", text("v"))]);
    let id = mgr.store_artifact(&v).expect("store");
    assert!(mgr.validate_artifact_integrity(&id, &v));
    assert!(!mgr.validate_artifact_integrity("anything-else", &v));
    assert!(!mgr.validate_artifact_integrity(&id, &obj(vec![("k", text("w"))])));
}

#[test]
fn cloned_store_is_independent() {
    let mut mgr = ArtifactManager::new();
    let id = mgr.store_artifact(&num("1")).expect("store");
    let mut copy = mgr.clone();
    let other = copy.store_artifact(&num("2")).expect("store");
    assert!(copy.contains(&id).expect("contains"));
    assert!(!mgr.contains(&other).expect("contains"));
}

#[test]
fn create_bundle_stores_the_four_artifacts() {
    let mut mgr = ArtifactManager::new();
    let (t, c, l, p) = (trace(), caps(), ledger(), policy());
    let bundle = mgr.create_bundle(&t, &c, &l, &p).expect("bundle");
    assert_eq!(bundle.witnesses.len(), 1);
    assert!(mgr.contains(&compute_content_hash(&t.to_json())).expect("contains"));
    assert!(mgr.contains(&compute_content_hash(&c.to_json())).expect("contains"));
    assert!(mgr.contains(&compute_content_hash(&l.to_json())).expect("contains"));
    assert!(mgr.contains(&compute_content_hash(&p.to_json())).expect("contains"));
}

#[test]
fn create_bundle_rejects_invalid_artifact() {
    let mut mgr = ArtifactManager::new();
    let bad = CapabilityManifest::new(s("cap"), String::new(), vec![], Vec::new(), Vec::new());
    let r = mgr.create_bundle(&trace(), &bad, &ledger(), &policy());
    assert!(matches!(r, Err(FakError::Validation { field, .. }) if field == "agent_id"));
}

#[test]
fn cost_figure_json_and_sign() {
    let l = CostFigure::Amount { negative: true, units: 12, scale: 3 };
    assert_eq!(l.to_json(), num("-12e-3"));
    assert_eq!(CostFigure::Amount { negative: false, units: 7, scale: 0 }.to_json(), num("7"));
    assert_eq!(CostFigure::NotANumber.to_json(), JsonValue::Null);
    let zero = CostLedger::new(s("id"), vec![], CostFigure::Amount { negative: true, units: 0, scale: 0 }, Vec::new());
    assert!(zero.validate().is_ok());
    let minus_inf = CostLedger::new(s("id"), vec![], CostFigure::Infinite { negative: true }, Vec::new());
    match minus_inf.validate() {
        Err(FakError::Validation { message, .. }) => assert_eq!(message, "CostLedger total_cost cannot be negative"),
        _ => panic!("expected a validation error"),
    }
}

#[test]
fn trace_step_ceiling() {
    let steps = (0..100001).map(|_| JsonValue::Null).collect();
    let t = ExecutionTrace::new(s("t"), steps, Vec::new());
    assert!(matches!(t.validate(), Err(FakError::ResourceLimit { resource, limit: 100000, actual: 100001 }) if resource == "trace_steps"));
}

#[test]
fn engine_counterexamples_follow_the_checks() {
    let engine = ProofEngine::new();
    let empty_trace = ExecutionTrace::new(s("t"), vec![], Vec::new());
    let no_graph = CapabilityManifest::new(s("c"), s("a"), vec![], Vec::new(), Vec::new());
    let invariants = vec![
        inv("needs_steps", Some("x"), ProofType::BehavioralSoundness),
        inv("no_pre", None, ProofType::BehavioralSoundness),
        inv("needs_graph", Some("y"), ProofType::AuthorityNonEscalation),
        inv("", None, ProofType::EconomicInvariance),
    ];
    let w = engine
        .verify_invariants(&empty_trace, &no_graph, &ledger(), &policy(), &invariants)
        .expect("witness");
    assert_eq!(w.counterexamples.len(), 3);
    assert_eq!(w.counterexamples[0].invariant_name, "needs_steps");
    assert_eq!(w.counterexamples[0].error_type, "violation");
    assert_eq!(field(&w.counterexamples[0].details, "invariant_type"), Some(&text("behavioral_soundness")));
    assert_eq!(w.counterexamples[1].invariant_name, "needs_graph");
    assert_eq!(w.counterexamples[2].error_type, "check_error");
    assert_eq!(
        field(&w.counterexamples[2].details, "error"),
        Some(&text("validation error on 'name': InvariantSpec must have a non-empty name"))
    );
    assert_eq!(w.counterexamples[2].step_index, None);
}

#[test]
fn timeout_counterexample_shape() {
    let ce = ProofEngine::timeout(&inv("slow", None, ProofType::BehavioralSoundness), 31000, 30000);
    assert_eq!(ce.error_type, "timeout");
    assert_eq!(field(&ce.details, "elapsed_millis"), Some(&num("31000")));
    assert_eq!(field(&ce.details, "limit_millis"), Some(&num("30000")));
    assert_eq!(field(&ce.details, "reason"), Some(&text("Verification timed out")));
}

#[test]
fn proof_id_ignores_outcome() {
    let engine = ProofEngine::new();
    let invs = vec![inv("i", Some("p"), ProofType::BehavioralSoundness)];
    let full = engine.verify_invariants(&trace(), &caps(), &ledger(), &policy(), &invs).expect("w");
    let empty = ExecutionTrace::new(s("trace-001"), vec![], Vec::new());
    let failing = engine.verify_invariants(&empty, &caps(), &ledger(), &policy(), &invs).expect("w");
    assert!(full.counterexamples.is_empty());
    assert_eq!(failing.counterexamples.len(), 1);
    assert_eq!(full.proof_id, failing.proof_id);
}

#[test]
fn custom_invariant_ceiling() {
    let engine = ProofEngine::with_config(EngineConfig { max_invariants: 1, timeout_millis: 30000 });
    let invs = vec![inv("a", None, ProofType::BehavioralSoundness), inv("b", None, ProofType::BehavioralSoundness)];
    let r = engine.verify_invariants(&trace(), &caps(), &ledger(), &policy(), &invs);
    assert!(matches!(r, Err(FakError::ResourceLimit { limit: 1, actual: 2, .. })));
}

#[test]
fn invalid_artifact_aborts_verification() {
    let engine = ProofEngine::new();
    let bad = PolicyIR::new(String::new(), Vec::new(), vec![], Vec::new());
    let r = engine.verify_invariants(&trace(), &caps(), &ledger(), &bad, &[]);
    assert!(matches!(r, Err(FakError::Validation { field, .. }) if field == "id"));
}

#[test]
fn bundle_witness_ceiling() {
    let engine = ProofEngine::new();
    let witnesses: Vec<ProofWitness> = (0..101)
        .map(|_| engine.verify_invariants(&trace(), &caps(), &ledger(), &policy(), &[]).expect("w"))
        .collect();
    let bundle = ProofBundle::new(s("bundle"), witnesses, Vec::new());
    assert!(matches!(
        bundle.validate(),
        Err(FakError::ResourceLimit { resource, limit: 100, actual: 101 }) if resource == "bundle_witnesses"
    ));
    let result = Verifier::new().verify_bundle(&bundle);
    assert!(!result.success);
    assert_eq!(result.error, Some(s("bundle_witnesses limit exceeded: 101 > 100")));
}

#[test]
fn tampered_bundle_id_is_reported() {
    let engine = ProofEngine::new();
    let w = engine.verify_invariants(&trace(), &caps(), &ledger(), &policy(), &[]).expect("w");
    let mut bundle = bundle_of(vec![w]);
    let genuine_id = bundle.id.clone();
    bundle.id = s("tampered");
    let result = Verifier::new().verify_bundle(&bundle);
    assert!(!result.success);
    assert!(result.witness_results.is_empty());
    assert_eq!(
        result.error,
        Some(format!("Bundle ID mismatch: expected '{}', got 'tampered'", genuine_id))
    );
}

#[test]
fn tampered_proof_id_is_reported() {
    let engine = ProofEngine::new();
    let mut w = engine.verify_invariants(&trace(), &caps(), &ledger(), &policy(), &[]).expect("w");
    let genuine = w.proof_id.clone();
    w.proof_id = s("forged");
    let metadata = Vec::new();
    let id = compute_bundle_id(&[ProofWitness::new(
        s("forged"),
        trace(),
        caps(),
        ledger(),
        policy(),
        vec![],
        vec![],
    )], &metadata);
    let bundle = ProofBundle::new(id, vec![w], metadata);
    let result = Verifier::new().verify_bundle(&bundle);
    assert!(!result.success);
    assert_eq!(result.witness_results.len(), 1);
    assert_eq!(
        result.witness_results[0].error,
        Some(format!("Proof ID mismatch: expected 'forged', got '{}'", genuine))
    );
}

#[test]
fn failing_invariant_fails_the_bundle() {
    let engine = ProofEngine::new();
    let empty = ExecutionTrace::new(s("t"), vec![], Vec::new());
    let invs = vec![inv("steps", Some("p"), ProofType::BehavioralSoundness)];
    let w = engine.verify_invariants(&empty, &caps(), &ledger(), &policy(), &invs).expect("w");
    let result = Verifier::new().verify_bundle(&bundle_of(vec![w]));
    assert!(!result.success);
    assert_eq!(result.witness_results[0].counterexample_count, 1);
    assert_eq!(result.witness_results[0].error, None);
}

#[test]
fn empty_bundle_verifies_vacuously() {
    let metadata = Vec::new();
    let id = compute_bundle_id(&[], &metadata);
    let bundle = ProofBundle::new(id, Vec::new(), metadata);
    let result = Verifier::new().verify_bundle(&bundle);
    assert!(result.success);
    assert!(result.witness_results.is_empty());
}

#[test]
fn invalid_bundle_structure_is_reported() {
    let bundle = ProofBundle::new(String::new(), Vec::new(), Vec::new());
    let result = Verifier::new().verify_bundle(&bundle);
    assert!(!result.success);
    assert_eq!(result.error, Some(s("validation error on 'id': ProofBundle must have a non-empty ID")));
}

#[test]
fn bundle_json_projection() {
    let engine = ProofEngine::new();
    let w = engine.verify_invariants(&trace(), &caps(), &ledger(), &policy(), &[]).expect("w");
    let bundle = bundle_of(vec![w]);
    let json = Verifier::new().verify_bundle_json(&bundle);
    assert_eq!(field(&json, "bundle_id"), Some(&text(&bundle.id)));
    assert_eq!(field(&json, "error"), Some(&JsonValue::Null));
    match field(&json, "witness_results") {
        Some(JsonValue::Array(items)) => {
            assert_eq!(items.len(), 1);
            assert_eq!(field(&items[0], "invariant_count"), Some(&num("0")));
            assert_eq!(field(&items[0], "success"), Some(&JsonValue::Bool(true)));
        }
        _ => panic!("expected witness results"),
    }
}

#[test]
fn dsl_type_and_description() {
    let spec = "invariant budget\ndescription: keeps spend bounded\ntype: EconomicInvariance";
    let p = InvariantDSL::parse_invariant(spec).expect("parse");
    assert_eq!(p.name, "budget");
    assert_eq!(p.description, "keeps spend bounded");
    assert_eq!(p.invariant_type, ProofType::EconomicInvariance);
    assert_eq!(p.precondition, None);
    let q = InvariantDSL::parse_invariant("invariant x\ntype: bogus").expect("parse");
    assert_eq!(q.invariant_type, ProofType::BehavioralSoundness);
    assert_eq!(q.description, "");
}

#[test]
fn dsl_temporal_list_forms() {
    let p = InvariantDSL::parse_invariant("invariant x\ntemporal_properties: [ a , , b ]").expect("parse");
    assert_eq!(p.temporal_properties, vec![s("a"), s("b")]);
    let q = InvariantDSL::parse_invariant("invariant x\ntemporal_properties: always a").expect("parse");
    assert!(q.temporal_properties.is_empty());
    assert_eq!(InvariantDSL::parse_temporal_properties_list(Some("[p,q]")), vec![s("p"), s("q")]);
    assert!(InvariantDSL::parse_temporal_properties_list(None).is_empty());
}

#[test]
fn dsl_field_value_on_next_line() {
    let p = InvariantDSL::parse_invariant("invariant x\nprecondition:\ny > 0").expect("parse");
    assert_eq!(p.precondition, Some(s("y > 0")));
}

#[test]
fn dsl_helpers() {
    assert_eq!(InvariantDSL::strip_comments("a # c\n\n  b  \n# only\n"), "a\nb");
    assert_eq!(InvariantDSL::extract_type("type: next"), None);
    assert_eq!(InvariantDSL::extract_type("type:semantic_preservation"), Some(ProofType::SemanticPreservation));
    assert_eq!(InvariantDSL::extract_field_value("postcondition:  z  ", "postcondition"), Some(s("z")));
    let f = InvariantDSL::extract_fields("description: d\nprecondition: p");
    assert_eq!(f.description, Some(s("d")));
    assert_eq!(f.precondition, Some(s("p")));
    assert_eq!(f.postcondition, None);
    assert!(matches!(InvariantDSL::extract_name("invariantx y"), Err(FakError::ParseError { .. })));
    assert_eq!(InvariantDSL::extract_name("the invariant  inv_1 holds").expect("name"), "inv_1");
}

#[test]
fn temporal_property_edges() {
    let p = InvariantDSL::parse_temporal_property("  next  step  ").expect("parse");
    assert_eq!(p.operator, "next");
    assert_eq!(p.expression, "step");
    let q = InvariantDSL::parse_temporal_property("alwaysx > 0").expect("parse");
    assert_eq!(q.operator, "always");
    assert_eq!(q.expression, "x > 0");
    match InvariantDSL::parse_temporal_property("until ") {
        Err(FakError::ParseError { source, message }) => {
            assert_eq!(source, "temporal_property");
            assert_eq!(message, "operator 'until' requires an expression");
        }
        _ => panic!("expected a parse error"),
    }
    match InvariantDSL::parse_temporal_property(" sometimes x ") {
        Err(FakError::ParseError { message, .. }) => assert_eq!(message, "unknown temporal operator in: sometimes x"),
        _ => panic!("expected a parse error"),
    }
}

#[test]
fn missing_name_error_text() {
    match InvariantDSL::parse_invariant("# invariant hidden\nprecondition: x") {
        Err(FakError::ParseError { source, message }) => {
            assert_eq!(source, "invariant_spec");
            assert_eq!(message, "missing invariant name declaration");
        }
        _ => panic!("expected a parse error"),
    }
}

#[test]
fn verification_context_holds_the_artifacts() {
    let (t, c, l, p) = (trace(), caps(), ledger(), policy());
    let ctx = VerificationContext::new(&t, &c, &l, &p);
    assert_eq!(ctx.trace.id, "trace-001");
    assert_eq!(ctx.policy_ir.id, "policy-001");
}

#[test]
fn witness_copy_keeps_content() {
    let w = ProofEngine::new()
        .verify_invariants(&trace(), &caps(), &ledger(), &policy(), &[inv("a", None, ProofType::SemanticPreservation)])
        .expect("w");
    let c = w.copy();
    assert_eq!(c.proof_id, w.proof_id);
    assert_eq!(c.invariants.len(), 1);
    assert_eq!(c.execution_trace.to_json(), w.execution_trace.to_json());
    assert_eq!(c.policy_ir.to_json(), w.policy_ir.to_json());
}

#[test]
fn dsl_accepts_unicode_word_names() {
    let p = InvariantDSL::parse_invariant("invariant \u{e9}").expect("parse");
    assert_eq!(p.name, "\u{e9}");
    let q = InvariantDSL::parse_invariant("invariant na\u{ef}ve_check\nprecondition: x").expect("parse");
    assert_eq!(q.name, "na\u{ef}ve_check");
    let r = InvariantDSL::parse_invariant("invariant x\ntype: economic_invariance\u{e9}").expect("parse");
    assert_eq!(r.invariant_type, ProofType::BehavioralSoundness);
}

#[test]
fn string_escapes_in_rendering() {
    let v = JsonValue::Array(vec![text("a\u{1}b"), text("t\tn\n\\"), text("\u{e9}")]);
    assert_eq!(canonical_json(&v), "[\"a\\u0001b\",\"t\\tn\\n\\\\\",\"\u{e9}\"]");
}

#[test]
fn well_formedness_check() {
    assert!(obj(vec![("a", num("1")), ("b", obj(vec![("c", JsonValue::Null)]))]).is_well_formed());
    assert!(!obj(vec![("a", num("1")), ("a", num("2"))]).is_well_formed());
    assert!(!JsonValue::Array(vec![obj(vec![("k", num("1")), ("k", num("1"))])]).is_well_formed());
}

#[test]
fn fresh_bundle_verifies_with_counts() {
    let engine = ProofEngine::new();
    let invs = vec![inv("a", None, ProofType::EconomicInvariance), inv("b", None, ProofType::SemanticPreservation)];
    let w = engine.verify_invariants(&trace(), &caps(), &ledger(), &policy(), &invs).expect("w");
    let bundle = bundle_of(vec![w]);
    assert_eq!(bundle.id.len(), 64);
    assert!(bundle.validate().is_ok());
    assert_eq!(bundle.witnesses[0].invariants.len(), 2);
    let result = Verifier::new().verify_bundle(&bundle);
    assert!(result.success);
    assert_eq!(result.witness_results[0].invariant_count, 2);
    assert_eq!(result.witness_results[0].counterexample_count, 0);
}

#[test]
fn failed_create_bundle_leaves_store_unchanged() {
    let mut mgr = ArtifactManager::new();
    let id = mgr.store_artifact(&num("5")).expect("store");
    let bad = ExecutionTrace::new(String::new(), vec![], Vec::new());
    assert!(mgr.create_bundle(&bad, &caps(), &ledger(), &policy()).is_err());
    assert!(mgr.contains(&id).expect("contains"));
    assert!(!mgr.contains(&compute_content_hash(&caps().to_json())).expect("contains"));
}
