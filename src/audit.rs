//! The standalone verifier: re-derives every identifier of a bundle and
//! re-runs the engine's checks, trusting no stored id.

use vstd::prelude::*;
use crate::engine::{
    EngineConfig, ProofEngine, bundle_id_of, compute_bundle_id, counterexamples_for,
    counterexamples_view, evaluated_within, proof_id_of, proof_ids,
};
use crate::engine::lemma_same_content_same_outcome;
use crate::types::{CounterExampleView, first_witness_fault};
use crate::error::ErrorView;
use crate::json::{JsonModel, JsonValue, members_model};
use crate::text::{decimal_string, decimal_text};
use crate::types::{ProofBundle, ProofWitness, member, object_of};

verus! {

/// The verdict on one witness.
#[derive(Clone, Debug, PartialEq)]
pub struct WitnessResult {
    pub proof_id: String,
    pub success: bool,
    pub invariant_count: usize,
    pub counterexample_count: usize,
    pub error: Option<String>,
}

/// The verdict on a bundle.
#[derive(Clone, Debug, PartialEq)]
pub struct BundleResult {
    pub bundle_id: String,
    pub success: bool,
    pub witness_results: Vec<WitnessResult>,
    pub error: Option<String>,
}

/// The message of a mismatch between a stored and a recomputed id.
pub open spec fn mismatch_text(what: Seq<char>, expected: Seq<char>, got: Seq<char>) -> Seq<char> {
    what + " ID mismatch: expected '"@ + expected + "', got '"@ + got + "'"@
}

/// The content of an optional text.
pub open spec fn text_of(o: Option<String>) -> Option<Seq<char>> {
    match o {
        Some(s) => Some(s@),
        None => None,
    }
}

/// `r` is a report on witness `w` by an engine with limits `cfg`. A valid
/// witness with a genuine proof id is re-run: the count is that of the
/// counterexamples the re-run found, as far as the clock let it evaluate, and
/// success means there were none. So a success always means that every
/// invariant passed, and a failing invariant always means failure.
pub open spec fn witness_report(cfg: EngineConfig, w: ProofWitness, r: WitnessResult) -> bool {
    let ids_match = w.proof_id@ == proof_id_of(
        w.execution_trace,
        w.capability_manifest,
        w.cost_ledger,
        w.policy_ir,
        w.invariants@,
    );
    let cs = counterexamples_for(
        w.execution_trace,
        w.capability_manifest,
        w.cost_ledger,
        w.policy_ir,
        w.invariants@,
    );
    &&& r.proof_id@ == w.proof_id@
    &&& r.invariant_count == w.invariants@.len()
    &&& if w.fault() is Some {
        &&& !r.success
        &&& r.counterexample_count == 0
        &&& text_of(r.error) == Some(w.fault()->Some_0.text())
    } else if w.invariants@.len() > cfg.max_invariants {
        &&& !r.success
        &&& r.counterexample_count == 0
        &&& text_of(r.error) == Some(
            ErrorView::ResourceLimit {
                resource: "invariants"@,
                limit: cfg.max_invariants,
                actual: w.invariants@.len() as usize,
            }.text(),
        )
    } else if !ids_match {
        &&& !r.success
        &&& text_of(r.error) == Some(
            mismatch_text(
                "Proof"@,
                w.proof_id@,
                proof_id_of(
                    w.execution_trace,
                    w.capability_manifest,
                    w.cost_ledger,
                    w.policy_ir,
                    w.invariants@,
                ),
            ),
        )
    } else {
        &&& r.error is None
        &&& exists|found: Seq<CounterExampleView>|
            {
                &&& evaluated_within(
                    found,
                    w.execution_trace,
                    w.capability_manifest,
                    w.cost_ledger,
                    w.policy_ir,
                    w.invariants@,
                    cfg.timeout_millis,
                )
                &&& r.counterexample_count == found.len()
                &&& r.success <==> found.len() == 0
            }
        &&& r.success ==> cs.len() == 0
        &&& cs.len() > 0 ==> !r.success
    }
}

/// `r` is a report on bundle `b` by an engine with limits `cfg`.
pub open spec fn bundle_report(cfg: EngineConfig, b: ProofBundle, r: BundleResult) -> bool {
    let expected = bundle_id_of(proof_ids(b.witnesses@), members_model(b.metadata@));
    &&& r.bundle_id@ == b.id@
    &&& if b.fault() is Some {
        &&& !r.success
        &&& r.witness_results@.len() == 0
        &&& text_of(r.error) == Some(b.fault()->Some_0.text())
    } else if expected != b.id@ {
        &&& !r.success
        &&& r.witness_results@.len() == 0
        &&& text_of(r.error) == Some(mismatch_text("Bundle"@, expected, b.id@))
    } else {
        &&& r.error is None
        &&& r.witness_results@.len() == b.witnesses@.len()
        &&& forall|i: int|
            0 <= i < b.witnesses@.len() ==> witness_report(
                cfg,
                b.witnesses@[i],
                #[trigger] r.witness_results@[i],
            )
        &&& r.success <==> forall|i: int|
            0 <= i < b.witnesses@.len() ==> (#[trigger] r.witness_results@[i]).success
    }
}

/// "<what> ID mismatch: expected '<expected>', got '<got>'".
fn mismatch_message(what: &str, expected: &String, got: &String) -> (r: String)
    ensures
        r@ == mismatch_text(what@, expected@, got@),
{
    let mut s = String::from_str(what);
    s.append(" ID mismatch: expected '");
    s.append(expected.as_str());
    s.append("', got '");
    s.append(got.as_str());
    s.append("'");
    s
}

/// An optional text as JSON: the string, or `null`.
pub open spec fn optional_json(o: Option<Seq<char>>) -> JsonModel {
    match o {
        Some(s) => JsonModel::Str(s),
        None => JsonModel::Null,
    }
}

fn optional_to_json(o: &Option<String>) -> (r: JsonValue)
    ensures
        r@ == optional_json(text_of(*o)),
{
    match o {
        Some(s) => JsonValue::Str(s.clone()),
        None => JsonValue::Null,
    }
}

impl WitnessResult {
    /// The structured form of the verdict, field by field.
    pub open spec fn json(&self) -> JsonModel {
        JsonModel::Object(
            seq![
                ("proof_id"@, JsonModel::Str(self.proof_id@)),
                ("success"@, JsonModel::Bool(self.success)),
                ("invariant_count"@, JsonModel::Number(decimal_text(self.invariant_count as nat))),
                (
                    "counterexample_count"@,
                    JsonModel::Number(decimal_text(self.counterexample_count as nat)),
                ),
                ("error"@, optional_json(text_of(self.error))),
            ],
        )
    }

    pub fn to_json(&self) -> (r: JsonValue)
        ensures
            r@ == self.json(),
    {
        let mut m: Vec<(String, JsonValue)> = Vec::new();
        m.push(member("proof_id", JsonValue::Str(self.proof_id.clone())));
        m.push(member("success", JsonValue::Bool(self.success)));
        m.push(
            member("invariant_count", JsonValue::Number(decimal_string(self.invariant_count as u64))),
        );
        m.push(
            member(
                "counterexample_count",
                JsonValue::Number(decimal_string(self.counterexample_count as u64)),
            ),
        );
        m.push(member("error", optional_to_json(&self.error)));
        let r = object_of(m);
        assert(r@->Object_0 =~= self.json()->Object_0);
        r
    }
}

impl BundleResult {
    /// The structured form of the verdict, field by field.
    pub open spec fn json(&self) -> JsonModel {
        JsonModel::Object(
            seq![
                ("bundle_id"@, JsonModel::Str(self.bundle_id@)),
                ("success"@, JsonModel::Bool(self.success)),
                (
                    "witness_results"@,
                    JsonModel::Array(
                        Seq::new(
                            self.witness_results@.len(),
                            |i: int| self.witness_results@[i].json(),
                        ),
                    ),
                ),
                ("error"@, optional_json(text_of(self.error))),
            ],
        )
    }

    pub fn to_json(&self) -> (r: JsonValue)
        ensures
            r@ == self.json(),
    {
        let mut items: Vec<JsonValue> = Vec::new();
        let mut i: usize = 0;
        while i < self.witness_results.len()
            invariant
                i <= self.witness_results@.len(),
                items@.len() == i,
                forall|j: int| 0 <= j < i ==> (#[trigger] items@[j])@ == self.witness_results@[j].json(),
            decreases self.witness_results@.len() - i,
        {
            items.push(self.witness_results[i].to_json());
            i = i + 1;
        }
        let list = JsonValue::Array(items);
        assert(list@->Array_0 =~= Seq::new(
            self.witness_results@.len(),
            |i: int| self.witness_results@[i].json(),
        ));
        let mut m: Vec<(String, JsonValue)> = Vec::new();
        m.push(member("bundle_id", JsonValue::Str(self.bundle_id.clone())));
        m.push(member("success", JsonValue::Bool(self.success)));
        m.push(member("witness_results", list));
        m.push(member("error", optional_to_json(&self.error)));
        let r = object_of(m);
        assert(r@->Object_0 =~= self.json()->Object_0);
        r
    }
}

/// Re-checks bundles independently of whoever produced them.
pub struct Verifier {
    pub engine: ProofEngine,
}

impl Verifier {
    /// A verifier whose engine has the default limits.
    pub fn new() -> (r: Self)
        ensures
            r.engine.config.max_invariants == 1000,
            r.engine.config.timeout_millis == 30000,
    {
        Verifier { engine: ProofEngine::new() }
    }

    /// A verifier whose engine has the given limits.
    pub fn with_config(config: EngineConfig) -> (r: Self)
        ensures
            r.engine.config == config,
    {
        Verifier { engine: ProofEngine::with_config(config) }
    }

    fn verify_witness(&self, witness: &ProofWitness) -> (r: WitnessResult)
        ensures
            witness_report(self.engine.config, *witness, r),
    {
        if let Err(e) = witness.validate() {
            return WitnessResult {
                proof_id: witness.proof_id.clone(),
                success: false,
                invariant_count: witness.invariants.len(),
                counterexample_count: 0,
                error: Some(e.message()),
            };
        }
        match self.engine.verify_invariants(
            &witness.execution_trace,
            &witness.capability_manifest,
            &witness.cost_ledger,
            &witness.policy_ir,
            witness.invariants.as_slice(),
        ) {
            Ok(reverified) => {
                if reverified.proof_id != witness.proof_id {
                    return WitnessResult {
                        proof_id: witness.proof_id.clone(),
                        success: false,
                        invariant_count: witness.invariants.len(),
                        counterexample_count: reverified.counterexamples.len(),
                        error: Some(
                            mismatch_message("Proof", &witness.proof_id, &reverified.proof_id),
                        ),
                    };
                }
                let ghost found = counterexamples_view(reverified.counterexamples@);
                assert(found.len() == reverified.counterexamples@.len());
                WitnessResult {
                    proof_id: witness.proof_id.clone(),
                    success: reverified.counterexamples.len() == 0,
                    invariant_count: witness.invariants.len(),
                    counterexample_count: reverified.counterexamples.len(),
                    error: None,
                }
            },
            Err(e) => WitnessResult {
                proof_id: witness.proof_id.clone(),
                success: false,
                invariant_count: witness.invariants.len(),
                counterexample_count: 0,
                error: Some(e.message()),
            },
        }
    }

    fn compute_bundle_id(&self, bundle: &ProofBundle) -> (r: String)
        ensures
            r@ == bundle_id_of(proof_ids(bundle.witnesses@), members_model(bundle.metadata@)),
    {
        compute_bundle_id(bundle.witnesses.as_slice(), &bundle.metadata)
    }

    /// Verifies a bundle: its structure, its id against the witnesses' proof
    /// ids, then each witness by re-running the engine on its own artifacts.
    /// Failures are reported in the result, never raised.
    pub fn verify_bundle(&self, bundle: &ProofBundle) -> (r: BundleResult)
        ensures
            bundle_report(self.engine.config, *bundle, r),
    {
        if let Err(e) = bundle.validate() {
            return BundleResult {
                bundle_id: bundle.id.clone(),
                success: false,
                witness_results: Vec::new(),
                error: Some(e.message()),
            };
        }
        let expected_id = self.compute_bundle_id(bundle);
        if expected_id != bundle.id {
            return BundleResult {
                bundle_id: bundle.id.clone(),
                success: false,
                witness_results: Vec::new(),
                error: Some(mismatch_message("Bundle", &expected_id, &bundle.id)),
            };
        }
        let mut witness_results: Vec<WitnessResult> = Vec::new();
        let mut overall_success = true;
        let mut i: usize = 0;
        while i < bundle.witnesses.len()
            invariant
                i <= bundle.witnesses@.len(),
                witness_results@.len() == i,
                forall|j: int|
                    0 <= j < i ==> witness_report(
                        self.engine.config,
                        bundle.witnesses@[j],
                        #[trigger] witness_results@[j],
                    ),
                overall_success <==> forall|j: int|
                    0 <= j < i ==> (#[trigger] witness_results@[j]).success,
            decreases bundle.witnesses@.len() - i,
        {
            let result = self.verify_witness(&bundle.witnesses[i]);
            if !result.success {
                overall_success = false;
            }
            let ghost before = witness_results@;
            witness_results.push(result);
            assert(forall|j: int| 0 <= j < i ==> witness_results@[j] == before[j]);
            assert(witness_results@[i as int] == result);
            i = i + 1;
        }
        BundleResult { bundle_id: bundle.id.clone(), success: overall_success, witness_results, error: None }
    }

    /// The verdict on a bundle as a structured value, for loosely typed
    /// consumers.
    pub fn verify_bundle_json(&self, bundle: &ProofBundle) -> (r: JsonValue)
        ensures
            exists|res: BundleResult| bundle_report(self.engine.config, *bundle, res) && r@ == res.json(),
    {
        let result = self.verify_bundle(bundle);
        result.to_json()
    }
}

impl Default for Verifier {
    fn default() -> (r: Self)
        ensures
            r.engine.config.max_invariants == 1000,
            r.engine.config.timeout_millis == 30000,
    {
        Verifier::new()
    }
}

/// A bundle whose stored id is not the one its witnesses give is reported as a
/// failure, with no witness results and a message naming both ids.
pub proof fn lemma_tampered_id_detected(cfg: EngineConfig, b: ProofBundle, r: BundleResult)
    requires
        bundle_report(cfg, b, r),
        b.fault() is None,
        b.id@ != bundle_id_of(proof_ids(b.witnesses@), members_model(b.metadata@)),
    ensures
        !r.success,
        r.witness_results@.len() == 0,
        text_of(r.error) == Some(
            mismatch_text(
                "Bundle"@,
                bundle_id_of(proof_ids(b.witnesses@), members_model(b.metadata@)),
                b.id@,
            ),
        ),
{
}

proof fn lemma_no_witness_fault(ws: Seq<ProofWitness>)
    requires
        forall|i: int| 0 <= i < ws.len() ==> (#[trigger] ws[i]).fault() is None,
    ensures
        first_witness_fault(ws) is None,
    decreases ws.len(),
{
    if ws.len() > 0 {
        assert(ws[0].fault() is None);
        assert forall|i: int| 0 <= i < ws.drop_first().len() implies (
        #[trigger] ws.drop_first()[i]).fault() is None by {
            assert(ws.drop_first()[i] == ws[i + 1]);
        }
        lemma_no_witness_fault(ws.drop_first());
    }
}

/// Verifying a bundle that `generate_bundle` built from valid witnesses with
/// genuine proof ids raises no error: every witness is re-run, its invariants
/// are all counted, and the bundle fails only if some re-run found a
/// counterexample; an invariant that does not hold always makes it fail.
pub proof fn lemma_fresh_bundle_verifies(
    cfg: EngineConfig,
    ws: Seq<ProofWitness>,
    b: ProofBundle,
    r: BundleResult,
)
    requires
        1 <= ws.len() <= ProofBundle::MAX_WITNESSES,
        forall|i: int|
            0 <= i < ws.len() ==> {
                &&& (#[trigger] ws[i]).fault() is None
                &&& ws[i].invariants@.len() <= cfg.max_invariants
                &&& ws[i].proof_id@ == proof_id_of(
                    ws[i].execution_trace,
                    ws[i].capability_manifest,
                    ws[i].cost_ledger,
                    ws[i].policy_ir,
                    ws[i].invariants@,
                )
            },
        b.id@ == bundle_id_of(proof_ids(ws), Seq::empty()),
        b.id@.len() == 64,
        b.metadata@.len() == 0,
        b.witnesses@.len() == ws.len(),
        forall|i: int| 0 <= i < ws.len() ==> (#[trigger] b.witnesses@[i]).same_content(&ws[i]),
        bundle_report(cfg, b, r),
    ensures
        r.error is None,
        r.witness_results@.len() == ws.len(),
        forall|i: int|
            0 <= i < ws.len() ==> {
                &&& (#[trigger] r.witness_results@[i]).error is None
                &&& r.witness_results@[i].invariant_count == ws[i].invariants@.len()
            },
        forall|i: int|
            0 <= i < ws.len() && counterexamples_for(
                ws[i].execution_trace,
                ws[i].capability_manifest,
                ws[i].cost_ledger,
                ws[i].policy_ir,
                ws[i].invariants@,
            ).len() > 0 ==> !r.success,
{
    let bw = b.witnesses@;
    assert forall|i: int| 0 <= i < bw.len() implies (#[trigger] bw[i]).fault() is None by {
        lemma_same_content_same_outcome(bw[i], ws[i]);
    }
    lemma_no_witness_fault(bw);
    assert(proof_ids(bw) =~= proof_ids(ws));
    assert(members_model(b.metadata@) =~= Seq::<(Seq<char>, JsonModel)>::empty());
    assert(b.fault() is None);
    assert forall|i: int| 0 <= i < ws.len() implies {
        &&& (#[trigger] r.witness_results@[i]).error is None
        &&& r.witness_results@[i].invariant_count == ws[i].invariants@.len()
        &&& (counterexamples_for(
            ws[i].execution_trace,
            ws[i].capability_manifest,
            ws[i].cost_ledger,
            ws[i].policy_ir,
            ws[i].invariants@,
        ).len() > 0 ==> !r.witness_results@[i].success)
    } by {
        lemma_same_content_same_outcome(bw[i], ws[i]);
        assert(witness_report(cfg, bw[i], r.witness_results@[i]));
    }
    assert forall|i: int|
        0 <= i < ws.len() && counterexamples_for(
            ws[i].execution_trace,
            ws[i].capability_manifest,
            ws[i].cost_ledger,
            ws[i].policy_ir,
            ws[i].invariants@,
        ).len() > 0 implies !r.success by {
        assert(!r.witness_results@[i].success);
    }
}

} // verus!
