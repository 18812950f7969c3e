//! The proof engine: evaluates invariants against a governance snapshot and
//! packages the evidence as witnesses and bundles.

use vstd::prelude::*;
use crate::digest::{compute_content_hash, content_hash};
use crate::error::{ErrorView, FakError, FakResult, outcome_is, validation_error};
use crate::json::{JsonModel, JsonValue, copy_members, json_str, members_model};
use crate::text::{decimal_string, decimal_text};
use crate::types::{
    CapabilityManifest, CostLedger, CounterExample, CounterExampleView, ExecutionTrace,
    InvariantSpec, PolicyIR, ProofBundle, ProofType, ProofWitness, first_witness_fault, member,
    object_of,
};

verus! {

/// Resource limits of the engine.
#[derive(Clone, Copy, Debug)]
pub struct EngineConfig {
    /// The most invariants one call may evaluate.
    pub max_invariants: usize,
    /// The wall-clock budget of one call, in milliseconds.
    pub timeout_millis: u64,
}

impl Default for EngineConfig {
    fn default() -> (r: Self)
        ensures
            r.max_invariants == 1000,
            r.timeout_millis == 30000,
    {
        EngineConfig { max_invariants: 1000, timeout_millis: 30000 }
    }
}

/// Relies on `std::time::SystemTime::elapsed` from the Unix epoch: the wall
/// clock in milliseconds (0 when the clock reads earlier). Nothing is promised
/// of the reading.
#[verifier::external_body]
fn now_millis() -> u64 {
    match std::time::UNIX_EPOCH.elapsed() {
        Ok(d) => d.as_millis() as u64,
        Err(_) => 0,
    }
}

/// The outcome of checking one invariant: whether it holds, or the error that
/// kept it from being checked.
pub open spec fn check_outcome(
    trace: ExecutionTrace,
    caps: CapabilityManifest,
    ledger: CostLedger,
    policy: PolicyIR,
    inv: InvariantSpec,
) -> Result<bool, ErrorView> {
    match inv.fault() {
        Some(e) => Err(e),
        None => Ok(
            match inv.invariant_type {
                ProofType::BehavioralSoundness => trace.steps@.len() > 0 || inv.precondition is None,
                ProofType::AuthorityNonEscalation => caps.authority_graph@.len() > 0
                    || inv.precondition is None,
                ProofType::EconomicInvariance => ledger.total_cost.at_least_zero(),
                ProofType::SemanticPreservation => policy.id@.len() > 0,
            },
        ),
    }
}

/// The counterexample that one invariant yields, if any.
pub open spec fn counterexample_for(
    trace: ExecutionTrace,
    caps: CapabilityManifest,
    ledger: CostLedger,
    policy: PolicyIR,
    inv: InvariantSpec,
) -> Option<CounterExampleView> {
    match check_outcome(trace, caps, ledger, policy, inv) {
        Ok(true) => None,
        Ok(false) => Some(
            CounterExampleView {
                invariant_name: inv.name@,
                error_type: "violation"@,
                details: JsonModel::Object(
                    seq![
                        ("reason"@, JsonModel::Str("Invariant violated"@)),
                        ("invariant_type"@, JsonModel::Str(inv.invariant_type.name())),
                    ],
                ),
                step_index: None,
            },
        ),
        Err(e) => Some(
            CounterExampleView {
                invariant_name: inv.name@,
                error_type: "check_error"@,
                details: JsonModel::Object(seq![("error"@, JsonModel::Str(e.text()))]),
                step_index: None,
            },
        ),
    }
}

/// The counterexamples of `invs`, evaluated in order.
pub open spec fn counterexamples_for(
    trace: ExecutionTrace,
    caps: CapabilityManifest,
    ledger: CostLedger,
    policy: PolicyIR,
    invs: Seq<InvariantSpec>,
) -> Seq<CounterExampleView>
    decreases invs.len(),
{
    if invs.len() == 0 {
        Seq::empty()
    } else {
        let prev = counterexamples_for(trace, caps, ledger, policy, invs.drop_last());
        match counterexample_for(trace, caps, ledger, policy, invs.last()) {
            Some(c) => prev.push(c),
            None => prev,
        }
    }
}

/// The counterexample recorded when the budget ran out before invariant `name`.
pub open spec fn timeout_counterexample(
    name: Seq<char>,
    elapsed_millis: u64,
    limit_millis: u64,
) -> CounterExampleView {
    CounterExampleView {
        invariant_name: name,
        error_type: "timeout"@,
        details: JsonModel::Object(
            seq![
                ("reason"@, JsonModel::Str("Verification timed out"@)),
                ("elapsed_millis"@, JsonModel::Number(decimal_text(elapsed_millis as nat))),
                ("limit_millis"@, JsonModel::Number(decimal_text(limit_millis as nat))),
            ],
        ),
        step_index: None,
    }
}

/// The evaluation of `invs` as the clock allowed it: all of them, or those
/// before some invariant at which the elapsed time exceeded the limit,
/// followed by a timeout counterexample for that invariant.
pub open spec fn evaluated_within(
    cs: Seq<CounterExampleView>,
    trace: ExecutionTrace,
    caps: CapabilityManifest,
    ledger: CostLedger,
    policy: PolicyIR,
    invs: Seq<InvariantSpec>,
    limit_millis: u64,
) -> bool {
    cs == counterexamples_for(trace, caps, ledger, policy, invs) || exists|k: int, elapsed: u64|
        0 <= k < invs.len() && elapsed > limit_millis && cs == counterexamples_for(
            trace,
            caps,
            ledger,
            policy,
            invs.take(k),
        ).push(timeout_counterexample(invs[k].name@, elapsed, limit_millis))
}

/// The contents of a sequence of counterexamples.
pub open spec fn counterexamples_view(v: Seq<CounterExample>) -> Seq<CounterExampleView> {
    Seq::new(v.len(), |i: int| v[i]@)
}

/// The names of `invs`, in order.
pub open spec fn invariant_names(invs: Seq<InvariantSpec>) -> Seq<Seq<char>> {
    Seq::new(invs.len(), |i: int| invs[i].name@)
}

/// Texts as a JSON array of strings.
pub open spec fn texts_json(v: Seq<Seq<char>>) -> JsonModel {
    JsonModel::Array(Seq::new(v.len(), |i: int| JsonModel::Str(v[i])))
}

/// The summary that a proof id is computed from: the four artifact ids and the
/// invariant names.
pub open spec fn proof_summary(
    trace_id: Seq<char>,
    capabilities_id: Seq<char>,
    cost_ledger_id: Seq<char>,
    policy_ir_id: Seq<char>,
    names: Seq<Seq<char>>,
) -> JsonModel {
    JsonModel::Object(
        seq![
            ("trace_id"@, JsonModel::Str(trace_id)),
            ("capabilities_id"@, JsonModel::Str(capabilities_id)),
            ("cost_ledger_id"@, JsonModel::Str(cost_ledger_id)),
            ("policy_ir_id"@, JsonModel::Str(policy_ir_id)),
            ("invariant_names"@, texts_json(names)),
        ],
    )
}

/// The proof id of a run over these artifacts and invariants.
pub open spec fn proof_id_of(
    trace: ExecutionTrace,
    caps: CapabilityManifest,
    ledger: CostLedger,
    policy: PolicyIR,
    invs: Seq<InvariantSpec>,
) -> Seq<char> {
    content_hash(proof_summary(trace.id@, caps.id@, ledger.id@, policy.id@, invariant_names(invs)))
}

/// The proof ids of `ws`, in order.
pub open spec fn proof_ids(ws: Seq<ProofWitness>) -> Seq<Seq<char>> {
    Seq::new(ws.len(), |i: int| ws[i].proof_id@)
}

/// The summary that a bundle id is computed from.
pub open spec fn bundle_summary(ids: Seq<Seq<char>>, metadata: Seq<(Seq<char>, JsonModel)>) -> JsonModel {
    JsonModel::Object(
        seq![("witnesses"@, texts_json(ids)), ("metadata"@, JsonModel::Object(metadata))],
    )
}

/// The id of a bundle of witnesses with these proof ids and this metadata.
pub open spec fn bundle_id_of(ids: Seq<Seq<char>>, metadata: Seq<(Seq<char>, JsonModel)>) -> Seq<char> {
    content_hash(bundle_summary(ids, metadata))
}

/// The failure that a call of `verify_invariants` reports before evaluating
/// anything, if any: the first invalid artifact, then too many invariants.
pub open spec fn precheck(
    trace: ExecutionTrace,
    caps: CapabilityManifest,
    ledger: CostLedger,
    policy: PolicyIR,
    count: nat,
    max: usize,
) -> Option<ErrorView> {
    if trace.fault() is Some {
        trace.fault()
    } else if caps.fault() is Some {
        caps.fault()
    } else if ledger.fault() is Some {
        ledger.fault()
    } else if policy.fault() is Some {
        policy.fault()
    } else if count > max {
        Some(ErrorView::ResourceLimit { resource: "invariants"@, limit: max, actual: count as usize })
    } else {
        None
    }
}

/// Strings as a JSON array of strings.
fn texts_to_json(v: &Vec<String>) -> (r: JsonValue)
    ensures
        r@ == texts_json(Seq::new(v@.len(), |i: int| v@[i]@)),
{
    let mut out: Vec<JsonValue> = Vec::new();
    let mut i: usize = 0;
    while i < v.len()
        invariant
            i <= v@.len(),
            out@.len() == i,
            forall|j: int| 0 <= j < i ==> (#[trigger] out@[j])@ == JsonModel::Str(v@[j]@),
        decreases v@.len() - i,
    {
        out.push(JsonValue::Str(v[i].clone()));
        i = i + 1;
    }
    let r = JsonValue::Array(out);
    assert(r@->Array_0 =~= texts_json(Seq::new(v@.len(), |i: int| v@[i]@))->Array_0);
    r
}

/// The bundle id of witnesses `ws` under `metadata`.
pub fn compute_bundle_id(ws: &[ProofWitness], metadata: &Vec<(String, JsonValue)>) -> (r: String)
    ensures
        r@ == bundle_id_of(proof_ids(ws@), members_model(metadata@)),
        r@.len() == 64,
{
    let mut ids: Vec<String> = Vec::new();
    let mut i: usize = 0;
    while i < ws.len()
        invariant
            i <= ws@.len(),
            ids@.len() == i,
            forall|j: int| 0 <= j < i ==> (#[trigger] ids@[j])@ == ws@[j].proof_id@,
        decreases ws@.len() - i,
    {
        ids.push(ws[i].proof_id.clone());
        i = i + 1;
    }
    let list = texts_to_json(&ids);
    assert(Seq::new(ids@.len(), |i: int| ids@[i]@) =~= proof_ids(ws@));
    let meta = object_of(copy_members(metadata));
    let mut m: Vec<(String, JsonValue)> = Vec::new();
    m.push(member("witnesses", list));
    m.push(member("metadata", meta));
    let summary = object_of(m);
    assert(summary@->Object_0 =~= bundle_summary(
        proof_ids(ws@),
        members_model(metadata@),
    )->Object_0);
    compute_content_hash(&summary)
}

/// Evaluates invariants against governance artifacts and builds their witness.
pub struct ProofEngine {
    pub config: EngineConfig,
}

impl ProofEngine {
    /// An engine with the default limits.
    pub fn new() -> (r: Self)
        ensures
            r.config.max_invariants == 1000,
            r.config.timeout_millis == 30000,
    {
        ProofEngine { config: EngineConfig::default() }
    }

    /// An engine with the given limits.
    pub fn with_config(config: EngineConfig) -> (r: Self)
        ensures
            r.config == config,
    {
        ProofEngine { config }
    }

    fn check_behavioral_soundness(&self, trace: &ExecutionTrace, inv: &InvariantSpec) -> (r:
        FakResult<bool>)
        ensures
            r == Ok::<bool, FakError>(trace.steps@.len() > 0 || inv.precondition is None),
    {
        Ok(!trace.steps.is_empty() || inv.precondition.is_none())
    }

    fn check_authority_non_escalation(
        &self,
        caps: &CapabilityManifest,
        inv: &InvariantSpec,
    ) -> (r: FakResult<bool>)
        ensures
            r == Ok::<bool, FakError>(caps.authority_graph@.len() > 0 || inv.precondition is None),
    {
        Ok(!caps.authority_graph.is_empty() || inv.precondition.is_none())
    }

    fn check_economic_invariance(&self, ledger: &CostLedger, _inv: &InvariantSpec) -> (r:
        FakResult<bool>)
        ensures
            r == Ok::<bool, FakError>(ledger.total_cost.at_least_zero()),
    {
        Ok(ledger.total_cost.is_at_least_zero())
    }

    fn check_semantic_preservation(&self, policy: &PolicyIR, _inv: &InvariantSpec) -> (r:
        FakResult<bool>)
        ensures
            r == Ok::<bool, FakError>(policy.id@.len() > 0),
    {
        Ok(!policy.id.as_str().is_empty())
    }

    /// Checks one invariant with the check its type selects.
    fn check_invariant(
        &self,
        trace: &ExecutionTrace,
        caps: &CapabilityManifest,
        ledger: &CostLedger,
        policy: &PolicyIR,
        inv: &InvariantSpec,
    ) -> (r: FakResult<bool>)
        ensures
            match check_outcome(*trace, *caps, *ledger, *policy, *inv) {
                Ok(b) => r == Ok::<bool, FakError>(b),
                Err(e) => r is Err && r->Err_0@ == e,
            },
    {
        inv.validate()?;
        match inv.invariant_type {
            ProofType::BehavioralSoundness => self.check_behavioral_soundness(trace, inv),
            ProofType::AuthorityNonEscalation => self.check_authority_non_escalation(caps, inv),
            ProofType::EconomicInvariance => self.check_economic_invariance(ledger, inv),
            ProofType::SemanticPreservation => self.check_semantic_preservation(policy, inv),
        }
    }

    /// The counterexample of a failed check.
    fn violation(inv: &InvariantSpec) -> (r: CounterExample)
        ensures
            r@ == (CounterExampleView {
                invariant_name: inv.name@,
                error_type: "violation"@,
                details: JsonModel::Object(
                    seq![
                        ("reason"@, JsonModel::Str("Invariant violated"@)),
                        ("invariant_type"@, JsonModel::Str(inv.invariant_type.name())),
                    ],
                ),
                step_index: None,
            }),
    {
        let mut m: Vec<(String, JsonValue)> = Vec::new();
        m.push(member("reason", json_str("Invariant violated")));
        m.push(member("invariant_type", json_str(inv.invariant_type.as_str())));
        let details = object_of(m);
        assert(details@->Object_0 =~= seq![
            ("reason"@, JsonModel::Str("Invariant violated"@)),
            ("invariant_type"@, JsonModel::Str(inv.invariant_type.name())),
        ]);
        CounterExample {
            invariant_name: inv.name.clone(),
            error_type: String::from_str("violation"),
            details,
            step_index: None,
        }
    }

    /// The counterexample of a check that could not run.
    fn check_error(inv: &InvariantSpec, e: &FakError) -> (r: CounterExample)
        ensures
            r@ == (CounterExampleView {
                invariant_name: inv.name@,
                error_type: "check_error"@,
                details: JsonModel::Object(seq![("error"@, JsonModel::Str(e@.text()))]),
                step_index: None,
            }),
    {
        let mut m: Vec<(String, JsonValue)> = Vec::new();
        m.push(member("error", JsonValue::Str(e.message())));
        let details = object_of(m);
        assert(details@->Object_0 =~= seq![("error"@, JsonModel::Str(e@.text()))]);
        CounterExample {
            invariant_name: inv.name.clone(),
            error_type: String::from_str("check_error"),
            details,
            step_index: None,
        }
    }

    /// The counterexample recorded when the budget ran out before `inv`.
    pub fn timeout(inv: &InvariantSpec, elapsed_millis: u64, limit_millis: u64) -> (r:
        CounterExample)
        ensures
            r@ == timeout_counterexample(inv.name@, elapsed_millis, limit_millis),
    {
        let mut m: Vec<(String, JsonValue)> = Vec::new();
        m.push(member("reason", json_str("Verification timed out")));
        m.push(member("elapsed_millis", JsonValue::Number(decimal_string(elapsed_millis))));
        m.push(member("limit_millis", JsonValue::Number(decimal_string(limit_millis))));
        let details = object_of(m);
        assert(details@->Object_0 =~= timeout_counterexample(
            inv.name@,
            elapsed_millis,
            limit_millis,
        ).details->Object_0);
        CounterExample {
            invariant_name: inv.name.clone(),
            error_type: String::from_str("timeout"),
            details,
            step_index: None,
        }
    }

    /// The counterexample that checking `inv` yields, if any.
    pub fn evaluate(
        &self,
        trace: &ExecutionTrace,
        caps: &CapabilityManifest,
        ledger: &CostLedger,
        policy: &PolicyIR,
        inv: &InvariantSpec,
    ) -> (r: Option<CounterExample>)
        ensures
            match counterexample_for(*trace, *caps, *ledger, *policy, *inv) {
                Some(c) => r is Some && r->Some_0@ == c,
                None => r is None,
            },
    {
        match self.check_invariant(trace, caps, ledger, policy, inv) {
            Ok(true) => None,
            Ok(false) => Some(Self::violation(inv)),
            Err(e) => Some(Self::check_error(inv, &e)),
        }
    }

    /// The proof id of a run over these artifacts and invariants.
    pub fn proof_id(
        trace: &ExecutionTrace,
        caps: &CapabilityManifest,
        ledger: &CostLedger,
        policy: &PolicyIR,
        invariants: &[InvariantSpec],
    ) -> (r: String)
        ensures
            r@ == proof_id_of(*trace, *caps, *ledger, *policy, invariants@),
            r@.len() == 64,
    {
        let mut names: Vec<String> = Vec::new();
        let mut i: usize = 0;
        while i < invariants.len()
            invariant
                i <= invariants@.len(),
                names@.len() == i,
                forall|j: int| 0 <= j < i ==> (#[trigger] names@[j])@ == invariants@[j].name@,
            decreases invariants@.len() - i,
        {
            names.push(invariants[i].name.clone());
            i = i + 1;
        }
        let list = texts_to_json(&names);
        assert(Seq::new(names@.len(), |i: int| names@[i]@) =~= invariant_names(invariants@));
        let mut m: Vec<(String, JsonValue)> = Vec::new();
        m.push(member("trace_id", JsonValue::Str(trace.id.clone())));
        m.push(member("capabilities_id", JsonValue::Str(caps.id.clone())));
        m.push(member("cost_ledger_id", JsonValue::Str(ledger.id.clone())));
        m.push(member("policy_ir_id", JsonValue::Str(policy.id.clone())));
        m.push(member("invariant_names", list));
        let summary = object_of(m);
        assert(summary@->Object_0 =~= proof_summary(
            trace.id@,
            caps.id@,
            ledger.id@,
            policy.id@,
            invariant_names(invariants@),
        )->Object_0);
        compute_content_hash(&summary)
    }

    /// Validates the four artifacts, evaluates `invariants` in order within
    /// the time budget, and returns the witness: copies of the artifacts and
    /// invariants, the counterexamples found, and a proof id derived from the
    /// artifact ids and invariant names.
    pub fn verify_invariants(
        &self,
        trace: &ExecutionTrace,
        capabilities: &CapabilityManifest,
        cost_ledger: &CostLedger,
        policy_ir: &PolicyIR,
        invariants: &[InvariantSpec],
    ) -> (r: FakResult<ProofWitness>)
        ensures
            outcome_is(
                r,
                precheck(
                    *trace,
                    *capabilities,
                    *cost_ledger,
                    *policy_ir,
                    invariants@.len(),
                    self.config.max_invariants,
                ),
            ),
            r is Ok ==> {
                let w = r->Ok_0;
                &&& w.fault() is None
                &&& w.proof_id@.len() == 64
                &&& w.proof_id@ == proof_id_of(
                    *trace,
                    *capabilities,
                    *cost_ledger,
                    *policy_ir,
                    invariants@,
                )
                &&& w.execution_trace.json() == trace.json()
                &&& w.execution_trace.id == trace.id
                &&& w.execution_trace.steps@.len() == trace.steps@.len()
                &&& w.capability_manifest.json() == capabilities.json()
                &&& w.capability_manifest.id == capabilities.id
                &&& w.capability_manifest.agent_id == capabilities.agent_id
                &&& w.capability_manifest.authority_graph@.len()
                    == capabilities.authority_graph@.len()
                &&& w.cost_ledger.json() == cost_ledger.json()
                &&& w.cost_ledger.id == cost_ledger.id
                &&& w.cost_ledger.total_cost == cost_ledger.total_cost
                &&& w.policy_ir.json() == policy_ir.json()
                &&& w.policy_ir.id == policy_ir.id
                &&& w.invariants@.len() == invariants@.len()
                &&& forall|i: int|
                    0 <= i < invariants@.len() ==> w.invariants@[i]@ == invariants@[i]@
                &&& evaluated_within(
                    counterexamples_view(w.counterexamples@),
                    *trace,
                    *capabilities,
                    *cost_ledger,
                    *policy_ir,
                    invariants@,
                    self.config.timeout_millis,
                )
            },
    {
        trace.validate()?;
        capabilities.validate()?;
        cost_ledger.validate()?;
        policy_ir.validate()?;
        let start = now_millis();
        if invariants.len() > self.config.max_invariants {
            return Err(
                FakError::ResourceLimit {
                    resource: String::from_str("invariants"),
                    limit: self.config.max_invariants,
                    actual: invariants.len(),
                },
            );
        }
        let ghost invs = invariants@;
        let ghost (t, c, l, p) = (*trace, *capabilities, *cost_ledger, *policy_ir);
        let limit = self.config.timeout_millis;
        let mut counterexamples: Vec<CounterExample> = Vec::new();
        let mut copies: Vec<InvariantSpec> = Vec::new();
        let mut i: usize = 0;
        assert(invs.take(invs.len() as int) =~= invs);
        while i < invariants.len()
            invariant_except_break
                counterexamples_view(counterexamples@) == counterexamples_for(
                    t,
                    c,
                    l,
                    p,
                    invs.take(i as int),
                ),
            invariant
                invs == invariants@,
                t == *trace && c == *capabilities && l == *cost_ledger && p == *policy_ir,
                limit == self.config.timeout_millis,
                i <= invs.len(),
                invs.take(invs.len() as int) == invs,
            ensures
                evaluated_within(counterexamples_view(counterexamples@), t, c, l, p, invs, limit),
            decreases invs.len() - i,
        {
            let now = now_millis();
            let elapsed: u64 = if now >= start {
                now - start
            } else {
                0
            };
            if elapsed > limit {
                let ghost before = counterexamples@;
                counterexamples.push(Self::timeout(&invariants[i], elapsed, limit));
                proof {
                    assert(counterexamples_view(counterexamples@) =~= counterexamples_view(
                        before,
                    ).push(timeout_counterexample(invs[i as int].name@, elapsed, limit)));
                    assert(0 <= i < invs.len() && elapsed > limit && counterexamples_view(
                        counterexamples@,
                    ) == counterexamples_for(t, c, l, p, invs.take(i as int)).push(
                        timeout_counterexample(invs[i as int].name@, elapsed, limit),
                    ));
                }
                break;
            }
            let ghost before = counterexamples@;
            let found = self.evaluate(trace, capabilities, cost_ledger, policy_ir, &invariants[i]);
            match found {
                Some(ce) => {
                    counterexamples.push(ce);
                    assert(counterexamples_view(counterexamples@) =~= counterexamples_view(
                        before,
                    ).push(ce@));
                },
                None => {},
            }
            proof {
                assert(invs.take(i + 1).drop_last() =~= invs.take(i as int));
                assert(invs.take(i + 1).last() == invs[i as int]);
                assert(counterexamples_view(counterexamples@) =~= counterexamples_for(
                    t,
                    c,
                    l,
                    p,
                    invs.take(i + 1),
                ));
            }
            i = i + 1;
        }
        let mut k: usize = 0;
        while k < invariants.len()
            invariant
                k <= invariants@.len(),
                copies@.len() == k,
                forall|j: int| 0 <= j < k ==> (#[trigger] copies@[j])@ == invariants@[j]@,
            decreases invariants@.len() - k,
        {
            copies.push(invariants[k].copy());
            k = k + 1;
        }
        let proof_id = Self::proof_id(trace, capabilities, cost_ledger, policy_ir, invariants);
        Ok(
            ProofWitness {
                proof_id,
                execution_trace: trace.copy(),
                capability_manifest: capabilities.copy(),
                cost_ledger: cost_ledger.copy(),
                policy_ir: policy_ir.copy(),
                invariants: copies,
                counterexamples,
            },
        )
    }

    /// Bundles witnesses: at least one, each valid; the bundle id is derived
    /// from the witnesses' proof ids, and the metadata starts empty.
    pub fn generate_bundle(&self, witnesses: &[ProofWitness]) -> (r: FakResult<ProofBundle>)
        ensures
            outcome_is(
                r,
                if witnesses@.len() == 0 {
                    Some(
                        ErrorView::Validation {
                            field: "witnesses"@,
                            message: "cannot create bundle with zero witnesses"@,
                        },
                    )
                } else {
                    first_witness_fault(witnesses@)
                },
            ),
            r is Ok ==> {
                let b = r->Ok_0;
                &&& b.id@ == bundle_id_of(proof_ids(witnesses@), Seq::empty())
                &&& b.id@.len() == 64
                &&& b.metadata@.len() == 0
                &&& b.witnesses@.len() == witnesses@.len()
                &&& proof_ids(b.witnesses@) == proof_ids(witnesses@)
                &&& forall|i: int|
                    0 <= i < witnesses@.len() ==> {
                        &&& b.witnesses@[i].same_content(&witnesses@[i])
                        &&& b.witnesses@[i].fault() == witnesses@[i].fault()
                    }
            },
    {
        if witnesses.len() == 0 {
            return Err(validation_error("witnesses", "cannot create bundle with zero witnesses"));
        }
        let mut i: usize = 0;
        assert(witnesses@.skip(0) =~= witnesses@);
        while i < witnesses.len()
            invariant
                i <= witnesses@.len(),
                first_witness_fault(witnesses@) == first_witness_fault(witnesses@.skip(i as int)),
            decreases witnesses@.len() - i,
        {
            witnesses[i].validate()?;
            assert(witnesses@.skip(i as int).drop_first() =~= witnesses@.skip(i + 1));
            i = i + 1;
        }
        let metadata: Vec<(String, JsonValue)> = Vec::new();
        assert(members_model(metadata@) =~= Seq::empty());
        let id = compute_bundle_id(witnesses, &metadata);
        let mut copies: Vec<ProofWitness> = Vec::new();
        let mut k: usize = 0;
        while k < witnesses.len()
            invariant
                k <= witnesses@.len(),
                copies@.len() == k,
                forall|j: int|
                    0 <= j < k ==> {
                        &&& (#[trigger] copies@[j]).same_content(&witnesses@[j])
                        &&& copies@[j].fault() == witnesses@[j].fault()
                    },
            decreases witnesses@.len() - k,
        {
            copies.push(witnesses[k].copy());
            k = k + 1;
        }
        assert(proof_ids(copies@) =~= proof_ids(witnesses@));
        Ok(ProofBundle { id, witnesses: copies, metadata })
    }
}

impl Default for ProofEngine {
    fn default() -> (r: Self)
        ensures
            r.config.max_invariants == 1000,
            r.config.timeout_millis == 30000,
    {
        ProofEngine::new()
    }
}

/// More invariants than the engine allows are rejected before any is
/// evaluated, once the artifacts are valid.
pub proof fn lemma_invariant_ceiling(
    trace: ExecutionTrace,
    caps: CapabilityManifest,
    ledger: CostLedger,
    policy: PolicyIR,
    count: nat,
    max: usize,
)
    requires
        trace.fault() is None,
        caps.fault() is None,
        ledger.fault() is None,
        policy.fault() is None,
        count > max,
    ensures
        precheck(trace, caps, ledger, policy, count, max) == Some(
            ErrorView::ResourceLimit { resource: "invariants"@, limit: max, actual: count as usize },
        ),
{
}

proof fn lemma_outcomes_congruent(a: ProofWitness, b: ProofWitness, n: int)
    requires
        a.same_content(&b),
        0 <= n <= a.invariants@.len(),
    ensures
        counterexamples_for(
            a.execution_trace,
            a.capability_manifest,
            a.cost_ledger,
            a.policy_ir,
            a.invariants@.take(n),
        ) == counterexamples_for(
            b.execution_trace,
            b.capability_manifest,
            b.cost_ledger,
            b.policy_ir,
            b.invariants@.take(n),
        ),
    decreases n,
{
    if n > 0 {
        lemma_outcomes_congruent(a, b, n - 1);
        assert(a.invariants@.take(n).drop_last() =~= a.invariants@.take(n - 1));
        assert(b.invariants@.take(n).drop_last() =~= b.invariants@.take(n - 1));
        let x = a.invariants@[n - 1];
        let y = b.invariants@[n - 1];
        assert(x@ == y@);
        assert(x.precondition is None <==> y.precondition is None);
    }
}

/// Witnesses with the same content have the same proof id and yield the same
/// counterexamples when re-run: re-verification depends on content alone.
pub proof fn lemma_same_content_same_outcome(a: ProofWitness, b: ProofWitness)
    requires
        a.same_content(&b),
    ensures
        a.fault() == b.fault(),
        proof_id_of(a.execution_trace, a.capability_manifest, a.cost_ledger, a.policy_ir, a.invariants@)
            == proof_id_of(
            b.execution_trace,
            b.capability_manifest,
            b.cost_ledger,
            b.policy_ir,
            b.invariants@,
        ),
        counterexamples_for(
            a.execution_trace,
            a.capability_manifest,
            a.cost_ledger,
            a.policy_ir,
            a.invariants@,
        ) == counterexamples_for(
            b.execution_trace,
            b.capability_manifest,
            b.cost_ledger,
            b.policy_ir,
            b.invariants@,
        ),
{
    assert(invariant_names(a.invariants@) =~= invariant_names(b.invariants@)) by {
        assert forall|i: int| 0 <= i < a.invariants@.len() implies a.invariants@[i].name@
            == b.invariants@[i].name@ by {
            assert(a.invariants@[i]@ == b.invariants@[i]@);
        }
    }
    lemma_outcomes_congruent(a, b, a.invariants@.len() as int);
    assert(a.invariants@.take(a.invariants@.len() as int) =~= a.invariants@);
    assert(b.invariants@.take(b.invariants@.len() as int) =~= b.invariants@);
}

} // verus!
