//! The in-memory, content-addressed artifact store.

use vstd::prelude::*;
use crate::digest::{compute_content_hash, content_hash};
use crate::engine::{ProofEngine, bundle_id_of, counterexamples_view, proof_id_of, proof_ids};
use crate::error::{ErrorView, FakError, FakResult, outcome_is};
use crate::json::{JsonModel, JsonValue};
use crate::types::{
    CapabilityManifest, CostLedger, ExecutionTrace, PolicyIR, ProofBundle, first_witness_fault,
};

verus! {

/// The value stored under `id` in `entries`, if any: the first entry with
/// that key.
pub open spec fn find_entry(entries: Seq<(String, JsonValue)>, id: Seq<char>) -> Option<JsonModel>
    decreases entries.len(),
{
    if entries.len() == 0 {
        None
    } else if entries[0].0@ == id {
        Some(entries[0].1@)
    } else {
        find_entry(entries.drop_first(), id)
    }
}

/// Artifacts keyed by their content identifier. The store owns copies of
/// what it holds; a clone copies the contents.
pub struct ArtifactManager {
    artifacts: Vec<(String, JsonValue)>,
}

impl ArtifactManager {
    /// The artifact stored under `id`, if any.
    pub closed spec fn lookup(&self, id: Seq<char>) -> Option<JsonModel> {
        find_entry(self.artifacts@, id)
    }

    /// What the store holds: each identifier with its artifact.
    pub open spec fn contents(&self) -> Map<Seq<char>, JsonModel> {
        Map::new(|id: Seq<char>| self.lookup(id) is Some, |id: Seq<char>| self.lookup(id)->Some_0)
    }

    /// An empty store.
    pub fn new() -> (r: Self)
        ensures
            r.contents() == Map::<Seq<char>, JsonModel>::empty(),
    {
        let r = ArtifactManager { artifacts: Vec::new() };
        assert(r.contents() =~= Map::<Seq<char>, JsonModel>::empty());
        r
    }

    /// The index of the first entry keyed `id`, if any.
    fn position(&self, id: &str) -> (r: Option<usize>)
        ensures
            match r {
                Some(i) => i < self.artifacts@.len() && self.artifacts@[i as int].0@ == id@
                    && self.lookup(id@) == Some(self.artifacts@[i as int].1@) && forall|j: int|
                    0 <= j < i ==> self.artifacts@[j].0@ != id@,
                None => self.lookup(id@) is None,
            },
    {
        let key = String::from_str(id);
        let mut i: usize = 0;
        assert(self.artifacts@.skip(0) =~= self.artifacts@);
        while i < self.artifacts.len()
            invariant
                key@ == id@,
                i <= self.artifacts@.len(),
                find_entry(self.artifacts@, id@) == find_entry(self.artifacts@.skip(i as int), id@),
                forall|j: int| 0 <= j < i ==> self.artifacts@[j].0@ != id@,
            decreases self.artifacts@.len() - i,
        {
            if self.artifacts[i].0 == key {
                return Some(i);
            }
            assert(self.artifacts@.skip(i as int).drop_first() =~= self.artifacts@.skip(i + 1));
            i = i + 1;
        }
        None
    }

    /// Stores a copy of `artifact` under its content identifier, replacing
    /// what was there, and returns that identifier.
    pub fn store_artifact(&mut self, artifact: &JsonValue) -> (r: FakResult<String>)
        ensures
            r is Ok,
            r->Ok_0@ == content_hash(artifact@),
            final(self).contents() == old(self).contents().insert(
                content_hash(artifact@),
                artifact@,
            ),
    {
        let artifact_id = compute_content_hash(artifact);
        let ghost old_entries = self.artifacts@;
        match self.position(artifact_id.as_str()) {
            Some(i) => {
                self.artifacts.set(i, (artifact_id.clone(), artifact.copy()));
                proof {
                    lemma_find_after_set(old_entries, i as int, self.artifacts@[i as int]);
                }
            },
            None => {
                self.artifacts.push((artifact_id.clone(), artifact.copy()));
                proof {
                    lemma_find_after_push(old_entries, self.artifacts@.last());
                }
            },
        }
        assert(self.contents() =~= old(self).contents().insert(content_hash(artifact@), artifact@));
        Ok(artifact_id)
    }

    /// A copy of the artifact stored under `artifact_id`.
    pub fn retrieve_artifact(&self, artifact_id: &str) -> (r: FakResult<JsonValue>)
        ensures
            if self.contents().contains_key(artifact_id@) {
                r is Ok && r->Ok_0@ == self.contents()[artifact_id@]
            } else {
                r is Err && r->Err_0@ == (ErrorView::ArtifactNotFound { artifact_id: artifact_id@ })
            },
    {
        match self.position(artifact_id) {
            Some(i) => Ok(self.artifacts[i].1.copy()),
            None => Err(FakError::ArtifactNotFound { artifact_id: String::from_str(artifact_id) }),
        }
    }

    /// Whether an artifact is stored under `artifact_id`.
    pub fn contains(&self, artifact_id: &str) -> (r: FakResult<bool>)
        ensures
            r == Ok::<bool, FakError>(self.contents().contains_key(artifact_id@)),
    {
        Ok(self.position(artifact_id).is_some())
    }

    /// Whether `artifact_id` is the content identifier of `artifact`.
    pub fn validate_artifact_integrity(&self, artifact_id: &str, artifact: &JsonValue) -> (r: bool)
        ensures
            r == (content_hash(artifact@) == artifact_id@),
    {
        let computed_id = compute_content_hash(artifact);
        computed_id == String::from_str(artifact_id)
    }

    fn verify_integrity(&self, artifact_id: &str, artifact: &JsonValue, _name: &str) -> (r:
        FakResult<()>)
        ensures
            outcome_is(
                r,
                if content_hash(artifact@) == artifact_id@ {
                    None
                } else {
                    Some(
                        ErrorView::IntegrityFailure {
                            artifact_id: artifact_id@,
                            expected: artifact_id@,
                            actual: content_hash(artifact@),
                        },
                    )
                },
            ),
    {
        if !self.validate_artifact_integrity(artifact_id, artifact) {
            return Err(
                FakError::IntegrityFailure {
                    artifact_id: String::from_str(artifact_id),
                    expected: String::from_str(artifact_id),
                    actual: compute_content_hash(artifact),
                },
            );
        }
        Ok(())
    }

    /// Validates the four artifacts, stores their structured forms, and
    /// bundles the witness of a run with no invariants.
    pub fn create_bundle(
        &mut self,
        trace: &ExecutionTrace,
        capabilities: &CapabilityManifest,
        cost_ledger: &CostLedger,
        policy_ir: &PolicyIR,
    ) -> (r: FakResult<ProofBundle>)
        ensures
            outcome_is(
                r,
                if trace.fault() is Some {
                    trace.fault()
                } else if capabilities.fault() is Some {
                    capabilities.fault()
                } else if cost_ledger.fault() is Some {
                    cost_ledger.fault()
                } else {
                    policy_ir.fault()
                },
            ),
            r is Ok ==> {
                let b = r->Ok_0;
                &&& final(self).contents() == old(self).contents().insert(
                    content_hash(trace.json()),
                    trace.json(),
                ).insert(content_hash(capabilities.json()), capabilities.json()).insert(
                    content_hash(cost_ledger.json()),
                    cost_ledger.json(),
                ).insert(content_hash(policy_ir.json()), policy_ir.json())
                &&& b.id@.len() == 64
                &&& b.metadata@.len() == 0
                &&& b.witnesses@.len() == 1
                &&& b.witnesses@[0].fault() is None
                &&& b.witnesses@[0].invariants@.len() == 0
                &&& b.witnesses@[0].counterexamples@.len() == 0
                &&& b.witnesses@[0].execution_trace.json() == trace.json()
                &&& b.witnesses@[0].execution_trace.id == trace.id
                &&& b.witnesses@[0].execution_trace.steps@.len() == trace.steps@.len()
                &&& b.witnesses@[0].capability_manifest.json() == capabilities.json()
                &&& b.witnesses@[0].capability_manifest.id == capabilities.id
                &&& b.witnesses@[0].capability_manifest.agent_id == capabilities.agent_id
                &&& b.witnesses@[0].cost_ledger.json() == cost_ledger.json()
                &&& b.witnesses@[0].cost_ledger.id == cost_ledger.id
                &&& b.witnesses@[0].cost_ledger.total_cost == cost_ledger.total_cost
                &&& b.witnesses@[0].policy_ir.json() == policy_ir.json()
                &&& b.witnesses@[0].policy_ir.id == policy_ir.id
                &&& b.witnesses@[0].proof_id@ == proof_id_of(
                    *trace,
                    *capabilities,
                    *cost_ledger,
                    *policy_ir,
                    Seq::empty(),
                )
                &&& b.id@ == bundle_id_of(proof_ids(b.witnesses@), Seq::empty())
            },
            r is Err ==> final(self).contents() == old(self).contents(),
    {
        trace.validate()?;
        capabilities.validate()?;
        cost_ledger.validate()?;
        policy_ir.validate()?;
        let trace_json = trace.to_json();
        let cap_json = capabilities.to_json();
        let cost_json = cost_ledger.to_json();
        let policy_json = policy_ir.to_json();
        let trace_id = self.store_artifact(&trace_json)?;
        let cap_id = self.store_artifact(&cap_json)?;
        let cost_id = self.store_artifact(&cost_json)?;
        let policy_id = self.store_artifact(&policy_json)?;
        self.verify_integrity(trace_id.as_str(), &trace_json, "trace")?;
        self.verify_integrity(cap_id.as_str(), &cap_json, "capability_manifest")?;
        self.verify_integrity(cost_id.as_str(), &cost_json, "cost_ledger")?;
        self.verify_integrity(policy_id.as_str(), &policy_json, "policy_ir")?;
        let engine = ProofEngine::new();
        let none: Vec<crate::types::InvariantSpec> = Vec::new();
        let witness = engine.verify_invariants(
            trace,
            capabilities,
            cost_ledger,
            policy_ir,
            none.as_slice(),
        )?;
        let mut ws: Vec<crate::types::ProofWitness> = Vec::new();
        let ghost w = witness;
        proof {
            let cv = counterexamples_view(w.counterexamples@);
            assert(none@ =~= Seq::<crate::types::InvariantSpec>::empty());
            assert(cv.len() == w.counterexamples@.len());
            assert(cv.len() == 0);
        }
        ws.push(witness);
        assert(ws@[0] == w);
        assert(w.fault() is None);
        assert(ws@.drop_first() =~= Seq::<crate::types::ProofWitness>::empty());
        assert(first_witness_fault(ws@.drop_first()) is None);
        assert(first_witness_fault(ws@) is None);
        engine.generate_bundle(ws.as_slice())
    }

    /// Removes every stored artifact.
    pub fn clear(&mut self) -> (r: FakResult<()>)
        ensures
            r is Ok,
            final(self).contents() == Map::<Seq<char>, JsonModel>::empty(),
    {
        self.artifacts.clear();
        assert(self.contents() =~= Map::<Seq<char>, JsonModel>::empty());
        Ok(())
    }
}

proof fn lemma_find_after_set(es: Seq<(String, JsonValue)>, i: int, e: (String, JsonValue))
    requires
        0 <= i < es.len(),
        es[i].0@ == e.0@,
        forall|j: int| 0 <= j < i ==> es[j].0@ != e.0@,
    ensures
        find_entry(es.update(i, e), e.0@) == Some(e.1@),
        forall|id: Seq<char>|
            id != e.0@ ==> #[trigger] find_entry(es.update(i, e), id) == find_entry(es, id),
    decreases es.len(),
{
    if i > 0 {
        lemma_find_after_set(es.drop_first(), i - 1, e);
        assert(es.update(i, e).drop_first() =~= es.drop_first().update(i - 1, e));
    }
    assert forall|id: Seq<char>| id != e.0@ implies #[trigger] find_entry(es.update(i, e), id)
        == find_entry(es, id) by {
        if i == 0 {
            assert(es.update(0, e).drop_first() =~= es.drop_first());
        } else {
            lemma_find_after_set(es.drop_first(), i - 1, e);
            assert(es.update(i, e).drop_first() =~= es.drop_first().update(i - 1, e));
            assert(find_entry(es.drop_first().update(i - 1, e), id) == find_entry(
                es.drop_first(),
                id,
            ));
        }
    }
}

proof fn lemma_find_after_push(es: Seq<(String, JsonValue)>, e: (String, JsonValue))
    requires
        find_entry(es, e.0@) is None,
    ensures
        find_entry(es.push(e), e.0@) == Some(e.1@),
        forall|id: Seq<char>|
            id != e.0@ ==> #[trigger] find_entry(es.push(e), id) == find_entry(es, id),
    decreases es.len(),
{
    if es.len() > 0 {
        lemma_find_after_push(es.drop_first(), e);
        assert(es.push(e).drop_first() =~= es.drop_first().push(e));
    } else {
        assert(es.push(e).drop_first() =~= es);
    }
    assert forall|id: Seq<char>| id != e.0@ implies #[trigger] find_entry(es.push(e), id)
        == find_entry(es, id) by {
        if es.len() > 0 {
            lemma_find_after_push(es.drop_first(), e);
            assert(es.push(e).drop_first() =~= es.drop_first().push(e));
            assert(find_entry(es.drop_first().push(e), id) == find_entry(es.drop_first(), id));
        } else {
            assert(es.push(e).drop_first() =~= es);
        }
    }
}

impl Clone for ArtifactManager {
    fn clone(&self) -> (r: Self)
        ensures
            r.contents() == self.contents(),
    {
        let mut copies: Vec<(String, JsonValue)> = Vec::new();
        let mut i: usize = 0;
        while i < self.artifacts.len()
            invariant
                i <= self.artifacts@.len(),
                copies@.len() == i,
                forall|j: int|
                    0 <= j < i ==> (#[trigger] copies@[j]).0@ == self.artifacts@[j].0@
                        && copies@[j].1@ == self.artifacts@[j].1@,
            decreases self.artifacts@.len() - i,
        {
            copies.push((self.artifacts[i].0.clone(), self.artifacts[i].1.copy()));
            i = i + 1;
        }
        let r = ArtifactManager { artifacts: copies };
        proof {
            assert forall|id: Seq<char>| #[trigger] r.lookup(id) == self.lookup(id) by {
                lemma_find_same_keys(copies@, self.artifacts@, id);
            }
            assert(r.contents() =~= self.contents());
        }
        r
    }
}

proof fn lemma_find_same_keys(a: Seq<(String, JsonValue)>, b: Seq<(String, JsonValue)>, id: Seq<char>)
    requires
        a.len() == b.len(),
        forall|j: int| 0 <= j < a.len() ==> (#[trigger] a[j]).0@ == b[j].0@ && a[j].1@ == b[j].1@,
    ensures
        find_entry(a, id) == find_entry(b, id),
    decreases a.len(),
{
    if a.len() > 0 {
        lemma_find_same_keys(a.drop_first(), b.drop_first(), id);
    }
}

impl Default for ArtifactManager {
    fn default() -> (r: Self)
        ensures
            r.contents() == Map::<Seq<char>, JsonModel>::empty(),
    {
        ArtifactManager::new()
    }
}

/// Retrieving the identifier under which `v` was stored gives `v` back,
/// whatever the store held before; storing it again changes nothing.
pub proof fn lemma_store_round_trip(contents: Map<Seq<char>, JsonModel>, v: JsonModel)
    ensures
        contents.insert(content_hash(v), v).contains_key(content_hash(v)),
        contents.insert(content_hash(v), v)[content_hash(v)] == v,
        contents.insert(content_hash(v), v).insert(content_hash(v), v) == contents.insert(
            content_hash(v),
            v,
        ),
{
    assert(contents.insert(content_hash(v), v).insert(content_hash(v), v) =~= contents.insert(
        content_hash(v),
        v,
    ));
}

} // verus!
