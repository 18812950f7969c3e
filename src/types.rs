//! The data model: governance artifacts, invariant specifications, witnesses
//! and bundles.

use vstd::prelude::*;
use crate::error::{ErrorView, FakError, FakResult, outcome_is, validation_error};
use crate::json::{
    JsonModel, JsonValue, copy_members, copy_values, members_model, values_model,
};
use crate::text::{decimal_string, decimal_text, trim, trim_string};

verus! {

/// The four categories of invariant, each bound to its own check.
#[derive(Clone, Copy, Debug, PartialEq, Eq, Structural, Hash)]
pub enum ProofType {
    BehavioralSoundness,
    AuthorityNonEscalation,
    EconomicInvariance,
    SemanticPreservation,
}

/// The lowercase form of `s`, as `str::to_lowercase` gives it.
pub uninterp spec fn lower_of(s: Seq<char>) -> Seq<char>;

/// Relies on `str::to_lowercase`: Unicode lowercase mapping of every
/// character, a function of the characters alone.
#[verifier::external_body]
fn lowercase(s: &str) -> (r: String)
    ensures
        r@ == lower_of(s@),
{
    s.to_lowercase()
}

impl ProofType {
    /// The canonical snake_case name.
    pub open spec fn name(self) -> Seq<char> {
        match self {
            ProofType::BehavioralSoundness => "behavioral_soundness"@,
            ProofType::AuthorityNonEscalation => "authority_non_escalation"@,
            ProofType::EconomicInvariance => "economic_invariance"@,
            ProofType::SemanticPreservation => "semantic_preservation"@,
        }
    }

    /// The proof type that a lowercase name denotes, in snake_case or run
    /// together.
    pub open spec fn named(s: Seq<char>) -> Option<ProofType> {
        if s == "behavioral_soundness"@ || s == "behavioralsoundness"@ {
            Some(ProofType::BehavioralSoundness)
        } else if s == "authority_non_escalation"@ || s == "authoritynonescalation"@ {
            Some(ProofType::AuthorityNonEscalation)
        } else if s == "economic_invariance"@ || s == "economicinvariance"@ {
            Some(ProofType::EconomicInvariance)
        } else if s == "semantic_preservation"@ || s == "semanticpreservation"@ {
            Some(ProofType::SemanticPreservation)
        } else {
            None
        }
    }

    /// The proof type that the text `s` names, ignoring case and surrounding
    /// white space.
    pub open spec fn parsed(s: Seq<char>) -> Option<ProofType> {
        Self::named(lower_of(trim(s)))
    }

    /// Converts the proof type to its canonical name.
    pub fn as_str(&self) -> (r: &'static str)
        ensures
            r@ == self.name(),
    {
        match self {
            ProofType::BehavioralSoundness => "behavioral_soundness",
            ProofType::AuthorityNonEscalation => "authority_non_escalation",
            ProofType::EconomicInvariance => "economic_invariance",
            ProofType::SemanticPreservation => "semantic_preservation",
        }
    }

    /// Looks up an already lowercased, trimmed name.
    pub fn from_lowercase(s: &str) -> (r: Option<ProofType>)
        ensures
            r == Self::named(s@),
    {
        let t = String::from_str(s);
        if t == String::from_str("behavioral_soundness") || t == String::from_str(
            "behavioralsoundness",
        ) {
            Some(ProofType::BehavioralSoundness)
        } else if t == String::from_str("authority_non_escalation") || t == String::from_str(
            "authoritynonescalation",
        ) {
            Some(ProofType::AuthorityNonEscalation)
        } else if t == String::from_str("economic_invariance") || t == String::from_str(
            "economicinvariance",
        ) {
            Some(ProofType::EconomicInvariance)
        } else if t == String::from_str("semantic_preservation") || t == String::from_str(
            "semanticpreservation",
        ) {
            Some(ProofType::SemanticPreservation)
        } else {
            None
        }
    }

    /// Parses a proof type, case-insensitively, in snake_case or run together.
    pub fn from_str(s: &str) -> (r: FakResult<ProofType>)
        ensures
            match Self::parsed(s@) {
                Some(t) => r == Ok::<ProofType, FakError>(t),
                None => r is Err && r->Err_0@ == (ErrorView::UnknownProofType { value: s@ }),
            },
    {
        let trimmed = trim_string(s);
        let lowered = lowercase(trimmed.as_str());
        match Self::from_lowercase(lowered.as_str()) {
            Some(t) => Ok(t),
            None => Err(FakError::UnknownProofType { value: String::from_str(s) }),
        }
    }
}

impl Default for ProofType {
    fn default() -> (r: Self)
        ensures
            r == ProofType::BehavioralSoundness,
    {
        ProofType::BehavioralSoundness
    }
}

/// A declared invariant: which check applies, and the expressions that the
/// description language attached to it (kept as text, never evaluated).
#[derive(Clone, Debug)]
pub struct InvariantSpec {
    pub name: String,
    pub description: String,
    pub precondition: Option<String>,
    pub postcondition: Option<String>,
    pub temporal_properties: Vec<String>,
    pub invariant_type: ProofType,
}

/// The content of an `InvariantSpec`.
pub struct InvariantView {
    pub name: Seq<char>,
    pub description: Seq<char>,
    pub precondition: Option<Seq<char>>,
    pub postcondition: Option<Seq<char>>,
    pub temporal_properties: Seq<Seq<char>>,
    pub invariant_type: ProofType,
}

/// The content of an optional text.
pub open spec fn opt_view(o: Option<String>) -> Option<Seq<char>> {
    match o {
        Some(s) => Some(s@),
        None => None,
    }
}

/// The contents of a sequence of strings.
pub open spec fn strings_view(v: Seq<String>) -> Seq<Seq<char>> {
    Seq::new(v.len(), |i: int| v[i]@)
}

impl View for InvariantSpec {
    type V = InvariantView;

    open spec fn view(&self) -> InvariantView {
        InvariantView {
            name: self.name@,
            description: self.description@,
            precondition: opt_view(self.precondition),
            postcondition: opt_view(self.postcondition),
            temporal_properties: strings_view(self.temporal_properties@),
            invariant_type: self.invariant_type,
        }
    }
}

/// A copy of each string, in order.
pub fn copy_strings(v: &Vec<String>) -> (r: Vec<String>)
    ensures
        r@ == v@,
{
    let mut out: Vec<String> = Vec::new();
    let mut i: usize = 0;
    while i < v.len()
        invariant
            i <= v@.len(),
            out@ == v@.take(i as int),
        decreases v@.len() - i,
    {
        out.push(v[i].clone());
        assert(out@ =~= v@.take(i + 1));
        i = i + 1;
    }
    assert(out@ =~= v@);
    out
}

/// A copy of an optional string.
pub fn copy_opt(o: &Option<String>) -> (r: Option<String>)
    ensures
        r == *o,
{
    match o {
        Some(p) => Some(p.clone()),
        None => None,
    }
}

impl InvariantSpec {
    pub fn new(
        name: String,
        description: String,
        precondition: Option<String>,
        postcondition: Option<String>,
        temporal_properties: Vec<String>,
        invariant_type: ProofType,
    ) -> (r: Self)
        ensures
            r == (InvariantSpec {
                name,
                description,
                precondition,
                postcondition,
                temporal_properties,
                invariant_type,
            }),
    {
        InvariantSpec {
            name,
            description,
            precondition,
            postcondition,
            temporal_properties,
            invariant_type,
        }
    }

    /// The error that validation reports, if any: the name must be non-empty.
    pub open spec fn fault(&self) -> Option<ErrorView> {
        if self.name@.len() == 0 {
            Some(
                ErrorView::Validation {
                    field: "name"@,
                    message: "InvariantSpec must have a non-empty name"@,
                },
            )
        } else {
            None
        }
    }

    pub fn validate(&self) -> (r: FakResult<()>)
        ensures
            outcome_is(r, self.fault()),
    {
        if self.name.as_str().is_empty() {
            return Err(validation_error("name", "InvariantSpec must have a non-empty name"));
        }
        Ok(())
    }

    /// A copy with the same content.
    pub fn copy(&self) -> (r: Self)
        ensures
            r@ == self@,
    {
        InvariantSpec {
            name: self.name.clone(),
            description: self.description.clone(),
            precondition: copy_opt(&self.precondition),
            postcondition: copy_opt(&self.postcondition),
            temporal_properties: copy_strings(&self.temporal_properties),
            invariant_type: self.invariant_type,
        }
    }
}

impl Default for InvariantSpec {
    fn default() -> (r: Self)
        ensures
            r.name@.len() == 0,
            r.description@.len() == 0,
            r.precondition is None,
            r.postcondition is None,
            r.temporal_properties@.len() == 0,
            r.invariant_type == ProofType::BehavioralSoundness,
    {
        InvariantSpec {
            name: String::new(),
            description: String::new(),
            precondition: None,
            postcondition: None,
            temporal_properties: Vec::new(),
            invariant_type: ProofType::BehavioralSoundness,
        }
    }
}

/// A ledger total as the collector reported it. Finite amounts are decimal:
/// `units / 10^scale`, negated when `negative` holds; a floating-point source
/// may also hand over a non-number or an infinity.
#[derive(Clone, Copy, Debug, PartialEq, Eq, Structural)]
pub enum CostFigure {
    Amount { negative: bool, units: u64, scale: u32 },
    NotANumber,
    Infinite { negative: bool },
}

impl CostFigure {
    /// Strictly below zero (a negative zero is not).
    pub open spec fn below_zero(self) -> bool {
        match self {
            CostFigure::Amount { negative, units, .. } => negative && units > 0,
            CostFigure::NotANumber => false,
            CostFigure::Infinite { negative } => negative,
        }
    }

    /// Zero or above; a non-number is neither.
    pub open spec fn at_least_zero(self) -> bool {
        match self {
            CostFigure::Amount { negative, units, .. } => !negative || units == 0,
            CostFigure::NotANumber => false,
            CostFigure::Infinite { negative } => !negative,
        }
    }

    pub fn is_below_zero(&self) -> (r: bool)
        ensures
            r == self.below_zero(),
    {
        match self {
            CostFigure::Amount { negative, units, .. } => *negative && *units > 0,
            CostFigure::NotANumber => false,
            CostFigure::Infinite { negative } => *negative,
        }
    }

    pub fn is_at_least_zero(&self) -> (r: bool)
        ensures
            r == self.at_least_zero(),
    {
        match self {
            CostFigure::Amount { negative, units, .. } => !*negative || *units == 0,
            CostFigure::NotANumber => false,
            CostFigure::Infinite { negative } => !*negative,
        }
    }

    pub fn is_finite(&self) -> (r: bool)
        ensures
            r == self is Amount,
    {
        match self {
            CostFigure::Amount { .. } => true,
            _ => false,
        }
    }

    /// The JSON numeral of a finite amount (`-12e-3` for negative 12 units at
    /// scale 3); JSON has no numeral for the others, which render as `null`.
    pub open spec fn json(self) -> JsonModel {
        match self {
            CostFigure::Amount { negative, units, scale } => JsonModel::Number(
                (if negative {
                    "-"@
                } else {
                    Seq::empty()
                }) + decimal_text(units as nat) + (if scale > 0 {
                    "e-"@ + decimal_text(scale as nat)
                } else {
                    Seq::empty()
                }),
            ),
            _ => JsonModel::Null,
        }
    }

    pub fn to_json(&self) -> (r: JsonValue)
        ensures
            r@ == self.json(),
    {
        match self {
            CostFigure::Amount { negative, units, scale } => {
                let mut t = if *negative {
                    String::from_str("-")
                } else {
                    String::new()
                };
                let d = decimal_string(*units);
                t.append(d.as_str());
                if *scale > 0 {
                    t.append("e-");
                    let e = decimal_string(*scale as u64);
                    t.append(e.as_str());
                }
                let ghost expected = (if *negative {
                    "-"@
                } else {
                    Seq::<char>::empty()
                }) + decimal_text(*units as nat) + (if *scale > 0 {
                    "e-"@ + decimal_text(*scale as nat)
                } else {
                    Seq::<char>::empty()
                });
                assert(t@ =~= expected);
                JsonValue::Number(t)
            },
            _ => JsonValue::Null,
        }
    }
}

/// An object member `(key, value)`.
pub fn member(key: &str, value: JsonValue) -> (r: (String, JsonValue))
    ensures
        r.0@ == key@,
        r.1@ == value@,
{
    (String::from_str(key), value)
}

/// Strings as a JSON array of strings.
pub open spec fn strings_json(v: Seq<String>) -> JsonModel {
    JsonModel::Array(Seq::new(v.len(), |i: int| JsonModel::Str(v[i]@)))
}

pub fn strings_to_json(v: &Vec<String>) -> (r: JsonValue)
    ensures
        r@ == strings_json(v@),
{
    let mut out: Vec<JsonValue> = Vec::new();
    let mut i: usize = 0;
    while i < v.len()
        invariant
            i <= v@.len(),
            out@.len() == i,
            forall|j: int| 0 <= j < i ==> (#[trigger] out@[j])@ == JsonModel::Str(v@[j]@),
        decreases v@.len() - i,
    {
        out.push(JsonValue::Str(v[i].clone()));
        i = i + 1;
    }
    let r = JsonValue::Array(out);
    assert(r@->Array_0 =~= strings_json(v@)->Array_0);
    r
}

/// Bytes as a JSON array of numbers.
pub open spec fn bytes_json(b: Seq<u8>) -> JsonModel {
    JsonModel::Array(Seq::new(b.len(), |i: int| JsonModel::Number(decimal_text(b[i] as nat))))
}

pub fn bytes_to_json(b: &Vec<u8>) -> (r: JsonValue)
    ensures
        r@ == bytes_json(b@),
{
    let mut out: Vec<JsonValue> = Vec::new();
    let mut i: usize = 0;
    while i < b.len()
        invariant
            i <= b@.len(),
            out@.len() == i,
            forall|j: int|
                0 <= j < i ==> (#[trigger] out@[j])@ == JsonModel::Number(decimal_text(b@[j] as nat)),
        decreases b@.len() - i,
    {
        out.push(JsonValue::Number(decimal_string(b[i] as u64)));
        i = i + 1;
    }
    let r = JsonValue::Array(out);
    assert(r@->Array_0 =~= bytes_json(b@)->Array_0);
    r
}

/// An object from its members, in order.
pub fn object_of(members: Vec<(String, JsonValue)>) -> (r: JsonValue)
    ensures
        r@ == JsonModel::Object(members_model(members@)),
{
    let r = JsonValue::Object(members);
    assert(r@->Object_0 =~= members_model(members@));
    r
}

/// An execution trace: an identity, ordered step records and metadata.
#[derive(Debug)]
pub struct ExecutionTrace {
    pub id: String,
    pub steps: Vec<JsonValue>,
    pub metadata: Vec<(String, JsonValue)>,
}

impl ExecutionTrace {
    /// The most steps a trace may hold.
    pub const MAX_STEPS: usize = 100000;

    pub fn new(id: String, steps: Vec<JsonValue>, metadata: Vec<(String, JsonValue)>) -> (r: Self)
        ensures
            r == (ExecutionTrace { id, steps, metadata }),
    {
        ExecutionTrace { id, steps, metadata }
    }

    /// The error that validation reports, if any.
    pub open spec fn fault(&self) -> Option<ErrorView> {
        if self.id@.len() == 0 {
            Some(
                ErrorView::Validation {
                    field: "id"@,
                    message: "ExecutionTrace must have a non-empty ID"@,
                },
            )
        } else if self.steps@.len() > Self::MAX_STEPS {
            Some(
                ErrorView::ResourceLimit {
                    resource: "trace_steps"@,
                    limit: Self::MAX_STEPS,
                    actual: self.steps@.len() as usize,
                },
            )
        } else {
            None
        }
    }

    pub fn validate(&self) -> (r: FakResult<()>)
        ensures
            outcome_is(r, self.fault()),
    {
        if self.id.as_str().is_empty() {
            return Err(validation_error("id", "ExecutionTrace must have a non-empty ID"));
        }
        if self.steps.len() > Self::MAX_STEPS {
            return Err(
                FakError::ResourceLimit {
                    resource: String::from_str("trace_steps"),
                    limit: Self::MAX_STEPS,
                    actual: self.steps.len(),
                },
            );
        }
        Ok(())
    }

    /// The structured form that is stored and hashed.
    pub open spec fn json(&self) -> JsonModel {
        JsonModel::Object(
            seq![
                ("id"@, JsonModel::Str(self.id@)),
                ("steps"@, JsonModel::Array(values_model(self.steps@))),
                ("metadata"@, JsonModel::Object(members_model(self.metadata@))),
            ],
        )
    }

    pub fn to_json(&self) -> (r: JsonValue)
        ensures
            r@ == self.json(),
    {
        let steps = JsonValue::Array(copy_values(&self.steps));
        assert(steps@->Array_0 =~= values_model(self.steps@));
        let metadata = object_of(copy_members(&self.metadata));
        let mut m: Vec<(String, JsonValue)> = Vec::new();
        m.push(member("id", JsonValue::Str(self.id.clone())));
        m.push(member("steps", steps));
        m.push(member("metadata", metadata));
        let r = object_of(m);
        assert(r@->Object_0 =~= self.json()->Object_0);
        r
    }

    /// A deep copy with the same content.
    pub fn copy(&self) -> (r: Self)
        ensures
            r.json() == self.json(),
            r.id == self.id,
            r.steps@.len() == self.steps@.len(),
            r.fault() == self.fault(),
    {
        let steps = copy_values(&self.steps);
        assert(values_model(steps@).len() == steps@.len());
        ExecutionTrace { id: self.id.clone(), steps, metadata: copy_members(&self.metadata) }
    }
}

impl Default for ExecutionTrace {
    fn default() -> (r: Self)
        ensures
            r.id@.len() == 0,
            r.steps@.len() == 0,
            r.metadata@.len() == 0,
    {
        ExecutionTrace { id: String::new(), steps: Vec::new(), metadata: Vec::new() }
    }
}

/// What an agent may do, and whom each principal may act for.
#[derive(Debug)]
pub struct CapabilityManifest {
    pub id: String,
    pub agent_id: String,
    pub capabilities: Vec<String>,
    /// Each principal with the principals it may delegate to or act for.
    pub authority_graph: Vec<(String, Vec<String>)>,
    pub metadata: Vec<(String, JsonValue)>,
}

/// An authority graph as a JSON object of arrays of names.
pub open spec fn graph_json(g: Seq<(String, Vec<String>)>) -> JsonModel {
    JsonModel::Object(Seq::new(g.len(), |i: int| (g[i].0@, strings_json(g[i].1@))))
}

impl CapabilityManifest {
    pub fn new(
        id: String,
        agent_id: String,
        capabilities: Vec<String>,
        authority_graph: Vec<(String, Vec<String>)>,
        metadata: Vec<(String, JsonValue)>,
    ) -> (r: Self)
        ensures
            r == (CapabilityManifest { id, agent_id, capabilities, authority_graph, metadata }),
    {
        CapabilityManifest { id, agent_id, capabilities, authority_graph, metadata }
    }

    /// The error that validation reports, if any.
    pub open spec fn fault(&self) -> Option<ErrorView> {
        if self.id@.len() == 0 {
            Some(
                ErrorView::Validation {
                    field: "id"@,
                    message: "CapabilityManifest must have a non-empty ID"@,
                },
            )
        } else if self.agent_id@.len() == 0 {
            Some(
                ErrorView::Validation {
                    field: "agent_id"@,
                    message: "CapabilityManifest must have a non-empty agent_id"@,
                },
            )
        } else {
            None
        }
    }

    pub fn validate(&self) -> (r: FakResult<()>)
        ensures
            outcome_is(r, self.fault()),
    {
        if self.id.as_str().is_empty() {
            return Err(validation_error("id", "CapabilityManifest must have a non-empty ID"));
        }
        if self.agent_id.as_str().is_empty() {
            return Err(
                validation_error("agent_id", "CapabilityManifest must have a non-empty agent_id"),
            );
        }
        Ok(())
    }

    /// The structured form that is stored and hashed.
    pub open spec fn json(&self) -> JsonModel {
        JsonModel::Object(
            seq![
                ("id"@, JsonModel::Str(self.id@)),
                ("agent_id"@, JsonModel::Str(self.agent_id@)),
                ("capabilities"@, strings_json(self.capabilities@)),
                ("authority_graph"@, graph_json(self.authority_graph@)),
                ("metadata"@, JsonModel::Object(members_model(self.metadata@))),
            ],
        )
    }

    pub fn to_json(&self) -> (r: JsonValue)
        ensures
            r@ == self.json(),
    {
        let mut g: Vec<(String, JsonValue)> = Vec::new();
        let mut i: usize = 0;
        while i < self.authority_graph.len()
            invariant
                i <= self.authority_graph@.len(),
                g@.len() == i,
                forall|j: int|
                    0 <= j < i ==> (#[trigger] g@[j]).0@ == self.authority_graph@[j].0@ && g@[j].1@
                        == strings_json(self.authority_graph@[j].1@),
            decreases self.authority_graph@.len() - i,
        {
            let entry = &self.authority_graph[i];
            g.push((entry.0.clone(), strings_to_json(&entry.1)));
            i = i + 1;
        }
        let graph = object_of(g);
        assert(graph@->Object_0 =~= graph_json(self.authority_graph@)->Object_0);
        let metadata = object_of(copy_members(&self.metadata));
        let mut m: Vec<(String, JsonValue)> = Vec::new();
        m.push(member("id", JsonValue::Str(self.id.clone())));
        m.push(member("agent_id", JsonValue::Str(self.agent_id.clone())));
        m.push(member("capabilities", strings_to_json(&self.capabilities)));
        m.push(member("authority_graph", graph));
        m.push(member("metadata", metadata));
        let r = object_of(m);
        assert(r@->Object_0 =~= self.json()->Object_0);
        r
    }

    /// A deep copy with the same content.
    pub fn copy(&self) -> (r: Self)
        ensures
            r.json() == self.json(),
            r.id == self.id,
            r.agent_id == self.agent_id,
            r.authority_graph@.len() == self.authority_graph@.len(),
            r.fault() == self.fault(),
    {
        let mut g: Vec<(String, Vec<String>)> = Vec::new();
        let mut i: usize = 0;
        while i < self.authority_graph.len()
            invariant
                i <= self.authority_graph@.len(),
                g@.len() == i,
                forall|j: int|
                    0 <= j < i ==> (#[trigger] g@[j]).0@ == self.authority_graph@[j].0@ && g@[j].1@
                        == self.authority_graph@[j].1@,
            decreases self.authority_graph@.len() - i,
        {
            let entry = &self.authority_graph[i];
            g.push((entry.0.clone(), copy_strings(&entry.1)));
            i = i + 1;
        }
        let r = CapabilityManifest {
            id: self.id.clone(),
            agent_id: self.agent_id.clone(),
            capabilities: copy_strings(&self.capabilities),
            authority_graph: g,
            metadata: copy_members(&self.metadata),
        };
        assert(graph_json(r.authority_graph@)->Object_0 =~= graph_json(
            self.authority_graph@,
        )->Object_0);
        assert(strings_json(r.capabilities@)->Array_0 =~= strings_json(
            self.capabilities@,
        )->Array_0);
        r
    }
}

impl Default for CapabilityManifest {
    fn default() -> (r: Self)
        ensures
            r.id@.len() == 0,
            r.agent_id@.len() == 0,
            r.capabilities@.len() == 0,
            r.authority_graph@.len() == 0,
            r.metadata@.len() == 0,
    {
        CapabilityManifest {
            id: String::new(),
            agent_id: String::new(),
            capabilities: Vec::new(),
            authority_graph: Vec::new(),
            metadata: Vec::new(),
        }
    }
}

/// Economic attribution: cost entries and their total.
#[derive(Debug)]
pub struct CostLedger {
    pub id: String,
    pub entries: Vec<JsonValue>,
    pub total_cost: CostFigure,
    pub metadata: Vec<(String, JsonValue)>,
}

impl CostLedger {
    pub fn new(
        id: String,
        entries: Vec<JsonValue>,
        total_cost: CostFigure,
        metadata: Vec<(String, JsonValue)>,
    ) -> (r: Self)
        ensures
            r == (CostLedger { id, entries, total_cost, metadata }),
    {
        CostLedger { id, entries, total_cost, metadata }
    }

    /// The error that validation reports, if any: the total must be finite and
    /// not below zero.
    pub open spec fn fault(&self) -> Option<ErrorView> {
        if self.id@.len() == 0 {
            Some(
                ErrorView::Validation {
                    field: "id"@,
                    message: "CostLedger must have a non-empty ID"@,
                },
            )
        } else if self.total_cost.below_zero() {
            Some(
                ErrorView::Validation {
                    field: "total_cost"@,
                    message: "CostLedger total_cost cannot be negative"@,
                },
            )
        } else if !(self.total_cost is Amount) {
            Some(
                ErrorView::Validation {
                    field: "total_cost"@,
                    message: "CostLedger total_cost must be finite"@,
                },
            )
        } else {
            None
        }
    }

    pub fn validate(&self) -> (r: FakResult<()>)
        ensures
            outcome_is(r, self.fault()),
    {
        if self.id.as_str().is_empty() {
            return Err(validation_error("id", "CostLedger must have a non-empty ID"));
        }
        if self.total_cost.is_below_zero() {
            return Err(validation_error("total_cost", "CostLedger total_cost cannot be negative"));
        }
        if !self.total_cost.is_finite() {
            return Err(validation_error("total_cost", "CostLedger total_cost must be finite"));
        }
        Ok(())
    }

    /// The structured form that is stored and hashed.
    pub open spec fn json(&self) -> JsonModel {
        JsonModel::Object(
            seq![
                ("id"@, JsonModel::Str(self.id@)),
                ("entries"@, JsonModel::Array(values_model(self.entries@))),
                ("total_cost"@, self.total_cost.json()),
                ("metadata"@, JsonModel::Object(members_model(self.metadata@))),
            ],
        )
    }

    pub fn to_json(&self) -> (r: JsonValue)
        ensures
            r@ == self.json(),
    {
        let entries = JsonValue::Array(copy_values(&self.entries));
        assert(entries@->Array_0 =~= values_model(self.entries@));
        let metadata = object_of(copy_members(&self.metadata));
        let mut m: Vec<(String, JsonValue)> = Vec::new();
        m.push(member("id", JsonValue::Str(self.id.clone())));
        m.push(member("entries", entries));
        m.push(member("total_cost", self.total_cost.to_json()));
        m.push(member("metadata", metadata));
        let r = object_of(m);
        assert(r@->Object_0 =~= self.json()->Object_0);
        r
    }

    /// A deep copy with the same content.
    pub fn copy(&self) -> (r: Self)
        ensures
            r.json() == self.json(),
            r.id == self.id,
            r.total_cost == self.total_cost,
            r.fault() == self.fault(),
    {
        CostLedger {
            id: self.id.clone(),
            entries: copy_values(&self.entries),
            total_cost: self.total_cost,
            metadata: copy_members(&self.metadata),
        }
    }
}

impl Default for CostLedger {
    fn default() -> (r: Self)
        ensures
            r.id@.len() == 0,
            r.entries@.len() == 0,
            r.total_cost == (CostFigure::Amount { negative: false, units: 0, scale: 0 }),
            r.metadata@.len() == 0,
    {
        CostLedger {
            id: String::new(),
            entries: Vec::new(),
            total_cost: CostFigure::Amount { negative: false, units: 0, scale: 0 },
            metadata: Vec::new(),
        }
    }
}

/// Compiled governance rules: a syntax tree and an enforcement byte code.
#[derive(Debug)]
pub struct PolicyIR {
    pub id: String,
    pub ast: Vec<(String, JsonValue)>,
    pub compiled_enforcement: Vec<u8>,
    pub metadata: Vec<(String, JsonValue)>,
}

impl PolicyIR {
    pub fn new(
        id: String,
        ast: Vec<(String, JsonValue)>,
        compiled_enforcement: Vec<u8>,
        metadata: Vec<(String, JsonValue)>,
    ) -> (r: Self)
        ensures
            r == (PolicyIR { id, ast, compiled_enforcement, metadata }),
    {
        PolicyIR { id, ast, compiled_enforcement, metadata }
    }

    /// The error that validation reports, if any.
    pub open spec fn fault(&self) -> Option<ErrorView> {
        if self.id@.len() == 0 {
            Some(
                ErrorView::Validation { field: "id"@, message: "PolicyIR must have a non-empty ID"@ },
            )
        } else {
            None
        }
    }

    pub fn validate(&self) -> (r: FakResult<()>)
        ensures
            outcome_is(r, self.fault()),
    {
        if self.id.as_str().is_empty() {
            return Err(validation_error("id", "PolicyIR must have a non-empty ID"));
        }
        Ok(())
    }

    /// The structured form that is stored and hashed.
    pub open spec fn json(&self) -> JsonModel {
        JsonModel::Object(
            seq![
                ("id"@, JsonModel::Str(self.id@)),
                ("ast"@, JsonModel::Object(members_model(self.ast@))),
                ("compiled_enforcement"@, bytes_json(self.compiled_enforcement@)),
                ("metadata"@, JsonModel::Object(members_model(self.metadata@))),
            ],
        )
    }

    pub fn to_json(&self) -> (r: JsonValue)
        ensures
            r@ == self.json(),
    {
        let ast = object_of(copy_members(&self.ast));
        let metadata = object_of(copy_members(&self.metadata));
        let mut m: Vec<(String, JsonValue)> = Vec::new();
        m.push(member("id", JsonValue::Str(self.id.clone())));
        m.push(member("ast", ast));
        m.push(member("compiled_enforcement", bytes_to_json(&self.compiled_enforcement)));
        m.push(member("metadata", metadata));
        let r = object_of(m);
        assert(r@->Object_0 =~= self.json()->Object_0);
        r
    }

    /// A deep copy with the same content.
    pub fn copy(&self) -> (r: Self)
        ensures
            r.json() == self.json(),
            r.id == self.id,
            r.fault() == self.fault(),
    {
        let mut code: Vec<u8> = Vec::new();
        let mut i: usize = 0;
        while i < self.compiled_enforcement.len()
            invariant
                i <= self.compiled_enforcement@.len(),
                code@ == self.compiled_enforcement@.take(i as int),
            decreases self.compiled_enforcement@.len() - i,
        {
            code.push(self.compiled_enforcement[i]);
            assert(code@ =~= self.compiled_enforcement@.take(i + 1));
            i = i + 1;
        }
        assert(code@ =~= self.compiled_enforcement@);
        PolicyIR {
            id: self.id.clone(),
            ast: copy_members(&self.ast),
            compiled_enforcement: code,
            metadata: copy_members(&self.metadata),
        }
    }
}

impl Default for PolicyIR {
    fn default() -> (r: Self)
        ensures
            r.id@.len() == 0,
            r.ast@.len() == 0,
            r.compiled_enforcement@.len() == 0,
            r.metadata@.len() == 0,
    {
        PolicyIR {
            id: String::new(),
            ast: Vec::new(),
            compiled_enforcement: Vec::new(),
            metadata: Vec::new(),
        }
    }
}

/// Why an invariant failed, timed out or errored.
#[derive(Debug)]
pub struct CounterExample {
    pub invariant_name: String,
    /// `violation`, `timeout` or `check_error`.
    pub error_type: String,
    pub details: JsonValue,
    /// Reserved for step-level localisation; no check fills it yet.
    pub step_index: Option<usize>,
}

/// The content of a `CounterExample`.
pub struct CounterExampleView {
    pub invariant_name: Seq<char>,
    pub error_type: Seq<char>,
    pub details: JsonModel,
    pub step_index: Option<usize>,
}

impl View for CounterExample {
    type V = CounterExampleView;

    open spec fn view(&self) -> CounterExampleView {
        CounterExampleView {
            invariant_name: self.invariant_name@,
            error_type: self.error_type@,
            details: self.details@,
            step_index: self.step_index,
        }
    }
}

impl CounterExample {
    /// A copy with the same content.
    pub fn copy(&self) -> (r: Self)
        ensures
            r@ == self@,
    {
        CounterExample {
            invariant_name: self.invariant_name.clone(),
            error_type: self.error_type.clone(),
            details: self.details.copy(),
            step_index: self.step_index,
        }
    }
}

/// The evidence unit: the four artifacts by value, the invariants evaluated
/// against them, and the counterexamples found.
#[derive(Debug)]
pub struct ProofWitness {
    pub proof_id: String,
    pub execution_trace: ExecutionTrace,
    pub capability_manifest: CapabilityManifest,
    pub cost_ledger: CostLedger,
    pub policy_ir: PolicyIR,
    pub invariants: Vec<InvariantSpec>,
    pub counterexamples: Vec<CounterExample>,
}

impl ProofWitness {
    pub fn new(
        proof_id: String,
        execution_trace: ExecutionTrace,
        capability_manifest: CapabilityManifest,
        cost_ledger: CostLedger,
        policy_ir: PolicyIR,
        invariants: Vec<InvariantSpec>,
        counterexamples: Vec<CounterExample>,
    ) -> (r: Self)
        ensures
            r == (ProofWitness {
                proof_id,
                execution_trace,
                capability_manifest,
                cost_ledger,
                policy_ir,
                invariants,
                counterexamples,
            }),
    {
        ProofWitness {
            proof_id,
            execution_trace,
            capability_manifest,
            cost_ledger,
            policy_ir,
            invariants,
            counterexamples,
        }
    }

    /// The error that validation reports, if any: a non-empty proof id, then
    /// each embedded artifact in turn.
    pub open spec fn fault(&self) -> Option<ErrorView> {
        if self.proof_id@.len() == 0 {
            Some(
                ErrorView::Validation {
                    field: "proof_id"@,
                    message: "ProofWitness must have a non-empty proof ID"@,
                },
            )
        } else if self.execution_trace.fault() is Some {
            self.execution_trace.fault()
        } else if self.capability_manifest.fault() is Some {
            self.capability_manifest.fault()
        } else if self.cost_ledger.fault() is Some {
            self.cost_ledger.fault()
        } else {
            self.policy_ir.fault()
        }
    }

    pub fn validate(&self) -> (r: FakResult<()>)
        ensures
            outcome_is(r, self.fault()),
    {
        if self.proof_id.as_str().is_empty() {
            return Err(validation_error("proof_id", "ProofWitness must have a non-empty proof ID"));
        }
        self.execution_trace.validate()?;
        self.capability_manifest.validate()?;
        self.cost_ledger.validate()?;
        self.policy_ir.validate()?;
        Ok(())
    }

    /// `self` holds the same content as `other`: proof id, artifacts,
    /// invariants and counterexamples.
    pub open spec fn same_content(&self, other: &ProofWitness) -> bool {
        &&& self.proof_id == other.proof_id
        &&& self.execution_trace.json() == other.execution_trace.json()
        &&& self.execution_trace.id == other.execution_trace.id
        &&& self.execution_trace.steps@.len() == other.execution_trace.steps@.len()
        &&& self.capability_manifest.json() == other.capability_manifest.json()
        &&& self.capability_manifest.id == other.capability_manifest.id
        &&& self.capability_manifest.agent_id == other.capability_manifest.agent_id
        &&& self.capability_manifest.authority_graph@.len()
            == other.capability_manifest.authority_graph@.len()
        &&& self.cost_ledger.json() == other.cost_ledger.json()
        &&& self.cost_ledger.id == other.cost_ledger.id
        &&& self.cost_ledger.total_cost == other.cost_ledger.total_cost
        &&& self.policy_ir.json() == other.policy_ir.json()
        &&& self.policy_ir.id == other.policy_ir.id
        &&& self.invariants@.len() == other.invariants@.len()
        &&& forall|i: int|
            0 <= i < self.invariants@.len() ==> self.invariants@[i]@ == other.invariants@[i]@
        &&& self.counterexamples@.len() == other.counterexamples@.len()
        &&& forall|i: int|
            0 <= i < self.counterexamples@.len() ==> self.counterexamples@[i]@
                == other.counterexamples@[i]@
    }

    /// A deep copy with the same content.
    pub fn copy(&self) -> (r: Self)
        ensures
            r.same_content(self),
            r.fault() == self.fault(),
    {
        let mut invariants: Vec<InvariantSpec> = Vec::new();
        let mut i: usize = 0;
        while i < self.invariants.len()
            invariant
                i <= self.invariants@.len(),
                invariants@.len() == i,
                forall|j: int| 0 <= j < i ==> (#[trigger] invariants@[j])@ == self.invariants@[j]@,
            decreases self.invariants@.len() - i,
        {
            invariants.push(self.invariants[i].copy());
            i = i + 1;
        }
        let mut counterexamples: Vec<CounterExample> = Vec::new();
        let mut k: usize = 0;
        while k < self.counterexamples.len()
            invariant
                k <= self.counterexamples@.len(),
                counterexamples@.len() == k,
                forall|j: int|
                    0 <= j < k ==> (#[trigger] counterexamples@[j])@ == self.counterexamples@[j]@,
            decreases self.counterexamples@.len() - k,
        {
            counterexamples.push(self.counterexamples[k].copy());
            k = k + 1;
        }
        ProofWitness {
            proof_id: self.proof_id.clone(),
            execution_trace: self.execution_trace.copy(),
            capability_manifest: self.capability_manifest.copy(),
            cost_ledger: self.cost_ledger.copy(),
            policy_ir: self.policy_ir.copy(),
            invariants,
            counterexamples,
        }
    }
}

impl Default for ProofWitness {
    fn default() -> (r: Self)
        ensures
            r.proof_id@.len() == 0,
            r.execution_trace.id@.len() == 0,
            r.capability_manifest.id@.len() == 0,
            r.cost_ledger.id@.len() == 0,
            r.policy_ir.id@.len() == 0,
            r.invariants@.len() == 0,
            r.counterexamples@.len() == 0,
    {
        ProofWitness {
            proof_id: String::new(),
            execution_trace: ExecutionTrace::default(),
            capability_manifest: CapabilityManifest::default(),
            cost_ledger: CostLedger::default(),
            policy_ir: PolicyIR::default(),
            invariants: Vec::new(),
            counterexamples: Vec::new(),
        }
    }
}

/// The first fault among `ws`, in order.
pub open spec fn first_witness_fault(ws: Seq<ProofWitness>) -> Option<ErrorView>
    decreases ws.len(),
{
    if ws.len() == 0 {
        None
    } else if ws[0].fault() is Some {
        ws[0].fault()
    } else {
        first_witness_fault(ws.drop_first())
    }
}

/// An ordered collection of witnesses with its own content-derived identity.
#[derive(Debug)]
pub struct ProofBundle {
    pub id: String,
    pub witnesses: Vec<ProofWitness>,
    pub metadata: Vec<(String, JsonValue)>,
}

impl ProofBundle {
    /// The most witnesses a bundle may hold.
    pub const MAX_WITNESSES: usize = 100;

    pub fn new(id: String, witnesses: Vec<ProofWitness>, metadata: Vec<(String, JsonValue)>) -> (r:
        Self)
        ensures
            r == (ProofBundle { id, witnesses, metadata }),
    {
        ProofBundle { id, witnesses, metadata }
    }

    /// The error that validation reports, if any: a non-empty id, at most
    /// `MAX_WITNESSES` witnesses, then each witness in turn.
    pub open spec fn fault(&self) -> Option<ErrorView> {
        if self.id@.len() == 0 {
            Some(
                ErrorView::Validation { field: "id"@, message: "ProofBundle must have a non-empty ID"@ },
            )
        } else if self.witnesses@.len() > Self::MAX_WITNESSES {
            Some(
                ErrorView::ResourceLimit {
                    resource: "bundle_witnesses"@,
                    limit: Self::MAX_WITNESSES,
                    actual: self.witnesses@.len() as usize,
                },
            )
        } else {
            first_witness_fault(self.witnesses@)
        }
    }

    pub fn validate(&self) -> (r: FakResult<()>)
        ensures
            outcome_is(r, self.fault()),
    {
        if self.id.as_str().is_empty() {
            return Err(validation_error("id", "ProofBundle must have a non-empty ID"));
        }
        if self.witnesses.len() > Self::MAX_WITNESSES {
            return Err(
                FakError::ResourceLimit {
                    resource: String::from_str("bundle_witnesses"),
                    limit: Self::MAX_WITNESSES,
                    actual: self.witnesses.len(),
                },
            );
        }
        let mut i: usize = 0;
        assert(self.witnesses@.skip(0) =~= self.witnesses@);
        while i < self.witnesses.len()
            invariant
                i <= self.witnesses@.len(),
                self.fault() == first_witness_fault(self.witnesses@),
                first_witness_fault(self.witnesses@) == first_witness_fault(
                    self.witnesses@.skip(i as int),
                ),
            decreases self.witnesses@.len() - i,
        {
            self.witnesses[i].validate()?;
            assert(self.witnesses@.skip(i as int).drop_first() =~= self.witnesses@.skip(i + 1));
            i = i + 1;
        }
        Ok(())
    }
}

impl Default for ProofBundle {
    fn default() -> (r: Self)
        ensures
            r.id@.len() == 0,
            r.witnesses@.len() == 0,
            r.metadata@.len() == 0,
    {
        ProofBundle { id: String::new(), witnesses: Vec::new(), metadata: Vec::new() }
    }
}

/// The four artifacts of one verification, borrowed together.
pub struct VerificationContext<'a> {
    pub trace: &'a ExecutionTrace,
    pub capabilities: &'a CapabilityManifest,
    pub cost_ledger: &'a CostLedger,
    pub policy_ir: &'a PolicyIR,
}

impl<'a> VerificationContext<'a> {
    pub fn new(
        trace: &'a ExecutionTrace,
        capabilities: &'a CapabilityManifest,
        cost_ledger: &'a CostLedger,
        policy_ir: &'a PolicyIR,
    ) -> (r: Self)
        ensures
            r.trace == trace,
            r.capabilities == capabilities,
            r.cost_ledger == cost_ledger,
            r.policy_ir == policy_ir,
    {
        VerificationContext { trace, capabilities, cost_ledger, policy_ir }
    }
}

/// A bundle with more than `MAX_WITNESSES` witnesses fails validation with a
/// resource limit, whatever the witnesses hold.
pub proof fn lemma_witness_ceiling(b: ProofBundle)
    requires
        b.id@.len() > 0,
        b.witnesses@.len() > ProofBundle::MAX_WITNESSES,
    ensures
        b.fault() == Some(
            ErrorView::ResourceLimit {
                resource: "bundle_witnesses"@,
                limit: ProofBundle::MAX_WITNESSES,
                actual: b.witnesses@.len() as usize,
            },
        ),
{
}

} // verus!
