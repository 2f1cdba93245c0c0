//! The routing pipeline: stages that, one after the other, narrow down and
//! pick the destination of a message.
use vstd::prelude::*;
use crate::ai::endpoints::HealthStatus;
use crate::ai::table::EndpointTable;
use crate::circuit::CircuitBreaker;
use crate::mcp::{McpRegistry, named_tool, tool_call_type, tool_name_of};
use crate::message::Message;
use crate::plumber::{Plumber, plumbed};
use crate::text::{concat2, concat3, decimal, decimal_text, joined, join_text, same_text};

verus! {

/// Decision produced by the routing pipeline.
#[derive(Debug, Clone)]
pub struct RoutingDecision {
    pub selected: Option<String>,
    pub candidates: Vec<String>,
    pub explanation: String,
}

/// A single stage in the routing pipeline.
pub trait RouterStage: Send + Sync {
    /// Whether applying this stage to `msg` may take the context `before`
    /// to `after` and report `done`; a stage that does not say allows
    /// anything.
    closed spec fn applies(&self, msg: Message, before: RoutingContext, after: RoutingContext, done: bool) -> bool {
        true
    }

    /// Applies this stage to the routing context; returns whether routing
    /// is complete (a final selection was made).
    fn apply(&mut self, msg: &Message, ctx: &mut RoutingContext) -> (done: bool)
        ensures
            old(self).applies(*msg, *old(ctx), *final(ctx), done);
}

/// Mutable routing context passed through each stage.
#[derive(Debug, Clone)]
pub struct RoutingContext {
    pub candidates: Vec<String>,
    pub selected: Option<String>,
    pub explanation: Vec<String>,
    pub rejected: Vec<String>,
}

/// The character views of a list of texts.
pub open spec fn texts(v: Seq<String>) -> Seq<Seq<char>> {
    v.map_values(|s: String| s@)
}

impl RoutingContext {
    /// A context with `candidates`, nothing selected, explained or rejected.
    pub fn new(candidates: Vec<String>) -> (r: Self)
        ensures
            r.candidates == candidates,
            r.selected is None,
            r.explanation@.len() == 0,
            r.rejected@.len() == 0,
    {
        RoutingContext { candidates, selected: None, explanation: Vec::new(), rejected: Vec::new() }
    }

    /// The decision the context amounts to: its selection and candidates,
    /// and its explanations joined with `; `.
    pub fn into_decision(self) -> (r: RoutingDecision)
        ensures
            r.selected == self.selected,
            r.candidates == self.candidates,
            r.explanation@ == joined(texts(self.explanation@), "; "@),
    {
        let explanation = join_text(&self.explanation, "; ");
        RoutingDecision { selected: self.selected, candidates: self.candidates, explanation }
    }
}

/// Whether `x` is among `v`.
pub open spec fn among(v: Seq<Seq<char>>, x: Seq<char>) -> bool {
    exists|i: int| 0 <= i < v.len() && v[i] == x
}

/// The candidates that have not been rejected, in order.
pub open spec fn valid_candidates(candidates: Seq<Seq<char>>, rejected: Seq<Seq<char>>) -> Seq<Seq<char>>
    decreases candidates.len(),
{
    if candidates.len() == 0 {
        Seq::empty()
    } else {
        let before = valid_candidates(candidates.drop_last(), rejected);
        if among(rejected, candidates.last()) { before } else { before.push(candidates.last()) }
    }
}

/// Whether `x` is among `v`.
fn listed_text(v: &Vec<String>, x: &str) -> (r: bool)
    ensures
        r == among(texts(v@), x@),
{
    let mut i: usize = 0;
    while i < v.len()
        invariant
            i <= v@.len(),
            forall|j: int| 0 <= j < i ==> v@[j]@ != x@,
        decreases v@.len() - i,
    {
        if same_text(v[i].as_str(), x) {
            proof {
                assert(texts(v@)[i as int] == x@);
            }
            return true;
        }
        i = i + 1;
    }
    proof {
        assert forall|j: int| 0 <= j < texts(v@).len() implies texts(v@)[j] != x@ by {
            assert(texts(v@)[j] == v@[j]@);
        }
    }
    false
}

impl RoutingContext {
    /// The candidates that have not been rejected, in order.
    pub fn valid_candidates(&self) -> (r: Vec<String>)
        ensures
            texts(r@) == valid_candidates(texts(self.candidates@), texts(self.rejected@)),
    {
        let mut r: Vec<String> = Vec::new();
        let ghost cs = texts(self.candidates@);
        let mut i: usize = 0;
        proof {
            assert(cs.subrange(0, 0) =~= Seq::<Seq<char>>::empty());
            assert(texts(r@) =~= Seq::<Seq<char>>::empty());
        }
        while i < self.candidates.len()
            invariant
                i <= self.candidates@.len(),
                cs == texts(self.candidates@),
                texts(r@) == valid_candidates(cs.subrange(0, i as int), texts(self.rejected@)),
            decreases self.candidates@.len() - i,
        {
            proof {
                assert(cs.subrange(0, i + 1).drop_last() =~= cs.subrange(0, i as int));
                assert(cs.subrange(0, i + 1).last() == self.candidates@[i as int]@);
            }
            if !listed_text(&self.rejected, self.candidates[i].as_str()) {
                let ghost before = texts(r@);
                r.push(self.candidates[i].clone());
                proof {
                    assert(texts(r@) =~= before.push(self.candidates@[i as int]@));
                }
            }
            i = i + 1;
        }
        proof {
            assert(cs.subrange(0, cs.len() as int) =~= cs);
        }
        r
    }

    /// Records the quantum router's choice among the valid candidates: a
    /// choice is selected and ends the routing.
    pub fn apply_quantum_choice(&mut self, choice: Option<String>) -> (done: bool)
        ensures
            done == choice is Some,
            final(self).candidates == old(self).candidates,
            final(self).rejected == old(self).rejected,
            choice matches Some(c) ==> final(self).selected == Some(c)
                && texts(final(self).explanation@) == texts(old(self).explanation@).push("quantum selected "@ + c@),
            choice is None ==> final(self).selected == old(self).selected
                && texts(final(self).explanation@) == texts(old(self).explanation@).push("quantum: no selection"@),
    {
        match choice {
            Some(c) => {
                let ghost before = texts(self.explanation@);
                self.explanation.push(concat2("quantum selected ", c.as_str()));
                self.selected = Some(c);
                proof {
                    assert(texts(self.explanation@) =~= before.push("quantum selected "@ + c@));
                }
                true
            }
            None => {
                let ghost before = texts(self.explanation@);
                self.explanation.push("quantum: no selection".to_string());
                proof {
                    assert(texts(self.explanation@) =~= before.push("quantum: no selection"@));
                }
                false
            }
        }
    }

    /// Records that no candidate was left for the quantum router.
    pub fn note_no_valid_candidates(&mut self)
        ensures
            final(self).candidates == old(self).candidates,
            final(self).rejected == old(self).rejected,
            final(self).selected == old(self).selected,
            texts(final(self).explanation@) == texts(old(self).explanation@).push("quantum: no valid candidates"@),
    {
        let ghost before = texts(self.explanation@);
        self.explanation.push("quantum: no valid candidates".to_string());
        proof {
            assert(texts(self.explanation@) =~= before.push("quantum: no valid candidates"@));
        }
    }
}

/// Whether the context after a stage is the one before it.
pub open spec fn unchanged(before: RoutingContext, after: RoutingContext) -> bool {
    &&& after.candidates == before.candidates
    &&& after.selected == before.selected
    &&& after.explanation == before.explanation
    &&& after.rejected == before.rejected
}

/// Detects MCP tool calls and routes them to the endpoint that serves the
/// tool.
pub struct McpRoutingStage {
    mcp: McpRegistry,
}

impl McpRoutingStage {
    /// The registry the stage looks tools up in.
    pub closed spec fn registry(&self) -> &McpRegistry {
        &self.mcp
    }

    pub fn new(mcp: McpRegistry) -> (r: Self)
        ensures
            *r.registry() == mcp,
    {
        McpRoutingStage { mcp }
    }

    /// A tool call whose tool an endpoint serves is sent there, and routing
    /// ends; any other message passes through untouched.
    pub fn select(&self, msg: &Message, ctx: &mut RoutingContext) -> (done: bool)
        ensures
            done == (msg.msg_type@ == tool_call_type() && self.registry().tools().contains_key(named_tool(msg.data@))),
            done ==> mcp_selected(*self.registry(), *msg, *old(ctx), *final(ctx)),
            !done ==> unchanged(*old(ctx), *final(ctx)),
    {
        mcp_select(&self.mcp, msg, ctx)
    }
}

/// Whether `after` is `before` with the tool call `msg` sent to the
/// endpoint that `mcp` says serves its tool.
pub open spec fn mcp_selected(mcp: McpRegistry, msg: Message, before: RoutingContext, after: RoutingContext) -> bool {
    let tool = named_tool(msg.data@);
    let ep = mcp.tools()[tool];
    &&& after.selected matches Some(s) && s@ == ep
    &&& after.candidates == before.candidates
    &&& after.rejected == before.rejected
    &&& texts(after.explanation@) == texts(before.explanation@).push("mcp tool '"@ + tool + "' → "@ + ep)
}

/// A tool call whose tool an endpoint of `mcp` serves is sent there, and
/// routing ends; any other message passes through untouched.
pub fn mcp_select(mcp: &McpRegistry, msg: &Message, ctx: &mut RoutingContext) -> (done: bool)
    ensures
        done == (msg.msg_type@ == tool_call_type() && mcp.tools().contains_key(named_tool(msg.data@))),
        done ==> mcp_selected(*mcp, *msg, *old(ctx), *final(ctx)),
        !done ==> unchanged(*old(ctx), *final(ctx)),
{
    if !same_text(msg.msg_type.as_str(), "mcp_tool_call") {
        return false;
    }
    let tool = tool_name_of(msg.data.as_str());
    match mcp.find_endpoint_for_tool(tool.as_str()) {
        Some(ep) => {
            let ghost before = texts(ctx.explanation@);
            let head = concat3("mcp tool '", tool.as_str(), "' → ");
            ctx.explanation.push(concat2(head.as_str(), ep.as_str()));
            ctx.selected = Some(ep.clone());
            proof {
                assert(texts(ctx.explanation@) =~= before.push("mcp tool '"@ + tool@ + "' → "@ + ep@));
            }
            true
        }
        None => false,
    }
}

impl RouterStage for McpRoutingStage {
    /// A tool call whose tool is indexed is sent to its endpoint and ends
    /// the routing; anything else passes through untouched.
    open spec fn applies(&self, msg: Message, before: RoutingContext, after: RoutingContext, done: bool) -> bool {
        &&& done == (msg.msg_type@ == tool_call_type() && self.registry().tools().contains_key(named_tool(msg.data@)))
        &&& done ==> mcp_selected(*self.registry(), msg, before, after)
        &&& !done ==> unchanged(before, after)
    }

    fn apply(&mut self, msg: &Message, ctx: &mut RoutingContext) -> (done: bool)
        ensures
            *final(self) == *old(self),
            done == (msg.msg_type@ == tool_call_type() && old(self).registry().tools().contains_key(named_tool(msg.data@))),
            done ==> mcp_selected(*old(self).registry(), *msg, *old(ctx), *final(ctx)),
            !done ==> unchanged(*old(ctx), *final(ctx)),
    {
        self.select(msg, ctx)
    }
}

/// Routes by the plumber's content rules: the destinations of the matching
/// rules become the candidates.
pub struct PlumberRoutingStage {
    plumber: Plumber,
}

impl PlumberRoutingStage {
    /// The plumber the stage consults.
    pub closed spec fn rules_of(&self) -> &Plumber {
        &self.plumber
    }

    pub fn new(plumber: Plumber) -> (r: Self)
        ensures
            *r.rules_of() == plumber,
    {
        PlumberRoutingStage { plumber }
    }

    /// Replaces the candidates with the plumber's destinations for `msg`;
    /// never ends the routing.
    pub fn select(&self, msg: &Message, ctx: &mut RoutingContext) -> (done: bool)
        ensures
            !done,
            plumbed_into(*self.rules_of(), *msg, *old(ctx), *final(ctx)),
    {
        plumber_select(&self.plumber, msg, ctx)
    }
}

/// Whether `after` is `before` with the destinations that `plumber` gives
/// `msg` as its candidates, and a note of how many there are.
pub open spec fn plumbed_into(plumber: Plumber, msg: Message, before: RoutingContext, after: RoutingContext) -> bool {
    &&& texts(after.candidates@) == plumbed(plumber.rules(), msg)
    &&& after.selected == before.selected
    &&& after.rejected == before.rejected
    &&& texts(after.explanation@) == texts(before.explanation@).push(
        "plumber matched "@ + decimal(plumbed(plumber.rules(), msg).len()) + " rule(s)"@,
    )
}

/// Replaces the candidates with the destinations that `plumber` gives
/// `msg`; never ends the routing.
pub fn plumber_select(plumber: &Plumber, msg: &Message, ctx: &mut RoutingContext) -> (done: bool)
    ensures
        !done,
        plumbed_into(*plumber, *msg, *old(ctx), *final(ctx)),
{
    let destinations = plumber.route(msg);
    let n = decimal_text(destinations.len() as u64);
    let ghost before = texts(ctx.explanation@);
    ctx.explanation.push(concat3("plumber matched ", n.as_str(), " rule(s)"));
    proof {
        assert(texts(destinations@) == plumbed(plumber.rules(), *msg));
        assert(texts(ctx.explanation@) =~= before.push(
            "plumber matched "@ + decimal(plumbed(plumber.rules(), *msg).len()) + " rule(s)"@));
    }
    ctx.candidates = destinations;
    false
}

impl RouterStage for PlumberRoutingStage {
    /// The candidates become the plumber's destinations; routing goes on.
    open spec fn applies(&self, msg: Message, before: RoutingContext, after: RoutingContext, done: bool) -> bool {
        !done && plumbed_into(*self.rules_of(), msg, before, after)
    }

    fn apply(&mut self, msg: &Message, ctx: &mut RoutingContext) -> (done: bool)
        ensures
            *final(self) == *old(self),
            !done,
            plumbed_into(*old(self).rules_of(), *msg, *old(ctx), *final(ctx)),
    {
        self.select(msg, ctx)
    }
}

/// Fallback stage that selects the first candidate not rejected.
pub struct FallbackRoutingStage;

impl FallbackRoutingStage {
    /// Selects the first valid candidate, which ends the routing; when
    /// there is none, says so and passes on.
    pub fn select(&self, ctx: &mut RoutingContext) -> (done: bool)
        ensures
            done == (valid_candidates(texts(old(ctx).candidates@), texts(old(ctx).rejected@)).len() > 0),
            final(ctx).candidates == old(ctx).candidates,
            final(ctx).rejected == old(ctx).rejected,
            done ==> {
                let first = valid_candidates(texts(old(ctx).candidates@), texts(old(ctx).rejected@))[0];
                &&& final(ctx).selected matches Some(s) && s@ == first
                &&& texts(final(ctx).explanation@) == texts(old(ctx).explanation@).push("fallback selected "@ + first)
            },
            !done ==> final(ctx).selected == old(ctx).selected
                && texts(final(ctx).explanation@) == texts(old(ctx).explanation@).push("fallback: no candidates available"@),
    {
        let valid = ctx.valid_candidates();
        let ghost before = texts(ctx.explanation@);
        if valid.len() > 0 {
            let first = valid[0].clone();
            proof {
                assert(texts(valid@)[0] == valid@[0]@);
            }
            ctx.explanation.push(concat2("fallback selected ", first.as_str()));
            ctx.selected = Some(first);
            proof {
                assert(texts(ctx.explanation@) =~= before.push("fallback selected "@ + valid@[0]@));
            }
            true
        } else {
            ctx.explanation.push("fallback: no candidates available".to_string());
            proof {
                assert(texts(ctx.explanation@) =~= before.push("fallback: no candidates available"@));
            }
            false
        }
    }
}

/// Picks one endpoint among candidates for a conversation: the
/// quantum-inspired router, which works in floating point and with
/// randomness, implements it outside this library.
pub trait QuantumChooser: Send + Sync {
    /// One of `candidates` for the conversation `conversation_id`, or none.
    fn pick(&mut self, conversation_id: u128, candidates: &Vec<String>) -> Option<String>;
}

/// Whether the quantum stage takes `before` to `after` reporting `done`:
/// with no candidates it passes on untouched; with no valid candidate it
/// notes so; otherwise it selects a valid candidate, which ends the
/// routing, or notes that it made no selection.
pub open spec fn quantum_applied(before: RoutingContext, after: RoutingContext, done: bool) -> bool {
    let valid = valid_candidates(texts(before.candidates@), texts(before.rejected@));
    if before.candidates@.len() == 0 {
        !done && unchanged(before, after)
    } else if valid.len() == 0 {
        &&& !done
        &&& after.candidates == before.candidates
        &&& after.rejected == before.rejected
        &&& after.selected == before.selected
        &&& texts(after.explanation@) == texts(before.explanation@).push("quantum: no valid candidates"@)
    } else {
        &&& after.candidates == before.candidates
        &&& after.rejected == before.rejected
        &&& done ==> (after.selected matches Some(c) && among(valid, c@)
            && texts(after.explanation@) == texts(before.explanation@).push("quantum selected "@ + c@))
        &&& !done ==> after.selected == before.selected
            && texts(after.explanation@) == texts(before.explanation@).push("quantum: no selection"@)
    }
}

/// Lets the quantum router choose among the valid candidates; a choice
/// outside them is not taken.
pub struct QuantumRoutingStage {
    chooser: Box<dyn QuantumChooser>,
}

impl QuantumRoutingStage {
    pub fn new(chooser: Box<dyn QuantumChooser>) -> (r: Self) {
        QuantumRoutingStage { chooser }
    }
}

impl RouterStage for QuantumRoutingStage {
    open spec fn applies(&self, msg: Message, before: RoutingContext, after: RoutingContext, done: bool) -> bool {
        quantum_applied(before, after, done)
    }

    fn apply(&mut self, msg: &Message, ctx: &mut RoutingContext) -> (done: bool)
        ensures
            quantum_applied(*old(ctx), *final(ctx), done),
    {
        if ctx.candidates.len() == 0 {
            return false;
        }
        let valid = ctx.valid_candidates();
        if valid.len() == 0 {
            ctx.note_no_valid_candidates();
            return false;
        }
        let choice = self.chooser.pick(msg.conversation_id, &valid);
        let checked = match choice {
            Some(c) => {
                if listed_text(&valid, c.as_str()) {
                    Some(c)
                } else {
                    None
                }
            }
            None => None,
        };
        ctx.apply_quantum_choice(checked)
    }
}

/// Whether the fallback takes `before` to `after` reporting `done`: it
/// selects the first candidate not rejected, which ends the routing, or
/// notes that there is none.
pub open spec fn fallback_applied(before: RoutingContext, after: RoutingContext, done: bool) -> bool {
    let valid = valid_candidates(texts(before.candidates@), texts(before.rejected@));
    &&& done == (valid.len() > 0)
    &&& after.candidates == before.candidates
    &&& after.rejected == before.rejected
    &&& done ==> {
        &&& after.selected matches Some(s) && s@ == valid[0]
        &&& texts(after.explanation@) == texts(before.explanation@).push("fallback selected "@ + valid[0])
    }
    &&& !done ==> after.selected == before.selected
        && texts(after.explanation@) == texts(before.explanation@).push("fallback: no candidates available"@)
}

impl RouterStage for FallbackRoutingStage {
    open spec fn applies(&self, msg: Message, before: RoutingContext, after: RoutingContext, done: bool) -> bool {
        fallback_applied(before, after, done)
    }

    fn apply(&mut self, _msg: &Message, ctx: &mut RoutingContext) -> (done: bool)
        ensures
            fallback_applied(*old(ctx), *final(ctx), done),
    {
        self.select(ctx)
    }
}

/// One stage of a routing pipeline: one of the library's own, or one the
/// caller supplies.
pub enum Stage {
    Mcp(McpRoutingStage),
    Plumber(PlumberRoutingStage),
    Circuit(CircuitAwareStage),
    Quantum(QuantumRoutingStage),
    Fallback,
    Given(Box<dyn RouterStage>),
}

/// Whether applying the stage `st` to `msg` may take `before` to `after`
/// and report `done`.
pub open spec fn stage_applies(st: Stage, msg: Message, before: RoutingContext, after: RoutingContext, done: bool) -> bool {
    match st {
        Stage::Mcp(x) => x.applies(msg, before, after, done),
        Stage::Plumber(x) => x.applies(msg, before, after, done),
        Stage::Circuit(x) => x.applies(msg, before, after, done),
        Stage::Quantum(x) => x.applies(msg, before, after, done),
        Stage::Fallback => fallback_applied(before, after, done),
        Stage::Given(x) => x.applies(msg, before, after, done),
    }
}

/// The first `k` of `stages`, each as a supplied stage.
pub open spec fn given_stages(stages: Seq<Box<dyn RouterStage>>, k: nat) -> Seq<Stage>
    decreases k,
{
    if k == 0 {
        Seq::empty()
    } else {
        given_stages(stages, (k - 1) as nat).push(Stage::Given(stages[k - 1]))
    }
}

/// `s` with the supplied stage `stage` after it, when there is one.
pub open spec fn then_given(s: Seq<Stage>, stage: Option<Box<dyn RouterStage>>) -> Seq<Stage> {
    match stage {
        Some(x) => s.push(Stage::Given(x)),
        None => s,
    }
}

/// `s` with the circuit filter `stage` after it, when there is one.
pub open spec fn then_circuit(s: Seq<Stage>, stage: Option<CircuitAwareStage>) -> Seq<Stage> {
    match stage {
        Some(x) => s.push(Stage::Circuit(x)),
        None => s,
    }
}

/// `s` with the quantum stage `stage` after it, when there is one.
pub open spec fn then_quantum(s: Seq<Stage>, stage: Option<QuantumRoutingStage>) -> Seq<Stage> {
    match stage {
        Some(x) => s.push(Stage::Quantum(x)),
        None => s,
    }
}

/// Composable routing pipeline.
pub struct RoutingPipeline {
    stages: Vec<Stage>,
}

impl RoutingPipeline {
    /// The stages, in the order they are applied.
    pub closed spec fn stages(&self) -> Seq<Stage> {
        self.stages@
    }

    /// A pipeline of the given stages, in order.
    pub fn new(stages: Vec<Box<dyn RouterStage>>) -> (r: Self)
        ensures
            r.stages() == given_stages(stages@, stages@.len()),
    {
        let mut stages = stages;
        let ghost original = stages@;
        let mut out: Vec<Stage> = Vec::new();
        while stages.len() > 0
            invariant
                stages@.len() <= original.len(),
                forall|j: int| 0 <= j < stages@.len() ==> stages@[j] == original[original.len() - stages@.len() + j],
                out@ == given_stages(original, (original.len() - stages@.len()) as nat),
            decreases stages@.len(),
        {
            let ghost before = stages@;
            let ghost k = (original.len() - stages@.len()) as nat;
            let x = stages.remove(0);
            proof {
                assert(x == original[k as int]);
                assert forall|j: int| 0 <= j < stages@.len() implies stages@[j] == original[original.len() - stages@.len() + j] by {
                    assert(stages@[j] == before[j + 1]);
                }
            }
            out.push(Stage::Given(x));
            proof {
                assert(given_stages(original, k + 1) == given_stages(original, k).push(Stage::Given(original[k as int])));
            }
        }
        RoutingPipeline { stages: out }
    }

    /// Runs the stages in order on a context without candidates, until one
    /// reports that the routing is complete, and returns the decision that
    /// the context amounts to then. The stages after that one are kept but
    /// not applied.
    pub fn route(&mut self, msg: &Message) -> (r: RoutingDecision)
        ensures
            exists|ctxs: Seq<RoutingContext>, dones: Seq<bool>| {
                &&& #[trigger] stages_ran(old(self).stages(), *msg, ctxs, dones)
                &&& decides(r, ctxs.last())
            },
    {
        let mut ctx = RoutingContext::new(Vec::new());
        let mut stages: Vec<Stage> = Vec::new();
        std::mem::swap(&mut stages, &mut self.stages);
        let ghost original = stages@;
        let mut done: Vec<Stage> = Vec::new();
        let mut finished = false;
        let ghost mut ctxs: Seq<RoutingContext> = seq![ctx];
        let ghost mut dones: Seq<bool> = Seq::empty();
        while stages.len() > 0
            invariant
                original == old(self).stages(),
                stages@.len() <= original.len(),
                forall|j: int| 0 <= j < stages@.len() ==> stages@[j] == original[original.len() - stages@.len() + j],
                ctxs.len() == dones.len() + 1,
                dones.len() <= original.len() - stages@.len(),
                !finished ==> dones.len() == original.len() - stages@.len(),
                finished ==> dones.len() > 0 && dones.last(),
                fresh_context(ctxs[0]),
                ctx == ctxs.last(),
                forall|i: int| 0 <= i < dones.len() ==> #[trigger] stage_applies(original[i], *msg, ctxs[i], ctxs[i + 1], dones[i]),
                forall|i: int| 0 <= i < dones.len() - 1 ==> !#[trigger] dones[i],
                !finished ==> forall|i: int| 0 <= i < dones.len() ==> !#[trigger] dones[i],
            decreases stages@.len(),
        {
            let ghost before = stages@;
            let mut stage = stages.remove(0);
            proof {
                assert forall|j: int| 0 <= j < stages@.len() implies stages@[j] == original[original.len() - stages@.len() + j] by {
                    assert(stages@[j] == before[j + 1]);
                }
            }
            if !finished {
                let ghost c0 = ctx;
                let ghost k = dones.len() as int;
                let ghost st = stage;
                assert(st == original[k]);
                finished = match &mut stage {
                    Stage::Mcp(x) => x.apply(msg, &mut ctx),
                    Stage::Plumber(x) => x.apply(msg, &mut ctx),
                    Stage::Circuit(x) => x.apply(msg, &mut ctx),
                    Stage::Quantum(x) => x.apply(msg, &mut ctx),
                    Stage::Fallback => FallbackRoutingStage.select(&mut ctx),
                    Stage::Given(x) => x.apply(msg, &mut ctx),
                };
                proof {
                    assert(stage_applies(st, *msg, c0, ctx, finished));
                    let d0 = dones;
                    let x0 = ctxs;
                    ctxs = ctxs.push(ctx);
                    dones = dones.push(finished);
                    assert forall|i: int| 0 <= i < dones.len() implies #[trigger] stage_applies(original[i], *msg, ctxs[i], ctxs[i + 1], dones[i]) by {
                        if i < k {
                            assert(ctxs[i] == x0[i] && ctxs[i + 1] == x0[i + 1] && dones[i] == d0[i]);
                        } else {
                            assert(ctxs[i] == c0 && ctxs[i + 1] == ctx && dones[i] == finished);
                        }
                    }
                    assert forall|i: int| 0 <= i < dones.len() - 1 implies !#[trigger] dones[i] by {
                        assert(dones[i] == d0[i]);
                    }
                    if !finished {
                        assert forall|i: int| 0 <= i < dones.len() implies !#[trigger] dones[i] by {
                            if i < k {
                                assert(dones[i] == d0[i]);
                            }
                        }
                    }
                }
            }
            done.push(stage);
        }
        self.stages = done;
        proof {
            assert(stages_ran(original, *msg, ctxs, dones));
        }
        ctx.into_decision()
    }
}

/// A context without candidates, selection, explanation or rejections.
pub open spec fn fresh_context(c: RoutingContext) -> bool {
    &&& c.candidates@.len() == 0
    &&& c.selected is None
    &&& c.explanation@.len() == 0
    &&& c.rejected@.len() == 0
}

/// Whether `ctxs` and `dones` trace a run of `stages` on `msg`: from a
/// fresh context, each stage in order takes `ctxs[i]` to `ctxs[i + 1]`
/// reporting `dones[i]`; every stage but the last applied reports not
/// done, and either every stage was applied or the last one applied
/// reported done.
pub open spec fn stages_ran(stages: Seq<Stage>, msg: Message, ctxs: Seq<RoutingContext>, dones: Seq<bool>) -> bool {
    &&& ctxs.len() == dones.len() + 1
    &&& dones.len() <= stages.len()
    &&& fresh_context(ctxs[0])
    &&& forall|i: int| 0 <= i < dones.len() ==> #[trigger] stage_applies(stages[i], msg, ctxs[i], ctxs[i + 1], dones[i])
    &&& forall|i: int| 0 <= i < dones.len() - 1 ==> !#[trigger] dones[i]
    &&& dones.len() == stages.len() || (dones.len() > 0 && dones.last())
}

/// Whether `r` is the decision that the context `c` amounts to.
pub open spec fn decides(r: RoutingDecision, c: RoutingContext) -> bool {
    &&& r.selected == c.selected
    &&& r.candidates == c.candidates
    &&& r.explanation@ == joined(texts(c.explanation@), "; "@)
}

/// Whether the endpoint `id` of `endpoints` is known to be offline.
pub open spec fn known_offline(endpoints: Map<Seq<char>, crate::ai::endpoints::AiEndpoint>, id: Seq<char>) -> bool {
    endpoints.contains_key(id) && endpoints[id].health.status == HealthStatus::Offline
}

/// Filtering `candidates` in order through the circuits `circuits` at time
/// `now`: the candidates kept, the ones rejected, and the circuits after
/// each candidate's request was let through or refused. A candidate whose
/// circuit refuses it, or that is known offline, is rejected.
pub open spec fn circuit_pass(
    circuits: Map<Seq<char>, crate::circuit::EndpointCircuit>,
    timeout_secs: u64,
    half_open_max: u32,
    endpoints: Map<Seq<char>, crate::ai::endpoints::AiEndpoint>,
    candidates: Seq<Seq<char>>,
    now: u64,
) -> (Seq<Seq<char>>, Seq<Seq<char>>, Map<Seq<char>, crate::circuit::EndpointCircuit>)
    decreases candidates.len(),
{
    if candidates.len() == 0 {
        (Seq::empty(), Seq::empty(), circuits)
    } else {
        let (kept, rejected, c) = circuit_pass(circuits, timeout_secs, half_open_max, endpoints, candidates.drop_last(), now);
        let id = candidates.last();
        let step = crate::circuit::allow_step(crate::circuit::circuit_of(c, id), timeout_secs, half_open_max, now);
        let c2 = c.insert(id, step.1);
        if !step.0 || known_offline(endpoints, id) {
            (kept, rejected.push(id), c2)
        } else {
            (kept.push(id), rejected, c2)
        }
    }
}

/// The explanation of a circuit filter that dropped `n` candidates.
pub open spec fn filtered_note(n: nat) -> Seq<char> {
    "circuit breaker filtered "@ + decimal(n) + " endpoint(s)"@
}

/// Whether `after` and the breaker `c1` are what filtering the candidates of
/// `before` through the breaker `c0` and the health of `endpoints` at time
/// `now` gives.
pub open spec fn circuit_filtered(
    c0: CircuitBreaker,
    c1: CircuitBreaker,
    endpoints: EndpointTable,
    before: RoutingContext,
    after: RoutingContext,
    now: u64,
) -> bool {
    let pass = circuit_pass(c0.circuits(), c0.timeout_secs(), c0.half_open_max(), endpoints.endpoints(), texts(before.candidates@), now);
    &&& texts(after.candidates@) == pass.0
    &&& texts(after.rejected@) == texts(before.rejected@) + pass.1
    &&& c1.circuits() == pass.2
    &&& after.selected == before.selected
    &&& if pass.1.len() > 0 {
        texts(after.explanation@) == texts(before.explanation@).push(filtered_note(pass.1.len()))
    } else {
        after.explanation == before.explanation
    }
}

/// Filters the candidates through the circuit breaker at time `now`
/// (nanoseconds on the breaker's clock) and the endpoints' health: a
/// candidate whose circuit refuses it, or that is known offline, is
/// rejected; never ends the routing.
pub fn filter_candidates_at(
    circuit: &mut CircuitBreaker,
    endpoints: &EndpointTable,
    ctx: &mut RoutingContext,
    now: u64,
) -> (done: bool)
    ensures
        !done,
        ({
            let pass = circuit_pass(old(circuit).circuits(), old(circuit).timeout_secs(), old(circuit).half_open_max(),
                endpoints.endpoints(), texts(old(ctx).candidates@), now);
            &&& texts(final(ctx).candidates@) == pass.0
            &&& texts(final(ctx).rejected@) == texts(old(ctx).rejected@) + pass.1
            &&& final(circuit).circuits() == pass.2
            &&& old(circuit).same_config(&*final(circuit))
            &&& final(ctx).selected == old(ctx).selected
            &&& if pass.1.len() > 0 {
                texts(final(ctx).explanation@) == texts(old(ctx).explanation@).push(filtered_note(pass.1.len()))
            } else {
                final(ctx).explanation == old(ctx).explanation
            }
        }),
{
    let ghost cs = texts(ctx.candidates@);
    let ghost c0 = circuit.circuits();
    let ghost timeout = circuit.timeout_secs();
    let ghost hmax = circuit.half_open_max();
    let ghost r0 = texts(ctx.rejected@);
    let ghost m = endpoints.endpoints();
    let mut kept: Vec<String> = Vec::new();
    let mut dropped: usize = 0;
    let mut i: usize = 0;
    proof {
        assert(cs.subrange(0, 0) =~= Seq::<Seq<char>>::empty());
        assert(texts(kept@) =~= Seq::<Seq<char>>::empty());
        assert(r0 + Seq::<Seq<char>>::empty() =~= r0);
    }
    while i < ctx.candidates.len()
        invariant
            i <= ctx.candidates@.len(),
            cs == texts(ctx.candidates@),
            m == endpoints.endpoints(),
            ({
                let pass = circuit_pass(c0, timeout, hmax, m, cs.subrange(0, i as int), now);
                &&& texts(kept@) == pass.0
                &&& texts(ctx.rejected@) == r0 + pass.1
                &&& circuit.circuits() == pass.2
                &&& dropped == pass.1.len()
            }),
            circuit.timeout_secs() == timeout,
            circuit.half_open_max() == hmax,
            old(circuit).same_config(&*circuit),
            ctx.selected == old(ctx).selected,
            ctx.explanation == old(ctx).explanation,
            dropped <= i,
        decreases ctx.candidates@.len() - i,
    {
        let ghost prefix = cs.subrange(0, i + 1);
        proof {
            assert(prefix.drop_last() =~= cs.subrange(0, i as int));
            assert(prefix.last() == ctx.candidates@[i as int]@);
        }
        let id = ctx.candidates[i].clone();
        let allowed = circuit.allow_at(id.as_str(), now);
        let offline = match endpoints.get(id.as_str()) {
            Some(ep) => match ep.health.status {
                HealthStatus::Offline => true,
                _ => false,
            },
            None => false,
        };
        if !allowed || offline {
            let ghost before = texts(ctx.rejected@);
            ctx.rejected.push(id);
            proof {
                assert(texts(ctx.rejected@) =~= before.push(prefix.last()));
            }
            dropped = dropped + 1;
        } else {
            let ghost before = texts(kept@);
            kept.push(id);
            proof {
                assert(texts(kept@) =~= before.push(prefix.last()));
            }
        }
        i = i + 1;
    }
    proof {
        assert(cs.subrange(0, cs.len() as int) =~= cs);
    }
    ctx.candidates = kept;
    if dropped > 0 {
        let n = decimal_text(dropped as u64);
        let ghost before = texts(ctx.explanation@);
        ctx.explanation.push(concat3("circuit breaker filtered ", n.as_str(), " endpoint(s)"));
        proof {
            assert(texts(ctx.explanation@) =~= before.push(filtered_note(dropped as nat)));
        }
    }
    false
}

/// Filters candidates through the circuit breaker and the endpoints'
/// health.
pub struct CircuitAwareStage {
    circuit: CircuitBreaker,
    endpoints: EndpointTable,
}

impl CircuitAwareStage {
    /// The breaker the stage consults.
    pub closed spec fn breaker(&self) -> CircuitBreaker {
        self.circuit
    }

    /// The endpoints whose health the stage consults.
    pub closed spec fn table(&self) -> EndpointTable {
        self.endpoints
    }

    pub fn new(circuit: CircuitBreaker, endpoints: EndpointTable) -> (r: Self)
        ensures
            r.breaker() == circuit,
            r.table() == endpoints,
    {
        CircuitAwareStage { circuit, endpoints }
    }

    /// The breaker the stage consults.
    pub fn circuit(&self) -> (r: &CircuitBreaker)
        ensures
            *r == self.breaker(),
    {
        &self.circuit
    }

    /// The endpoints whose health the stage consults.
    pub fn endpoints(&self) -> (r: &EndpointTable)
        ensures
            *r == self.table(),
    {
        &self.endpoints
    }
}

impl RouterStage for CircuitAwareStage {
    /// Candidates refused by their circuits, or known offline, are
    /// rejected, at some reading of the breaker's clock; routing goes on.
    open spec fn applies(&self, msg: Message, before: RoutingContext, after: RoutingContext, done: bool) -> bool {
        &&& !done
        &&& exists|c1: CircuitBreaker, now: u64| #[trigger] circuit_filtered(self.breaker(), c1, self.table(), before, after, now)
    }

    fn apply(&mut self, _msg: &Message, ctx: &mut RoutingContext) -> (done: bool)
        ensures
            !done,
            final(self).table() == old(self).table(),
            old(self).breaker().same_config(&final(self).breaker()),
            exists|now: u64| #[trigger] circuit_filtered(old(self).breaker(), final(self).breaker(), old(self).table(), *old(ctx), *final(ctx), now),
    {
        let now = self.circuit.clock();
        let r = filter_candidates_at(&mut self.circuit, &self.endpoints, ctx, now);
        assert(self.table() == old(self).table());
        assert(circuit_filtered(old(self).breaker(), self.breaker(), old(self).table(), *old(ctx), *ctx, now));
        r
    }
}

/// Builds the default routing pipeline from its stages: the MCP stage
/// first, then the plumber's, the circuit filter when there is one (so that
/// what follows only sees candidates the circuits let through), the
/// quantum stage when there is one, and the fallback.
pub fn pipeline_of(
    mcp: Box<dyn RouterStage>,
    plumber: Box<dyn RouterStage>,
    quantum: Option<Box<dyn RouterStage>>,
    circuit: Option<Box<dyn RouterStage>>,
) -> (r: RoutingPipeline)
    ensures
        r.stages() == then_given(
            then_given(Seq::<Stage>::empty().push(Stage::Given(mcp)).push(Stage::Given(plumber)), circuit),
            quantum,
        ).push(Stage::Fallback),
{
    let mut stages: Vec<Stage> = Vec::new();
    stages.push(Stage::Given(mcp));
    stages.push(Stage::Given(plumber));
    let ghost front = stages@;
    match circuit {
        Some(c) => stages.push(Stage::Given(c)),
        None => {}
    }
    let ghost middle = stages@;
    proof {
        assert(middle == then_given(front, circuit));
    }
    match quantum {
        Some(q) => stages.push(Stage::Given(q)),
        None => {}
    }
    proof {
        assert(stages@ == then_given(middle, quantum));
    }
    stages.push(Stage::Fallback);
    RoutingPipeline { stages }
}

/// Builds the default routing pipeline: MCP tool calls first, then the
/// plumber's rules, the circuit filter when there is one, the quantum
/// router when there is one, and the fallback.
pub fn default_pipeline(
    mcp: McpRegistry,
    plumber: Plumber,
    quantum: Option<QuantumRoutingStage>,
    circuit: Option<CircuitAwareStage>,
) -> (r: RoutingPipeline)
    ensures
        exists|m: McpRoutingStage, p: PlumberRoutingStage|
            #![trigger m.registry(), p.rules_of()]
            *m.registry() == mcp && *p.rules_of() == plumber
            && r.stages() == then_quantum(
                then_circuit(Seq::<Stage>::empty().push(Stage::Mcp(m)).push(Stage::Plumber(p)), circuit),
                quantum,
            ).push(Stage::Fallback),
{
    let m = McpRoutingStage::new(mcp);
    let p = PlumberRoutingStage::new(plumber);
    let mut stages: Vec<Stage> = Vec::new();
    stages.push(Stage::Mcp(m));
    stages.push(Stage::Plumber(p));
    let ghost front = stages@;
    match circuit {
        Some(c) => stages.push(Stage::Circuit(c)),
        None => {}
    }
    let ghost middle = stages@;
    proof {
        assert(middle == then_circuit(front, circuit));
    }
    match quantum {
        Some(q) => stages.push(Stage::Quantum(q)),
        None => {}
    }
    proof {
        assert(stages@ == then_quantum(middle, quantum));
    }
    stages.push(Stage::Fallback);
    RoutingPipeline { stages }
}

proof fn valid_candidates_from(cands: Seq<Seq<char>>, rejected: Seq<Seq<char>>)
    ensures
        forall|i: int| 0 <= i < valid_candidates(cands, rejected).len() ==>
            cands.contains(#[trigger] valid_candidates(cands, rejected)[i]),
    decreases cands.len(),
{
    if cands.len() > 0 {
        let rest = cands.drop_last();
        valid_candidates_from(rest, rejected);
        let v = valid_candidates(cands, rejected);
        let before = valid_candidates(rest, rejected);
        assert forall|i: int| 0 <= i < v.len() implies cands.contains(#[trigger] v[i]) by {
            if i < before.len() {
                assert(v[i] == before[i]);
                let j = choose|j: int| 0 <= j < rest.len() && rest[j] == before[i];
                assert(cands[j] == rest[j]);
            } else {
                assert(v[i] == cands.last());
                assert(cands[cands.len() - 1] == cands.last());
            }
        }
    }
}

/// Whether, filtering `candidates` in order, the circuit of the `j`-th one
/// let its request through at its turn.
pub open spec fn circuit_let_through(
    circuits: Map<Seq<char>, crate::circuit::EndpointCircuit>,
    timeout_secs: u64,
    half_open_max: u32,
    endpoints: Map<Seq<char>, crate::ai::endpoints::AiEndpoint>,
    candidates: Seq<Seq<char>>,
    j: int,
    now: u64,
) -> bool {
    let before = circuit_pass(circuits, timeout_secs, half_open_max, endpoints, candidates.take(j), now);
    crate::circuit::allow_step(crate::circuit::circuit_of(before.2, candidates[j]), timeout_secs, half_open_max, now).0
}

proof fn circuit_keeps_from(
    circuits: Map<Seq<char>, crate::circuit::EndpointCircuit>,
    timeout_secs: u64,
    half_open_max: u32,
    endpoints: Map<Seq<char>, crate::ai::endpoints::AiEndpoint>,
    cands: Seq<Seq<char>>,
    now: u64,
)
    ensures
        forall|i: int| 0 <= i < circuit_pass(circuits, timeout_secs, half_open_max, endpoints, cands, now).0.len() ==> {
            let k = #[trigger] circuit_pass(circuits, timeout_secs, half_open_max, endpoints, cands, now).0[i];
            &&& cands.contains(k)
            &&& !known_offline(endpoints, k)
            &&& exists|j: int| 0 <= j < cands.len() && cands[j] == k
                && circuit_let_through(circuits, timeout_secs, half_open_max, endpoints, cands, j, now)
        },
    decreases cands.len(),
{
    if cands.len() > 0 {
        let rest = cands.drop_last();
        circuit_keeps_from(circuits, timeout_secs, half_open_max, endpoints, rest, now);
        let kept = circuit_pass(circuits, timeout_secs, half_open_max, endpoints, cands, now).0;
        let before = circuit_pass(circuits, timeout_secs, half_open_max, endpoints, rest, now).0;
        assert forall|i: int| 0 <= i < kept.len() implies {
            &&& cands.contains(#[trigger] kept[i])
            &&& !known_offline(endpoints, kept[i])
            &&& exists|j: int| 0 <= j < cands.len() && cands[j] == kept[i]
                && circuit_let_through(circuits, timeout_secs, half_open_max, endpoints, cands, j, now)
        } by {
            if i < before.len() {
                assert(kept[i] == before[i]);
                let j = choose|j: int| 0 <= j < rest.len() && rest[j] == before[i]
                    && circuit_let_through(circuits, timeout_secs, half_open_max, endpoints, rest, j, now);
                assert(cands[j] == rest[j]);
                assert(cands.take(j) =~= rest.take(j));
                assert(circuit_let_through(circuits, timeout_secs, half_open_max, endpoints, cands, j, now));
            } else {
                let j = cands.len() - 1;
                assert(kept[i] == cands.last());
                assert(cands[j] == cands.last());
                assert(cands.take(j) =~= rest);
                assert(circuit_let_through(circuits, timeout_secs, half_open_max, endpoints, cands, j, now));
            }
        }
    }
}

proof fn routing_without_quantum_picks_kept(
    m: McpRoutingStage,
    p: PlumberRoutingStage,
    c: CircuitAwareStage,
    msg: Message,
    ctxs: Seq<RoutingContext>,
    dones: Seq<bool>,
)
    requires
        stages_ran(seq![Stage::Mcp(m), Stage::Plumber(p), Stage::Circuit(c), Stage::Fallback], msg, ctxs, dones),
        msg.msg_type@ != tool_call_type(),
    ensures
        ctxs.last().selected matches Some(e) ==> {
            &&& plumbed(p.rules_of().rules(), msg).contains(e@)
            &&& !known_offline(c.table().endpoints(), e@)
            &&& exists|j: int, now: u64| 0 <= j < plumbed(p.rules_of().rules(), msg).len()
                && plumbed(p.rules_of().rules(), msg)[j] == e@
                && #[trigger] circuit_let_through(c.breaker().circuits(), c.breaker().timeout_secs(), c.breaker().half_open_max(),
                    c.table().endpoints(), plumbed(p.rules_of().rules(), msg), j, now)
        },
{
    let st = seq![Stage::Mcp(m), Stage::Plumber(p), Stage::Circuit(c), Stage::Fallback];
    assert(st[0] == Stage::Mcp(m) && st[1] == Stage::Plumber(p) && st[2] == Stage::Circuit(c) && st[3] == Stage::Fallback);
    assert(dones.len() > 0) by {
        if dones.len() == 0 {
            assert(dones.len() != st.len());
        }
    }
    let i0: int = 0;
    assert(stage_applies(st[i0], msg, ctxs[i0], ctxs[i0 + 1], dones[i0]));
    assert(!dones[0]);
    assert(dones.len() > 1);
    let i1: int = 1;
    assert(stage_applies(st[i1], msg, ctxs[i1], ctxs[i1 + 1], dones[i1]));
    assert(!dones[1]);
    assert(dones.len() > 2);
    let i2: int = 2;
    assert(stage_applies(st[i2], msg, ctxs[i2], ctxs[i2 + 1], dones[i2]));
    assert(!dones[2]);
    assert(dones.len() == 4);
    let i3: int = 3;
    assert(stage_applies(st[i3], msg, ctxs[i3], ctxs[i3 + 1], dones[i3]));
    let c3 = ctxs[3];
    let (c1, now) = choose|c1: CircuitBreaker, now: u64| #[trigger] circuit_filtered(c.breaker(), c1, c.table(), ctxs[2], c3, now);
    let b = c.breaker();
    let pass = circuit_pass(b.circuits(), b.timeout_secs(), b.half_open_max(), c.table().endpoints(), texts(ctxs[2].candidates@), now);
    assert(texts(ctxs[2].candidates@) == plumbed(p.rules_of().rules(), msg));
    circuit_keeps_from(b.circuits(), b.timeout_secs(), b.half_open_max(), c.table().endpoints(), texts(ctxs[2].candidates@), now);
    valid_candidates_from(texts(c3.candidates@), texts(c3.rejected@));
    assert(ctxs.last() == ctxs[4]);
    if ctxs[4].selected is Some {
        let v = valid_candidates(texts(c3.candidates@), texts(c3.rejected@));
        if dones[3] {
            assert(v.len() > 0);
            let e = ctxs[4].selected->0;
            assert(e@ == v[0]);
            assert(texts(c3.candidates@).contains(v[0]));
            let j = choose|j: int| 0 <= j < texts(c3.candidates@).len() && texts(c3.candidates@)[j] == v[0];
            assert(pass.0[j] == v[0]);
            let jj = choose|jj: int| 0 <= jj < texts(ctxs[2].candidates@).len() && texts(ctxs[2].candidates@)[jj] == pass.0[j]
                && circuit_let_through(b.circuits(), b.timeout_secs(), b.half_open_max(), c.table().endpoints(), texts(ctxs[2].candidates@), jj, now);
            assert(circuit_let_through(b.circuits(), b.timeout_secs(), b.half_open_max(), c.table().endpoints(), plumbed(p.rules_of().rules(), msg), jj, now));
        } else {
            assert(ctxs[4].selected == c3.selected);
            assert(c3.selected == ctxs[2].selected);
            assert(ctxs[2].selected == ctxs[1].selected);
            assert(ctxs[1].selected == ctxs[0].selected);
        }
    }
}


proof fn routing_with_quantum_picks_kept(
    m: McpRoutingStage,
    p: PlumberRoutingStage,
    c: CircuitAwareStage,
    q: QuantumRoutingStage,
    msg: Message,
    ctxs: Seq<RoutingContext>,
    dones: Seq<bool>,
)
    requires
        stages_ran(seq![Stage::Mcp(m), Stage::Plumber(p), Stage::Circuit(c), Stage::Quantum(q), Stage::Fallback], msg, ctxs, dones),
        msg.msg_type@ != tool_call_type(),
    ensures
        ctxs.last().selected matches Some(e) ==> {
            &&& plumbed(p.rules_of().rules(), msg).contains(e@)
            &&& !known_offline(c.table().endpoints(), e@)
            &&& exists|j: int, now: u64| 0 <= j < plumbed(p.rules_of().rules(), msg).len()
                && plumbed(p.rules_of().rules(), msg)[j] == e@
                && #[trigger] circuit_let_through(c.breaker().circuits(), c.breaker().timeout_secs(), c.breaker().half_open_max(),
                    c.table().endpoints(), plumbed(p.rules_of().rules(), msg), j, now)
        },
{
    let st = seq![Stage::Mcp(m), Stage::Plumber(p), Stage::Circuit(c), Stage::Quantum(q), Stage::Fallback];
    assert(st[0] == Stage::Mcp(m) && st[1] == Stage::Plumber(p) && st[2] == Stage::Circuit(c)
        && st[3] == Stage::Quantum(q) && st[4] == Stage::Fallback);
    assert(dones.len() > 0) by {
        if dones.len() == 0 {
            assert(dones.len() != st.len());
        }
    }
    let i0: int = 0;
    assert(stage_applies(st[i0], msg, ctxs[i0], ctxs[i0 + 1], dones[i0]));
    assert(!dones[0]);
    assert(dones.len() > 1);
    let i1: int = 1;
    assert(stage_applies(st[i1], msg, ctxs[i1], ctxs[i1 + 1], dones[i1]));
    assert(!dones[1]);
    assert(dones.len() > 2);
    let i2: int = 2;
    assert(stage_applies(st[i2], msg, ctxs[i2], ctxs[i2 + 1], dones[i2]));
    assert(!dones[2]);
    assert(dones.len() > 3);
    let i3: int = 3;
    assert(stage_applies(st[i3], msg, ctxs[i3], ctxs[i3 + 1], dones[i3]));
    let c3 = ctxs[3];
    let c4 = ctxs[4];
    let (c1, now) = choose|c1: CircuitBreaker, now: u64| #[trigger] circuit_filtered(c.breaker(), c1, c.table(), ctxs[2], c3, now);
    let b = c.breaker();
    let pass = circuit_pass(b.circuits(), b.timeout_secs(), b.half_open_max(), c.table().endpoints(), texts(ctxs[2].candidates@), now);
    assert(texts(ctxs[2].candidates@) == plumbed(p.rules_of().rules(), msg));
    circuit_keeps_from(b.circuits(), b.timeout_secs(), b.half_open_max(), c.table().endpoints(), texts(ctxs[2].candidates@), now);
    valid_candidates_from(texts(c3.candidates@), texts(c3.rejected@));
    assert(c3.selected == ctxs[0].selected) by {
        assert(c3.selected == ctxs[2].selected);
        assert(ctxs[2].selected == ctxs[1].selected);
        assert(ctxs[1].selected == ctxs[0].selected);
    }
    assert(c4.candidates == c3.candidates && c4.rejected == c3.rejected);
    let v3 = valid_candidates(texts(c3.candidates@), texts(c3.rejected@));
    if dones[3] {
        assert(dones.len() == 4);
        assert(ctxs.last() == c4);
        let e = c4.selected->0;
        assert(among(v3, e@));
        let k = choose|k: int| 0 <= k < v3.len() && v3[k] == e@;
        assert(texts(c3.candidates@).contains(v3[k]));
        let j = choose|j: int| 0 <= j < texts(c3.candidates@).len() && texts(c3.candidates@)[j] == v3[k];
        assert(pass.0[j] == e@);
        let jj = choose|jj: int| 0 <= jj < texts(ctxs[2].candidates@).len() && texts(ctxs[2].candidates@)[jj] == pass.0[j]
            && circuit_let_through(b.circuits(), b.timeout_secs(), b.half_open_max(), c.table().endpoints(), texts(ctxs[2].candidates@), jj, now);
        assert(circuit_let_through(b.circuits(), b.timeout_secs(), b.half_open_max(), c.table().endpoints(), plumbed(p.rules_of().rules(), msg), jj, now));
    } else {
        assert(c4.selected == c3.selected);
        assert(dones.len() == 5);
        let i4: int = 4;
        assert(stage_applies(st[i4], msg, ctxs[i4], ctxs[i4 + 1], dones[i4]));
        assert(ctxs.last() == ctxs[5]);
        if ctxs[5].selected is Some {
            if dones[4] {
                let v = valid_candidates(texts(c4.candidates@), texts(c4.rejected@));
                assert(v == v3);
                let e = ctxs[5].selected->0;
                assert(e@ == v3[0]);
                assert(texts(c3.candidates@).contains(v3[0]));
                let j = choose|j: int| 0 <= j < texts(c3.candidates@).len() && texts(c3.candidates@)[j] == v3[0];
                assert(pass.0[j] == v3[0]);
                let jj = choose|jj: int| 0 <= jj < texts(ctxs[2].candidates@).len() && texts(ctxs[2].candidates@)[jj] == pass.0[j]
                    && circuit_let_through(b.circuits(), b.timeout_secs(), b.half_open_max(), c.table().endpoints(), texts(ctxs[2].candidates@), jj, now);
                assert(circuit_let_through(b.circuits(), b.timeout_secs(), b.half_open_max(), c.table().endpoints(), plumbed(p.rules_of().rules(), msg), jj, now));
            } else {
                assert(ctxs[5].selected == c4.selected);
            }
        }
    }
}

/// With the default stages, and the quantum stage or none, a message that
/// is not a tool call is sent, if anywhere, to one of the plumber's
/// destinations for it that the circuit filter kept: one whose circuit let
/// the request through at its turn in this routing, and that is not known
/// to be offline.
pub proof fn default_routing_picks_kept_destination(
    m: McpRoutingStage,
    p: PlumberRoutingStage,
    c: CircuitAwareStage,
    quantum: Option<QuantumRoutingStage>,
    msg: Message,
    ctxs: Seq<RoutingContext>,
    dones: Seq<bool>,
)
    requires
        stages_ran(
            then_quantum(seq![Stage::Mcp(m), Stage::Plumber(p), Stage::Circuit(c)], quantum).push(Stage::Fallback),
            msg, ctxs, dones,
        ),
        msg.msg_type@ != tool_call_type(),
    ensures
        ctxs.last().selected matches Some(e) ==> {
            &&& plumbed(p.rules_of().rules(), msg).contains(e@)
            &&& !known_offline(c.table().endpoints(), e@)
            &&& exists|j: int, now: u64| 0 <= j < plumbed(p.rules_of().rules(), msg).len()
                && plumbed(p.rules_of().rules(), msg)[j] == e@
                && #[trigger] circuit_let_through(c.breaker().circuits(), c.breaker().timeout_secs(), c.breaker().half_open_max(),
                    c.table().endpoints(), plumbed(p.rules_of().rules(), msg), j, now)
        },
{
    let front = seq![Stage::Mcp(m), Stage::Plumber(p), Stage::Circuit(c)];
    match quantum {
        Some(q) => {
            assert(front.push(Stage::Quantum(q)).push(Stage::Fallback)
                =~= seq![Stage::Mcp(m), Stage::Plumber(p), Stage::Circuit(c), Stage::Quantum(q), Stage::Fallback]);
            routing_with_quantum_picks_kept(m, p, c, q, msg, ctxs, dones);
        }
        None => {
            assert(front.push(Stage::Fallback) =~= seq![Stage::Mcp(m), Stage::Plumber(p), Stage::Circuit(c), Stage::Fallback]);
            routing_without_quantum_picks_kept(m, p, c, msg, ctxs, dones);
        }
    }
}

} // verus!
