//! From the call sites of one compilation unit to its call graph: which
//! call sites count as calls, and the graph that the calls of a unit make.

use crate::error::GraphVizError;
use crate::document::lemma_read_graph_is_sound;
use crate::laws::{lemma_merge_size, lemma_with_edge_sets, lemma_with_node_sets};
use crate::model::{lemma_first_is_handle, lemma_with_edge, lemma_with_node, CallGraph};
use crate::pattern::{regex_compiles, regex_matches, search};
use crate::store::{edge_count, new_graph, node_count};
use crate::text::parsed_json;
use crate::types::{
    append_graph, durable_text, get_index_or_insert_edge, get_index_or_insert_node,
    graph_from_json, graph_model, graph_to_json, option_string_view, stored_graph, Function,
    FunctionBuilder, FunctionView,
};
use petgraph::graph::Graph;
use vstd::prelude::*;

verus! {

/// One call instruction, as the inspection of a unit reports it.
#[derive(Debug)]
pub struct CallSite {
    /// The instruction as text.
    pub rendered: String,
    /// The name of the called function, where it could be resolved.
    pub callee: Option<String>,
}

/// The mathematical value of a [`CallSite`].
pub ghost struct CallSiteView {
    pub rendered: Seq<char>,
    pub callee: Option<Seq<char>>,
}

impl View for CallSite {
    type V = CallSiteView;

    open spec fn view(&self) -> CallSiteView {
        CallSiteView { rendered: self.rendered@, callee: option_string_view(self.callee) }
    }
}

/// One function that a unit mentions, with the call sites in its body.
#[derive(Debug)]
pub struct ObservedFunction {
    pub name: String,
    /// Whether the unit defines the function, rather than only naming it.
    pub defined: bool,
    pub call_sites: Vec<CallSite>,
}

/// The mathematical value of an [`ObservedFunction`].
pub ghost struct ObservedFunctionView {
    pub name: Seq<char>,
    pub defined: bool,
    pub call_sites: Seq<CallSiteView>,
}

impl View for ObservedFunction {
    type V = ObservedFunctionView;

    open spec fn view(&self) -> ObservedFunctionView {
        ObservedFunctionView {
            name: self.name@,
            defined: self.defined,
            call_sites: Seq::new(self.call_sites@.len(), |i: int| self.call_sites@[i]@),
        }
    }
}

/// One compilation unit: its identifier and the functions it mentions.
#[derive(Debug)]
pub struct ModuleUnit {
    pub name: String,
    pub functions: Vec<ObservedFunction>,
}

/// The mathematical value of a [`ModuleUnit`].
pub ghost struct ModuleUnitView {
    pub name: Seq<char>,
    pub functions: Seq<ObservedFunctionView>,
}

impl View for ModuleUnit {
    type V = ModuleUnitView;

    open spec fn view(&self) -> ModuleUnitView {
        ModuleUnitView {
            name: self.name@,
            functions: Seq::new(self.functions@.len(), |i: int| self.functions@[i]@),
        }
    }
}

/// What becomes of a call site.
#[derive(Clone, Copy, Debug, PartialEq, Eq, Structural)]
pub enum CallSiteOutcome {
    /// A call of a named function: an edge of the graph.
    Edge,
    /// A call of a compiler intrinsic: left out, as expected.
    IntrinsicSkipped,
    /// A call through a computed value: left out.
    ComputedTarget,
    /// The called function could not be determined: left out.
    UnresolvedCallSite,
}

/// The text that matches a call through a computed value: from the start
/// of the instruction, anything but an opening parenthesis, then a
/// numbered register and the parenthesis that opens the arguments.
pub const COMPUTED_TARGET_PATTERN: &'static str = "^[^(]*%\\d+\\(";

/// The prefix that the names of compiler intrinsics carry.
pub open spec fn intrinsic_prefix() -> Seq<char> {
    seq!['l', 'l', 'v', 'm', '.']
}

/// The name begins with the intrinsic prefix.
pub open spec fn is_intrinsic_name(name: Seq<char>) -> bool {
    name.len() >= 5 && name.subrange(0, 5) == intrinsic_prefix()
}

/// What becomes of a call site, given whether its text matches the
/// pattern of a computed target and the name of the callee, if any. An
/// intrinsic is recognised first, then a computed target, then a missing
/// callee; what is left is a call.
pub open spec fn outcome_of(computed: bool, callee: Option<Seq<char>>) -> CallSiteOutcome {
    if callee is Some && is_intrinsic_name(callee->0) {
        CallSiteOutcome::IntrinsicSkipped
    } else if computed {
        CallSiteOutcome::ComputedTarget
    } else if callee is None {
        CallSiteOutcome::UnresolvedCallSite
    } else {
        CallSiteOutcome::Edge
    }
}

/// What becomes of a call site, its text judged by the pattern.
pub open spec fn site_outcome(site: CallSiteView) -> CallSiteOutcome {
    outcome_of(regex_matches(COMPUTED_TARGET_PATTERN@, site.rendered), site.callee)
}

/// The record under which a function of a unit enters the graph: the
/// unit is its source file where the unit defines it.
pub open spec fn record_of(unit: Seq<char>, function: ObservedFunctionView) -> FunctionView {
    FunctionView {
        name: function.name,
        source_file: if function.defined {
            Some(unit)
        } else {
            None
        },
    }
}

/// The record under which a callee enters the graph: its name alone.
pub open spec fn callee_record(name: Seq<char>) -> FunctionView {
    FunctionView { name, source_file: None }
}

/// The graph after one call site of `caller`: an edge to the callee where
/// the site is a call, no change where it is not.
pub open spec fn with_site(
    graph: CallGraph,
    caller: FunctionView,
    site: CallSiteView,
) -> CallGraph {
    if site_outcome(site) == CallSiteOutcome::Edge {
        graph.with_edge(caller, callee_record(site.callee->0))
    } else {
        graph
    }
}

/// The graph after the first `count` call sites of `caller`.
pub open spec fn with_sites(
    graph: CallGraph,
    caller: FunctionView,
    sites: Seq<CallSiteView>,
    count: nat,
) -> CallGraph
    decreases count,
{
    if count == 0 {
        graph
    } else {
        with_site(with_sites(graph, caller, sites, (count - 1) as nat), caller, sites[count - 1])
    }
}

/// The graph after one function of a unit: its node, then its call sites.
pub open spec fn with_function(
    graph: CallGraph,
    unit: Seq<char>,
    function: ObservedFunctionView,
) -> CallGraph {
    with_sites(
        graph.with_node(record_of(unit, function)),
        record_of(unit, function),
        function.call_sites,
        function.call_sites.len(),
    )
}

/// The graph after the first `count` functions of a unit.
pub open spec fn with_functions(
    graph: CallGraph,
    unit: Seq<char>,
    functions: Seq<ObservedFunctionView>,
    count: nat,
) -> CallGraph
    decreases count,
{
    if count == 0 {
        graph
    } else {
        with_function(
            with_functions(graph, unit, functions, (count - 1) as nat),
            unit,
            functions[count - 1],
        )
    }
}

/// The call graph of one unit, built from nothing.
pub open spec fn module_graph(unit: ModuleUnitView) -> CallGraph {
    with_functions(CallGraph::empty(), unit.name, unit.functions, unit.functions.len())
}

/// The number of call sites in the first `count` functions.
pub open spec fn sites_before(functions: Seq<ObservedFunctionView>, count: nat) -> nat
    decreases count,
{
    if count == 0 {
        0
    } else {
        sites_before(functions, (count - 1) as nat) + functions[count - 1].call_sites.len()
    }
}

/// The number of observations in a unit: its functions and their call
/// sites. No graph of the unit has more nodes, nor more edges.
pub open spec fn observation_count(unit: ModuleUnitView) -> nat {
    unit.functions.len() + sites_before(unit.functions, unit.functions.len())
}

/// Tells whether a name carries the intrinsic prefix.
pub fn is_intrinsic(name: &str) -> (intrinsic: bool)
    ensures
        intrinsic == is_intrinsic_name(name@),
{
    let prefix = "llvm.";
    proof {
        reveal_strlit("llvm.");
        assert(prefix@ =~= intrinsic_prefix());
    }
    let length = name.unicode_len();
    if length < 5 {
        return false;
    }
    let mut i: usize = 0;
    while i < 5
        invariant
            i <= 5,
            5 <= name@.len(),
            prefix@ == intrinsic_prefix(),
            forall|j: int| 0 <= j < i ==> name@[j] == intrinsic_prefix()[j],
        decreases 5 - i,
    {
        if name.get_char(i) != prefix.get_char(i) {
            proof {
                assert(name@.subrange(0, 5)[i as int] == name@[i as int]);
            }
            return false;
        }
        i += 1;
    }
    proof {
        assert(name@.subrange(0, 5) =~= intrinsic_prefix());
    }
    true
}

/// Decides what becomes of a call site, from the verdict of the pattern on
/// its text and from the name of its callee.
pub fn classify_call_site(computed: bool, callee: &Option<String>) -> (outcome: CallSiteOutcome)
    ensures
        outcome == outcome_of(computed, option_string_view(*callee)),
        outcome == CallSiteOutcome::Edge ==> !computed && callee is Some && !is_intrinsic_name(
            callee->0@,
        ),
{
    let intrinsic = match callee {
        Some(name) => is_intrinsic(name.as_str()),
        None => false,
    };
    if intrinsic {
        CallSiteOutcome::IntrinsicSkipped
    } else if computed {
        CallSiteOutcome::ComputedTarget
    } else if callee.is_none() {
        CallSiteOutcome::UnresolvedCallSite
    } else {
        CallSiteOutcome::Edge
    }
}

/// Tells whether the pattern of a computed target compiles, by trying it
/// on the empty text.
pub fn pattern_is_usable() -> (usable: bool)
    ensures
        usable == regex_compiles(COMPUTED_TARGET_PATTERN@),
{
    search(COMPUTED_TARGET_PATTERN, "").is_some()
}

/// Tells whether the text of a call instruction matches the pattern of a
/// computed target.
pub fn is_computed_target(rendered: &str) -> (computed: bool)
    requires
        regex_compiles(COMPUTED_TARGET_PATTERN@),
    ensures
        computed == regex_matches(COMPUTED_TARGET_PATTERN@, rendered@),
{
    match search(COMPUTED_TARGET_PATTERN, rendered) {
        Some(hit) => hit,
        None => false,
    }
}

/// More functions have no fewer call sites.
proof fn lemma_sites_before_grows(functions: Seq<ObservedFunctionView>, count: nat, upto: nat)
    requires
        count <= upto,
    ensures
        sites_before(functions, count) <= sites_before(functions, upto),
    decreases upto,
{
    if count < upto {
        lemma_sites_before_grows(functions, count, (upto - 1) as nat);
    }
}

/// Tells whether a unit has no more observations than a graph holds nodes.
pub fn observations_fit(unit: &ModuleUnit) -> (fit: bool)
    ensures
        fit == (observation_count(unit@) <= u32::MAX),
{
    let limit: u64 = 0xFFFF_FFFF;
    let count = unit.functions.len();
    if count as u64 > limit {
        return false;
    }
    let mut total: u64 = count as u64;
    let mut i: usize = 0;
    while i < count
        invariant
            i <= count,
            count == unit.functions@.len(),
            count == unit@.functions.len(),
            limit == u32::MAX,
            total == count + sites_before(unit@.functions, i as nat),
            total <= limit,
        decreases count - i,
    {
        let sites = unit.functions[i].call_sites.len();
        proof {
            assert(unit@.functions[i as int] == unit.functions@[i as int]@);
            assert(unit@.functions[i as int].call_sites.len() == sites);
            lemma_sites_before_grows(unit@.functions, (i + 1) as nat, count as nat);
        }
        if sites as u64 > limit - total {
            return false;
        }
        total = total + sites as u64;
        i += 1;
    }
    true
}

/// The failure to build a graph, for this reason.
fn refused(reason: &str) -> (error: GraphVizError)
    ensures
        error is GraphConstruction,
        error.detail() == reason@,
{
    GraphVizError::GraphConstruction(reason.to_owned())
}

/// Enters one function of a unit into the graph: its node, then an edge
/// for each of its call sites that is a call.
fn record_function(graph: &mut Graph<Function, ()>, unit: &str, function: &ObservedFunction)
    requires
        regex_compiles(COMPUTED_TARGET_PATTERN@),
        graph_model(*old(graph)).well_formed(),
        graph_model(*old(graph)).nodes.len() + 1 + function@.call_sites.len() <= u32::MAX,
        graph_model(*old(graph)).edges.len() + function@.call_sites.len() <= u32::MAX,
    ensures
        graph_model(*final(graph)) == with_function(graph_model(*old(graph)), unit@, function@),
        graph_model(*final(graph)).well_formed(),
        graph_model(*final(graph)).nodes.len() <= graph_model(*old(graph)).nodes.len() + 1
            + function@.call_sites.len(),
        graph_model(*final(graph)).edges.len() <= graph_model(*old(graph)).edges.len()
            + function@.call_sites.len(),
{
    let ghost before = graph_model(*graph);
    let mut builder = FunctionBuilder::new(function.name.as_str());
    if function.defined {
        let _ = builder.source_file(unit);
    }
    let caller = builder.build();
    assert(caller@ == record_of(unit@, function@));
    proof {
        lemma_with_node(before, caller@);
    }
    let _ = get_index_or_insert_node(graph, caller.clone());
    let ghost start = graph_model(*graph);
    let count = function.call_sites.len();
    let mut i: usize = 0;
    while i < count
        invariant
            i <= count,
            count == function.call_sites@.len(),
            count == function@.call_sites.len(),
            regex_compiles(COMPUTED_TARGET_PATTERN@),
            caller@ == record_of(unit@, function@),
            graph_model(*graph) == with_sites(start, caller@, function@.call_sites, i as nat),
            graph_model(*graph).well_formed(),
            graph_model(*graph).has_name(caller@.name),
            graph_model(*graph).nodes.len() <= start.nodes.len() + i,
            graph_model(*graph).edges.len() <= start.edges.len() + i,
            start.nodes.len() + count <= u32::MAX,
            start.edges.len() + count <= u32::MAX,
        decreases count - i,
    {
        let site = &function.call_sites[i];
        assert(function@.call_sites[i as int] == site@);
        let computed = is_computed_target(site.rendered.as_str());
        let outcome = classify_call_site(computed, &site.callee);
        assert(outcome == site_outcome(site@));
        if outcome == CallSiteOutcome::Edge {
            match &site.callee {
                Some(name) => {
                    let callee = FunctionBuilder::new(name.as_str()).build();
                    assert(callee@ == callee_record(site@.callee->0));
                    proof {
                        let now = graph_model(*graph);
                        lemma_with_edge(now, caller@, callee@);
                        lemma_with_node(now, callee@);
                        let after = now.with_edge(caller@, callee@);
                        lemma_first_is_handle(
                            after,
                            caller@.name,
                            after.handle(caller@.name),
                        );
                    }
                    let _ = get_index_or_insert_edge(graph, caller.clone(), callee, ());
                },
                None => {},
            }
        }
        i += 1;
    }
}

/// Builds the call graph of one unit from what was observed of it.
///
/// The graph is refused where the pattern of a computed target does not
/// compile, and where the unit holds more observations than a graph holds
/// nodes.
pub fn build_module_graph(unit: &ModuleUnit) -> (result: Result<Graph<Function, ()>, GraphVizError>)
    ensures
        result is Ok <==> regex_compiles(COMPUTED_TARGET_PATTERN@) && observation_count(unit@)
            <= u32::MAX,
        result matches Ok(graph) ==> {
            &&& graph_model(graph) == module_graph(unit@)
            &&& graph_model(graph).well_formed()
            &&& graph_model(graph).nodes.len() <= observation_count(unit@)
            &&& graph_model(graph).edges.len() <= observation_count(unit@)
        },
        result matches Err(error) ==> error is GraphConstruction,
{
    if !pattern_is_usable() {
        return Err(refused("the pattern of a computed target does not compile"));
    }
    if !observations_fit(unit) {
        return Err(refused("the unit holds more observations than a graph holds nodes"));
    }
    let mut graph = new_graph();
    let count = unit.functions.len();
    let mut i: usize = 0;
    while i < count
        invariant
            i <= count,
            count == unit.functions@.len(),
            count == unit@.functions.len(),
            regex_compiles(COMPUTED_TARGET_PATTERN@),
            observation_count(unit@) <= u32::MAX,
            graph_model(graph) == with_functions(
                CallGraph::empty(),
                unit@.name,
                unit@.functions,
                i as nat,
            ),
            graph_model(graph).well_formed(),
            graph_model(graph).nodes.len() <= i + sites_before(unit@.functions, i as nat),
            graph_model(graph).edges.len() <= sites_before(unit@.functions, i as nat),
        decreases count - i,
    {
        let function = &unit.functions[i];
        proof {
            assert(unit@.functions[i as int] == function@);
            lemma_sites_before_grows(unit@.functions, (i + 1) as nat, count as nat);
        }
        record_function(&mut graph, unit.name.as_str(), function);
        i += 1;
    }
    Ok(graph)
}

/// The graph that an invocation starts from: the one that the durable text
/// stands for, or the empty graph where there is no durable text yet.
/// `None` where there is a text and it stands for no graph.
pub open spec fn accumulated_before(prior: Option<Seq<char>>) -> Option<CallGraph> {
    match prior {
        Some(content) => stored_graph(content),
        None => Some(CallGraph::empty()),
    }
}

/// The two graphs together hold no more nodes and no more edges than one
/// graph can.
pub open spec fn room_for(accumulated: CallGraph, module: CallGraph) -> bool {
    accumulated.nodes.len() + module.nodes.len() <= u32::MAX && accumulated.edges.len()
        + module.edges.len() <= u32::MAX
}

/// One invocation, from the durable text that it finds to the durable text
/// that it leaves: the accumulated graph is read, or started empty where
/// `prior` is `None`; the graph of the unit is built and merged into it;
/// the result is written.
///
/// An invocation that fails hands back no text, so that what was stored
/// stays as it was. It fails with `Decode` where the durable text stands
/// for no graph, with `GraphConstruction` where the graph of the unit is
/// refused or the two graphs together could outgrow one graph, and with
/// `IO` where the encoder refuses the result.
pub fn extract_unit(prior: Option<&str>, unit: &ModuleUnit) -> (result: Result<
    String,
    GraphVizError,
>)
    ensures
        match accumulated_before(
            match prior {
                Some(content) => Some(content@),
                None => None,
            },
        ) {
            None => result is Err && result->Err_0 is Decode,
            Some(accumulated) => if regex_compiles(COMPUTED_TARGET_PATTERN@) && observation_count(
                unit@,
            ) <= u32::MAX && room_for(accumulated, module_graph(unit@)) {
                match durable_text(accumulated.merge(module_graph(unit@))) {
                    Some(content) => result is Ok && result->Ok_0@ == content,
                    None => result is Err && result->Err_0 is IO,
                }
            } else {
                result is Err && result->Err_0 is GraphConstruction
            },
        },
{
    let mut accumulated = match prior {
        Some(content) => {
            proof {
                if stored_graph(content@) is Some {
                    lemma_read_graph_is_sound(parsed_json(content@)->0);
                }
            }
            match graph_from_json(content) {
                Ok(graph) => graph,
                Err(error) => {
                    return Err(error);
                },
            }
        },
        None => new_graph(),
    };
    let mut module = match build_module_graph(unit) {
        Ok(graph) => graph,
        Err(error) => {
            return Err(error);
        },
    };
    let limit: usize = 0xFFFF_FFFF;
    let nodes = node_count(&accumulated);
    let edges = edge_count(&accumulated);
    if nodes > limit || edges > limit || node_count(&module) > limit - nodes || edge_count(&module)
        > limit - edges {
        return Err(refused("the accumulated graph has no room for the unit"));
    }
    proof {
        lemma_merge_size(graph_model(accumulated), graph_model(module));
    }
    let _ = append_graph(&mut accumulated, &mut module);
    graph_to_json(&accumulated)
}

/// The call site is a call of the function named `callee`.
pub open spec fn is_call_to(site: CallSiteView, callee: Seq<char>) -> bool {
    site_outcome(site) == CallSiteOutcome::Edge && site.callee == Some(callee)
}

/// One of the first `count` call sites is a call of `callee`.
pub open spec fn calls_among(sites: Seq<CallSiteView>, count: nat, callee: Seq<char>) -> bool {
    exists|s: int| 0 <= s < count && is_call_to(#[trigger] sites[s], callee)
}

/// One of the first `count` functions is named `caller` and holds a call
/// of `callee`.
pub open spec fn unit_calls_among(
    functions: Seq<ObservedFunctionView>,
    count: nat,
    caller: Seq<char>,
    callee: Seq<char>,
) -> bool {
    exists|f: int|
        0 <= f < count && (#[trigger] functions[f]).name == caller && calls_among(
            functions[f].call_sites,
            functions[f].call_sites.len(),
            callee,
        )
}

/// Intrinsic filtering. A call site whose callee carries the intrinsic
/// prefix leaves the graph as it is, whatever its text.
pub proof fn law_intrinsic_filtered(graph: CallGraph, caller: FunctionView, site: CallSiteView)
    requires
        site.callee is Some,
        is_intrinsic_name(site.callee->0),
    ensures
        site_outcome(site) == CallSiteOutcome::IntrinsicSkipped,
        with_site(graph, caller, site) == graph,
{
}

/// Exclusion of computed targets. A call site whose text matches the
/// pattern of a computed target leaves the graph as it is, whether or not
/// a callee was resolved.
pub proof fn law_computed_target_excluded(
    graph: CallGraph,
    caller: FunctionView,
    site: CallSiteView,
)
    requires
        regex_matches(COMPUTED_TARGET_PATTERN@, site.rendered),
    ensures
        site_outcome(site) != CallSiteOutcome::Edge,
        with_site(graph, caller, site) == graph,
{
}

/// The calls after the first `count` call sites of a caller: those that
/// were there, and the calls among these sites.
proof fn lemma_with_sites_calls(
    graph: CallGraph,
    caller: FunctionView,
    sites: Seq<CallSiteView>,
    count: nat,
)
    requires
        graph.linked(),
    ensures
        with_sites(graph, caller, sites, count).linked(),
        graph.unique_nodes() ==> with_sites(graph, caller, sites, count).unique_nodes(),
        graph.unique_edges() ==> with_sites(graph, caller, sites, count).unique_edges(),
        forall|from: Seq<char>, to: Seq<char>| #[trigger]
            with_sites(graph, caller, sites, count).has_call(from, to) <==> graph.has_call(
                from,
                to,
            ) || (from == caller.name && calls_among(sites, count, to)),
    decreases count,
{
    if count > 0 {
        let before = with_sites(graph, caller, sites, (count - 1) as nat);
        let after = with_sites(graph, caller, sites, count);
        let site = sites[count - 1];
        lemma_with_sites_calls(graph, caller, sites, (count - 1) as nat);
        if site_outcome(site) == CallSiteOutcome::Edge {
            lemma_with_edge_sets(before, caller, callee_record(site.callee->0));
        }
        assert forall|from: Seq<char>, to: Seq<char>| #[trigger]
            after.has_call(from, to) <==> graph.has_call(from, to) || (from == caller.name
                && calls_among(sites, count, to)) by {
            assert(before.has_call(from, to) <==> graph.has_call(from, to) || (from == caller.name
                && calls_among(sites, (count - 1) as nat, to)));
            assert(after.has_call(from, to) <==> before.has_call(from, to) || (from == caller.name
                && is_call_to(site, to)));
            if calls_among(sites, count, to) {
                let s = choose|s: int| 0 <= s < count && is_call_to(#[trigger] sites[s], to);
                if s < count - 1 {
                    assert(calls_among(sites, (count - 1) as nat, to));
                }
            }
            if calls_among(sites, (count - 1) as nat, to) {
                let s = choose|s: int| 0 <= s < count - 1 && is_call_to(#[trigger] sites[s], to);
                assert(is_call_to(sites[s], to));
            }
            if is_call_to(site, to) {
                assert(is_call_to(sites[count - 1], to));
            }
        }
    }
}

/// The calls after the first `count` functions of a unit, from nothing:
/// the calls that these functions hold.
proof fn lemma_with_functions_calls(
    unit: Seq<char>,
    functions: Seq<ObservedFunctionView>,
    count: nat,
)
    ensures
        with_functions(CallGraph::empty(), unit, functions, count).well_formed(),
        forall|from: Seq<char>, to: Seq<char>| #[trigger]
            with_functions(CallGraph::empty(), unit, functions, count).has_call(from, to)
                <==> unit_calls_among(functions, count, from, to),
    decreases count,
{
    let none = CallGraph::empty();
    if count > 0 {
        let before = with_functions(none, unit, functions, (count - 1) as nat);
        let after = with_functions(none, unit, functions, count);
        let function = functions[count - 1];
        let record = record_of(unit, function);
        let sites = function.call_sites;
        lemma_with_functions_calls(unit, functions, (count - 1) as nat);
        lemma_with_node_sets(before, record);
        lemma_with_sites_calls(before.with_node(record), record, sites, sites.len());
        assert forall|from: Seq<char>, to: Seq<char>| #[trigger]
            after.has_call(from, to) <==> unit_calls_among(functions, count, from, to) by {
            assert(after.has_call(from, to) <==> before.with_node(record).has_call(from, to) || (
            from == record.name && calls_among(sites, sites.len(), to)));
            assert(before.with_node(record).has_call(from, to) <==> before.has_call(from, to));
            assert(before.has_call(from, to) <==> unit_calls_among(
                functions,
                (count - 1) as nat,
                from,
                to,
            ));
            if unit_calls_among(functions, count, from, to) {
                let f = choose|f: int|
                    0 <= f < count && (#[trigger] functions[f]).name == from && calls_among(
                        functions[f].call_sites,
                        functions[f].call_sites.len(),
                        to,
                    );
                if f < count - 1 {
                    assert(unit_calls_among(functions, (count - 1) as nat, from, to));
                }
            }
            if unit_calls_among(functions, (count - 1) as nat, from, to) {
                let f = choose|f: int|
                    0 <= f < count - 1 && (#[trigger] functions[f]).name == from && calls_among(
                        functions[f].call_sites,
                        functions[f].call_sites.len(),
                        to,
                    );
                assert(functions[f].name == from);
            }
            if from == record.name && calls_among(sites, sites.len(), to) {
                assert(functions[count - 1].name == from);
            }
        }
    } else {
        assert forall|from: Seq<char>, to: Seq<char>| #[trigger]
            none.has_call(from, to) <==> unit_calls_among(functions, 0, from, to) by {}
    }
}

/// The graph of a unit keeps the invariants of a call graph, and its calls
/// are the calls that the functions of the unit hold: a call from `caller`
/// to `callee` is in the graph exactly where a function named `caller`
/// holds a call site that is a call of `callee`. An intrinsic is never
/// called in the graph, and every call goes back to a call site whose text
/// does not match the pattern of a computed target.
pub proof fn law_calls_of_unit(unit: ModuleUnitView, caller: Seq<char>, callee: Seq<char>)
    ensures
        module_graph(unit).well_formed(),
        module_graph(unit).has_call(caller, callee) <==> unit_calls_among(
            unit.functions,
            unit.functions.len(),
            caller,
            callee,
        ),
        module_graph(unit).has_call(caller, callee) ==> !is_intrinsic_name(callee),
        module_graph(unit).has_call(caller, callee) ==> exists|f: int, s: int|
            0 <= f < unit.functions.len() && 0 <= s < unit.functions[f].call_sites.len()
                && unit.functions[f].name == caller && (
            #[trigger] unit.functions[f].call_sites[s]).callee == Some(callee) && !regex_matches(
                COMPUTED_TARGET_PATTERN@,
                unit.functions[f].call_sites[s].rendered,
            ),
{
    let functions = unit.functions;
    let graph = module_graph(unit);
    lemma_with_functions_calls(unit.name, functions, functions.len());
    assert(graph.has_call(caller, callee) <==> unit_calls_among(
        functions,
        functions.len(),
        caller,
        callee,
    ));
    if graph.has_call(caller, callee) {
        let f = choose|f: int|
            0 <= f < functions.len() && (#[trigger] functions[f]).name == caller && calls_among(
                functions[f].call_sites,
                functions[f].call_sites.len(),
                callee,
            );
        let sites = functions[f].call_sites;
        let s = choose|s: int| 0 <= s < sites.len() && is_call_to(#[trigger] sites[s], callee);
        assert(is_call_to(unit.functions[f].call_sites[s], callee));
    }
}

} // verus!
