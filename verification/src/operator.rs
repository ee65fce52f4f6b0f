//! The cloud operator: a narrow capability trait over the inventory
//! provider, the paginated discovery loop, and batch lifecycle control.

use vstd::prelude::*;

use crate::inventory::{
    categorize_page, lemma_discover_pages_err_extends, lemma_discovery_exhaustive, spec_discover,
    spec_discover_pages, DiscoveredNodes, DiscoveryError, InstanceDescription,
};
use crate::node::{spec_node_ids, ClusterNodes, NodeId, NodeRecord};
use crate::tags::AwsTagSpec;

verus! {

/// A provider-side failure, carried through verbatim.
#[derive(Debug)]
pub struct ProviderFailure {
    pub message: String,
}

/// The two lifecycle transitions the operator can request.
#[derive(Clone, Copy, Debug, PartialEq, Eq, Structural)]
pub enum StateTarget {
    Start,
    Stop,
}

/// One batch lifecycle call the provider received: the requested
/// transition and the identifiers it named, in order.
pub struct StateCall {
    pub target: StateTarget,
    pub ids: Seq<Seq<char>>,
}

/// The identifiers' character sequences, in order.
pub open spec fn spec_id_views(ids: Seq<NodeId>) -> Seq<Seq<char>> {
    ids.map_values(|id: NodeId| id@)
}

/// The cloud inventory provider, as a capability: a point-in-time,
/// read-only snapshot of instance pages, and a log of every batch
/// lifecycle call it was issued.
pub trait InstanceApi {
    /// The snapshot's pages, in query order; reading never changes them.
    spec fn pages(&self) -> Seq<Seq<InstanceDescription>>;

    /// Every batch start/stop call issued so far, in order.
    spec fn state_calls(&self) -> Seq<StateCall>;

    /// Whether fetching the page at `index` succeeds.
    spec fn fetch_succeeds(&self, index: int) -> bool;

    /// Whether the `n`-th batch lifecycle call issued succeeds.
    spec fn state_call_succeeds_at(&self, n: int) -> bool;

    /// Fetches one page of the snapshot, saying whether another follows.
    fn fetch_page<'a>(&'a self, index: usize) -> (r: Result<
        (&'a Vec<InstanceDescription>, bool),
        ProviderFailure,
    >)
        requires
            index < self.pages().len(),
        ensures
            r is Ok <==> self.fetch_succeeds(index as int),
            r matches Ok(page) ==> page.0@ == self.pages()[index as int] && (page.1 <==> index + 1
                < self.pages().len()),
    ;

    /// Issues one batch start call; the provider rejects an empty batch.
    fn start_instances(&mut self, ids: &Vec<NodeId>) -> (r: Result<(), ProviderFailure>)
        requires
            ids@.len() > 0,
        ensures
            final(self).state_calls() == old(self).state_calls().push(
                StateCall { target: StateTarget::Start, ids: spec_id_views(ids@) },
            ),
            r is Ok <==> old(self).state_call_succeeds_at(old(self).state_calls().len() as int),
            final(self).pages() == old(self).pages(),
            forall|i: int| #[trigger] final(self).fetch_succeeds(i) == old(self).fetch_succeeds(i),
            forall|n: int| #[trigger] final(self).state_call_succeeds_at(n) == old(
                self,
            ).state_call_succeeds_at(n),
    ;

    /// Issues one batch stop call; the provider rejects an empty batch.
    fn stop_instances(&mut self, ids: &Vec<NodeId>) -> (r: Result<(), ProviderFailure>)
        requires
            ids@.len() > 0,
        ensures
            final(self).state_calls() == old(self).state_calls().push(
                StateCall { target: StateTarget::Stop, ids: spec_id_views(ids@) },
            ),
            r is Ok <==> old(self).state_call_succeeds_at(old(self).state_calls().len() as int),
            final(self).pages() == old(self).pages(),
            forall|i: int| #[trigger] final(self).fetch_succeeds(i) == old(self).fetch_succeeds(i),
            forall|n: int| #[trigger] final(self).state_call_succeeds_at(n) == old(
                self,
            ).state_call_succeeds_at(n),
    ;
}

/// The operator: an inventory provider paired with the tag filters that
/// select and classify its instances.
pub struct AwsOperator<Api> {
    pub api: Api,
    pub tag_spec: AwsTagSpec,
}

impl<Api> AwsOperator<Api> {
    pub fn with(api: Api, tag_spec: AwsTagSpec) -> (r: Self)
        ensures
            r == (AwsOperator { api, tag_spec }),
    {
        AwsOperator { api, tag_spec }
    }
}

impl<Api: InstanceApi> AwsOperator<Api> {
    /// Enumerates every page of the snapshot and classifies each returned
    /// instance, producing the role-partitioned snapshot; a provider
    /// failure or a malformed instance aborts the whole discovery.
    pub fn list_nodes(&self) -> (r: Result<ClusterNodes, DiscoveryError>)
        requires
            self.api.pages().len() >= 1,
            self.api.pages().len() <= usize::MAX,
        ensures
            r matches Ok(c) ==> spec_discover(self.tag_spec, self.api.pages().flatten_alt())
                matches Ok(acc) && c.master@ == acc.masters && c.worker@ == acc.workers,
            r matches Err(e) ==> (e is MissingInstanceId ==> spec_discover(
                self.tag_spec,
                self.api.pages().flatten_alt(),
            ) == Err::<DiscoveredNodes, DiscoveryError>(DiscoveryError::MissingInstanceId)),
            (forall|i: int|
                0 <= i < self.api.pages().len() ==> #[trigger] self.api.fetch_succeeds(i))
                && spec_discover(self.tag_spec, self.api.pages().flatten_alt()) is Ok ==> r is Ok,
    {
        let ghost pages = self.api.pages();
        let mut master: Vec<NodeRecord> = Vec::new();
        let mut worker: Vec<NodeRecord> = Vec::new();
        let mut index: usize = 0;
        let mut more = true;
        while more
            invariant
                pages == self.api.pages(),
                pages.len() >= 1,
                pages.len() <= usize::MAX,
                index <= pages.len(),
                more <==> (index as int) < pages.len(),
                spec_discover_pages(self.tag_spec, pages.take(index as int)) matches Ok(acc)
                    && master@ == acc.masters && worker@ == acc.workers,
            decreases pages.len() - index,
        {
            let (page, has_more) = match self.api.fetch_page(index) {
                Ok(p) => p,
                Err(e) => {
                    return Err(DiscoveryError::Provider { message: e.message });
                },
            };
            proof {
                assert(pages.take(index + 1).drop_last() =~= pages.take(index as int));
                assert(pages.take(index + 1).last() == pages[index as int]);
            }
            match categorize_page(&self.tag_spec, page, &mut master, &mut worker) {
                Ok(()) => {},
                Err(e) => {
                    proof {
                        lemma_discover_pages_err_extends(self.tag_spec, pages, index + 1);
                        lemma_discovery_exhaustive(self.tag_spec, pages);
                    }
                    return Err(e);
                },
            }
            more = has_more;
            index = index + 1;
        }
        proof {
            assert(pages.take(index as int) =~= pages);
            lemma_discovery_exhaustive(self.tag_spec, pages);
        }
        Ok(ClusterNodes { master, worker })
    }

    /// Transitions every node of the snapshot to the target state in one
    /// batch call; an empty snapshot issues no provider call at all and
    /// succeeds immediately.
    pub fn change_instances_state(&mut self, nodes: &ClusterNodes, target: StateTarget) -> (r:
        Result<(), ProviderFailure>)
        ensures
            spec_node_ids(*nodes).len() == 0 ==> r is Ok && final(self).api.state_calls() == old(
                self,
            ).api.state_calls(),
            spec_node_ids(*nodes).len() > 0 ==> final(self).api.state_calls() == old(
                self,
            ).api.state_calls().push(
                StateCall { target, ids: spec_id_views(spec_node_ids(*nodes)) },
            ),
            spec_node_ids(*nodes).len() > 0 ==> (r is Ok <==> old(
                self,
            ).api.state_call_succeeds_at(old(self).api.state_calls().len() as int)),
            final(self).api.pages() == old(self).api.pages(),
            final(self).tag_spec == old(self).tag_spec,
            forall|i: int| #[trigger] final(self).api.fetch_succeeds(i) == old(
                self,
            ).api.fetch_succeeds(i),
            forall|n: int| #[trigger] final(self).api.state_call_succeeds_at(n) == old(
                self,
            ).api.state_call_succeeds_at(n),
    {
        let ids = nodes.node_ids();
        if ids.len() == 0 {
            return Ok(());
        }
        match target {
            StateTarget::Start => self.api.start_instances(&ids),
            StateTarget::Stop => self.api.stop_instances(&ids),
        }
    }

    /// Starts every node of the snapshot, in one batch call.
    pub fn start_nodes(&mut self, nodes: &ClusterNodes) -> (r: Result<(), ProviderFailure>)
        ensures
            spec_node_ids(*nodes).len() == 0 ==> r is Ok && final(self).api.state_calls() == old(
                self,
            ).api.state_calls(),
            spec_node_ids(*nodes).len() > 0 ==> final(self).api.state_calls() == old(
                self,
            ).api.state_calls().push(
                StateCall {
                    target: StateTarget::Start,
                    ids: spec_id_views(spec_node_ids(*nodes)),
                },
            ),
            spec_node_ids(*nodes).len() > 0 ==> (r is Ok <==> old(
                self,
            ).api.state_call_succeeds_at(old(self).api.state_calls().len() as int)),
            final(self).api.pages() == old(self).api.pages(),
            final(self).tag_spec == old(self).tag_spec,
            forall|i: int| #[trigger] final(self).api.fetch_succeeds(i) == old(
                self,
            ).api.fetch_succeeds(i),
            forall|n: int| #[trigger] final(self).api.state_call_succeeds_at(n) == old(
                self,
            ).api.state_call_succeeds_at(n),
    {
        self.change_instances_state(nodes, StateTarget::Start)
    }

    /// Stops every node of the snapshot, in one batch call.
    pub fn stop_nodes(&mut self, nodes: &ClusterNodes) -> (r: Result<(), ProviderFailure>)
        ensures
            spec_node_ids(*nodes).len() == 0 ==> r is Ok && final(self).api.state_calls() == old(
                self,
            ).api.state_calls(),
            spec_node_ids(*nodes).len() > 0 ==> final(self).api.state_calls() == old(
                self,
            ).api.state_calls().push(
                StateCall { target: StateTarget::Stop, ids: spec_id_views(spec_node_ids(*nodes)) },
            ),
            spec_node_ids(*nodes).len() > 0 ==> (r is Ok <==> old(
                self,
            ).api.state_call_succeeds_at(old(self).api.state_calls().len() as int)),
            final(self).api.pages() == old(self).api.pages(),
            final(self).tag_spec == old(self).tag_spec,
            forall|i: int| #[trigger] final(self).api.fetch_succeeds(i) == old(
                self,
            ).api.fetch_succeeds(i),
            forall|n: int| #[trigger] final(self).api.state_call_succeeds_at(n) == old(
                self,
            ).api.state_call_succeeds_at(n),
    {
        self.change_instances_state(nodes, StateTarget::Stop)
    }
}

} // verus!

verus! {

/// One recorded lifecycle call, as plain values open to inspection.
#[derive(Debug)]
pub struct RecordedStateCall {
    pub target: StateTarget,
    pub ids: Vec<String>,
}

impl View for RecordedStateCall {
    type V = StateCall;

    open spec fn view(&self) -> StateCall {
        StateCall { target: self.target, ids: self.ids.deep_view() }
    }
}

/// A scripted inventory provider: a fixed snapshot of instance pages,
/// served page by page, and a record of every lifecycle call it was
/// issued; lifecycle calls fail according to a plan fixed at
/// construction. Discovery and lifecycle control run against it wherever
/// a real provider is out of reach.
#[derive(Debug)]
pub struct ScriptedProvider {
    pages: Vec<Vec<InstanceDescription>>,
    calls: Vec<RecordedStateCall>,
    state_fail_on: Vec<usize>,
}

impl ScriptedProvider {
    /// A provider serving exactly the given pages, with no call issued
    /// yet and every lifecycle call succeeding.
    pub fn new(pages: Vec<Vec<InstanceDescription>>) -> (r: Self)
        ensures
            r.pages() == pages@.map_values(|p: Vec<InstanceDescription>| p@),
            r.state_calls() == Seq::<StateCall>::empty(),
            forall|n: int| #[trigger] r.state_call_succeeds_at(n),
    {
        let r = ScriptedProvider { pages, calls: Vec::new(), state_fail_on: Vec::new() };
        proof {
            assert(r.state_calls() =~= Seq::<StateCall>::empty());
        }
        r
    }

    /// A provider that fails exactly the lifecycle calls whose indices
    /// appear in `state_fail_on`, counting from zero.
    pub fn with_state_failures(
        pages: Vec<Vec<InstanceDescription>>,
        state_fail_on: Vec<usize>,
    ) -> (r: Self)
        ensures
            r.pages() == pages@.map_values(|p: Vec<InstanceDescription>| p@),
            r.state_calls() == Seq::<StateCall>::empty(),
            forall|n: int| #[trigger] r.state_call_succeeds_at(n)
                <==> !crate::remote_command::spec_plan_fails(state_fail_on@, n),
    {
        let r = ScriptedProvider { pages, calls: Vec::new(), state_fail_on };
        proof {
            assert(r.state_calls() =~= Seq::<StateCall>::empty());
        }
        r
    }

    /// Every lifecycle call issued so far, in order.
    pub fn recorded_calls(&self) -> (r: &Vec<RecordedStateCall>)
        ensures
            r@.map_values(|c: RecordedStateCall| c@) == self.state_calls(),
    {
        &self.calls
    }
}

fn node_id_strings(ids: &Vec<NodeId>) -> (r: Vec<String>)
    ensures
        r.deep_view() == spec_id_views(ids@),
{
    let mut r: Vec<String> = Vec::new();
    let mut i: usize = 0;
    while i < ids.len()
        invariant
            i <= ids@.len(),
            r@.len() == i,
            forall|j: int| 0 <= j < i ==> #[trigger] r@[j]@ == ids@[j]@,
        decreases ids@.len() - i,
    {
        r.push(String::from_str(ids[i].as_str()));
        i = i + 1;
    }
    proof {
        assert forall|j: int| 0 <= j < ids@.len() implies r.deep_view()[j] == spec_id_views(
            ids@,
        )[j] by {
            assert(r.deep_view()[j] == r@[j]@);
        }
        assert(r.deep_view() =~= spec_id_views(ids@));
    }
    r
}

impl InstanceApi for ScriptedProvider {
    closed spec fn pages(&self) -> Seq<Seq<InstanceDescription>> {
        self.pages@.map_values(|p: Vec<InstanceDescription>| p@)
    }

    closed spec fn state_calls(&self) -> Seq<StateCall> {
        self.calls@.map_values(|c: RecordedStateCall| c@)
    }

    closed spec fn fetch_succeeds(&self, index: int) -> bool {
        true
    }

    closed spec fn state_call_succeeds_at(&self, n: int) -> bool {
        !crate::remote_command::spec_plan_fails(self.state_fail_on@, n)
    }

    fn fetch_page<'a>(&'a self, index: usize) -> (r: Result<
        (&'a Vec<InstanceDescription>, bool),
        ProviderFailure,
    >) {
        let len = self.pages.len();
        proof {
            assert(self.pages().len() == self.pages@.len());
        }
        Ok((&self.pages[index], index + 1 < len))
    }

    fn start_instances(&mut self, ids: &Vec<NodeId>) -> (r: Result<(), ProviderFailure>) {
        let fails = crate::remote_command::plan_contains(&self.state_fail_on, self.calls.len());
        let recorded = RecordedStateCall { target: StateTarget::Start, ids: node_id_strings(ids) };
        self.calls.push(recorded);
        proof {
            assert(self.calls@.map_values(|c: RecordedStateCall| c@) =~= old(
                self,
            ).calls@.map_values(|c: RecordedStateCall| c@).push(self.calls@.last()@));
        }
        if fails {
            Err(ProviderFailure { message: String::from_str("batch call rejected") })
        } else {
            Ok(())
        }
    }

    fn stop_instances(&mut self, ids: &Vec<NodeId>) -> (r: Result<(), ProviderFailure>) {
        let fails = crate::remote_command::plan_contains(&self.state_fail_on, self.calls.len());
        let recorded = RecordedStateCall { target: StateTarget::Stop, ids: node_id_strings(ids) };
        self.calls.push(recorded);
        proof {
            assert(self.calls@.map_values(|c: RecordedStateCall| c@) =~= old(
                self,
            ).calls@.map_values(|c: RecordedStateCall| c@).push(self.calls@.last()@));
        }
        if fails {
            Err(ProviderFailure { message: String::from_str("batch call rejected") })
        } else {
            Ok(())
        }
    }
}

} // verus!

verus! {

/// Discovers the current cluster snapshot through the operator.
pub fn collect<Api: InstanceApi>(operator: &AwsOperator<Api>) -> (r: Result<
    ClusterNodes,
    DiscoveryError,
>)
    requires
        1 <= operator.api.pages().len() <= usize::MAX,
    ensures
        r matches Ok(c) ==> spec_discover(operator.tag_spec, operator.api.pages().flatten_alt())
            matches Ok(acc) && c.master@ == acc.masters && c.worker@ == acc.workers,
        r matches Err(e) ==> (e is MissingInstanceId ==> spec_discover(
            operator.tag_spec,
            operator.api.pages().flatten_alt(),
        ) == Err::<DiscoveredNodes, DiscoveryError>(DiscoveryError::MissingInstanceId)),
        (forall|i: int|
            0 <= i < operator.api.pages().len() ==> #[trigger] operator.api.fetch_succeeds(i))
            && spec_discover(operator.tag_spec, operator.api.pages().flatten_alt()) is Ok ==> r
            is Ok,
{
    operator.list_nodes()
}

/// Discovers the snapshot, then starts every discovered node in one batch
/// call — none at all when nothing was discovered — and hands the
/// snapshot back.
pub fn start_instances<Api: InstanceApi>(operator: &mut AwsOperator<Api>) -> (r: Result<
    ClusterNodes,
    DiscoveryError,
>)
    requires
        1 <= old(operator).api.pages().len() <= usize::MAX,
    ensures
        final(operator).api.pages() == old(operator).api.pages(),
        final(operator).tag_spec == old(operator).tag_spec,
        r matches Ok(c) ==> {
            &&& (spec_discover(
                old(operator).tag_spec,
                old(operator).api.pages().flatten_alt(),
            ) matches Ok(acc) && c.master@ == acc.masters && c.worker@ == acc.workers)
            &&& (spec_node_ids(c).len() == 0 ==> final(operator).api.state_calls() == old(
                operator,
            ).api.state_calls())
            &&& (spec_node_ids(c).len() > 0 ==> final(operator).api.state_calls() == old(
                operator,
            ).api.state_calls().push(
                StateCall { target: StateTarget::Start, ids: spec_id_views(spec_node_ids(c)) },
            ) && old(operator).api.state_call_succeeds_at(
                old(operator).api.state_calls().len() as int,
            ))
        },
        spec_discover(old(operator).tag_spec, old(operator).api.pages().flatten_alt()) is Err
            ==> r is Err && final(operator).api.state_calls() == old(operator).api.state_calls(),
        r matches Err(e) ==> (e is MissingInstanceId ==> spec_discover(
            old(operator).tag_spec,
            old(operator).api.pages().flatten_alt(),
        ) == Err::<DiscoveredNodes, DiscoveryError>(DiscoveryError::MissingInstanceId)
            && final(operator).api.state_calls() == old(operator).api.state_calls()),
        ({
            let d = spec_discover(old(operator).tag_spec, old(operator).api.pages().flatten_alt());
            &&& (forall|i: int|
                0 <= i < old(operator).api.pages().len() ==> #[trigger] old(
                    operator,
                ).api.fetch_succeeds(i))
            &&& d is Ok
            &&& (d->Ok_0.masters.len() + d->Ok_0.workers.len() == 0 || old(
                operator,
            ).api.state_call_succeeds_at(old(operator).api.state_calls().len() as int))
        }) ==> r is Ok,
{
    let nodes = match operator.list_nodes() {
        Ok(n) => n,
        Err(e) => {
            return Err(e);
        },
    };
    match operator.start_nodes(&nodes) {
        Ok(()) => Ok(nodes),
        Err(e) => Err(DiscoveryError::Provider { message: e.message }),
    }
}

/// Discovers the snapshot, then stops every discovered node in one batch
/// call — none at all when nothing was discovered — and hands the
/// snapshot back.
pub fn stop_instances<Api: InstanceApi>(operator: &mut AwsOperator<Api>) -> (r: Result<
    ClusterNodes,
    DiscoveryError,
>)
    requires
        1 <= old(operator).api.pages().len() <= usize::MAX,
    ensures
        final(operator).api.pages() == old(operator).api.pages(),
        final(operator).tag_spec == old(operator).tag_spec,
        r matches Ok(c) ==> {
            &&& (spec_discover(
                old(operator).tag_spec,
                old(operator).api.pages().flatten_alt(),
            ) matches Ok(acc) && c.master@ == acc.masters && c.worker@ == acc.workers)
            &&& (spec_node_ids(c).len() == 0 ==> final(operator).api.state_calls() == old(
                operator,
            ).api.state_calls())
            &&& (spec_node_ids(c).len() > 0 ==> final(operator).api.state_calls() == old(
                operator,
            ).api.state_calls().push(
                StateCall { target: StateTarget::Stop, ids: spec_id_views(spec_node_ids(c)) },
            ) && old(operator).api.state_call_succeeds_at(
                old(operator).api.state_calls().len() as int,
            ))
        },
        spec_discover(old(operator).tag_spec, old(operator).api.pages().flatten_alt()) is Err
            ==> r is Err && final(operator).api.state_calls() == old(operator).api.state_calls(),
        r matches Err(e) ==> (e is MissingInstanceId ==> spec_discover(
            old(operator).tag_spec,
            old(operator).api.pages().flatten_alt(),
        ) == Err::<DiscoveredNodes, DiscoveryError>(DiscoveryError::MissingInstanceId)
            && final(operator).api.state_calls() == old(operator).api.state_calls()),
        ({
            let d = spec_discover(old(operator).tag_spec, old(operator).api.pages().flatten_alt());
            &&& (forall|i: int|
                0 <= i < old(operator).api.pages().len() ==> #[trigger] old(
                    operator,
                ).api.fetch_succeeds(i))
            &&& d is Ok
            &&& (d->Ok_0.masters.len() + d->Ok_0.workers.len() == 0 || old(
                operator,
            ).api.state_call_succeeds_at(old(operator).api.state_calls().len() as int))
        }) ==> r is Ok,
{
    let nodes = match operator.list_nodes() {
        Ok(n) => n,
        Err(e) => {
            return Err(e);
        },
    };
    match operator.stop_nodes(&nodes) {
        Ok(()) => Ok(nodes),
        Err(e) => Err(DiscoveryError::Provider { message: e.message }),
    }
}

} // verus!
