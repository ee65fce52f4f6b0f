//! The fleet coordinator: fans the provisioning script, or one ad hoc
//! command, out across a selected set of nodes, one session per node, and
//! collects every node's outcome before reporting. One node's failure
//! never hides another node's result.

use vstd::prelude::*;

use crate::node::{spec_role_pairs, ClusterNodes, NodeId, NodeRecord, NodeRole};
use crate::provision::{
    lemma_steps_run_all, lemma_steps_run_bounds, spec_script, spec_steps_run, ProvisionError,
    Provisioner,
};
use crate::remote_command::{
    spec_describe, Command, CommandModel, RemoteCommandExecutor, ScriptedExecutor,
};

verus! {

/// One connection attempt: the user and host it addressed.
pub struct ConnectRequest {
    pub user: Seq<char>,
    pub host: Seq<char>,
}

/// What one released session did: the commands it ran, in order, and
/// whether each execution attempt succeeded.
pub struct SessionLog {
    pub commands: Seq<CommandModel>,
    pub outcomes: Seq<bool>,
}

/// The transport a fleet operation works through: it opens one session
/// per node and takes each session back when that node's work is done.
///
/// The transport keeps a mathematical record of every connection attempt
/// and, for every released session, the full log of commands that session
/// ran: no session, and so no node's outcome, can be dropped unobserved.
pub trait Connector<S: RemoteCommandExecutor> {
    /// Every connection attempt made so far, in order.
    spec fn connects(&self) -> Seq<ConnectRequest>;

    /// What every released session ran, and how each attempt fared, in
    /// release order.
    spec fn completed(&self) -> Seq<SessionLog>;

    /// Opens one authenticated session to a host; a fresh session has run
    /// nothing yet.
    fn connect(&mut self, user: &str, host: &str) -> (r: Result<S, ProvisionError>)
        ensures
            final(self).connects() == old(self).connects().push(
                ConnectRequest { user: user@, host: host@ },
            ),
            final(self).completed() == old(self).completed(),
            r matches Ok(s) ==> s.log() == Seq::<CommandModel>::empty(),
    ;

    /// Takes a session back, recording what it ran; sessions are never
    /// shared across nodes and are released on every exit path.
    fn release(&mut self, session: S)
        ensures
            final(self).connects() == old(self).connects(),
            final(self).completed() == old(self).completed().push(
                SessionLog {
                    commands: session.log(),
                    outcomes: Seq::new(session.log().len(), |n: int| session.succeeds_at(n)),
                },
            ),
    ;
}

/// Why one node's task failed: the node has no public address (raised
/// before any session is attempted), or work over its session failed.
#[derive(Debug)]
pub enum NodeError {
    MissingPublicAddress,
    Provision(ProvisionError),
}

impl Clone for NodeError {
    fn clone(&self) -> (r: Self)
        ensures
            r == *self,
    {
        match self {
            NodeError::MissingPublicAddress => NodeError::MissingPublicAddress,
            NodeError::Provision(e) => NodeError::Provision(e.clone()),
        }
    }
}

impl NodeError {
    /// The error rendered as one line.
    pub fn message(&self) -> (r: String)
        ensures
            *self is MissingPublicAddress ==> r@
                == "node does not have public ip. maybe not started"@,
    {
        match self {
            NodeError::MissingPublicAddress => String::from_str(
                "node does not have public ip. maybe not started",
            ),
            NodeError::Provision(e) => e.message(),
        }
    }
}

/// One node's outcome in a fleet operation: which node, in which role,
/// whether its task succeeded, and (as a proof-level record) the exact
/// commands its session ran and how each attempt fared.
pub struct NodeOutcome {
    pub id: NodeId,
    pub role: NodeRole,
    pub result: Result<(), NodeError>,
    pub ran: Ghost<Seq<CommandModel>>,
    pub ran_ok: Ghost<Seq<bool>>,
}

impl NodeOutcome {
    /// An outcome reported by a caller that ran the node's task itself,
    /// as plain values, with no session record attached.
    pub fn reported(id: NodeId, role: NodeRole, result: Result<(), NodeError>) -> (r: NodeOutcome)
        ensures
            r.id == id,
            r.role == role,
            r.result == result,
            r.ran@ == Seq::<CommandModel>::empty(),
            r.ran_ok@ == Seq::<bool>::empty(),
    {
        NodeOutcome { id, role, result, ran: Ghost(Seq::empty()), ran_ok: Ghost(Seq::empty()) }
    }
}

/// A failed node, named with its specific cause.
#[derive(Debug)]
pub struct NodeFailure {
    pub id: NodeId,
    pub error: NodeError,
}

/// The aggregate failure of a fleet operation: every failed node, each
/// with its own cause, in report order.
#[derive(Debug)]
pub struct FleetError {
    pub failures: Vec<NodeFailure>,
}

/// The nodes a fleet operation addresses: all of them, masters first, or
/// only those of one role.
pub open spec fn spec_selected(nodes: ClusterNodes, role: Option<NodeRole>) -> Seq<
    (NodeRole, NodeRecord),
> {
    match role {
        None => spec_role_pairs(nodes),
        Some(NodeRole::Master) => nodes.master@.map_values(|n: NodeRecord| (NodeRole::Master, n)),
        Some(NodeRole::Worker) => nodes.worker@.map_values(|n: NodeRecord| (NodeRole::Worker, n)),
    }
}

/// The connection attempts a selection gives rise to: one per selected
/// node that has a public address, in selection order; a node without an
/// address is never connected to.
pub open spec fn spec_connect_requests(
    sel: Seq<(NodeRole, NodeRecord)>,
    user: Seq<char>,
) -> Seq<ConnectRequest>
    decreases sel.len(),
{
    if sel.len() == 0 {
        Seq::empty()
    } else {
        spec_connect_requests(sel.drop_last(), user) + (match sel.last().1.public_address {
            Some(a) => seq![ConnectRequest { user, host: a@ }],
            None => Seq::empty(),
        })
    }
}

/// The session records a report accounts for: one per outcome whose
/// session ran anything, in report order.
pub open spec fn spec_completed_logs(outcomes: Seq<NodeOutcome>) -> Seq<SessionLog>
    decreases outcomes.len(),
{
    if outcomes.len() == 0 {
        Seq::empty()
    } else {
        spec_completed_logs(outcomes.drop_last()) + (if outcomes.last().ran@.len() > 0 {
            seq![
                SessionLog {
                    commands: outcomes.last().ran@,
                    outcomes: outcomes.last().ran_ok@,
                },
            ]
        } else {
            Seq::empty()
        })
    }
}

/// Whether every entry of the sequence is true.
pub open spec fn spec_all_true(s: Seq<bool>) -> bool {
    forall|n: int| 0 <= n < s.len() ==> #[trigger] s[n]
}

/// What one entry of a provisioning report says of its node: the entry
/// names the node and its role; a node without a public address fails
/// with the precondition error, and only such a node fails with it; a
/// node whose session ran k steps ran exactly the first k steps of the
/// script, in order; the entry succeeds exactly when the whole script ran
/// and every step's attempt succeeded; a failed entry failed at the last
/// step that ran, every earlier step having succeeded; and a command
/// failure names that step.
pub open spec fn spec_provision_entry(sel_i: (NodeRole, NodeRecord), o: NodeOutcome) -> bool {
    &&& o.id == sel_i.1.id
    &&& o.role == sel_i.0
    &&& o.ran_ok@.len() == o.ran@.len()
    &&& (sel_i.1.public_address is None ==> o.result == Err::<(), NodeError>(
        NodeError::MissingPublicAddress,
    ) && o.ran@ == Seq::<CommandModel>::empty())
    &&& (sel_i.1.public_address is Some ==> {
        &&& !(o.result matches Err(NodeError::MissingPublicAddress))
        &&& (o.ran@.len() == 0 ==> o.result is Err)
        &&& (o.ran@.len() > 0 ==> {
            &&& o.ran@ == spec_script().take(o.ran@.len() as int)
            &&& (o.result is Ok <==> o.ran@.len() == spec_script().len() && spec_all_true(
                o.ran_ok@,
            ))
            &&& (o.result is Err ==> !o.ran_ok@[o.ran@.len() - 1] && spec_all_true(
                o.ran_ok@.take(o.ran@.len() - 1),
            ))
            &&& (o.result matches Err(NodeError::Provision(ProvisionError::RemoteCommand(e)))
                ==> e.command_view() == spec_describe(spec_script()[o.ran@.len() - 1]))
        })
    })
}

/// What one entry of an ad hoc execution report says of its node: the
/// entry names the node and its role; a node without a public address
/// fails with the precondition error, and only such a node fails with
/// it; a node whose session ran anything ran exactly one shell command,
/// the given one, and the entry succeeds exactly when that execution
/// succeeded; a command failure names the command.
pub open spec fn spec_exec_entry(
    command: Seq<char>,
    sel_i: (NodeRole, NodeRecord),
    o: NodeOutcome,
) -> bool {
    &&& o.id == sel_i.1.id
    &&& o.role == sel_i.0
    &&& o.ran_ok@.len() == o.ran@.len()
    &&& (sel_i.1.public_address is None ==> o.result == Err::<(), NodeError>(
        NodeError::MissingPublicAddress,
    ) && o.ran@ == Seq::<CommandModel>::empty())
    &&& (sel_i.1.public_address is Some ==> {
        &&& !(o.result matches Err(NodeError::MissingPublicAddress))
        &&& (o.ran@.len() == 0 ==> o.result is Err)
        &&& (o.ran@.len() > 0 ==> {
            &&& o.ran@ == seq![CommandModel::Bash { script: command }]
            &&& (o.result is Ok <==> o.ran_ok@[0])
            &&& (o.result matches Err(NodeError::Provision(ProvisionError::RemoteCommand(e)))
                ==> e.command_view() == spec_describe(CommandModel::Bash { script: command }))
        })
    })
}

/// Runs the full provisioning script on every node of the snapshot,
/// masters first, one session per node, and reports every node's
/// outcome: a failed node never prevents the observation of any other
/// node's result.
pub fn provision_fleet<S: RemoteCommandExecutor, C: Connector<S>>(
    nodes: &ClusterNodes,
    user: &str,
    conn: &mut C,
) -> (report: Vec<NodeOutcome>)
    ensures
        report@.len() == spec_role_pairs(*nodes).len(),
        forall|i: int| #![trigger report@[i]]
            0 <= i < report@.len() ==> spec_provision_entry(spec_role_pairs(*nodes)[i], report@[i]),
        final(conn).connects() == old(conn).connects() + spec_connect_requests(
            spec_role_pairs(*nodes),
            user@,
        ),
        final(conn).completed() == old(conn).completed() + spec_completed_logs(report@),
{
    let pairs = nodes.nodes();
    let ghost sel = spec_role_pairs(*nodes);
    let mut report: Vec<NodeOutcome> = Vec::new();
    let mut i: usize = 0;
    while i < pairs.len()
        invariant
            pairs@ == sel,
            sel == spec_role_pairs(*nodes),
            i <= sel.len(),
            report@.len() == i,
            forall|j: int| #![trigger report@[j]]
                0 <= j < i ==> spec_provision_entry(sel[j], report@[j]),
            conn.connects() == old(conn).connects() + spec_connect_requests(
                sel.take(i as int),
                user@,
            ),
            conn.completed() == old(conn).completed() + spec_completed_logs(report@),
        decreases sel.len() - i,
    {
        let ghost prev_report = report@;
        let ghost prev_requests = spec_connect_requests(sel.take(i as int), user@);
        let role = pairs[i].0;
        let record = &pairs[i].1;
        proof {
            assert(sel.take(i + 1).drop_last() =~= sel.take(i as int));
            assert(sel.take(i + 1).last() == sel[i as int]);
        }
        let outcome: NodeOutcome = match &record.public_address {
            None => {
                let o = NodeOutcome {
                    id: record.id.clone(),
                    role,
                    result: Err(NodeError::MissingPublicAddress),
                    ran: Ghost(Seq::empty()),
                    ran_ok: Ghost(Seq::empty()),
                };
                proof {
                    assert(spec_provision_entry(sel[i as int], o));
                    assert(prev_requests + Seq::<ConnectRequest>::empty() =~= prev_requests);
                }
                o
            },
            Some(host) => {
                let ghost request = ConnectRequest { user: user@, host: host@ };
                proof {
                    assert((old(conn).connects() + prev_requests).push(request) =~= old(
                        conn,
                    ).connects() + (prev_requests + seq![request]));
                }
                match conn.connect(user, host.as_str()) {
                    Err(e) => {
                        let o = NodeOutcome {
                            id: record.id.clone(),
                            role,
                            result: Err(NodeError::Provision(e)),
                            ran: Ghost(Seq::empty()),
                            ran_ok: Ghost(Seq::empty()),
                        };
                        proof {
                            assert(spec_provision_entry(sel[i as int], o));
                        }
                        o
                    },
                    Ok(session) => {
                        let mut runner = Provisioner::new(session);
                        let ghost fresh = runner.executor;
                        let run = runner.provision();
                        let executor = runner.into_executor();
                        let ghost log = executor.log();
                        let ghost ran_ok = Seq::new(log.len(), |m: int| fresh.succeeds_at(m));
                        let ghost released = executor;
                        let ghost prev_completed = conn.completed();
                        conn.release(executor);
                        let ghost n = spec_script().len() as int;
                        let ghost steps = spec_steps_run(fresh, 0, n);
                        proof {
                            lemma_steps_run_bounds(fresh, 0, n);
                            assert(Seq::<CommandModel>::empty() + spec_script().take(steps)
                                =~= spec_script().take(steps));
                            if run is Ok {
                                lemma_steps_run_all(fresh, 0, n);
                                assert(spec_script().take(n) =~= spec_script());
                                assert(spec_all_true(ran_ok));
                            } else {
                                assert(!ran_ok[log.len() - 1]);
                                assert(spec_all_true(ran_ok.take(log.len() - 1)));
                            }
                            assert(Seq::new(released.log().len(), |m: int| released.succeeds_at(m))
                                =~= ran_ok);
                            let sl = SessionLog { commands: log, outcomes: ran_ok };
                            assert(prev_completed.push(sl) =~= prev_completed + seq![sl]);
                        }
                        let result = match run {
                            Ok(()) => Ok(()),
                            Err(e) => Err(NodeError::Provision(e)),
                        };
                        let o = NodeOutcome {
                            id: record.id.clone(),
                            role,
                            result,
                            ran: Ghost(log),
                            ran_ok: Ghost(ran_ok),
                        };
                        proof {
                            assert(spec_provision_entry(sel[i as int], o));
                        }
                        o
                    },
                }
            },
        };
        let ghost o = outcome;
        let ghost pre_completed = conn.completed();
        report.push(outcome);
        proof {
            assert(report@.drop_last() =~= prev_report);
            assert(report@.last() == o);
            if o.ran@.len() == 0 {
                assert(spec_completed_logs(prev_report) + Seq::<SessionLog>::empty()
                    =~= spec_completed_logs(prev_report));
            } else {
                let sl = SessionLog { commands: o.ran@, outcomes: o.ran_ok@ };
                assert((old(conn).completed() + spec_completed_logs(prev_report)) + seq![sl]
                    =~= old(conn).completed() + (spec_completed_logs(prev_report) + seq![sl]));
            }
            assert(spec_completed_logs(report@) == spec_completed_logs(prev_report) + (if o.ran@
                .len() > 0 {
                seq![SessionLog { commands: o.ran@, outcomes: o.ran_ok@ }]
            } else {
                Seq::<SessionLog>::empty()
            }));
        }
        i = i + 1;
    }
    proof {
        assert(sel.take(sel.len() as int) =~= sel);
    }
    report
}

} // verus!

verus! {

fn role_entries(records: &Vec<NodeRecord>, role: NodeRole) -> (r: Vec<(NodeRole, NodeRecord)>)
    ensures
        r@ == records@.map_values(|n: NodeRecord| (role, n)),
{
    let mut r: Vec<(NodeRole, NodeRecord)> = Vec::new();
    let mut i: usize = 0;
    while i < records.len()
        invariant
            i <= records@.len(),
            r@ == records@.take(i as int).map_values(|n: NodeRecord| (role, n)),
        decreases records@.len() - i,
    {
        r.push((role, records[i].duplicate()));
        proof {
            assert(records@.take(i + 1).map_values(|n: NodeRecord| (role, n)) =~= records@.take(
                i as int,
            ).map_values(|n: NodeRecord| (role, n)).push((role, records@[i as int])));
        }
        i = i + 1;
    }
    proof {
        assert(records@.take(records@.len() as int) =~= records@);
    }
    r
}

/// Runs one shell command on every selected node — all of them, or only
/// those of the given role — one session and exactly one execution per
/// selected node, none against any other node, and reports every node's
/// outcome.
pub fn exec_on_fleet<S: RemoteCommandExecutor, C: Connector<S>>(
    nodes: &ClusterNodes,
    user: &str,
    command: &str,
    role: Option<NodeRole>,
    conn: &mut C,
) -> (report: Vec<NodeOutcome>)
    ensures
        report@.len() == spec_selected(*nodes, role).len(),
        forall|i: int| #![trigger report@[i]]
            0 <= i < report@.len() ==> spec_exec_entry(
                command@,
                spec_selected(*nodes, role)[i],
                report@[i],
            ),
        final(conn).connects() == old(conn).connects() + spec_connect_requests(
            spec_selected(*nodes, role),
            user@,
        ),
        final(conn).completed() == old(conn).completed() + spec_completed_logs(report@),
{
    let pairs: Vec<(NodeRole, NodeRecord)> = match role {
        None => nodes.nodes(),
        Some(NodeRole::Master) => role_entries(&nodes.master, NodeRole::Master),
        Some(NodeRole::Worker) => role_entries(&nodes.worker, NodeRole::Worker),
    };
    let ghost sel = spec_selected(*nodes, role);
    let mut report: Vec<NodeOutcome> = Vec::new();
    let mut i: usize = 0;
    while i < pairs.len()
        invariant
            pairs@ == sel,
            sel == spec_selected(*nodes, role),
            i <= sel.len(),
            report@.len() == i,
            forall|j: int| #![trigger report@[j]]
                0 <= j < i ==> spec_exec_entry(command@, sel[j], report@[j]),
            conn.connects() == old(conn).connects() + spec_connect_requests(
                sel.take(i as int),
                user@,
            ),
            conn.completed() == old(conn).completed() + spec_completed_logs(report@),
        decreases sel.len() - i,
    {
        let ghost prev_report = report@;
        let ghost prev_requests = spec_connect_requests(sel.take(i as int), user@);
        let node_role = pairs[i].0;
        let record = &pairs[i].1;
        proof {
            assert(sel.take(i + 1).drop_last() =~= sel.take(i as int));
            assert(sel.take(i + 1).last() == sel[i as int]);
        }
        let outcome: NodeOutcome = match &record.public_address {
            None => {
                let o = NodeOutcome {
                    id: record.id.clone(),
                    role: node_role,
                    result: Err(NodeError::MissingPublicAddress),
                    ran: Ghost(Seq::empty()),
                    ran_ok: Ghost(Seq::empty()),
                };
                proof {
                    assert(spec_exec_entry(command@, sel[i as int], o));
                    assert(prev_requests + Seq::<ConnectRequest>::empty() =~= prev_requests);
                }
                o
            },
            Some(host) => {
                let ghost request = ConnectRequest { user: user@, host: host@ };
                proof {
                    assert((old(conn).connects() + prev_requests).push(request) =~= old(
                        conn,
                    ).connects() + (prev_requests + seq![request]));
                }
                match conn.connect(user, host.as_str()) {
                    Err(e) => {
                        let o = NodeOutcome {
                            id: record.id.clone(),
                            role: node_role,
                            result: Err(NodeError::Provision(e)),
                            ran: Ghost(Seq::empty()),
                            ran_ok: Ghost(Seq::empty()),
                        };
                        proof {
                            assert(spec_exec_entry(command@, sel[i as int], o));
                        }
                        o
                    },
                    Ok(session) => {
                        let mut session = session;
                        let ghost fresh = session;
                        let cmd = Command::Bash(String::from_str(command));
                        let run = session.execute(cmd);
                        let ghost log = session.log();
                        let ghost ran_ok = Seq::new(log.len(), |m: int| fresh.succeeds_at(m));
                        let ghost released = session;
                        let ghost prev_completed = conn.completed();
                        conn.release(session);
                        proof {
                            assert(log =~= seq![CommandModel::Bash { script: command@ }]);
                            assert(ran_ok[0] == fresh.succeeds_at(0));
                            assert(Seq::new(released.log().len(), |m: int| released.succeeds_at(m))
                                =~= ran_ok);
                            let sl = SessionLog { commands: log, outcomes: ran_ok };
                            assert(prev_completed.push(sl) =~= prev_completed + seq![sl]);
                        }
                        let result = match run {
                            Ok(()) => Ok(()),
                            Err(e) => Err(NodeError::Provision(e)),
                        };
                        let o = NodeOutcome {
                            id: record.id.clone(),
                            role: node_role,
                            result,
                            ran: Ghost(log),
                            ran_ok: Ghost(ran_ok),
                        };
                        proof {
                            assert(spec_exec_entry(command@, sel[i as int], o));
                        }
                        o
                    },
                }
            },
        };
        let ghost o = outcome;
        report.push(outcome);
        proof {
            assert(report@.drop_last() =~= prev_report);
            assert(report@.last() == o);
            if o.ran@.len() == 0 {
                assert(spec_completed_logs(prev_report) + Seq::<SessionLog>::empty()
                    =~= spec_completed_logs(prev_report));
            } else {
                let sl = SessionLog { commands: o.ran@, outcomes: o.ran_ok@ };
                assert((old(conn).completed() + spec_completed_logs(prev_report)) + seq![sl]
                    =~= old(conn).completed() + (spec_completed_logs(prev_report) + seq![sl]));
            }
            assert(spec_completed_logs(report@) == spec_completed_logs(prev_report) + (if o.ran@
                .len() > 0 {
                seq![SessionLog { commands: o.ran@, outcomes: o.ran_ok@ }]
            } else {
                Seq::<SessionLog>::empty()
            }));
        }
        i = i + 1;
    }
    proof {
        assert(sel.take(sel.len() as int) =~= sel);
    }
    report
}

/// The failed entries of a report, in order, each named with its cause.
pub open spec fn spec_failures(outcomes: Seq<NodeOutcome>) -> Seq<NodeFailure>
    decreases outcomes.len(),
{
    if outcomes.len() == 0 {
        Seq::empty()
    } else {
        spec_failures(outcomes.drop_last()) + (if outcomes.last().result is Err {
            seq![
                NodeFailure {
                    id: outcomes.last().id,
                    error: outcomes.last().result->Err_0,
                },
            ]
        } else {
            Seq::empty()
        })
    }
}

/// A report has no failures exactly when every one of its entries
/// succeeded.
pub proof fn lemma_no_failures_iff_all_ok(outcomes: Seq<NodeOutcome>)
    ensures
        spec_failures(outcomes).len() == 0 <==> (forall|i: int|
            0 <= i < outcomes.len() ==> (#[trigger] outcomes[i]).result is Ok),
    decreases outcomes.len(),
{
    if outcomes.len() > 0 {
        lemma_no_failures_iff_all_ok(outcomes.drop_last());
        if spec_failures(outcomes).len() == 0 {
            assert forall|i: int| 0 <= i < outcomes.len() implies (#[trigger] outcomes[i]).result
                is Ok by {
                if i < outcomes.len() - 1 {
                    assert(outcomes.drop_last()[i] == outcomes[i]);
                }
            }
        }
        if forall|i: int| 0 <= i < outcomes.len() ==> (#[trigger] outcomes[i]).result is Ok {
            assert forall|i: int|
                0 <= i < outcomes.drop_last().len() implies (#[trigger] outcomes.drop_last()[i])
                .result is Ok by {
                assert(outcomes.drop_last()[i] == outcomes[i]);
            }
        }
    }
}

/// Merges a fleet report into one overall result: success exactly when
/// every node succeeded, and otherwise an aggregate failure naming every
/// failed node with its specific cause, while the report itself still
/// carries every node's outcome.
pub fn aggregate_outcomes(outcomes: &Vec<NodeOutcome>) -> (r: Result<(), FleetError>)
    ensures
        r is Ok <==> spec_failures(outcomes@).len() == 0,
        r is Ok <==> (forall|i: int|
            0 <= i < outcomes@.len() ==> (#[trigger] outcomes@[i]).result is Ok),
        r matches Err(f) ==> f.failures@ == spec_failures(outcomes@),
{
    let mut failures: Vec<NodeFailure> = Vec::new();
    let mut i: usize = 0;
    while i < outcomes.len()
        invariant
            i <= outcomes@.len(),
            failures@ == spec_failures(outcomes@.take(i as int)),
        decreases outcomes@.len() - i,
    {
        let ghost prev = failures@;
        proof {
            assert(outcomes@.take(i + 1).drop_last() =~= outcomes@.take(i as int));
            assert(outcomes@.take(i + 1).last() == outcomes@[i as int]);
        }
        match &outcomes[i].result {
            Ok(()) => {
                proof {
                    assert(prev + Seq::<NodeFailure>::empty() =~= prev);
                }
            },
            Err(e) => {
                failures.push(NodeFailure { id: outcomes[i].id.clone(), error: e.clone() });
                proof {
                    assert(failures@ =~= prev + seq![
                        NodeFailure {
                            id: outcomes@[i as int].id,
                            error: outcomes@[i as int].result->Err_0,
                        },
                    ]);
                }
            },
        }
        i = i + 1;
    }
    proof {
        assert(outcomes@.take(outcomes@.len() as int) =~= outcomes@);
        lemma_no_failures_iff_all_ok(outcomes@);
    }
    if failures.len() == 0 {
        Ok(())
    } else {
        Err(FleetError { failures })
    }
}

} // verus!

verus! {

fn copy_plan(v: &Vec<usize>) -> (r: Vec<usize>)
    ensures
        r@ == v@,
{
    let mut r: Vec<usize> = Vec::new();
    let mut i: usize = 0;
    while i < v.len()
        invariant
            i <= v@.len(),
            r@ == v@.take(i as int),
        decreases v@.len() - i,
    {
        r.push(v[i]);
        proof {
            assert(v@.take(i + 1) =~= v@.take(i as int).push(v@[i as int]));
        }
        i = i + 1;
    }
    proof {
        assert(v@.take(v@.len() as int) =~= v@);
    }
    r
}

/// A scripted transport: connecting always succeeds and hands out a
/// scripted session whose failure plan is taken, connect by connect, from
/// a list fixed at construction (no plan means a session that never
/// fails). Every connection attempt, and every released session's
/// commands with their attempts' outcomes, are recorded and open to
/// inspection.
pub struct ScriptedConnector {
    connected: Vec<(String, String)>,
    finished: Vec<(Vec<Command>, Vec<bool>)>,
    plans: Vec<Vec<usize>>,
}

impl ScriptedConnector {
    /// A transport with nothing connected yet; the `k`-th connect hands
    /// out a session failing at the attempt indices of `plans[k]`.
    pub fn new(plans: Vec<Vec<usize>>) -> (r: Self)
        ensures
            r.connects() == Seq::<ConnectRequest>::empty(),
            r.completed() == Seq::<SessionLog>::empty(),
    {
        let r = ScriptedConnector { connected: Vec::new(), finished: Vec::new(), plans };
        proof {
            assert(r.connects() =~= Seq::<ConnectRequest>::empty());
            assert(r.completed() =~= Seq::<SessionLog>::empty());
        }
        r
    }

    /// Every connection attempt made so far: user and host, in order.
    pub fn connections(&self) -> (r: &Vec<(String, String)>)
        ensures
            r@.map_values(|p: (String, String)| ConnectRequest { user: p.0@, host: p.1@ })
                == self.connects(),
    {
        &self.connected
    }

    /// What every released session ran, each command paired vector-wise
    /// with whether its attempt succeeded, in release order.
    pub fn finished_sessions(&self) -> (r: &Vec<(Vec<Command>, Vec<bool>)>)
        ensures
            r@.map_values(
                |p: (Vec<Command>, Vec<bool>)| SessionLog {
                    commands: p.0@.map_values(|c: Command| c@),
                    outcomes: p.1@,
                },
            ) == self.completed(),
    {
        &self.finished
    }
}

impl Connector<ScriptedExecutor> for ScriptedConnector {
    closed spec fn connects(&self) -> Seq<ConnectRequest> {
        self.connected@.map_values(
            |p: (String, String)| ConnectRequest { user: p.0@, host: p.1@ },
        )
    }

    closed spec fn completed(&self) -> Seq<SessionLog> {
        self.finished@.map_values(
            |p: (Vec<Command>, Vec<bool>)| SessionLog {
                commands: p.0@.map_values(|c: Command| c@),
                outcomes: p.1@,
            },
        )
    }

    fn connect(&mut self, user: &str, host: &str) -> (r: Result<ScriptedExecutor, ProvisionError>)
        ensures
            r is Ok,
    {
        let idx = self.connected.len();
        let plan: Vec<usize> = if idx < self.plans.len() {
            copy_plan(&self.plans[idx])
        } else {
            Vec::new()
        };
        self.connected.push((String::from_str(user), String::from_str(host)));
        proof {
            assert(self.connected@.map_values(
                |p: (String, String)| ConnectRequest { user: p.0@, host: p.1@ },
            ) =~= old(self).connected@.map_values(
                |p: (String, String)| ConnectRequest { user: p.0@, host: p.1@ },
            ).push(ConnectRequest { user: user@, host: host@ }));
        }
        Ok(ScriptedExecutor::new(plan))
    }

    fn release(&mut self, session: ScriptedExecutor) {
        let ghost sess = session;
        let ghost log = session.log();
        let record = session.into_record();
        self.finished.push(record);
        proof {
            assert(self.finished@.last().1@ =~= Seq::new(log.len(), |m: int| sess.succeeds_at(m)));
            assert(self.finished@.map_values(
                |p: (Vec<Command>, Vec<bool>)| SessionLog {
                    commands: p.0@.map_values(|c: Command| c@),
                    outcomes: p.1@,
                },
            ) =~= old(self).finished@.map_values(
                |p: (Vec<Command>, Vec<bool>)| SessionLog {
                    commands: p.0@.map_values(|c: Command| c@),
                    outcomes: p.1@,
                },
            ).push(
                SessionLog {
                    commands: sess.log(),
                    outcomes: Seq::new(sess.log().len(), |m: int| sess.succeeds_at(m)),
                },
            ));
        }
    }
}

} // verus!
