//! Node discovery: the instance model the cloud inventory reports, the
//! classification of every returned instance into a role-partitioned
//! snapshot, and the laws discovery obeys under pagination.

use vstd::prelude::*;

use crate::node::{LifecycleState, NodeId, NodeRecord};
use crate::tags::{spec_role_of, AwsTagSpec, InstanceTag};

verus! {

/// What the cloud inventory reports of one instance: an identifier when it
/// carries one, a public address when it has one, its lifecycle state, and
/// its tag list.
#[derive(Debug)]
pub struct InstanceDescription {
    pub instance_id: Option<String>,
    pub public_address: Option<String>,
    pub state: LifecycleState,
    pub tags: Vec<InstanceTag>,
}

/// Why discovery aborted: the provider query failed, or a returned
/// instance misses its required identifier. Either aborts the whole
/// discovery; no partial inventory is returned.
#[derive(Debug)]
pub enum DiscoveryError {
    Provider { message: String },
    MissingInstanceId,
}

/// Whether an instance carries a usable identifier: present and non-empty.
pub open spec fn spec_has_id(inst: InstanceDescription) -> bool {
    &&& inst.instance_id is Some
    &&& inst.instance_id.unwrap()@.len() > 0
}

/// The node record an instance with an identifier is kept as.
pub open spec fn spec_record_of(inst: InstanceDescription) -> NodeRecord {
    NodeRecord {
        id: NodeId::spec_from_string(inst.instance_id.unwrap()),
        public_address: inst.public_address,
        state: inst.state,
    }
}

/// A role-partitioned set of discovered node records.
pub struct DiscoveredNodes {
    pub masters: Seq<NodeRecord>,
    pub workers: Seq<NodeRecord>,
}

/// What discovering a sequence of instances yields: each instance is
/// classified by the tag filters (master first, then worker), kept in
/// input order within its role, and an instance that qualifies for a
/// role but misses its identifier aborts the whole discovery. An
/// instance matching neither filter is dropped silently, by design: it
/// is neither listed nor reported as an error.
pub open spec fn spec_discover(ts: AwsTagSpec, insts: Seq<InstanceDescription>) -> Result<
    DiscoveredNodes,
    DiscoveryError,
>
    decreases insts.len(),
{
    if insts.len() == 0 {
        Ok(DiscoveredNodes { masters: Seq::empty(), workers: Seq::empty() })
    } else {
        match spec_discover(ts, insts.drop_last()) {
            Err(e) => Err(e),
            Ok(acc) => {
                let inst = insts.last();
                match spec_role_of(ts, inst.tags@) {
                    None => Ok(acc),
                    Some(role) => if !spec_has_id(inst) {
                        Err(DiscoveryError::MissingInstanceId)
                    } else if role is Master {
                        Ok(
                            DiscoveredNodes {
                                masters: acc.masters.push(spec_record_of(inst)),
                                workers: acc.workers,
                            },
                        )
                    } else {
                        Ok(
                            DiscoveredNodes {
                                masters: acc.masters,
                                workers: acc.workers.push(spec_record_of(inst)),
                            },
                        )
                    },
                }
            },
        }
    }
}

/// Classifies one page of instances, appending each qualifying record to
/// the accumulated master or worker sequence; an instance that qualifies
/// but misses its identifier aborts with a data-integrity error.
pub fn categorize_page(
    ts: &AwsTagSpec,
    insts: &Vec<InstanceDescription>,
    master: &mut Vec<NodeRecord>,
    worker: &mut Vec<NodeRecord>,
) -> (r: Result<(), DiscoveryError>)
    ensures
        match spec_discover(*ts, insts@) {
            Ok(acc) => {
                &&& r is Ok
                &&& final(master)@ == old(master)@ + acc.masters
                &&& final(worker)@ == old(worker)@ + acc.workers
            },
            Err(e) => r == Err::<(), DiscoveryError>(e),
        },
{
    let mut i: usize = 0;
    while i < insts.len()
        invariant
            i <= insts@.len(),
            spec_discover(*ts, insts@.take(i as int)) matches Ok(acc) && master@ == old(master)@
                + acc.masters && worker@ == old(worker)@ + acc.workers,
        decreases insts@.len() - i,
    {
        let inst = &insts[i];
        proof {
            assert(insts@.take(i + 1).drop_last() =~= insts@.take(i as int));
            assert(insts@.take(i + 1).last() == insts@[i as int]);
        }
        match ts.categorize(&inst.tags) {
            None => {},
            Some(role) => {
                let id = match &inst.instance_id {
                    Some(s) => {
                        if s.as_str().unicode_len() == 0 {
                            proof {
                                assert(!spec_has_id(insts@[i as int]));
                                lemma_discover_err_extends(*ts, insts@, i + 1);
                            }
                            return Err(DiscoveryError::MissingInstanceId);
                        }
                        NodeId::new(s.clone())
                    },
                    None => {
                        proof {
                            assert(!spec_has_id(insts@[i as int]));
                            lemma_discover_err_extends(*ts, insts@, i + 1);
                        }
                        return Err(DiscoveryError::MissingInstanceId);
                    },
                };
                let public_address = match &inst.public_address {
                    Some(a) => Some(a.clone()),
                    None => None,
                };
                let record = NodeRecord { id, public_address, state: inst.state };
                proof {
                    assert(record == spec_record_of(insts@[i as int]));
                }
                match role {
                    crate::node::NodeRole::Master => master.push(record),
                    crate::node::NodeRole::Worker => worker.push(record),
                }
            },
        }
        i = i + 1;
    }
    proof {
        assert(insts@.take(insts@.len() as int) =~= insts@);
    }
    Ok(())
}

/// Once a prefix of the instances aborts discovery, the whole sequence
/// aborts with the same error.
pub proof fn lemma_discover_err_extends(ts: AwsTagSpec, insts: Seq<InstanceDescription>, k: int)
    requires
        0 <= k <= insts.len(),
        spec_discover(ts, insts.take(k)) is Err,
    ensures
        spec_discover(ts, insts) == spec_discover(ts, insts.take(k)),
    decreases insts.len() - k,
{
    if k < insts.len() {
        assert(insts.take(k + 1).drop_last() =~= insts.take(k));
        lemma_discover_err_extends(ts, insts, k + 1);
    } else {
        assert(insts.take(k) =~= insts);
    }
}

/// Discovery distributes over concatenation: the instances of two
/// stretches, discovered together, yield the per-stretch results appended
/// role by role, and an abort in either stretch aborts the whole.
pub proof fn lemma_discover_append(
    ts: AwsTagSpec,
    a: Seq<InstanceDescription>,
    b: Seq<InstanceDescription>,
)
    ensures
        spec_discover(ts, a + b) == (match spec_discover(ts, a) {
            Err(e) => Err::<DiscoveredNodes, DiscoveryError>(e),
            Ok(ra) => match spec_discover(ts, b) {
                Err(e) => Err(e),
                Ok(rb) => Ok(
                    DiscoveredNodes {
                        masters: ra.masters + rb.masters,
                        workers: ra.workers + rb.workers,
                    },
                ),
            },
        }),
    decreases b.len(),
{
    if b.len() == 0 {
        assert(a + b =~= a);
        if spec_discover(ts, a) is Ok {
            let ra = spec_discover(ts, a)->Ok_0;
            assert(ra.masters + Seq::<NodeRecord>::empty() =~= ra.masters);
            assert(ra.workers + Seq::<NodeRecord>::empty() =~= ra.workers);
        }
    } else {
        lemma_discover_append(ts, a, b.drop_last());
        assert((a + b).drop_last() =~= a + b.drop_last());
        assert((a + b).last() == b.last());
        if spec_discover(ts, a) is Ok && spec_discover(ts, b.drop_last()) is Ok {
            let ra = spec_discover(ts, a)->Ok_0;
            let rb = spec_discover(ts, b.drop_last())->Ok_0;
            let rec = spec_record_of(b.last());
            assert((ra.masters + rb.masters).push(rec) =~= ra.masters + rb.masters.push(rec));
            assert((ra.workers + rb.workers).push(rec) =~= ra.workers + rb.workers.push(rec));
        }
    }
}

/// An instance matching neither filter leaves no trace: discovery of a
/// sequence containing it equals discovery of the sequence without it, so
/// the instance is absent from both sequences of the result.
pub proof fn lemma_unmatched_instance_excluded(
    ts: AwsTagSpec,
    insts: Seq<InstanceDescription>,
    i: int,
)
    requires
        0 <= i < insts.len(),
        spec_role_of(ts, insts[i].tags@) is None,
    ensures
        spec_discover(ts, insts) == spec_discover(ts, insts.remove(i)),
    decreases insts.len(),
{
    if i == insts.len() - 1 {
        assert(insts.remove(i) =~= insts.drop_last());
    } else {
        lemma_unmatched_instance_excluded(ts, insts.drop_last(), i);
        assert(insts.remove(i).drop_last() =~= insts.drop_last().remove(i));
        assert(insts.remove(i).last() == insts.last());
    }
}

/// What discovering a sequence of pages, page by page in order, yields.
pub open spec fn spec_discover_pages(
    ts: AwsTagSpec,
    pages: Seq<Seq<InstanceDescription>>,
) -> Result<DiscoveredNodes, DiscoveryError>
    decreases pages.len(),
{
    if pages.len() == 0 {
        Ok(DiscoveredNodes { masters: Seq::empty(), workers: Seq::empty() })
    } else {
        match spec_discover_pages(ts, pages.drop_last()) {
            Err(e) => Err(e),
            Ok(acc) => match spec_discover(ts, pages.last()) {
                Err(e) => Err(e),
                Ok(p) => Ok(
                    DiscoveredNodes {
                        masters: acc.masters + p.masters,
                        workers: acc.workers + p.workers,
                    },
                ),
            },
        }
    }
}

/// Discovery is exhaustive under pagination: the qualifying instances of
/// all pages, accumulated page by page, equal the discovery of the pages'
/// concatenation, order preserved within each page.
pub proof fn lemma_discovery_exhaustive(ts: AwsTagSpec, pages: Seq<Seq<InstanceDescription>>)
    ensures
        spec_discover_pages(ts, pages) == spec_discover(ts, pages.flatten_alt()),
    decreases pages.len(),
{
    if pages.len() == 0 {
        assert(pages.flatten_alt() =~= Seq::<InstanceDescription>::empty());
    } else {
        lemma_discovery_exhaustive(ts, pages.drop_last());
        lemma_discover_append(ts, pages.drop_last().flatten_alt(), pages.last());
    }
}

/// Once a page prefix aborts discovery, every longer prefix aborts with
/// the same error.
pub proof fn lemma_discover_pages_err_extends(
    ts: AwsTagSpec,
    pages: Seq<Seq<InstanceDescription>>,
    k: int,
)
    requires
        0 <= k <= pages.len(),
        spec_discover_pages(ts, pages.take(k)) is Err,
    ensures
        spec_discover_pages(ts, pages) == spec_discover_pages(ts, pages.take(k)),
    decreases pages.len() - k,
{
    if k < pages.len() {
        assert(pages.take(k + 1).drop_last() =~= pages.take(k));
        lemma_discover_pages_err_extends(ts, pages, k + 1);
    } else {
        assert(pages.take(k) =~= pages);
    }
}

} // verus!

verus! {

/// Whether a record stems from some input instance that carries an
/// identifier and is classified into the given role.
pub open spec fn spec_sourced_as(
    ts: AwsTagSpec,
    insts: Seq<InstanceDescription>,
    rec: NodeRecord,
    role: crate::node::NodeRole,
) -> bool {
    exists|j: int|
        0 <= j < insts.len() && spec_has_id(#[trigger] insts[j]) && rec == spec_record_of(
            insts[j],
        ) && spec_role_of(ts, insts[j].tags@) == Some(role)
}

/// Every discovered record stems from one input instance that carries an
/// identifier and was classified into exactly that record's side of the
/// partition.
pub proof fn lemma_discover_records_sourced(ts: AwsTagSpec, insts: Seq<InstanceDescription>)
    ensures
        spec_discover(ts, insts) matches Ok(acc) ==> {
            &&& (forall|a: int| #![trigger acc.masters[a]]
                0 <= a < acc.masters.len() ==> spec_sourced_as(
                    ts,
                    insts,
                    acc.masters[a],
                    crate::node::NodeRole::Master,
                ))
            &&& (forall|b: int| #![trigger acc.workers[b]]
                0 <= b < acc.workers.len() ==> spec_sourced_as(
                    ts,
                    insts,
                    acc.workers[b],
                    crate::node::NodeRole::Worker,
                ))
        },
    decreases insts.len(),
{
    if insts.len() > 0 && spec_discover(ts, insts) is Ok {
        lemma_discover_records_sourced(ts, insts.drop_last());
        let prefix = spec_discover(ts, insts.drop_last())->Ok_0;
        let acc = spec_discover(ts, insts)->Ok_0;
        assert forall|a: int| 0 <= a < acc.masters.len() implies spec_sourced_as(
            ts,
            insts,
            acc.masters[a],
            crate::node::NodeRole::Master,
        ) by {
            if a < prefix.masters.len() {
                assert(acc.masters[a] == prefix.masters[a]);
                let j = choose|j: int|
                    0 <= j < insts.drop_last().len() && spec_has_id(#[trigger] insts.drop_last()[j])
                        && prefix.masters[a] == spec_record_of(insts.drop_last()[j])
                        && spec_role_of(ts, insts.drop_last()[j].tags@) == Some(
                        crate::node::NodeRole::Master,
                    );
                assert(insts.drop_last()[j] == insts[j]);
                assert(spec_has_id(insts[j]));
            } else {
                assert(acc.masters[a] == spec_record_of(insts.last()));
                assert(spec_has_id(insts[insts.len() - 1]));
            }
        }
        assert forall|b: int| 0 <= b < acc.workers.len() implies spec_sourced_as(
            ts,
            insts,
            acc.workers[b],
            crate::node::NodeRole::Worker,
        ) by {
            if b < prefix.workers.len() {
                assert(acc.workers[b] == prefix.workers[b]);
                let j = choose|j: int|
                    0 <= j < insts.drop_last().len() && spec_has_id(#[trigger] insts.drop_last()[j])
                        && prefix.workers[b] == spec_record_of(insts.drop_last()[j])
                        && spec_role_of(ts, insts.drop_last()[j].tags@) == Some(
                        crate::node::NodeRole::Worker,
                    );
                assert(insts.drop_last()[j] == insts[j]);
                assert(spec_has_id(insts[j]));
            } else {
                assert(acc.workers[b] == spec_record_of(insts.last()));
                assert(spec_has_id(insts[insts.len() - 1]));
            }
        }
    }
}

/// An identifier carried only by instances that match neither filter is
/// absent from both sequences of the discovered partition.
pub proof fn lemma_unmatched_id_absent(
    ts: AwsTagSpec,
    insts: Seq<InstanceDescription>,
    id: String,
)
    requires
        forall|j: int|
            0 <= j < insts.len() && (#[trigger] insts[j].instance_id) == Some(id)
                ==> spec_role_of(ts, insts[j].tags@) is None,
    ensures
        spec_discover(ts, insts) matches Ok(acc) ==> {
            &&& (forall|a: int|
                0 <= a < acc.masters.len() ==> (#[trigger] acc.masters[a]).id
                    != NodeId::spec_from_string(id))
            &&& (forall|b: int|
                0 <= b < acc.workers.len() ==> (#[trigger] acc.workers[b]).id
                    != NodeId::spec_from_string(id))
        },
{
    if spec_discover(ts, insts) is Ok {
        lemma_discover_records_sourced(ts, insts);
        let acc = spec_discover(ts, insts)->Ok_0;
        assert forall|a: int| 0 <= a < acc.masters.len() implies (#[trigger] acc.masters[a]).id
            != NodeId::spec_from_string(id) by {
            let j = choose|j: int|
                0 <= j < insts.len() && spec_has_id(#[trigger] insts[j]) && acc.masters[a]
                    == spec_record_of(insts[j]) && spec_role_of(ts, insts[j].tags@) == Some(
                    crate::node::NodeRole::Master,
                );
            crate::node::lemma_node_id_injective(insts[j].instance_id.unwrap(), id);
            if insts[j].instance_id.unwrap() == id {
                assert(insts[j].instance_id == Some(id));
            }
        }
        assert forall|b: int| 0 <= b < acc.workers.len() implies (#[trigger] acc.workers[b]).id
            != NodeId::spec_from_string(id) by {
            let j = choose|j: int|
                0 <= j < insts.len() && spec_has_id(#[trigger] insts[j]) && acc.workers[b]
                    == spec_record_of(insts[j]) && spec_role_of(ts, insts[j].tags@) == Some(
                    crate::node::NodeRole::Worker,
                );
            crate::node::lemma_node_id_injective(insts[j].instance_id.unwrap(), id);
            if insts[j].instance_id.unwrap() == id {
                assert(insts[j].instance_id == Some(id));
            }
        }
    }
}

/// Categorization is mutually exclusive: when the input instances carry
/// pairwise distinct identifiers, no identifier appears in both sequences
/// of the discovered partition.
pub proof fn lemma_discover_partition_disjoint(ts: AwsTagSpec, insts: Seq<InstanceDescription>)
    requires
        forall|j1: int, j2: int|
            0 <= j1 < insts.len() && 0 <= j2 < insts.len() && j1 != j2 && (
            #[trigger] insts[j1].instance_id) is Some ==> insts[j1].instance_id != (
            #[trigger] insts[j2].instance_id),
    ensures
        spec_discover(ts, insts) matches Ok(acc) ==> forall|a: int, b: int|
            0 <= a < acc.masters.len() && 0 <= b < acc.workers.len() ==> (
            #[trigger] acc.masters[a]).id != (#[trigger] acc.workers[b]).id,
{
    if spec_discover(ts, insts) is Ok {
        lemma_discover_records_sourced(ts, insts);
        let acc = spec_discover(ts, insts)->Ok_0;
        assert forall|a: int, b: int|
            0 <= a < acc.masters.len() && 0 <= b < acc.workers.len() implies (
        #[trigger] acc.masters[a]).id != (#[trigger] acc.workers[b]).id by {
            let j1 = choose|j: int|
                0 <= j < insts.len() && spec_has_id(#[trigger] insts[j]) && acc.masters[a]
                    == spec_record_of(insts[j]) && spec_role_of(ts, insts[j].tags@) == Some(
                    crate::node::NodeRole::Master,
                );
            let j2 = choose|j: int|
                0 <= j < insts.len() && spec_has_id(#[trigger] insts[j]) && acc.workers[b]
                    == spec_record_of(insts[j]) && spec_role_of(ts, insts[j].tags@) == Some(
                    crate::node::NodeRole::Worker,
                );
            assert(j1 != j2);
            assert(insts[j1].instance_id != insts[j2].instance_id);
            crate::node::lemma_node_id_injective(
                insts[j1].instance_id.unwrap(),
                insts[j2].instance_id.unwrap(),
            );
        }
    }
}

} // verus!
