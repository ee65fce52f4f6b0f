//! Tag filters: the key/value predicates that select inventory instances
//! and classify each discovered instance into a cluster role.

use vstd::prelude::*;

use crate::node::NodeRole;

verus! {

/// One key/value tag carried by an inventory instance, both parts optional,
/// exactly as the provider reports them.
#[derive(Debug)]
pub struct InstanceTag {
    pub key: Option<String>,
    pub value: Option<String>,
}

/// A tag filter: matches a tag carrying this key and, when a value is
/// present, exactly this value.
#[derive(Debug)]
pub struct AwsTag {
    key: String,
    value: Option<String>,
}

impl AwsTag {
    /// The filter's key.
    pub closed spec fn key_view(&self) -> Seq<char> {
        self.key@
    }

    /// The filter's value constraint, when it has one.
    pub closed spec fn value_view(&self) -> Option<Seq<char>> {
        self.value.deep_view()
    }

    /// A filter on the key alone.
    pub fn key(key: String) -> (r: Self)
        ensures
            r.key_view() == key@,
            r.value_view() is None,
    {
        AwsTag { key, value: None }
    }

    /// Narrows the filter to one exact value.
    pub fn value(self, value: String) -> (r: Self)
        ensures
            r.key_view() == self.key_view(),
            r.value_view() == Some(value@),
    {
        AwsTag { key: self.key, value: Some(value) }
    }

    /// The filter's key, as a plain string slice.
    pub fn key_str(&self) -> (r: &str)
        ensures
            r@ == self.key_view(),
    {
        self.key.as_str()
    }

    /// The filter's value constraint, as a plain string slice.
    pub fn value_str(&self) -> (r: Option<&str>)
        ensures
            self.value_view() is None ==> r is None,
            self.value_view() matches Some(v) ==> r matches Some(s) && s@ == v,
    {
        match &self.value {
            Some(v) => Some(v.as_str()),
            None => None,
        }
    }

    /// Whether one instance tag satisfies this filter.
    pub fn matches(&self, t: &InstanceTag) -> (r: bool)
        ensures
            r == spec_filter_matches(*self, *t),
    {
        let key_ok = match &t.key {
            Some(k) => *k == self.key,
            None => false,
        };
        if !key_ok {
            return false;
        }
        match (&self.value, &t.value) {
            (None, _) => true,
            (Some(fv), Some(tv)) => *fv == *tv,
            (Some(_), None) => false,
        }
    }
}

impl Clone for AwsTag {
    fn clone(&self) -> (r: Self)
        ensures
            r == *self,
    {
        let value = match &self.value {
            Some(v) => Some(v.clone()),
            None => None,
        };
        AwsTag { key: self.key.clone(), value }
    }
}

/// Whether an instance tag satisfies a filter: the tag carries the
/// filter's key and, when the filter holds a value, exactly that value.
pub open spec fn spec_filter_matches(f: AwsTag, t: InstanceTag) -> bool {
    &&& t.key.deep_view() == Some(f.key_view())
    &&& (f.value_view() is None || t.value.deep_view() == f.value_view())
}

/// Whether any tag in the sequence satisfies the filter.
pub open spec fn spec_any_match(f: AwsTag, tags: Seq<InstanceTag>) -> bool {
    exists|i: int| 0 <= i < tags.len() && spec_filter_matches(f, #[trigger] tags[i])
}

/// How a prefix extended by one tag relates to the prefix: the filter
/// matches in the longer prefix exactly when it matched before or matches
/// the new tag.
pub proof fn lemma_any_match_take_succ(f: AwsTag, tags: Seq<InstanceTag>, i: int)
    requires
        0 <= i < tags.len(),
    ensures
        spec_any_match(f, tags.take(i + 1)) <==> (spec_any_match(f, tags.take(i))
            || spec_filter_matches(f, tags[i])),
{
    if spec_any_match(f, tags.take(i + 1)) {
        let j = choose|j: int|
            0 <= j < i + 1 && spec_filter_matches(f, #[trigger] tags.take(i + 1)[j]);
        if j < i {
            assert(spec_filter_matches(f, tags.take(i)[j]));
        } else {
            assert(spec_filter_matches(f, tags[i]));
        }
    }
    if spec_any_match(f, tags.take(i)) {
        let j = choose|j: int| 0 <= j < i && spec_filter_matches(f, #[trigger] tags.take(i)[j]);
        assert(spec_filter_matches(f, tags.take(i + 1)[j]));
    }
    if spec_filter_matches(f, tags[i]) {
        assert(spec_filter_matches(f, tags.take(i + 1)[i]));
    }
}

/// The role an instance with these tags is classified into: the master
/// filter is evaluated first over every tag, then the worker filter, and
/// an instance matching neither is given no role.
pub open spec fn spec_role_of(ts: AwsTagSpec, tags: Seq<InstanceTag>) -> Option<NodeRole> {
    if spec_any_match(ts.master_node, tags) {
        Some(NodeRole::Master)
    } else if spec_any_match(ts.worker_node, tags) {
        Some(NodeRole::Worker)
    } else {
        None
    }
}

/// A tag matching both the master and the worker filter classifies the
/// instance as a master: the master-before-worker order is a fixed
/// tie-break.
pub proof fn lemma_both_filters_give_master(ts: AwsTagSpec, tags: Seq<InstanceTag>, i: int)
    requires
        0 <= i < tags.len(),
        spec_filter_matches(ts.master_node, tags[i]),
        spec_filter_matches(ts.worker_node, tags[i]),
    ensures
        spec_role_of(ts, tags) == Some(NodeRole::Master),
{
    assert(spec_any_match(ts.master_node, tags));
}

/// The three filters discovery works with: `node` narrows the inventory
/// query, `master_node` and `worker_node` classify each returned instance.
#[derive(Debug)]
pub struct AwsTagSpec {
    pub node: AwsTag,
    pub master_node: AwsTag,
    pub worker_node: AwsTag,
}

impl AwsTagSpec {
    /// Classifies an instance by its tags: master first, then worker, and
    /// no role when neither filter matches any tag.
    pub fn categorize(&self, tags: &Vec<InstanceTag>) -> (r: Option<NodeRole>)
        ensures
            r == spec_role_of(*self, tags@),
    {
        let mut is_master = false;
        let mut is_worker = false;
        let mut i: usize = 0;
        while i < tags.len()
            invariant
                i <= tags@.len(),
                is_master <==> spec_any_match(self.master_node, tags@.take(i as int)),
                is_worker <==> spec_any_match(self.worker_node, tags@.take(i as int)),
            decreases tags@.len() - i,
        {
            if self.master_node.matches(&tags[i]) {
                is_master = true;
            }
            if self.worker_node.matches(&tags[i]) {
                is_worker = true;
            }
            proof {
                lemma_any_match_take_succ(self.master_node, tags@, i as int);
                lemma_any_match_take_succ(self.worker_node, tags@, i as int);
            }
            i = i + 1;
        }
        proof {
            assert(tags@.take(tags@.len() as int) =~= tags@);
        }
        if is_master {
            Some(NodeRole::Master)
        } else if is_worker {
            Some(NodeRole::Worker)
        } else {
            None
        }
    }
}

impl Clone for AwsTagSpec {
    fn clone(&self) -> (r: Self)
        ensures
            r == *self,
    {
        AwsTagSpec {
            node: self.node.clone(),
            master_node: self.master_node.clone(),
            worker_node: self.worker_node.clone(),
        }
    }
}

} // verus!
