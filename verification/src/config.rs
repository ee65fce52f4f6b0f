//! The configuration model: the provider selector, the SSH user, and the
//! tag keys and values that select and classify cluster nodes. Loading
//! the values from disk is a collaborator's concern; the model itself,
//! and how it turns into tag filters, is stated here.

use vstd::prelude::*;

use crate::tags::{AwsTag, AwsTagSpec};

verus! {

/// The configuration file could not be parsed.
#[derive(Debug)]
pub struct ParseConfigError {}

impl ParseConfigError {
    pub fn new() -> (r: Self) {
        Self {  }
    }

    /// The error rendered as one line.
    pub fn message(&self) -> (r: String)
        ensures
            r@ == "Could not parse configuration file"@,
    {
        String::from_str("Could not parse configuration file")
    }
}

/// The cloud provider a configuration selects.
#[derive(Clone, Copy, Debug, PartialEq, Eq, Structural)]
pub enum Provider {
    Aws,
}

/// Whether a string names the one supported provider, in any letter case.
pub open spec fn spec_is_aws_name(s: Seq<char>) -> bool {
    &&& s.len() == 3
    &&& (s[0] == 'a' || s[0] == 'A')
    &&& (s[1] == 'w' || s[1] == 'W')
    &&& (s[2] == 's' || s[2] == 'S')
}

impl Provider {
    /// Parses a provider name, ignoring letter case; any other name is
    /// unsupported and reported back verbatim.
    pub fn from_str(s: &str) -> (r: Result<Provider, String>)
        ensures
            r is Ok <==> spec_is_aws_name(s@),
            r matches Ok(p) ==> p is Aws,
            r matches Err(m) ==> m@ == "unsupported provider: "@ + s@,
    {
        if s.unicode_len() == 3 {
            let c0 = s.get_char(0);
            let c1 = s.get_char(1);
            let c2 = s.get_char(2);
            if (c0 == 'a' || c0 == 'A') && (c1 == 'w' || c1 == 'W') && (c2 == 's' || c2 == 'S') {
                return Ok(Provider::Aws);
            }
        }
        Err(String::from_str("unsupported provider: ").concat(s))
    }
}

/// One tag key/value pair named by the configuration.
#[derive(Debug)]
pub struct TagConfig {
    pub key: String,
    pub value: String,
}

impl TagConfig {
    /// The tag filter this configuration entry stands for: the key, with
    /// exactly this value.
    pub fn to_tag(&self) -> (r: AwsTag)
        ensures
            r.key_view() == self.key@,
            r.value_view() == Some(self.value@),
    {
        AwsTag::key(self.key.clone()).value(self.value.clone())
    }
}

impl Clone for TagConfig {
    fn clone(&self) -> (r: Self)
        ensures
            r == *self,
    {
        TagConfig { key: self.key.clone(), value: self.value.clone() }
    }
}

/// The SSH account fleet operations authenticate as.
#[derive(Debug)]
pub struct SshConfig {
    pub user: String,
}

impl Clone for SshConfig {
    fn clone(&self) -> (r: Self)
        ensures
            r == *self,
    {
        SshConfig { user: self.user.clone() }
    }
}

/// One role's node selection: the tag that marks a node as having this
/// role.
#[derive(Debug)]
pub struct Node {
    pub tag: TagConfig,
}

/// The node-level configuration: the distribution name, the SSH account,
/// the tag narrowing the inventory query, and the master and worker
/// classification tags.
#[derive(Debug)]
pub struct Ec2NodeConfig {
    pub distribution: String,
    pub ssh: SshConfig,
    pub tag: TagConfig,
    pub master: Node,
    pub worker: Node,
}

/// The compute-service configuration.
#[derive(Debug)]
pub struct Ec2Config {
    pub node: Ec2NodeConfig,
}

/// The provider-specific configuration.
#[derive(Debug)]
pub struct AwsConfig {
    pub ec2: Ec2Config,
}

/// The whole configuration: which provider, and its settings when
/// present.
#[derive(Debug)]
pub struct Config {
    pub provider: Provider,
    pub aws: Option<AwsConfig>,
}

impl Config {
    /// The tag filters discovery works with, when the provider section is
    /// present: the query tag, and the master and worker classification
    /// tags, each with its exact configured value.
    pub fn aws_tag_spec(&self) -> (r: Option<AwsTagSpec>)
        ensures
            self.aws is None ==> r is None,
            self.aws is Some ==> (r matches Some(ts) && {
                let node_cfg = self.aws.unwrap().ec2.node;
                &&& ts.node.key_view() == node_cfg.tag.key@
                &&& ts.node.value_view() == Some(node_cfg.tag.value@)
                &&& ts.master_node.key_view() == node_cfg.master.tag.key@
                &&& ts.master_node.value_view() == Some(node_cfg.master.tag.value@)
                &&& ts.worker_node.key_view() == node_cfg.worker.tag.key@
                &&& ts.worker_node.value_view() == Some(node_cfg.worker.tag.value@)
            }),
    {
        match &self.aws {
            None => None,
            Some(aws) => Some(
                AwsTagSpec {
                    node: aws.ec2.node.tag.to_tag(),
                    master_node: aws.ec2.node.master.tag.to_tag(),
                    worker_node: aws.ec2.node.worker.tag.to_tag(),
                },
            ),
        }
    }
}

} // verus!
