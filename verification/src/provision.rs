//! The provisioning script runner: the fixed, ordered sequence of remote
//! commands that brings one node to a cluster-ready state, executed
//! fail-fast over one remote session.

use vstd::prelude::*;

use crate::remote_command::{
    spec_describe, Command, CommandModel, RemoteCommandExecuteError, RemoteCommandExecutor,
};

verus! {

/// Why provisioning a node failed: a remote command returned a non-zero
/// exit, or the session itself failed.
#[derive(Debug)]
pub enum ProvisionError {
    RemoteCommand(RemoteCommandExecuteError),
    Ssh { message: String },
}

impl ProvisionError {
    /// Wraps a session-level failure message.
    pub fn ssh(message: String) -> (r: Self)
        ensures
            r == (ProvisionError::Ssh { message }),
    {
        ProvisionError::Ssh { message }
    }

    /// The error rendered as one line.
    pub fn message(&self) -> (r: String)
        ensures
            self matches ProvisionError::RemoteCommand(e) ==> r@ == "command: "@
                + e.command_view() + ": "@ + e.stderr_view(),
            self matches ProvisionError::Ssh { message } ==> r@ == "ssh error: "@ + message@,
    {
        match self {
            ProvisionError::RemoteCommand(e) => {
                let r = String::from_str("command: ").concat(e.message().as_str());
                proof {
                    assert("command: "@ + (e.command_view() + ": "@ + e.stderr_view())
                        =~= "command: "@ + e.command_view() + ": "@ + e.stderr_view());
                }
                r
            },
            ProvisionError::Ssh { message } => String::from_str("ssh error: ").concat(
                message.as_str(),
            ),
        }
    }
}

impl Clone for ProvisionError {
    fn clone(&self) -> (r: Self)
        ensures
            r == *self,
    {
        match self {
            ProvisionError::RemoteCommand(e) => ProvisionError::RemoteCommand(e.clone()),
            ProvisionError::Ssh { message } => ProvisionError::Ssh { message: message.clone() },
        }
    }
}

/// The shell script that writes the kernel-module load configuration
/// enabling the `overlay` and `br_netfilter` modules.
pub open spec fn spec_modules_conf_script() -> Seq<char> {
    "cat <<EOF | sudo tee /etc/modules-load.d/containerd.conf
    overlay
    br_netfilter
    EOF"@
}

/// The shell script that writes the sysctl network bridging and
/// forwarding configuration.
pub open spec fn spec_sysctl_conf_script() -> Seq<char> {
    "cat <<EOF | sudo tee /etc/sysctl.d/99-kubernetes-cri.conf
        net.bridge.bridge-nf-call-iptables  = 1
        net.ipv4.ip_forward                 = 1
        net.bridge.bridge-nf-call-ip6tables = 1
        EOF"@
}

/// The shell script that writes the container runtime's default
/// configuration file.
pub open spec fn spec_runtime_conf_script() -> Seq<char> {
    "containerd config default | sudo tee /etc/containerd/config.toml"@
}

/// The fixed, order-significant provisioning script: disable swap, write
/// and load the kernel module configuration, write and apply the sysctl
/// configuration, install the container runtime, write its configuration,
/// and restart and verify its service.
pub open spec fn spec_script() -> Seq<CommandModel> {
    seq![
        CommandModel::Sudo { args: seq!["swapoff"@, "-a"@] },
        CommandModel::Bash { script: spec_modules_conf_script() },
        CommandModel::Sudo { args: seq!["modprobe"@, "overlay"@] },
        CommandModel::Sudo { args: seq!["modprobe"@, "br_netfilter"@] },
        CommandModel::Bash { script: spec_sysctl_conf_script() },
        CommandModel::Sudo { args: seq!["sysctl"@, "--system"@] },
        CommandModel::Sudo { args: seq!["apt-get"@, "update"@] },
        CommandModel::Sudo { args: seq!["apt-get"@, "install"@, "containerd"@, "--yes"@] },
        CommandModel::Sudo { args: seq!["mkdir"@, "-p"@, "/etc/containerd"@] },
        CommandModel::Bash { script: spec_runtime_conf_script() },
        CommandModel::Sudo { args: seq!["systemctl"@, "restart"@, "containerd"@] },
        CommandModel::Executable { program: "service"@, args: seq!["containerd"@, "status"@] },
    ]
}

/// The views of a sequence of commands, in order.
pub open spec fn spec_command_views(s: Seq<Command>) -> Seq<CommandModel> {
    s.map_values(|c: Command| c@)
}

fn text(x: &str) -> (r: String)
    ensures
        r@ == x@,
{
    String::from_str(x)
}

fn args2(a: &str, b: &str) -> (r: Vec<String>)
    ensures
        r.deep_view() == seq![a@, b@],
{
    let mut v: Vec<String> = Vec::new();
    v.push(text(a));
    v.push(text(b));
    proof {
        assert(v.deep_view()[0] == v@[0]@);
        assert(v.deep_view()[1] == v@[1]@);
        assert(v.deep_view() =~= seq![a@, b@]);
    }
    v
}

fn args3(a: &str, b: &str, c: &str) -> (r: Vec<String>)
    ensures
        r.deep_view() == seq![a@, b@, c@],
{
    let mut v: Vec<String> = Vec::new();
    v.push(text(a));
    v.push(text(b));
    v.push(text(c));
    proof {
        assert(v.deep_view()[0] == v@[0]@);
        assert(v.deep_view()[1] == v@[1]@);
        assert(v.deep_view()[2] == v@[2]@);
        assert(v.deep_view() =~= seq![a@, b@, c@]);
    }
    v
}

fn args4(a: &str, b: &str, c: &str, d: &str) -> (r: Vec<String>)
    ensures
        r.deep_view() == seq![a@, b@, c@, d@],
{
    let mut v: Vec<String> = Vec::new();
    v.push(text(a));
    v.push(text(b));
    v.push(text(c));
    v.push(text(d));
    proof {
        assert(v.deep_view()[0] == v@[0]@);
        assert(v.deep_view()[1] == v@[1]@);
        assert(v.deep_view()[2] == v@[2]@);
        assert(v.deep_view()[3] == v@[3]@);
        assert(v.deep_view() =~= seq![a@, b@, c@, d@]);
    }
    v
}

/// The provisioning script as executable commands, in script order.
pub fn provisioning_script() -> (r: Vec<Command>)
    ensures
        spec_command_views(r@) == spec_script(),
{
    let mut v: Vec<Command> = Vec::new();
    v.push(Command::Sudo(args2("swapoff", "-a")));
    v.push(Command::Bash(text(
        "cat <<EOF | sudo tee /etc/modules-load.d/containerd.conf
    overlay
    br_netfilter
    EOF",
    )));
    v.push(Command::Sudo(args2("modprobe", "overlay")));
    v.push(Command::Sudo(args2("modprobe", "br_netfilter")));
    v.push(Command::Bash(text(
        "cat <<EOF | sudo tee /etc/sysctl.d/99-kubernetes-cri.conf
        net.bridge.bridge-nf-call-iptables  = 1
        net.ipv4.ip_forward                 = 1
        net.bridge.bridge-nf-call-ip6tables = 1
        EOF",
    )));
    v.push(Command::Sudo(args2("sysctl", "--system")));
    v.push(Command::Sudo(args2("apt-get", "update")));
    v.push(Command::Sudo(args4("apt-get", "install", "containerd", "--yes")));
    v.push(Command::Sudo(args3("mkdir", "-p", "/etc/containerd")));
    v.push(Command::Bash(text(
        "containerd config default | sudo tee /etc/containerd/config.toml",
    )));
    v.push(Command::Sudo(args3("systemctl", "restart", "containerd")));
    v.push(Command::Executable(text("service"), args2("containerd", "status")));
    proof {
        assert(spec_command_views(v@) =~~= spec_script());
    }
    v
}

/// Whether every one of the session's execution attempts numbered
/// `base .. base + n` succeeds.
pub open spec fn spec_all_succeed<E: RemoteCommandExecutor>(e: E, base: int, n: int) -> bool {
    forall|m: int| base <= m < base + n ==> #[trigger] e.succeeds_at(m)
}

/// How many steps of an `n`-step script run when executed fail-fast from
/// attempt `base`: every step up to and including the first failing one.
pub open spec fn spec_steps_run<E: RemoteCommandExecutor>(e: E, base: int, n: int) -> int
    decreases n,
{
    if n <= 0 {
        0
    } else if !e.succeeds_at(base) {
        1
    } else {
        1 + spec_steps_run(e, base + 1, n - 1)
    }
}

/// Fail-fast execution runs at least one and at most all of the steps.
pub proof fn lemma_steps_run_bounds<E: RemoteCommandExecutor>(e: E, base: int, n: int)
    requires
        0 <= n,
    ensures
        n == 0 ==> spec_steps_run(e, base, n) == 0,
        n > 0 ==> 1 <= spec_steps_run(e, base, n) <= n,
    decreases n,
{
    if n > 0 && e.succeeds_at(base) {
        lemma_steps_run_bounds(e, base + 1, n - 1);
    }
}

pub proof fn lemma_steps_run_stops<E: RemoteCommandExecutor>(e: E, base: int, n: int, k: int)
    requires
        0 <= k < n,
        spec_all_succeed(e, base, k),
        !e.succeeds_at(base + k),
    ensures
        spec_steps_run(e, base, n) == k + 1,
    decreases k,
{
    if k > 0 {
        assert(e.succeeds_at(base));
        assert(spec_all_succeed(e, base + 1, k - 1));
        lemma_steps_run_stops(e, base + 1, n - 1, k - 1);
    }
}

pub proof fn lemma_steps_run_all<E: RemoteCommandExecutor>(e: E, base: int, n: int)
    requires
        0 <= n,
        spec_all_succeed(e, base, n),
    ensures
        spec_steps_run(e, base, n) == n,
    decreases n,
{
    if n > 0 {
        assert(e.succeeds_at(base));
        assert(spec_all_succeed(e, base + 1, n - 1));
        lemma_steps_run_all(e, base + 1, n - 1);
    }
}

/// Runs the fixed provisioning script over one remote session.
pub struct Provisioner<Executor> {
    pub executor: Executor,
}

impl<Executor> Provisioner<Executor> {
    pub fn new(executor: Executor) -> (r: Self)
        ensures
            r == (Provisioner { executor }),
    {
        Provisioner { executor }
    }

    /// Releases the session, consuming the runner.
    pub fn into_executor(self) -> (r: Executor)
        ensures
            r == self.executor,
    {
        self.executor
    }
}

impl<Executor: RemoteCommandExecutor> Provisioner<Executor> {
    /// Runs the provisioning script, fail-fast: the steps execute strictly
    /// in order, the first failing step aborts the remainder, and the
    /// returned error carries the descriptor of exactly that step.
    pub fn provision(&mut self) -> (r: Result<(), ProvisionError>)
        ensures
            ({
                let base = old(self).executor.log().len() as int;
                let n = spec_script().len() as int;
                let steps = spec_steps_run(old(self).executor, base, n);
                &&& (r is Ok <==> spec_all_succeed(old(self).executor, base, n))
                &&& final(self).executor.log() == old(self).executor.log() + spec_script().take(
                    steps,
                )
                &&& forall|m: int| #[trigger] final(self).executor.succeeds_at(m) == old(
                    self,
                ).executor.succeeds_at(m)
                &&& (r matches Err(e) ==> {
                    let k = steps - 1;
                    &&& 0 <= k < n
                    &&& !old(self).executor.succeeds_at(base + k)
                    &&& spec_all_succeed(old(self).executor, base, k)
                    &&& (e matches ProvisionError::RemoteCommand(inner) ==> inner.command_view()
                        == spec_describe(spec_script()[k]))
                })
            }),
    {
        let script = provisioning_script();
        let ghost base = old(self).executor.log().len() as int;
        let ghost n = spec_script().len() as int;
        let mut i: usize = 0;
        while i < script.len()
            invariant
                spec_command_views(script@) == spec_script(),
                i <= script@.len(),
                base == old(self).executor.log().len() as int,
                n == spec_script().len() as int,
                self.executor.log() == old(self).executor.log() + spec_script().take(i as int),
                forall|m: int| #[trigger] self.executor.succeeds_at(m) == old(
                    self,
                ).executor.succeeds_at(m),
                spec_all_succeed(old(self).executor, base, i as int),
            decreases script@.len() - i,
        {
            let cmd = script[i].duplicate();
            let ghost pre = self.executor;
            match self.executor.execute(cmd) {
                Ok(()) => {
                    proof {
                        assert(spec_script().take(i as int).push(spec_script()[i as int])
                            =~= spec_script().take(i + 1));
                        assert(old(self).executor.succeeds_at(base + i));
                    }
                },
                Err(e) => {
                    proof {
                        assert(spec_script().take(i as int).push(spec_script()[i as int])
                            =~= spec_script().take(i + 1));
                        assert(!old(self).executor.succeeds_at(base + i));
                        lemma_steps_run_stops(old(self).executor, base, n, i as int);
                    }
                    return Err(e);
                },
            }
            i = i + 1;
        }
        proof {
            lemma_steps_run_all(old(self).executor, base, n);
            assert(spec_script().take(n) =~= spec_script());
        }
        Ok(())
    }
}

} // verus!
