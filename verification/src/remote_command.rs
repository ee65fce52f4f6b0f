//! The command protocol: the three remote-command shapes, the fixed
//! execution shape each one maps to, the human-readable descriptor logged
//! for a command, and the uniform execute contract a remote session offers.

use vstd::prelude::*;

use crate::provision::ProvisionError;

verus! {

/// One remote command, as the provisioning engine states it.
///
/// `Sudo` runs with elevated privilege through a fixed prefix, `Bash` runs
/// through a shell interpreter with the script text as a single argument,
/// and `Executable` runs a program directly, with no shell interpretation.
#[derive(Debug, PartialEq, Eq)]
pub enum Command {
    Sudo(Vec<String>),
    Bash(String),
    Executable(String, Vec<String>),
}

/// The mathematical shape of a [`Command`]: the same three variants over
/// character sequences.
pub enum CommandModel {
    Sudo { args: Seq<Seq<char>> },
    Bash { script: Seq<char> },
    Executable { program: Seq<char>, args: Seq<Seq<char>> },
}

impl View for Command {
    type V = CommandModel;

    open spec fn view(&self) -> CommandModel {
        match self {
            Command::Sudo(args) => CommandModel::Sudo { args: args.deep_view() },
            Command::Bash(script) => CommandModel::Bash { script: script@ },
            Command::Executable(program, args) => CommandModel::Executable {
                program: program@,
                args: args.deep_view(),
            },
        }
    }
}

impl Command {
    /// An explicit copy; the result has the same shape and content.
    pub fn duplicate(&self) -> (r: Self)
        ensures
            r@ == self@,
    {
        match self {
            Command::Sudo(args) => Command::Sudo(clone_strings(args)),
            Command::Bash(script) => Command::Bash(script.clone()),
            Command::Executable(program, args) => Command::Executable(
                program.clone(),
                clone_strings(args),
            ),
        }
    }
}

/// A copy of a vector of strings, content preserved.
fn clone_strings(v: &Vec<String>) -> (r: Vec<String>)
    ensures
        r.deep_view() == v.deep_view(),
{
    let mut r: Vec<String> = Vec::new();
    let mut i: usize = 0;
    while i < v.len()
        invariant
            i <= v@.len(),
            r@.len() == i,
            forall|j: int| 0 <= j < i ==> #[trigger] r@[j]@ == v@[j]@,
        decreases v@.len() - i,
    {
        r.push(v[i].clone());
        i = i + 1;
    }
    proof {
        assert forall|j: int| 0 <= j < v@.len() implies r.deep_view()[j] == v.deep_view()[j] by {
            assert(r.deep_view()[j] == r@[j]@);
            assert(v.deep_view()[j] == v@[j]@);
        }
        assert(r.deep_view() =~= v.deep_view());
    }
    r
}

/// The arguments joined with single spaces, in order.
pub open spec fn spec_join_spaces(args: Seq<Seq<char>>) -> Seq<char>
    decreases args.len(),
{
    if args.len() == 0 {
        Seq::empty()
    } else if args.len() == 1 {
        args[0]
    } else {
        spec_join_spaces(args.drop_last()) + " "@ + args.last()
    }
}

/// Joins the arguments with single spaces.
pub fn join_spaces(args: &Vec<String>) -> (r: String)
    ensures
        r@ == spec_join_spaces(args.deep_view()),
{
    let ghost dv = args.deep_view();
    let mut r = String::new();
    let mut i: usize = 0;
    while i < args.len()
        invariant
            i <= args@.len(),
            dv == args.deep_view(),
            r@ == spec_join_spaces(dv.take(i as int)),
        decreases args@.len() - i,
    {
        if i > 0 {
            r.append(" ");
        }
        r.append(args[i].as_str());
        proof {
            assert(dv[i as int] == args@[i as int]@);
            assert(dv.take(i + 1).drop_last() =~= dv.take(i as int));
            assert(dv.take(i + 1).last() == dv[i as int]);
            if i == 0 {
                assert(Seq::<char>::empty() + dv[0] =~= dv[0]);
                assert(dv.take(1)[0] == dv[0]);
            }
        }
        i = i + 1;
    }
    proof {
        assert(dv.take(dv.len() as int) =~= dv);
    }
    r
}

/// The descriptor logged for a command: the program it resolves to and its
/// arguments, space-separated.
pub open spec fn spec_describe(c: CommandModel) -> Seq<char> {
    match c {
        CommandModel::Sudo { args } => "sudo "@ + spec_join_spaces(args),
        CommandModel::Bash { script } => "bash -c "@ + script,
        CommandModel::Executable { program, args } => program + " "@ + spec_join_spaces(args),
    }
}

/// The human-readable descriptor of a command, as it is logged and as it is
/// embedded in an execution error.
pub fn describe(c: &Command) -> (r: String)
    ensures
        r@ == spec_describe(c@),
{
    match c {
        Command::Sudo(args) => {
            let r = String::from_str("sudo ").concat(join_spaces(args).as_str());
            r
        },
        Command::Bash(script) => {
            let r = String::from_str("bash -c ").concat(script.as_str());
            r
        },
        Command::Executable(program, args) => {
            let joined = join_spaces(args);
            let r = program.clone().concat(" ").concat(joined.as_str());
            proof {
                assert((program@ + " "@) + joined@ =~= program@ + " "@ + joined@);
            }
            r
        },
    }
}

/// The fixed execution shape of a command: the program handed to the
/// transport and the argument list, exactly as the command states them.
pub open spec fn spec_execution_shape(c: CommandModel) -> (Seq<char>, Seq<Seq<char>>) {
    match c {
        CommandModel::Sudo { args } => ("sudo"@, args),
        CommandModel::Bash { script } => ("bash"@, seq!["-c"@, script]),
        CommandModel::Executable { program, args } => (program, args),
    }
}

/// Maps a command to the program and argument list actually executed.
///
/// A `Sudo` command runs through the fixed privilege-elevation prefix with
/// its arguments appended verbatim, whatever the argument list; a `Bash`
/// command runs the interpreter with the script text as the single argument
/// after `-c`; an `Executable` command runs as given.
pub fn execution_shape(c: Command) -> (r: (String, Vec<String>))
    ensures
        (r.0@, r.1.deep_view()) == spec_execution_shape(c@),
{
    match c {
        Command::Sudo(args) => (String::from_str("sudo"), args),
        Command::Bash(script) => {
            let ghost sv = script@;
            let mut args: Vec<String> = Vec::new();
            args.push(String::from_str("-c"));
            args.push(script);
            proof {
                assert(args.deep_view()[0] == args@[0]@);
                assert(args.deep_view()[1] == args@[1]@);
                assert(args.deep_view() =~= seq!["-c"@, sv]);
            }
            (String::from_str("bash"), args)
        },
        Command::Executable(program, args) => (program, args),
    }
}

/// What one execution of a command produced: whether the remote process
/// exited successfully, and the stderr it captured.
#[derive(Debug)]
pub struct CommandOutcome {
    pub succeeded: bool,
    pub stderr: String,
}

/// A remote command that ran and returned a non-zero exit: carries the
/// command's descriptor and the captured stderr.
#[derive(Debug)]
pub struct RemoteCommandExecuteError {
    command: String,
    stderr: String,
}

impl RemoteCommandExecuteError {
    /// The descriptor of the failing command.
    pub closed spec fn command_view(&self) -> Seq<char> {
        self.command@
    }

    /// The stderr the failing command captured.
    pub closed spec fn stderr_view(&self) -> Seq<char> {
        self.stderr@
    }

    pub fn new(command: String, stderr: String) -> (r: Self)
        ensures
            r.command_view() == command@,
            r.stderr_view() == stderr@,
    {
        RemoteCommandExecuteError { command, stderr }
    }

    /// The descriptor of the failing command, as a plain string slice.
    pub fn command_text(&self) -> (r: &str)
        ensures
            r@ == self.command_view(),
    {
        self.command.as_str()
    }

    /// The captured stderr, as a plain string slice.
    pub fn stderr_text(&self) -> (r: &str)
        ensures
            r@ == self.stderr_view(),
    {
        self.stderr.as_str()
    }

    /// The error rendered as one line: the descriptor, a separator, the stderr.
    pub fn message(&self) -> (r: String)
        ensures
            r@ == self.command_view() + ": "@ + self.stderr_view(),
    {
        let r = self.command.clone().concat(": ").concat(self.stderr.as_str());
        proof {
            assert((self.command@ + ": "@) + self.stderr@ =~= self.command@ + ": "@
                + self.stderr@);
        }
        r
    }
}

impl Clone for RemoteCommandExecuteError {
    fn clone(&self) -> (r: Self)
        ensures
            r == *self,
    {
        RemoteCommandExecuteError { command: self.command.clone(), stderr: self.stderr.clone() }
    }
}

/// Interprets what one execution produced: success is silent, and a
/// non-zero exit is reported as an execution error carrying the command's
/// descriptor and the captured stderr.
pub fn command_result(c: &Command, outcome: CommandOutcome) -> (r: Result<(), ProvisionError>)
    ensures
        outcome.succeeded ==> r is Ok,
        !outcome.succeeded ==> (r matches Err(e) && e matches ProvisionError::RemoteCommand(
            inner,
        ) && inner.command_view() == spec_describe(c@) && inner.stderr_view() == outcome.stderr@),
{
    if outcome.succeeded {
        Ok(())
    } else {
        Err(ProvisionError::RemoteCommand(RemoteCommandExecuteError::new(
            describe(c),
            outcome.stderr,
        )))
    }
}

/// One authenticated remote session, able to run one command at a time.
///
/// The session keeps a mathematical log of every command it was asked to
/// run, in order, and a fixed schedule saying which of its execution
/// attempts succeed; executing never reorders or drops entries, and a
/// failing attempt reports the descriptor of the command it ran.
pub trait RemoteCommandExecutor {
    /// Every command this session has executed, in order.
    spec fn log(&self) -> Seq<CommandModel>;

    /// Whether the session's `n`-th execution attempt succeeds.
    spec fn succeeds_at(&self, n: int) -> bool;

    /// Runs one command over the session.
    fn execute(&mut self, command: Command) -> (r: Result<(), ProvisionError>)
        ensures
            final(self).log() == old(self).log().push(command@),
            forall|n: int| #[trigger] final(self).succeeds_at(n) == old(self).succeeds_at(n),
            r is Ok <==> old(self).succeeds_at(old(self).log().len() as int),
            r matches Err(e) ==> (e matches ProvisionError::RemoteCommand(inner)
                ==> inner.command_view() == spec_describe(command@)),
    ;
}

} // verus!

verus! {

/// A scripted remote session: it records every command it is asked to run
/// and succeeds or fails according to a failure plan fixed at construction.
/// The provisioning engine runs against it wherever a real transport is
/// out of reach, and its recorded log is open to inspection.
pub struct ScriptedExecutor {
    executed: Vec<Command>,
    fail_on: Vec<usize>,
}

/// Whether a failure plan names attempt `n`.
pub open spec fn spec_plan_fails(plan: Seq<usize>, n: int) -> bool {
    exists|k: int| 0 <= k < plan.len() && plan[k] as int == n
}

/// Whether a failure plan names attempt `n`, decided by one pass.
pub(crate) fn plan_contains(plan: &Vec<usize>, n: usize) -> (r: bool)
    ensures
        r == spec_plan_fails(plan@, n as int),
{
    let mut found = false;
    let mut k: usize = 0;
    while k < plan.len()
        invariant
            k <= plan@.len(),
            found <==> spec_plan_fails(plan@.take(k as int), n as int),
        decreases plan@.len() - k,
    {
        if plan[k] == n {
            found = true;
        }
        proof {
            if found {
                if spec_plan_fails(plan@.take(k as int), n as int) {
                    let j = choose|j: int|
                        0 <= j < k && #[trigger] plan@.take(k as int)[j] as int == n as int;
                    assert(plan@.take(k + 1)[j] as int == n as int);
                } else {
                    assert(plan@.take(k + 1)[k as int] as int == n as int);
                }
                assert(spec_plan_fails(plan@.take(k + 1), n as int));
            }
            assert(plan@.take(k + 1).drop_last() =~= plan@.take(k as int));
            if spec_plan_fails(plan@.take(k + 1), n as int) && !found {
                let j = choose|j: int|
                    0 <= j < k + 1 && #[trigger] plan@.take(k + 1)[j] as int == n as int;
                assert(j == k);
            }
        }
        k = k + 1;
    }
    proof {
        assert(plan@.take(plan@.len() as int) =~= plan@);
    }
    found
}

impl ScriptedExecutor {
    /// Whether this session's failure plan names attempt `n`.
    pub closed spec fn spec_fails_at(&self, n: int) -> bool {
        spec_plan_fails(self.fail_on@, n)
    }

    /// A session that fails exactly the execution attempts whose indices
    /// appear in `fail_on`, counting from zero.
    pub fn new(fail_on: Vec<usize>) -> (r: Self)
        ensures
            r.log() == Seq::<CommandModel>::empty(),
            forall|n: int| #[trigger] r.succeeds_at(n) <==> !spec_plan_fails(fail_on@, n),
    {
        let r = ScriptedExecutor { executed: Vec::new(), fail_on };
        proof {
            assert(r.log() =~= Seq::<CommandModel>::empty());
        }
        r
    }

    /// The commands this session has run, in order.
    pub fn executed(&self) -> (r: &Vec<Command>)
        ensures
            r@.map_values(|c: Command| c@) == self.log(),
    {
        &self.executed
    }

    /// The commands this session has run, each paired with whether its
    /// attempt succeeded, consuming the session.
    pub fn into_record(self) -> (r: (Vec<Command>, Vec<bool>))
        ensures
            r.0@.map_values(|c: Command| c@) == self.log(),
            r.1@.len() == self.log().len(),
            forall|n: int| 0 <= n < r.1@.len() ==> r.1@[n] == self.succeeds_at(n),
    {
        let mut oks: Vec<bool> = Vec::new();
        let len = self.executed.len();
        let mut n: usize = 0;
        while n < len
            invariant
                len == self.executed@.len(),
                n <= len,
                oks@.len() == n,
                forall|m: int| 0 <= m < n ==> oks@[m] == self.succeeds_at(m),
            decreases len - n,
        {
            oks.push(!plan_contains(&self.fail_on, n));
            n = n + 1;
        }
        (self.executed, oks)
    }
}

impl RemoteCommandExecutor for ScriptedExecutor {
    closed spec fn log(&self) -> Seq<CommandModel> {
        self.executed@.map_values(|c: Command| c@)
    }

    closed spec fn succeeds_at(&self, n: int) -> bool {
        !self.spec_fails_at(n)
    }

    fn execute(&mut self, command: Command) -> (r: Result<(), ProvisionError>) {
        let idx = self.executed.len();
        let fails = plan_contains(&self.fail_on, idx);
        let descriptor = describe(&command);
        self.executed.push(command);
        proof {
            assert(self.executed@.map_values(|c: Command| c@) =~= old(
                self,
            ).executed@.map_values(|c: Command| c@).push(self.executed@.last()@));
        }
        if fails {
            Err(ProvisionError::RemoteCommand(RemoteCommandExecuteError::new(
                descriptor,
                String::new(),
            )))
        } else {
            Ok(())
        }
    }
}

} // verus!
