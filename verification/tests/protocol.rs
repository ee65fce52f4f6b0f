use kubeprovision::provision::ProvisionError;
use kubeprovision::remote_command::{
    command_result, describe, execution_shape, Command, CommandOutcome, RemoteCommandExecuteError,
};

fn sudo(args: &[&str]) -> Command {
    Command::Sudo(args.iter().map(|a| a.to_string()).collect())
}

#[test]
fn privileged_command_keeps_its_arguments_verbatim() {
    let (program, args) = execution_shape(sudo(&["swapoff", "-a"]));
    assert_eq!(program, "sudo");
    assert_eq!(args, vec!["swapoff".to_string(), "-a".to_string()]);

    let (program, args) = execution_shape(sudo(&["apt-get", "install", "containerd", "--yes"]));
    assert_eq!(program, "sudo");
    assert_eq!(
        args,
        vec![
            "apt-get".to_string(),
            "install".to_string(),
            "containerd".to_string(),
            "--yes".to_string(),
        ]
    );
}

#[test]
fn shell_command_runs_through_the_interpreter() {
    let (program, args) = execution_shape(Command::Bash("echo hi | wc -c".to_string()));
    assert_eq!(program, "bash");
    assert_eq!(args, vec!["-c".to_string(), "echo hi | wc -c".to_string()]);
}

#[test]
fn named_command_runs_directly() {
    let (program, args) = execution_shape(Command::Executable(
        "service".to_string(),
        vec!["containerd".to_string(), "status".to_string()],
    ));
    assert_eq!(program, "service");
    assert_eq!(args, vec!["containerd".to_string(), "status".to_string()]);
}

#[test]
fn descriptors_name_the_command() {
    assert_eq!(describe(&sudo(&["apt-get", "update"])), "sudo apt-get update");
    assert_eq!(
        describe(&Command::Bash("echo hi".to_string())),
        "bash -c echo hi"
    );
    assert_eq!(
        describe(&Command::Executable(
            "service".to_string(),
            vec!["containerd".to_string(), "status".to_string()],
        )),
        "service containerd status"
    );
    assert_eq!(describe(&Command::Sudo(vec![])), "sudo ");
    assert_eq!(describe(&sudo(&["reboot"])), "sudo reboot");
}

#[test]
fn successful_outcome_is_silent() {
    let outcome = CommandOutcome {
        succeeded: true,
        stderr: String::new(),
    };
    assert!(command_result(&sudo(&["swapoff", "-a"]), outcome).is_ok());
}

#[test]
fn failed_outcome_carries_descriptor_and_stderr() {
    let outcome = CommandOutcome {
        succeeded: false,
        stderr: "swapoff: failed".to_string(),
    };
    let err = command_result(&sudo(&["swapoff", "-a"]), outcome).unwrap_err();
    match err {
        ProvisionError::RemoteCommand(e) => {
            assert_eq!(e.command_text(), "sudo swapoff -a");
            assert_eq!(e.stderr_text(), "swapoff: failed");
            assert_eq!(e.message(), "sudo swapoff -a: swapoff: failed");
        }
        ProvisionError::Ssh { .. } => panic!("expected a command failure"),
    }
}

#[test]
fn execute_error_formats_command_and_stderr() {
    let e = RemoteCommandExecuteError::new("sudo sysctl --system".to_string(), "denied".to_string());
    assert_eq!(e.message(), "sudo sysctl --system: denied");
}

#[test]
fn ssh_error_carries_its_message() {
    let e = ProvisionError::ssh("connection refused".to_string());
    assert_eq!(e.message(), "ssh error: connection refused");
    let c = e.clone();
    assert_eq!(c.message(), "ssh error: connection refused");
}

#[test]
fn duplicate_preserves_a_command() {
    let c = Command::Executable(
        "service".to_string(),
        vec!["containerd".to_string(), "status".to_string()],
    );
    assert_eq!(c.duplicate(), c);
    let b = Command::Bash("echo hi".to_string());
    assert_eq!(b.duplicate(), b);
    let s = sudo(&["modprobe", "overlay"]);
    assert_eq!(s.duplicate(), s);
}
