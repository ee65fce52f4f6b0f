use kubeprovision::provision::{provisioning_script, ProvisionError, Provisioner};
use kubeprovision::remote_command::{describe, Command, ScriptedExecutor};

#[test]
fn script_has_twelve_ordered_steps() {
    let script = provisioning_script();
    assert_eq!(script.len(), 12);
    assert_eq!(
        script[0],
        Command::Sudo(vec!["swapoff".to_string(), "-a".to_string()])
    );
    assert_eq!(
        script[2],
        Command::Sudo(vec!["modprobe".to_string(), "overlay".to_string()])
    );
    assert_eq!(
        script[3],
        Command::Sudo(vec!["modprobe".to_string(), "br_netfilter".to_string()])
    );
    assert_eq!(
        script[5],
        Command::Sudo(vec!["sysctl".to_string(), "--system".to_string()])
    );
    assert_eq!(
        script[7],
        Command::Sudo(vec![
            "apt-get".to_string(),
            "install".to_string(),
            "containerd".to_string(),
            "--yes".to_string(),
        ])
    );
    assert_eq!(
        script[11],
        Command::Executable(
            "service".to_string(),
            vec!["containerd".to_string(), "status".to_string()],
        )
    );
    assert!(matches!(script[1], Command::Bash(_)));
    assert!(matches!(script[4], Command::Bash(_)));
    assert!(matches!(script[9], Command::Bash(_)));
}

#[test]
fn provision_runs_the_whole_script_in_order() {
    let mut runner = Provisioner::new(ScriptedExecutor::new(vec![]));
    runner.provision().unwrap();
    let executor = runner.into_executor();
    assert_eq!(executor.executed(), &provisioning_script());
}

#[test]
fn provision_fails_fast_at_the_failing_step() {
    // The third step (index 2) fails: steps 1..=3 run, nothing after.
    let mut runner = Provisioner::new(ScriptedExecutor::new(vec![2]));
    let err = runner.provision().unwrap_err();
    let executor = runner.into_executor();
    let script = provisioning_script();
    assert_eq!(executor.executed().len(), 3);
    assert_eq!(executor.executed().as_slice(), &script[..3]);
    match err {
        ProvisionError::RemoteCommand(e) => {
            assert_eq!(e.command_text(), describe(&script[2]).as_str());
        }
        ProvisionError::Ssh { .. } => panic!("expected a command failure"),
    }
}

#[test]
fn provision_failing_first_step_runs_only_it() {
    let mut runner = Provisioner::new(ScriptedExecutor::new(vec![0]));
    let err = runner.provision().unwrap_err();
    let executor = runner.into_executor();
    assert_eq!(executor.executed().len(), 1);
    assert_eq!(executor.executed()[0], provisioning_script()[0]);
    match err {
        ProvisionError::RemoteCommand(e) => {
            assert_eq!(e.command_text(), "sudo swapoff -a");
        }
        ProvisionError::Ssh { .. } => panic!("expected a command failure"),
    }
}

#[test]
fn provision_failing_last_step_runs_everything() {
    let mut runner = Provisioner::new(ScriptedExecutor::new(vec![11]));
    let err = runner.provision().unwrap_err();
    let executor = runner.into_executor();
    assert_eq!(executor.executed(), &provisioning_script());
    match err {
        ProvisionError::RemoteCommand(e) => {
            assert_eq!(e.command_text(), "service containerd status");
        }
        ProvisionError::Ssh { .. } => panic!("expected a command failure"),
    }
}
