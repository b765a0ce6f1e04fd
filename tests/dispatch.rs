use kubewatch::{CommandRunner, Config, DispatchError, Step};

fn config(command: &str) -> Config {
    Config {
        watch_dir: "/tmp".to_string(),
        command: command.to_string(),
        file_extensions: vec!["txt".to_string()],
        file_prefixes: vec![],
        debounce_time: None,
    }
}

#[test]
fn test_command_execution() {
    let file_path = "/tmp/dir/test.txt".to_string();
    let config = config("echo");
    let runner = CommandRunner::new(&config);
    let result = runner.execute_for_files(&vec![file_path.clone()], None);
    assert!(result.is_ok());
    match result.unwrap() {
        Step::Launch(inv) => {
            assert_eq!(inv.program, "echo");
            assert_eq!(inv.args, vec![file_path]);
        }
        other => panic!("unexpected step {:?}", other),
    }
}

#[test]
fn zero_paths_launch_nothing() {
    for command in ["echo", "", "kubectl apply -f"] {
        let config = config(command);
        let runner = CommandRunner::new(&config);
        assert!(matches!(runner.execute_for_files(&vec![], None), Ok(Step::Finished)));
        assert!(matches!(runner.execute_for_files(&vec![], Some(false)), Ok(Step::Finished)));
    }
}

#[test]
fn blank_command_is_an_error() {
    for command in ["", "   \t "] {
        let config = config(command);
        let runner = CommandRunner::new(&config);
        assert_eq!(
            runner.execute_for_files(&vec!["a.txt".to_string()], Some(true)).unwrap_err(),
            DispatchError::EmptyCommand
        );
    }
}

#[test]
fn command_words_come_before_the_paths() {
    let config = config("  tool  --flag   -x ");
    let runner = CommandRunner::new(&config);
    let files = vec!["/w/a.txt".to_string(), "/w/b.txt".to_string()];
    match runner.execute_for_files(&files, None).unwrap() {
        Step::Launch(inv) => {
            assert_eq!(inv.program, "tool");
            assert_eq!(inv.args, vec!["--flag", "-x", "/w/a.txt", "/w/b.txt"]);
        }
        other => panic!("unexpected step {:?}", other),
    }
}

#[test]
fn kubectl_is_checked_before_launch() {
    let config = config("kubectl apply -f");
    let runner = CommandRunner::new(&config);
    let files = vec!["/w/dev-a.yaml".to_string()];
    assert!(matches!(runner.execute_for_files(&files, None), Ok(Step::CheckKubectl)));
    assert_eq!(
        runner.execute_for_files(&files, Some(false)).unwrap_err(),
        DispatchError::KubectlMissing
    );
    match runner.execute_for_files(&files, Some(true)).unwrap() {
        Step::Launch(inv) => {
            assert_eq!(inv.program, "kubectl");
            assert_eq!(inv.args, vec!["apply", "-f", "/w/dev-a.yaml"]);
        }
        other => panic!("unexpected step {:?}", other),
    }
}

#[test]
fn success_carries_standard_output() {
    let out = CommandRunner::finish(true, &b"applied\n".to_vec(), &b"ignored".to_vec());
    assert_eq!(out, Ok("applied\n".to_string()));
}

#[test]
fn failure_carries_standard_error() {
    let out = CommandRunner::finish(false, &b"ignored".to_vec(), &b"boom \xff".to_vec());
    assert_eq!(out, Err(DispatchError::Failed("boom \u{FFFD}".to_string())));
}

#[test]
fn error_messages_carry_their_detail() {
    let e = DispatchError::Launch("No such file or directory (os error 2)".to_string());
    assert!(e.message().contains("No such file or directory (os error 2)"));
    assert_eq!(DispatchError::Failed("bad".to_string()).message(), "Command failed: bad");
    assert_eq!(DispatchError::EmptyCommand.message(), "Command is empty");
    assert_eq!(
        DispatchError::KubectlMissing.message(),
        "kubectl command not found. Please install kubectl first."
    );
}

#[test]
fn kubectl_later_in_the_command_is_not_checked() {
    let config = config("echo kubectl");
    let runner = CommandRunner::new(&config);
    let files = vec!["/w/dev-a.yaml".to_string()];
    for found in [None, Some(false)] {
        match runner.execute_for_files(&files, found).unwrap() {
            Step::Launch(inv) => {
                assert_eq!(inv.program, "echo");
                assert_eq!(inv.args, vec!["kubectl", "/w/dev-a.yaml"]);
            }
            other => panic!("unexpected step {:?}", other),
        }
    }
}

#[test]
fn kubectl_by_path_is_checked() {
    let config = config("/usr/local/bin/kubectl apply -f");
    let runner = CommandRunner::new(&config);
    let files = vec!["/w/dev-a.yaml".to_string()];
    assert!(matches!(runner.execute_for_files(&files, None), Ok(Step::CheckKubectl)));
    let other = kubewatch::Config { command: "kubectl-like apply".to_string(), ..config };
    let runner = CommandRunner::new(&other);
    assert!(matches!(runner.execute_for_files(&files, None), Ok(Step::Launch(_))));
}

#[test]
fn plan_takes_the_words_given() {
    let words = vec!["tool".to_string(), "-v".to_string()];
    let files = vec!["/w/a.txt".to_string()];
    match CommandRunner::plan_for_words(&words, &files, None).unwrap() {
        Step::Launch(inv) => {
            assert_eq!(inv.program, "tool");
            assert_eq!(inv.args, vec!["-v", "/w/a.txt"]);
        }
        other => panic!("unexpected step {:?}", other),
    }
    assert_eq!(
        CommandRunner::plan_for_words(&vec![], &files, None).unwrap_err(),
        DispatchError::EmptyCommand
    );
    assert!(matches!(
        CommandRunner::plan_for_words(&vec!["kubectl".to_string()], &files, None),
        Ok(Step::CheckKubectl)
    ));
}

#[test]
fn unicode_whitespace_separates_words() {
    let config = config("tool\u{3000}-a\u{a0}-b\n-c");
    let runner = CommandRunner::new(&config);
    match runner.execute_for_files(&vec!["f".to_string()], None).unwrap() {
        Step::Launch(inv) => {
            assert_eq!(inv.program, "tool");
            assert_eq!(inv.args, vec!["-a", "-b", "-c", "f"]);
        }
        other => panic!("unexpected step {:?}", other),
    }
}

#[test]
fn valid_output_is_kept_as_is() {
    let out = CommandRunner::finish(true, &"h\u{e9}llo".as_bytes().to_vec(), &vec![]);
    assert_eq!(out, Ok("h\u{e9}llo".to_string()));
}
