use devshell::shell::{command_output, finish_command, join_output, Session, ShellError, Step};

fn session_at(dir: &str) -> Session {
    Session::new(dir.to_string())
}

fn check_dir(target: &str, path: &str) -> Step {
    Step::CheckDir { target: target.to_string(), path: path.to_string() }
}

#[test]
fn empty_line_answers_nothing() {
    let s = session_at("/home/u");
    assert_eq!(s.plan_with_home("", None), Step::Reply(String::new()));
    assert_eq!(s.plan_with_home(" \t \n", None), Step::Reply(String::new()));
    assert_eq!(s.plan(""), Step::Reply(String::new()));
}

#[test]
fn other_lines_are_delegated_verbatim() {
    let s = session_at("/home/u");
    assert_eq!(
        s.plan_with_home("  ls   -la ", None),
        Step::Delegate { line: "  ls   -la ".to_string(), dir: "/home/u".to_string() }
    );
    assert_eq!(
        s.plan("echo cd"),
        Step::Delegate { line: "echo cd".to_string(), dir: "/home/u".to_string() }
    );
    assert_eq!(
        s.plan("cdx foo"),
        Step::Delegate { line: "cdx foo".to_string(), dir: "/home/u".to_string() }
    );
}

#[test]
fn bare_cd_goes_home() {
    let s = session_at("/tmp");
    assert_eq!(s.plan_with_home("cd", Some("/home/u".to_string())), check_dir("", "/home/u"));
    assert_eq!(s.plan_with_home("  cd  ", Some("/home/u".to_string())), check_dir("", "/home/u"));
}

#[test]
fn bare_cd_without_home_fails() {
    let s = session_at("/tmp");
    let step = s.plan_with_home("cd", None);
    assert_eq!(step, Step::Fail(ShellError::NoSuchDirectory(String::new())));
    assert_eq!(s.cwd(), "/tmp");
}

#[test]
fn cd_relative_joins_onto_cwd() {
    let s = session_at("/home/u");
    assert_eq!(s.plan_with_home("cd src", None), check_dir("src", "/home/u/src"));
    assert_eq!(s.plan_with_home("cd a/b c", None), check_dir("a/b", "/home/u/a/b"));
    let t = session_at("/home/u/");
    assert_eq!(t.plan_with_home("cd src", None), check_dir("src", "/home/u/src"));
}

#[test]
fn cd_absolute_replaces_cwd() {
    let s = session_at("/home/u");
    assert_eq!(s.plan_with_home("cd /etc", None), check_dir("/etc", "/etc"));
}

#[test]
fn cd_up_goes_to_parent() {
    let s = session_at("/home/u");
    assert_eq!(s.plan_with_home("cd ..", None), check_dir("..", "/home"));
    let t = session_at("/home");
    assert_eq!(t.plan_with_home("cd ..", None), check_dir("..", "/"));
}

#[test]
fn cd_up_at_root_stays() {
    let mut s = session_at("/");
    let step = s.plan_with_home("cd ..", None);
    assert_eq!(step, check_dir("..", "/"));
    assert_eq!(s.finish_cd("..", "/", true), Ok("/".to_string()));
    assert_eq!(s.cwd(), "/");
    assert_eq!(s.plan_with_home("cd ..", None), check_dir("..", "/"));
}

#[test]
fn cd_then_pwd_runs_in_new_directory() {
    let mut s = session_at("/home/u");
    let step = s.plan_with_home("cd /var/log", None);
    assert_eq!(step, check_dir("/var/log", "/var/log"));
    assert_eq!(s.finish_cd("/var/log", "/var/log", true), Ok("/var/log".to_string()));
    assert_eq!(s.cwd(), "/var/log");
    assert_eq!(
        s.plan_with_home("pwd", None),
        Step::Delegate { line: "pwd".to_string(), dir: "/var/log".to_string() }
    );
}

#[test]
fn failed_cd_keeps_cwd() {
    let mut s = session_at("/home/u");
    let step = s.plan_with_home("cd /nonexistent123", None);
    assert_eq!(step, check_dir("/nonexistent123", "/nonexistent123"));
    let r = s.finish_cd("/nonexistent123", "/nonexistent123", false);
    assert_eq!(r, Err(ShellError::NoSuchDirectory("/nonexistent123".to_string())));
    assert_eq!(r.unwrap_err().message(), "cd: no such directory: /nonexistent123");
    assert_eq!(s.cwd(), "/home/u");
    assert_eq!(
        s.plan_with_home("pwd", None),
        Step::Delegate { line: "pwd".to_string(), dir: "/home/u".to_string() }
    );
}

#[test]
fn output_is_stdout_then_stderr_trimmed() {
    assert_eq!(join_output("  hello\n", "warning\n\n"), "hello\nwarning");
    assert_eq!(join_output("", ""), "");
    assert_eq!(join_output(" \u{3000}x\u{a0}", ""), "x");
}

#[test]
fn captured_bytes_are_decoded() {
    let out = b"  one\ntwo\n".to_vec();
    let err = b"oops\n".to_vec();
    assert_eq!(command_output(&out, &err), "one\ntwo\noops");
    let bad = vec![b'a', 0xff, b'b'];
    assert_eq!(command_output(&bad, &Vec::new()), "a\u{fffd}b");
}

#[test]
fn launched_command_answers_regardless_of_status() {
    let r = finish_command(Ok((b"out\n".to_vec(), b"err: failed\n".to_vec())));
    assert_eq!(r, Ok("out\nerr: failed".to_string()));
}

#[test]
fn launch_failure_is_reported_verbatim() {
    let r = finish_command(Err("No such file or directory (os error 2)".to_string()));
    assert_eq!(r, Err(ShellError::Launch("No such file or directory (os error 2)".to_string())));
    assert_eq!(r.unwrap_err().message(), "No such file or directory (os error 2)");
}
