use autograder::sandbox::{
    container_output, docker_run_args, image_id_from_build, scan_build_line, BuildError, CaseResult,
    CaseResultKind, Error, Sandbox,
};

fn lines(text: &[&str]) -> Vec<String> {
    text.iter().map(|l| l.to_string()).collect()
}

#[test]
fn build_line_announcing_an_image() {
    assert_eq!(
        scan_build_line(None, "Successfully built 0123abcdef99"),
        Some("0123abcdef99".to_string())
    );
    assert_eq!(
        scan_build_line(None, "Step 3/4 : Successfully built 5f5f (cached)"),
        Some("5f5f".to_string())
    );
    assert_eq!(
        scan_build_line(Some("old".to_string()), "Successfully built 5f5f"),
        Some("old".to_string())
    );
}

#[test]
fn build_line_without_announcement_keeps_what_was_found() {
    assert_eq!(scan_build_line(None, "Step 1/4 : FROM debian"), None);
    assert_eq!(scan_build_line(Some("ab12".to_string()), "Successfully built XYZ"), Some("ab12".to_string()));
}

#[test]
fn build_with_announcement_gives_its_image() {
    let out = lines(&["Step 1/2 : FROM debian", "Successfully built 1a2b3c", "done"]);
    assert_eq!(image_id_from_build(&out, true), Ok("1a2b3c".to_string()));
}

#[test]
fn first_announcement_wins() {
    let out = lines(&["step", "Successfully built aaaa", "Successfully built bbbb"]);
    assert_eq!(image_id_from_build(&out, true), Ok("aaaa".to_string()));
}

#[test]
fn build_without_announcement_is_fatal() {
    let out = lines(&["Step 1/2 : FROM debian", "Successfully tagged judge:latest"]);
    assert_eq!(image_id_from_build(&out, true), Err(BuildError::NoImageId));
    assert_eq!(image_id_from_build(&Vec::new(), true), Err(BuildError::NoImageId));
}

#[test]
fn failed_build_is_fatal() {
    let out = lines(&["Successfully built 1a2b3c"]);
    assert_eq!(image_id_from_build(&out, false), Err(BuildError::Failed));
}

#[test]
fn container_is_isolated() {
    assert_eq!(
        docker_run_args("abc123", "/tmp/run-1"),
        vec![
            "run",
            "--rm",
            "--memory=100m",
            "--network=none",
            "--mount",
            "type=bind,source=/tmp/run-1,destination=/input,readonly",
            "abc123",
        ]
    );
}

#[test]
fn container_output_on_success_and_failure() {
    assert_eq!(container_output(true, "exit status: 0", vec![1, 2, 3], ""), Ok(vec![1, 2, 3]));
    assert_eq!(
        container_output(false, "exit status: 125", vec![1], "no such image"),
        Err(Error::Internal(
            "while running docker: got bad status exit status: 125. stderr: no such image".to_string()
        ))
    );
}

#[test]
fn internal_error_message() {
    assert_eq!(
        Error::internal("creating temp dir", "permission denied"),
        Error::Internal("while creating temp dir: permission denied".to_string())
    );
}

#[test]
fn sandbox_keeps_image_and_versions() {
    let sandbox = Sandbox::from_parts("abc".to_string(), vec!["Python 3.11".to_string(), "gcc 12".to_string()]);
    assert_eq!(sandbox.image_id(), "abc");
    assert_eq!(sandbox.versions(), &["Python 3.11".to_string(), "gcc 12".to_string()]);
}

#[test]
fn case_labels() {
    let c = CaseResult { kind: CaseResultKind::Wrong, memory_usage: 1, time: 2 };
    assert_eq!(c.as_str(), "Wrong ❌");
    assert_eq!(CaseResultKind::Correct.as_str(), "Correct ✅");
    assert_eq!(CaseResultKind::TimeLimitExceeded.as_str(), "Timeout ⌛");
}
