use cloudmapper::cli::{classify_error, elapsed, format_cli_error, render_line};

#[test]
fn renders_short_plain_progress_line() {
    let line = render_line(
        ">",
        "aws",
        "discovering AWS resources",
        "1.2s".to_string(),
        false,
    );

    assert_eq!(line, "> aws: discovering AWS resources 1.2s");
    assert!(!line.contains("cloudmapper ingest"));
    assert!(!line.contains("map.db"));
}

#[test]
fn formats_expired_aws_credentials_as_actionable_error() {
    let chain = vec![
        "calling sts:GetCallerIdentity".to_string(),
        "failed to refresh cached Login token: Your session has expired.".to_string(),
        "AccessDeniedException: The refresh token has expired.".to_string(),
    ];

    let formatted = format_cli_error(&chain);

    assert!(formatted.contains("cloudmapper error: AWS credentials are expired"));
    assert!(formatted.contains("context: calling sts:GetCallerIdentity"));
    assert!(formatted.contains("aws sso login"));
    assert!(!formatted.contains("Caused by:"));
}

#[test]
fn formats_generic_errors_with_context_and_details() {
    let chain = vec![
        "reading Terraform state terraform.tfstate".to_string(),
        "missing file".to_string(),
    ];

    let formatted = format_cli_error(&chain);

    assert!(formatted.contains("cloudmapper error: command failed"));
    assert!(formatted.contains("context: reading Terraform state terraform.tfstate"));
    assert!(formatted.contains("details:"));
}

#[test]
fn renders_colored_progress_line() {
    let line = render_line("*", "k8s", "listing pods", "3.0s".to_string(), true);
    assert_eq!(
        line,
        "\x1b[36m*\x1b[0m \x1b[1mk8s\x1b[0m: \x1b[2mlisting pods\x1b[0m \x1b[2m3.0s\x1b[0m"
    );
}

#[test]
fn elapsed_uses_tenths_below_a_minute() {
    assert_eq!(elapsed(1, 234), "1.2s");
    assert_eq!(elapsed(0, 99), "0.0s");
}

#[test]
fn elapsed_uses_minutes_from_a_minute_on() {
    assert_eq!(elapsed(65, 900), "1m05s");
    assert_eq!(elapsed(600, 0), "10m00s");
}

#[test]
fn classifies_expired_credentials() {
    let class = classify_error("The refresh token has expired.");
    assert_eq!(class.summary, "AWS credentials are expired");
}
