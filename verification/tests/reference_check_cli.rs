use flexpart_gpu::cli::{parse_cli_args, CliCommand, CliError, VerifyOptions};

fn args(values: &[&str]) -> Vec<String> {
    values.iter().map(|v| v.to_string()).collect()
}

#[test]
fn test_parse_cli_args_requires_command() {
    assert!(parse_cli_args(Vec::<String>::new()).is_err());
}

#[test]
fn test_parse_cli_args_show() {
    let parsed = parse_cli_args(vec!["show".to_string()]).expect("show should parse");
    assert_eq!(parsed, CliCommand::Show);
}

#[test]
fn test_parse_cli_args_verify_with_checkout() {
    let parsed = parse_cli_args(vec![
        "verify".to_string(),
        "--checkout".to_string(),
        "../flexpart".to_string(),
    ])
    .expect("verify should parse");
    assert_eq!(
        parsed,
        CliCommand::Verify(VerifyOptions { checkout: "../flexpart".to_string(), manifest: None })
    );
}

#[test]
fn test_parse_cli_args_verify_requires_checkout() {
    assert!(parse_cli_args(vec!["verify".to_string()]).is_err());
}

#[test]
fn test_parse_cli_args_rejects_unknown_command() {
    assert!(parse_cli_args(vec!["build".to_string()]).is_err());
}

#[test]
fn help_flag_anywhere_wins() {
    assert_eq!(parse_cli_args(args(&["verify", "--bogus", "-h"])), Ok(CliCommand::Help));
    assert_eq!(parse_cli_args(args(&["--help"])), Ok(CliCommand::Help));
}

#[test]
fn equals_forms_and_later_values_are_used() {
    assert_eq!(
        parse_cli_args(args(&[
            "verify",
            "--checkout=a",
            "--manifest",
            "m.json",
            "--checkout",
            "b"
        ])),
        Ok(CliCommand::Verify(VerifyOptions {
            checkout: "b".to_string(),
            manifest: Some("m.json".to_string())
        }))
    );
    assert_eq!(
        parse_cli_args(args(&["verify", "--manifest=x=y", "--checkout=dir"])),
        Ok(CliCommand::Verify(VerifyOptions {
            checkout: "dir".to_string(),
            manifest: Some("x=y".to_string())
        }))
    );
}

#[test]
fn each_error_is_reported() {
    assert_eq!(parse_cli_args(args(&[])), Err(CliError::MissingCommand));
    assert_eq!(
        parse_cli_args(args(&["verify", "--checkout"])),
        Err(CliError::MissingValue("--checkout".to_string()))
    );
    assert_eq!(
        parse_cli_args(args(&["verify", "--checkout", "d", "--manifest"])),
        Err(CliError::MissingValue("--manifest".to_string()))
    );
    assert_eq!(
        parse_cli_args(args(&["verify", "--force"])),
        Err(CliError::UnknownArgument("--force".to_string()))
    );
    assert_eq!(parse_cli_args(args(&["verify"])), Err(CliError::MissingCheckout));
    assert_eq!(
        parse_cli_args(args(&["build"])),
        Err(CliError::UnknownCommand("build".to_string()))
    );
    assert_eq!(
        CliError::UnknownArgument("--force".to_string()).to_message(),
        "unknown argument: --force"
    );
    assert_eq!(
        CliError::MissingCommand.to_message(),
        "missing command (expected `verify` or `show`)"
    );
}
