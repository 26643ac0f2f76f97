use codex_monitor::daemon::{parse_daemon_args, CliCommand};
use codex_monitor::launch::{installation_verdict, login_outcome, LoginRun, VersionProbe};

fn args(items: &[&str]) -> Vec<String> {
    items.iter().map(|s| s.to_string()).collect()
}

#[test]
fn cli_defaults_with_token_from_environment() {
    match parse_daemon_args(&args(&[]), Some("  envtok ")) {
        Ok(CliCommand::Run { listen, token, data_dir }) => {
            assert_eq!(listen, "127.0.0.1:4732");
            assert_eq!(token.as_deref(), Some("envtok"));
            assert_eq!(data_dir, None);
        }
        _ => panic!("expected a run"),
    }
}

#[test]
fn cli_reads_every_option() {
    let parsed = parse_daemon_args(
        &args(&["--listen", "0.0.0.0:9000", "--token", " t ", "--data-dir", " /srv/d "]),
        None,
    );
    match parsed {
        Ok(CliCommand::Run { listen, token, data_dir }) => {
            assert_eq!(listen, "0.0.0.0:9000");
            assert_eq!(token.as_deref(), Some("t"));
            assert_eq!(data_dir.as_deref(), Some("/srv/d"));
        }
        _ => panic!("expected a run"),
    }
}

#[test]
fn cli_help_and_errors() {
    assert!(matches!(parse_daemon_args(&args(&["-h"]), None), Ok(CliCommand::Help)));
    assert!(matches!(parse_daemon_args(&args(&["--help", "--bogus"]), None), Ok(CliCommand::Help)));
    assert_eq!(
        parse_daemon_args(&args(&["--bogus"]), None).err(),
        Some("Unknown argument: --bogus".to_string())
    );
    assert_eq!(
        parse_daemon_args(&args(&["--listen"]), None).err(),
        Some("--listen requires a value".to_string())
    );
    assert_eq!(
        parse_daemon_args(&args(&["--token", "  "]), None).err(),
        Some("--token requires a non-empty value".to_string())
    );
    assert_eq!(
        parse_daemon_args(&args(&[]), Some("   ")).err(),
        Some(
            "Missing --token (or set CODEX_MONITOR_DAEMON_TOKEN). Use --insecure-no-auth for local dev only."
                .to_string()
        )
    );
}

#[test]
fn cli_insecure_drops_the_token() {
    match parse_daemon_args(&args(&["--insecure-no-auth"]), Some("env")) {
        Ok(CliCommand::Run { token, .. }) => assert_eq!(token, None),
        _ => panic!("expected a run"),
    }
}

#[test]
fn version_check_verdicts() {
    assert_eq!(
        installation_verdict(VersionProbe::Exited {
            success: true,
            stdout: " codex 1.0 \n".to_string(),
            stderr: String::new(),
        }),
        Ok(Some("codex 1.0".to_string()))
    );
    assert_eq!(
        installation_verdict(VersionProbe::Exited {
            success: true,
            stdout: String::new(),
            stderr: String::new(),
        }),
        Ok(None)
    );
    assert_eq!(
        installation_verdict(VersionProbe::Exited {
            success: false,
            stdout: "out".to_string(),
            stderr: " bad flag ".to_string(),
        }),
        Err("Codex CLI failed to start: bad flag. Try running `codex --version` in Terminal.".to_string())
    );
    assert_eq!(
        installation_verdict(VersionProbe::Exited {
            success: false,
            stdout: String::new(),
            stderr: String::new(),
        }),
        Err("Codex CLI failed to start. Try running `codex --version` in Terminal.".to_string())
    );
    assert!(installation_verdict(VersionProbe::Missing).unwrap_err().contains("not found"));
    assert!(installation_verdict(VersionProbe::TimedOut).unwrap_err().starts_with("Timed out"));
    assert_eq!(
        installation_verdict(VersionProbe::SpawnFailed("denied".to_string())),
        Err("denied".to_string())
    );
}

#[test]
fn login_outcomes() {
    assert_eq!(login_outcome(LoginRun::TimedOut), Err("Codex login timed out.".to_string()));
    assert_eq!(login_outcome(LoginRun::Canceled), Err("Codex login canceled.".to_string()));
    assert_eq!(
        login_outcome(LoginRun::Finished {
            success: true,
            stdout: " visit https://x \n".to_string(),
            stderr: " done ".to_string(),
        }),
        Ok("visit https://x\ndone".to_string())
    );
    assert_eq!(
        login_outcome(LoginRun::Finished {
            success: false,
            stdout: "out".to_string(),
            stderr: String::new(),
        }),
        Err("Codex login failed: out".to_string())
    );
    assert_eq!(
        login_outcome(LoginRun::Finished {
            success: false,
            stdout: String::new(),
            stderr: "  ".to_string(),
        }),
        Err("Codex login failed.".to_string())
    );
    let long = "x".repeat(5000);
    let ok = login_outcome(LoginRun::Finished { success: true, stdout: long, stderr: String::new() });
    assert_eq!(ok.map(|o| o.len()), Ok(4000));
}
