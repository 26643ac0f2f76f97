//! Helpers of the daemon's command line and of clients that talk to a daemon.
use vstd::prelude::*;
use crate::json::{nested_str, JsonValue};
use crate::text::{contains_seq, lower_seq, opt_view, owned, trim};

verus! {

/// The address the daemon listens on unless told otherwise.
pub const DEFAULT_LISTEN_ADDR: &'static str = "127.0.0.1:4732";

/// The daemon's usage text.
pub fn usage() -> (r: String)
    ensures
        r@ == "USAGE:\n  codex-monitor-daemon [--listen <addr>] [--data-dir <path>] [--token <token> | --insecure-no-auth]\n\nOPTIONS:\n  --listen <addr>        Bind address (default: 127.0.0.1:4732)\n  --data-dir <path>      Data dir holding workspaces.json/settings.json\n  --token <token>        Shared token required by clients\n  --insecure-no-auth      Disable auth (dev only)\n  -h, --help             Show this help\n"@,
{
    owned(
        "USAGE:\n  codex-monitor-daemon [--listen <addr>] [--data-dir <path>] [--token <token> | --insecure-no-auth]\n\nOPTIONS:\n  --listen <addr>        Bind address (default: 127.0.0.1:4732)\n  --data-dir <path>      Data dir holding workspaces.json/settings.json\n  --token <token>        Shared token required by clients\n  --insecure-no-auth      Disable auth (dev only)\n  -h, --help             Show this help\n",
    )
}

/// `value` without surrounding white space, or none when nothing is left.
pub fn trim_to_non_empty(value: Option<&str>) -> (r: Option<String>)
    ensures
        opt_view(r) == match value {
            Some(v) => if trim(v@).len() > 0 {
                Some(trim(v@))
            } else {
                None
            },
            None => None,
        },
{
    match value {
        Some(v) => {
            let t = crate::text::trimmed(v);
            if t.len() > 0 {
                Some(crate::text::string_of(&t))
            } else {
                None
            }
        },
        None => None,
    }
}

/// The message of a daemon's error reply: the string at `error.message`.
pub fn parse_daemon_error_message(response: &JsonValue) -> (r: Option<String>)
    ensures
        opt_view(r) == nested_str(*response, "error"@, "message"@),
{
    response.get_nested_str("error", "message")
}

/// Whether a daemon's error message says that the client failed to authenticate.
pub fn is_auth_error_message(message: &str) -> (r: bool)
    ensures
        r == (contains_seq(lower_seq(message@), "unauthorized"@) || contains_seq(
            lower_seq(message@),
            "invalid token"@,
        )),
{
    let lower = crate::text::lower_chars(&crate::text::chars_of(message));
    crate::text::contains_chars(&lower, &crate::text::chars_of("unauthorized"))
        || crate::text::contains_chars(&lower, &crate::text::chars_of("invalid token"))
}

/// What a client reports when no Tailscale command-line tool can be found.
pub fn missing_tailscale_message() -> (r: String)
    ensures
        r@ == "Tailscale CLI not found on PATH or standard install paths."@,
{
    owned("Tailscale CLI not found on PATH or standard install paths.")
}


/// What the daemon's command line asks for, as plain values.
pub enum CliView {
    Help,
    Run(Seq<char>, Option<Seq<char>>, Option<Seq<char>>),
    Fail(Seq<char>),
}

/// The outcome of reading the command line from argument `i` on, with the listen
/// address, token, insecure flag and data directory read so far.
pub open spec fn cli_from(
    args: Seq<Seq<char>>,
    i: int,
    listen: Seq<char>,
    token: Option<Seq<char>>,
    insecure: bool,
    data_dir: Option<Seq<char>>,
) -> CliView
    decreases args.len() - i,
{
    if i < 0 || i >= args.len() {
        if token is None && !insecure {
            CliView::Fail(
                "Missing --token (or set CODEX_MONITOR_DAEMON_TOKEN). Use --insecure-no-auth for local dev only."@,
            )
        } else {
            CliView::Run(listen, token, data_dir)
        }
    } else {
        let a = args[i];
        if a == "-h"@ || a == "--help"@ {
            CliView::Help
        } else if a == "--listen"@ {
            if i + 1 >= args.len() {
                CliView::Fail("--listen requires a value"@)
            } else {
                cli_from(args, i + 2, args[i + 1], token, insecure, data_dir)
            }
        } else if a == "--token"@ {
            if i + 1 >= args.len() {
                CliView::Fail("--token requires a value"@)
            } else if trim(args[i + 1]).len() == 0 {
                CliView::Fail("--token requires a non-empty value"@)
            } else {
                cli_from(args, i + 2, listen, Some(trim(args[i + 1])), insecure, data_dir)
            }
        } else if a == "--data-dir"@ {
            if i + 1 >= args.len() {
                CliView::Fail("--data-dir requires a value"@)
            } else if trim(args[i + 1]).len() == 0 {
                CliView::Fail("--data-dir requires a non-empty value"@)
            } else {
                cli_from(args, i + 2, listen, token, insecure, Some(trim(args[i + 1])))
            }
        } else if a == "--insecure-no-auth"@ {
            cli_from(args, i + 1, listen, None, true, data_dir)
        } else {
            CliView::Fail("Unknown argument: "@ + a)
        }
    }
}

/// What the daemon's command line asks for.
pub enum CliCommand {
    /// Print the usage text and exit.
    Help,
    /// Serve on `listen`, with `token` required of clients when set, keeping state
    /// in `data_dir` when set.
    Run { listen: String, token: Option<String>, data_dir: Option<String> },
}

/// The view of a command-line outcome.
pub open spec fn cli_view(r: Result<CliCommand, String>) -> CliView {
    match r {
        Ok(CliCommand::Help) => CliView::Help,
        Ok(CliCommand::Run { listen, token, data_dir }) => CliView::Run(
            listen@,
            opt_view(token),
            opt_view(data_dir),
        ),
        Err(e) => CliView::Fail(e@),
    }
}

/// Reads the daemon's arguments (without the program name). `env_token` is the
/// token from the environment, if any; a blank one counts as none.
pub fn parse_daemon_args(args: &Vec<String>, env_token: Option<&str>) -> (r: Result<
    CliCommand,
    String,
>)
    ensures
        cli_view(r) == cli_from(
            crate::assoc::strs_view(args@),
            0,
            DEFAULT_LISTEN_ADDR@,
            match env_token {
                Some(t) => if trim(t@).len() > 0 {
                    Some(trim(t@))
                } else {
                    None
                },
                None => None,
            },
            false,
            None,
        ),
{
    let ghost view = crate::assoc::strs_view(args@);
    let mut listen = owned(DEFAULT_LISTEN_ADDR);
    let mut token = trim_to_non_empty(env_token);
    let mut insecure = false;
    let mut data_dir: Option<String> = None;
    let mut i: usize = 0;
    while i < args.len()
        invariant
            i <= args.len(),
            view == crate::assoc::strs_view(args@),
            cli_from(view, i as int, listen@, opt_view(token), insecure, opt_view(data_dir))
                == cli_from(
                view,
                0,
                DEFAULT_LISTEN_ADDR@,
                match env_token {
                    Some(t) => if trim(t@).len() > 0 {
                        Some(trim(t@))
                    } else {
                        None
                    },
                    None => None,
                },
                false,
                None,
            ),
        decreases args.len() - i,
    {
        let a = &args[i];
        assert(view[i as int] == a@);
        if crate::text::str_is(a, "-h") || crate::text::str_is(a, "--help") {
            return Ok(CliCommand::Help);
        } else if crate::text::str_is(a, "--listen") {
            if i + 1 >= args.len() {
                return Err(owned("--listen requires a value"));
            }
            assert(view[i + 1] == args@[i + 1]@);
            listen = args[i + 1].clone();
            i += 2;
        } else if crate::text::str_is(a, "--token") {
            if i + 1 >= args.len() {
                return Err(owned("--token requires a value"));
            }
            assert(view[i + 1] == args@[i + 1]@);
            let t = crate::text::trimmed(&args[i + 1]);
            if t.len() == 0 {
                return Err(owned("--token requires a non-empty value"));
            }
            token = Some(crate::text::string_of(&t));
            i += 2;
        } else if crate::text::str_is(a, "--data-dir") {
            if i + 1 >= args.len() {
                return Err(owned("--data-dir requires a value"));
            }
            assert(view[i + 1] == args@[i + 1]@);
            let t = crate::text::trimmed(&args[i + 1]);
            if t.len() == 0 {
                return Err(owned("--data-dir requires a non-empty value"));
            }
            data_dir = Some(crate::text::string_of(&t));
            i += 2;
        } else if crate::text::str_is(a, "--insecure-no-auth") {
            insecure = true;
            token = None;
            i += 1;
        } else {
            let head = crate::text::chars_of("Unknown argument: ");
            return Err(crate::text::string_of(&crate::text::concat_chars(&head, &crate::text::chars_of(a))));
        }
    }
    if token.is_none() && !insecure {
        return Err(
            owned(
                "Missing --token (or set CODEX_MONITOR_DAEMON_TOKEN). Use --insecure-no-auth for local dev only.",
            ),
        );
    }
    Ok(CliCommand::Run { listen, token, data_dir })
}

/// The operating systems whose install locations differ.
#[derive(PartialEq, Eq, Structural, Clone, Copy, Debug)]
pub enum Platform {
    MacOs,
    Linux,
    Windows,
    Other,
}

/// Where the Tailscale command-line tool is looked for on `platform`, in order: the
/// bare name on the search path first, then the standard install locations.
pub open spec fn tailscale_candidates(platform: Platform) -> Seq<Seq<char>> {
    match platform {
        Platform::MacOs => seq![
            "tailscale"@,
            "/Applications/Tailscale.app/Contents/MacOS/Tailscale"@,
            "/opt/homebrew/bin/tailscale"@,
            "/usr/local/bin/tailscale"@,
        ],
        Platform::Linux => seq![
            "tailscale"@,
            "/usr/bin/tailscale"@,
            "/usr/sbin/tailscale"@,
            "/snap/bin/tailscale"@,
        ],
        Platform::Windows => seq![
            "tailscale"@,
            "C:\\Program Files\\Tailscale\\tailscale.exe"@,
            "C:\\Program Files (x86)\\Tailscale\\tailscale.exe"@,
        ],
        Platform::Other => seq!["tailscale"@],
    }
}

/// Where the Tailscale command-line tool is looked for (see `tailscale_candidates`).
pub fn tailscale_binary_candidates(platform: Platform) -> (r: Vec<String>)
    ensures
        crate::assoc::strs_view(r@) == tailscale_candidates(platform),
{
    let mut out: Vec<String> = Vec::new();
    out.push(owned("tailscale"));
    match platform {
        Platform::MacOs => {
            out.push(owned("/Applications/Tailscale.app/Contents/MacOS/Tailscale"));
            out.push(owned("/opt/homebrew/bin/tailscale"));
            out.push(owned("/usr/local/bin/tailscale"));
        },
        Platform::Linux => {
            out.push(owned("/usr/bin/tailscale"));
            out.push(owned("/usr/sbin/tailscale"));
            out.push(owned("/snap/bin/tailscale"));
        },
        Platform::Windows => {
            out.push(owned("C:\\Program Files\\Tailscale\\tailscale.exe"));
            out.push(owned("C:\\Program Files (x86)\\Tailscale\\tailscale.exe"));
        },
        Platform::Other => {},
    }
    assert(crate::assoc::strs_view(out@) =~= tailscale_candidates(platform));
    out
}

/// What a client reports when no Tailscale command-line tool can be found on
/// `platform`.
pub fn missing_tailscale_message_for(platform: Platform) -> (r: String)
    ensures
        r@ == if platform == Platform::MacOs {
            "Tailscale CLI not found on PATH or standard install paths (including /Applications/Tailscale.app/Contents/MacOS/Tailscale)."@
        } else {
            "Tailscale CLI not found on PATH or standard install paths."@
        },
{
    if platform == Platform::MacOs {
        owned(
            "Tailscale CLI not found on PATH or standard install paths (including /Applications/Tailscale.app/Contents/MacOS/Tailscale).",
        )
    } else {
        missing_tailscale_message()
    }
}
} // verus!
