//! How an agent process is started: which binary, and the search path it gets.
use vstd::prelude::*;
use crate::assoc::{strs_add, strs_view};
use crate::text::{owned, trim};

verus! {

/// `paths` followed by each of `extras` that is not already present, in order.
pub open spec fn merged_paths(paths: Seq<Seq<char>>, extras: Seq<Seq<char>>) -> Seq<Seq<char>>
    decreases extras.len(),
{
    if extras.len() == 0 {
        paths
    } else {
        let before = merged_paths(paths, extras.drop_last());
        if before.contains(extras.last()) {
            before
        } else {
            before.push(extras.last())
        }
    }
}

/// The search path of an agent: the inherited entries, then each extra entry that
/// is not already there.
pub fn merge_search_paths(paths: Vec<String>, extras: &Vec<String>) -> (r: Vec<String>)
    ensures
        strs_view(r@) == merged_paths(strs_view(paths@), strs_view(extras@)),
{
    let mut out = paths;
    let ghost start = strs_view(out@);
    let mut i: usize = 0;
    assert(strs_view(extras@.take(0)) =~= Seq::<Seq<char>>::empty());
    while i < extras.len()
        invariant
            i <= extras.len(),
            strs_view(out@) == merged_paths(start, strs_view(extras@.take(i as int))),
        decreases extras.len() - i,
    {
        assert(strs_view(extras@.take(i + 1)).drop_last() =~= strs_view(extras@.take(i as int)));
        assert(strs_view(extras@.take(i + 1)).last() == extras@[i as int]@);
        strs_add(&mut out, extras[i].clone());
        i += 1;
    }
    assert(extras@.take(extras.len() as int) == extras@);
    out
}

/// The agent binary: the configured one without surrounding white space, or
/// `codex` when none is configured or it is blank.
pub fn agent_binary(configured: Option<&str>) -> (r: String)
    ensures
        r@ == match configured {
            Some(c) => if trim(c@).len() > 0 {
                trim(c@)
            } else {
                "codex"@
            },
            None => "codex"@,
        },
{
    match configured {
        Some(c) => {
            let t = crate::text::trimmed(c);
            if t.len() > 0 {
                crate::text::string_of(&t)
            } else {
                owned("codex")
            }
        },
        None => owned("codex"),
    }
}


/// What running `<agent> --version` gave.
pub enum VersionProbe {
    /// No such program.
    Missing,
    /// Starting it failed otherwise, with this error.
    SpawnFailed(String),
    /// It did not finish in time.
    TimedOut,
    /// It ran, and exited with success or not, printing `stdout` and `stderr`.
    Exited { success: bool, stdout: String, stderr: String },
}

/// The verdict on a version check: the version when the agent ran (none when it
/// printed nothing), else why it cannot be used.
pub open spec fn verdict(probe: VersionProbe) -> Result<Option<Seq<char>>, Seq<char>> {
    match probe {
        VersionProbe::Missing => Err(
            "Codex CLI not found. Install Codex and ensure `codex` is on your PATH."@,
        ),
        VersionProbe::SpawnFailed(e) => Err(e@),
        VersionProbe::TimedOut => Err(
            "Timed out while checking Codex CLI. Make sure `codex --version` runs in Terminal."@,
        ),
        VersionProbe::Exited { success, stdout, stderr } => if success {
            if trim(stdout@).len() == 0 {
                Ok(None)
            } else {
                Ok(Some(trim(stdout@)))
            }
        } else {
            let detail = if trim(stderr@).len() == 0 {
                trim(stdout@)
            } else {
                trim(stderr@)
            };
            if detail.len() == 0 {
                Err("Codex CLI failed to start. Try running `codex --version` in Terminal."@)
            } else {
                Err("Codex CLI failed to start: "@ + detail
                    + ". Try running `codex --version` in Terminal."@)
            }
        },
    }
}

/// Decides a version check (see `verdict`).
pub fn installation_verdict(probe: VersionProbe) -> (r: Result<Option<String>, String>)
    ensures
        match r {
            Ok(v) => verdict(probe) == Ok::<Option<Seq<char>>, Seq<char>>(crate::text::opt_view(v)),
            Err(e) => verdict(probe) == Err::<Option<Seq<char>>, Seq<char>>(e@),
        },
{
    match probe {
        VersionProbe::Missing => Err(
            owned("Codex CLI not found. Install Codex and ensure `codex` is on your PATH."),
        ),
        VersionProbe::SpawnFailed(e) => Err(e),
        VersionProbe::TimedOut => Err(
            owned(
                "Timed out while checking Codex CLI. Make sure `codex --version` runs in Terminal.",
            ),
        ),
        VersionProbe::Exited { success, stdout, stderr } => {
            let out = crate::text::trimmed(&stdout);
            if success {
                if out.len() == 0 {
                    Ok(None)
                } else {
                    Ok(Some(crate::text::string_of(&out)))
                }
            } else {
                let err = crate::text::trimmed(&stderr);
                let detail = if err.len() == 0 {
                    out
                } else {
                    err
                };
                if detail.len() == 0 {
                    Err(owned("Codex CLI failed to start. Try running `codex --version` in Terminal."))
                } else {
                    let head = crate::text::concat_chars(
                        &crate::text::chars_of("Codex CLI failed to start: "),
                        &detail,
                    );
                    let tail = crate::text::chars_of(". Try running `codex --version` in Terminal.");
                    Err(crate::text::string_of(&crate::text::concat_chars(&head, &tail)))
                }
            }
        },
    }
}

/// How a `login` run of the agent ended.
pub enum LoginRun {
    /// It did not finish in time and was stopped.
    TimedOut,
    /// The client canceled it.
    Canceled,
    /// It exited, with success or not, printing `stdout` and `stderr`.
    Finished { success: bool, stdout: String, stderr: String },
}

/// The most characters of login output handed back.
pub open spec fn login_output_limit() -> nat {
    4000
}

/// What a login run that ended as `run` answers: its trimmed output (both streams,
/// a line apart, at most 4000 characters) on success, else why it failed.
pub open spec fn login_result(run: LoginRun) -> Result<Seq<char>, Seq<char>> {
    match run {
        LoginRun::TimedOut => Err("Codex login timed out."@),
        LoginRun::Canceled => Err("Codex login canceled."@),
        LoginRun::Finished { success, stdout, stderr } => {
            let out = trim(stdout@);
            let err = trim(stderr@);
            if !success {
                let detail = if err.len() == 0 {
                    out
                } else {
                    err
                };
                if detail.len() == 0 {
                    Err("Codex login failed."@)
                } else {
                    Err("Codex login failed: "@ + detail)
                }
            } else {
                let combined = if out.len() == 0 {
                    err
                } else if err.len() == 0 {
                    out
                } else {
                    out + "\n"@ + err
                };
                Ok(
                    if combined.len() > login_output_limit() {
                        combined.take(login_output_limit() as int)
                    } else {
                        combined
                    },
                )
            }
        },
    }
}

/// Decides what a login run answers (see `login_result`).
pub fn login_outcome(run: LoginRun) -> (r: Result<String, String>)
    ensures
        match r {
            Ok(o) => login_result(run) == Ok::<Seq<char>, Seq<char>>(o@),
            Err(e) => login_result(run) == Err::<Seq<char>, Seq<char>>(e@),
        },
{
    match run {
        LoginRun::TimedOut => Err(owned("Codex login timed out.")),
        LoginRun::Canceled => Err(owned("Codex login canceled.")),
        LoginRun::Finished { success, stdout, stderr } => {
            let out = crate::text::trimmed(&stdout);
            let err = crate::text::trimmed(&stderr);
            if !success {
                let detail = if err.len() == 0 {
                    out
                } else {
                    err
                };
                if detail.len() == 0 {
                    Err(owned("Codex login failed."))
                } else {
                    Err(
                        crate::text::string_of(
                            &crate::text::concat_chars(
                                &crate::text::chars_of("Codex login failed: "),
                                &detail,
                            ),
                        ),
                    )
                }
            } else {
                let combined = if out.len() == 0 {
                    err
                } else if err.len() == 0 {
                    out
                } else {
                    let head = crate::text::concat_chars(&out, &crate::text::chars_of("\n"));
                    crate::text::concat_chars(&head, &err)
                };
                let limited = if combined.len() > 4000 {
                    crate::text::slice_chars(&combined, 0, 4000)
                } else {
                    combined
                };
                Ok(crate::text::string_of(&limited))
            }
        },
    }
}
} // verus!
