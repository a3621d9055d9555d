use buckos_update::report::short;
use buckos_update::{CheckResult, Ostree, Reply, Request, Step, UpdateConfig, UpdateError};

fn config() -> UpdateConfig {
    UpdateConfig::default(None)
}

fn tracking(branch: &str) -> UpdateConfig {
    UpdateConfig {
        branch: Some(branch.to_string()),
        ..config()
    }
}

fn insecure(cfg: UpdateConfig) -> UpdateConfig {
    UpdateConfig {
        allow_insecure: true,
        ..cfg
    }
}

fn text(t: &str) -> Reply {
    Reply::Text { text: t.to_string() }
}

fn unreadable() -> Reply {
    Reply::Failed {
        error: "No such file or directory (os error 2)".to_string(),
    }
}

fn out(stdout: &str) -> Reply {
    Reply::exited(true, "exit status: 0".to_string(), stdout.as_bytes(), b"")
}

fn failing(stderr: &str) -> Reply {
    Reply::exited(false, "exit status: 1".to_string(), b"", stderr.as_bytes())
}

fn verifying() -> Reply {
    text("[remote \"buckos\"]\nurl=https://x\nsign-verify=true\n")
}

fn read(path: &str) -> Request {
    Request::ReadFile {
        path: path.to_string(),
    }
}

fn words(args: &[&str]) -> Vec<String> {
    args.iter().map(|s| s.to_string()).collect()
}

fn capture(args: &[&str]) -> Request {
    Request::Capture {
        program: "ostree".to_string(),
        args: words(args),
    }
}

fn inherit(args: &[&str]) -> Request {
    Request::Inherit {
        program: "ostree".to_string(),
        args: words(args),
    }
}

fn status_text() -> String {
    format!(
        "* buckos {}.0\n    origin refspec: buckos:stable\n  buckos {}.0\n",
        "1".repeat(64),
        "2".repeat(64)
    )
}

#[test]
fn default_configuration() {
    let c = config();
    assert_eq!(c.sysroot, "/");
    assert_eq!(c.os, "buckos");
    assert_eq!(c.remote, "buckos");
    assert_eq!(c.branch, None);
    assert_eq!(c.ostree_bin, "ostree");
    assert!(!c.allow_insecure);
    let c = UpdateConfig::default(Some("/opt/ostree".to_string()));
    assert_eq!(c.ostree_bin, "/opt/ostree");
    let c = c.with_ostree(None);
    assert_eq!(c.ostree_bin, "/opt/ostree");
    assert_eq!(c.with_ostree(Some("mine".to_string())).ostree_bin, "mine");
}

#[test]
fn status_and_cleanup_run_one_command() {
    let o = Ostree::new(UpdateConfig {
        sysroot: "/mnt".to_string(),
        ..config()
    });
    assert_eq!(
        o.status(&[]),
        Step::Ask(inherit(&["admin", "status", "--sysroot=/mnt"]))
    );
    assert_eq!(o.status(&[out("")]), Step::Done(Ok(())));
    assert_eq!(
        o.cleanup(&[]),
        Step::Ask(inherit(&["admin", "cleanup", "--sysroot=/mnt"]))
    );
    match o.cleanup(&[failing("busy")]) {
        Step::Done(Err(e)) => {
            assert_eq!(
                e.message(),
                "ostree admin cleanup --sysroot=/mnt failed (exit status: 1)"
            );
            assert_eq!(e.cause(), None);
        }
        other => panic!("{:?}", other),
    }
}

#[test]
fn trust_reads_both_files_and_fails_closed() {
    let o = Ostree::new(config());
    assert_eq!(o.ensure_trusted(&[]), Step::Ask(read("/ostree/repo/config")));
    assert_eq!(o.ensure_trusted(&[verifying()]), Step::Done(Ok(())));
    assert_eq!(
        o.ensure_trusted(&[text("[core]\n")]),
        Step::Ask(read("/etc/ostree/remotes.d/buckos.conf"))
    );
    assert_eq!(
        o.ensure_trusted(&[unreadable(), verifying()]),
        Step::Done(Ok(()))
    );
    assert_eq!(
        o.ensure_trusted(&[unreadable(), unreadable()]),
        Step::Done(Err(refused("buckos")))
    );
    for replies in [
        vec![unreadable(), unreadable(), out("")],
        vec![text("[remote \"other\"]\nsign-verify=true\n"), text("x")],
        vec![out("[remote \"buckos\"]\nsign-verify=true\n"), unreadable()],
    ] {
        let m = "remote 'buckos' is not configured to verify signatures (sign-verify); refusing to pull/deploy unverified content (SPEC-007). Re-run with --insecure to override (not recommended).";
        match o.check(&replies) {
            Step::Done(Err(e)) => assert_eq!(e.message(), m),
            other => panic!("{:?}", other),
        }
        match o.pull(&replies) {
            Step::Done(Err(e)) => assert_eq!(e.message(), m),
            other => panic!("{:?}", other),
        }
        match o.deploy(true, &replies) {
            Step::Done(Err(e)) => assert_eq!(e.message(), m),
            other => panic!("{:?}", other),
        }
    }
}

#[test]
fn insecure_skips_the_files() {
    let o = Ostree::new(insecure(tracking("stable")));
    assert_eq!(o.ensure_trusted(&[]), Step::Done(Ok(())));
    assert_eq!(
        o.pull(&[]),
        Step::Ask(inherit(&["--repo=/ostree/repo", "pull", "buckos", "stable"]))
    );
}

#[test]
fn a_remote_name_stays_below_the_directory() {
    let o = Ostree::new(UpdateConfig {
        remote: "/x".to_string(),
        ..config()
    });
    assert_eq!(
        o.ensure_trusted(&[unreadable()]),
        Step::Ask(read("/etc/ostree/remotes.d//x.conf"))
    );
}

#[test]
fn check_goes_through_its_steps() {
    let o = Ostree::new(config());
    let mut replies = vec![verifying()];
    assert_eq!(
        o.check(&replies),
        Step::Ask(capture(&["admin", "status", "--sysroot=/"]))
    );
    replies.push(out(&status_text()));
    assert_eq!(
        o.check(&replies),
        Step::Ask(capture(&[
            "--repo=/ostree/repo",
            "pull",
            "--commit-metadata-only",
            "buckos",
            "stable"
        ]))
    );
    replies.push(out("whatever"));
    assert_eq!(
        o.check(&replies),
        Step::Ask(capture(&["--repo=/ostree/repo", "rev-parse", "buckos:stable"]))
    );
    replies.push(out(&format!("{}\n", "9".repeat(64))));
    assert_eq!(
        o.check(&replies),
        Step::Ask(capture(&["admin", "status", "--sysroot=/"]))
    );
    replies.push(out(&status_text()));
    let expected = CheckResult::UpdateAvailable {
        current: "1".repeat(64),
        candidate: "9".repeat(64),
    };
    assert_eq!(expected.report(), "update available: 111111111111 -> 999999999999");
    assert_eq!(o.check(&replies), Step::Done(Ok(expected.clone())));
    // A result is final.
    replies.push(unreadable());
    assert_eq!(o.check(&replies), Step::Done(Ok(expected)));
}

#[test]
fn check_reports_up_to_date() {
    let o = Ostree::new(insecure(tracking("stable")));
    let tip = format!("  {}\n", "1".repeat(64));
    let r = o.check(&[out(""), out(&tip), out(&status_text())]);
    let expected = CheckResult::UpToDate {
        commit: "1".repeat(64),
    };
    assert_eq!(expected.report(), "up to date (111111111111)");
    assert_eq!(r, Step::Done(Ok(expected)));
}

#[test]
fn errors_of_check() {
    let o = Ostree::new(insecure(config()));
    match o.check(&[out("nothing booted")]) {
        Step::Done(Err(e)) => {
            assert_eq!(e, UpdateError::UnknownRefspec);
            assert_eq!(
                e.message(),
                "could not determine the tracked refspec; pass --branch"
            );
        }
        other => panic!("{:?}", other),
    }
    let o = Ostree::new(insecure(tracking("stable")));
    match o.check(&[failing("  error: no such remote\n")]) {
        Step::Done(Err(e)) => assert_eq!(
            e.message(),
            "ostree --repo=/ostree/repo pull --commit-metadata-only buckos stable failed (exit status: 1):\nerror: no such remote"
        ),
        other => panic!("{:?}", other),
    }
    match o.check(&[out(""), out("abc"), out("")]) {
        Step::Done(Err(e)) => {
            assert_eq!(e, UpdateError::UnknownBootedCommit);
            assert_eq!(e.message(), "could not determine the booted commit");
        }
        other => panic!("{:?}", other),
    }
    match o.check(&[unreadable()]) {
        Step::Done(Err(e)) => {
            assert_eq!(e.message(), "failed to execute ostree");
            assert_eq!(
                e.cause(),
                Some("No such file or directory (os error 2)".to_string())
            );
        }
        other => panic!("{:?}", other),
    }
    // A reply of another kind counts as not carried out.
    match o.check(&[Reply::Logged]) {
        Step::Done(Err(e)) => assert_eq!(e.cause(), Some("unexpected reply".to_string())),
        other => panic!("{:?}", other),
    }
    let o = Ostree::new(insecure(tracking("")));
    assert_eq!(
        o.check(&[]),
        Step::Done(Err(UpdateError::MalformedRefspec {
            refspec: "buckos:".to_string()
        }))
    );
}

#[test]
fn pull_takes_the_tracked_ref() {
    let o = Ostree::new(tracking("a/b"));
    assert_eq!(
        o.pull(&[verifying()]),
        Step::Ask(inherit(&["--repo=/ostree/repo", "pull", "buckos", "a/b"]))
    );
    assert_eq!(o.pull(&[verifying(), out("")]), Step::Done(Ok(())));
}

#[test]
fn without_a_branch_the_booted_origin_is_tracked() {
    let o = Ostree::new(insecure(config()));
    assert_eq!(
        o.pull(&[out(&status_text())]),
        Step::Ask(inherit(&["--repo=/ostree/repo", "pull", "buckos", "stable"]))
    );
    assert_eq!(
        o.deploy(false, &[out(&status_text())]),
        Step::Ask(inherit(&[
            "admin",
            "deploy",
            "--sysroot=/",
            "--os=buckos",
            "buckos:stable"
        ]))
    );
    assert_eq!(
        o.pull(&[out("* os\n origin refspec: none\n")]),
        Step::Done(Err(UpdateError::MalformedRefspec {
            refspec: "none".to_string()
        }))
    );
}

#[test]
fn a_colon_in_the_remote_moves_the_split() {
    let o = Ostree::new(insecure(UpdateConfig {
        remote: "a:b".to_string(),
        ..tracking("c")
    }));
    assert_eq!(
        o.pull(&[]),
        Step::Ask(inherit(&["--repo=/ostree/repo", "pull", "a", "b:c"]))
    );
}

fn refused(remote: &str) -> UpdateError {
    UpdateError::UnverifiedRemote {
        remote: remote.to_string(),
    }
}

#[test]
fn another_source_must_verify_too() {
    let o = Ostree::new(config());
    let status = format!("* buckos {}.0\n    origin refspec: other:x\n", "1".repeat(64));
    let other = text("[remote \"other\"]\nsign-verify=true\n");
    let known = || vec![verifying(), out(&status)];
    assert_eq!(o.check(&known()), Step::Ask(read("/ostree/repo/config")));
    assert_eq!(o.pull(&known()), Step::Ask(read("/ostree/repo/config")));
    assert_eq!(o.deploy(true, &known()), Step::Ask(read("/ostree/repo/config")));

    let mut replies = known();
    replies.push(verifying());
    assert_eq!(o.check(&replies), Step::Ask(read("/etc/ostree/remotes.d/other.conf")));
    assert_eq!(o.pull(&replies), Step::Ask(read("/etc/ostree/remotes.d/other.conf")));
    assert_eq!(o.deploy(true, &replies), Step::Ask(
        read("/etc/ostree/remotes.d/other.conf")
    ));

    replies.push(unreadable());
    assert_eq!(o.check(&replies), Step::Done(Err(refused("other"))));
    assert_eq!(o.pull(&replies), Step::Done(Err(refused("other"))));
    assert_eq!(o.deploy(true, &replies), Step::Done(Err(refused("other"))));

    let mut replies = known();
    replies.push(other);
    assert_eq!(
        o.check(&replies),
        Step::Ask(capture(&[
            "--repo=/ostree/repo",
            "pull",
            "--commit-metadata-only",
            "other",
            "x"
        ]))
    );
    assert_eq!(
        o.pull(&replies),
        Step::Ask(inherit(&["--repo=/ostree/repo", "pull", "other", "x"]))
    );
    assert_eq!(
        o.deploy(false, &replies),
        Step::Ask(inherit(&["admin", "deploy", "--sysroot=/", "--os=buckos", "other:x"]))
    );

    let o = Ostree::new(insecure(config()));
    assert_eq!(
        o.pull(&[out(&status)]),
        Step::Ask(inherit(&["--repo=/ostree/repo", "pull", "other", "x"]))
    );
}

#[test]
fn a_source_without_a_remote_needs_no_other_check() {
    let o = Ostree::new(config());
    let commit = "1".repeat(64);
    let status = format!("* buckos {}.0\n    origin refspec: {}\n", commit, commit);
    assert_eq!(
        o.deploy(false, &[verifying(), out(&status)]),
        Step::Ask(inherit(&["admin", "deploy", "--sysroot=/", "--os=buckos", &commit]))
    );
    assert_eq!(
        o.pull(&[verifying(), out(&status)]),
        Step::Done(Err(UpdateError::MalformedRefspec { refspec: commit }))
    );
}

#[test]
fn the_source_counts_as_it_is_split() {
    let o = Ostree::new(UpdateConfig {
        remote: "a:b".to_string(),
        ..tracking("c")
    });
    let trusted = || text("[remote \"a:b\"]\nsign-verify=true\n");
    assert_eq!(o.pull(&[trusted()]), Step::Ask(read("/ostree/repo/config")));
    assert_eq!(
        o.pull(&[trusted(), trusted(), unreadable()]),
        Step::Done(Err(refused("a")))
    );
}

#[test]
fn reboot_requests() {
    let request = |program: &str, args: &[&str]| Request::Inherit {
        program: program.to_string(),
        args: words(args),
    };
    assert!(request("systemctl", &["reboot"]).is_reboot());
    assert!(!request("systemctl", &["poweroff"]).is_reboot());
    assert!(!request("systemctl", &["reboot", "--force"]).is_reboot());
    assert!(!request("systemctl", &[]).is_reboot());
    assert!(!request("ostree", &["reboot"]).is_reboot());
    assert!(!read("systemctl").is_reboot());
}

#[test]
fn reportable_results() {
    let up = |c: &str| CheckResult::UpToDate {
        commit: c.to_string(),
    };
    let avail = |a: &str, b: &str| CheckResult::UpdateAvailable {
        current: a.to_string(),
        candidate: b.to_string(),
    };
    for c in ["", "abc", "0123456789ab", "0123456789abcdef", "éééééééé"] {
        assert!(up(c).reportable());
        assert!(avail(c, c).reportable());
    }
    let cut = "0123456789aéb";
    assert!(!up(cut).reportable());
    assert!(!avail("abc", cut).reportable());
    assert!(!avail(cut, "abc").reportable());
}

#[test]
fn a_failed_deployment_does_not_reboot() {
    let o = Ostree::new(insecure(tracking("stable")));
    match o.deploy(true, &[failing("")]) {
        Step::Done(Err(e)) => assert_eq!(
            e.message(),
            "ostree admin deploy --sysroot=/ --os=buckos buckos:stable failed (exit status: 1)"
        ),
        other => panic!("{:?}", other),
    }
}

#[test]
fn deploy_and_reboot() {
    let o = Ostree::new(tracking("stable"));
    let deploy = inherit(&[
        "admin",
        "deploy",
        "--sysroot=/",
        "--os=buckos",
        "buckos:stable",
    ]);
    assert_eq!(o.deploy(false, &[verifying()]), Step::Ask(deploy));
    assert_eq!(o.deploy(false, &[verifying(), out("")]), Step::Done(Ok(())));
    assert_eq!(
        o.deploy(true, &[verifying(), out("")]),
        Step::Ask(Request::Inherit {
            program: "systemctl".to_string(),
            args: words(&["reboot"])
        })
    );
    assert_eq!(
        o.deploy(true, &[verifying(), out(""), out("")]),
        Step::Done(Ok(()))
    );
    match o.deploy(true, &[verifying(), out(""), failing("")]) {
        Step::Done(Err(e)) => assert_eq!(e.message(), "`systemctl reboot` failed (exit status: 1)"),
        other => panic!("{:?}", other),
    }
    match o.deploy(true, &[verifying(), out(""), unreadable()]) {
        Step::Done(Err(e)) => {
            assert_eq!(e.message(), "failed to invoke `systemctl reboot`");
            assert_eq!(
                e.cause(),
                Some("No such file or directory (os error 2)".to_string())
            );
        }
        other => panic!("{:?}", other),
    }
}

#[test]
fn rollback_redeploys_the_next_commit() {
    let o = Ostree::new(config());
    assert_eq!(
        o.rollback(&[]),
        Step::Ask(capture(&["admin", "status", "--sysroot=/"]))
    );
    let target = "2".repeat(64);
    assert_eq!(
        o.rollback(&[out(&status_text())]),
        Step::Ask(inherit(&[
            "admin",
            "deploy",
            "--sysroot=/",
            "--os=buckos",
            &target
        ]))
    );
    assert_eq!(
        o.rollback(&[out(&status_text()), out("")]),
        Step::Done(Ok(()))
    );
    match o.rollback(&[out("")]) {
        Step::Done(Err(e)) => {
            assert_eq!(e, UpdateError::NoPreviousDeployment);
            assert_eq!(e.message(), "no previous deployment to roll back to");
        }
        other => panic!("{:?}", other),
    }
}

#[test]
fn short_checksums() {
    assert_eq!(short("0123456789abcdef"), "0123456789ab");
    assert_eq!(short("0123456789ab"), "0123456789ab");
    assert_eq!(short("abc"), "abc");
    assert_eq!(short(""), "");
    assert_eq!(short("éééééééé"), "éééééé");
}

#[test]
fn output_is_decoded_leniently() {
    let r = Reply::exited(true, "s".to_string(), b"a\xffb", "é".as_bytes());
    assert_eq!(
        r,
        Reply::Exited {
            success: true,
            status: "s".to_string(),
            stdout: "a\u{fffd}b".to_string(),
            stderr: "é".to_string()
        }
    );
}
