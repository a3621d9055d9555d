use buckos_update::install::{
    deploy_args, init_fs_args, pull_args, remote_add_args, stateroot_init_args, ImageInstall,
};
use buckos_update::{Reply, Request, Step, UpdateError};

#[test]
fn init_fs_is_modern() {
    let a = init_fs_args("/mnt");
    assert_eq!(a, ["admin", "init-fs", "--modern", "/mnt"]);
}

#[test]
fn remote_add_always_verifies() {
    // A remote is never created without verification.
    let a = remote_add_args("/mnt/ostree/repo", "buckos", "https://x/ostree", None);
    assert!(a.iter().any(|s| s == "--set=sign-verify=true"));
    assert!(a.contains(&"buckos".to_string()));
    assert!(a.contains(&"https://x/ostree".to_string()));
    assert!(!a.iter().any(|s| s.starts_with("--set=verification-")));
}

#[test]
fn remote_add_carries_inline_key() {
    let a = remote_add_args(
        "/mnt/ostree/repo",
        "buckos",
        "https://x/ostree",
        Some("AAAA_base64_key"),
    );
    assert!(a.iter().any(|s| s == "--set=sign-verify=true"));
    assert!(a
        .iter()
        .any(|s| s == "--set=verification-ed25519-key=AAAA_base64_key"));
}

#[test]
fn deploy_passes_all_kargs_and_refspec_last() {
    let a = deploy_args(
        "/mnt",
        "buckos",
        "buckos:buckos/x86_64/stable",
        &["rw".to_string(), "quiet".to_string()],
    );
    assert!(a.contains(&"--os=buckos".to_string()));
    assert!(a.contains(&"--karg=rw".to_string()));
    assert!(a.contains(&"--karg=quiet".to_string()));
    assert_eq!(a.last().unwrap(), "buckos:buckos/x86_64/stable");
}

#[test]
fn pull_targets_repo_remote_branch() {
    let a = pull_args("/mnt/ostree/repo", "buckos", "buckos/x86_64/stable");
    assert_eq!(
        a,
        [
            "--repo=/mnt/ostree/repo",
            "pull",
            "buckos",
            "buckos/x86_64/stable"
        ]
    );
}

#[test]
fn remaining_command_lines_are_exact() {
    assert_eq!(
        stateroot_init_args("/mnt", "buckos"),
        ["admin", "stateroot-init", "--sysroot=/mnt", "buckos"]
    );
    assert_eq!(
        remote_add_args("/r", "n", "u", Some(" key\n")),
        [
            "--repo=/r",
            "remote",
            "add",
            "--if-not-exists",
            "--set=sign-verify=true",
            "--set=verification-ed25519-key=key",
            "n",
            "u"
        ]
    );
    assert_eq!(
        deploy_args("/mnt", "os", "r:b", &["a=1".to_string()]),
        ["admin", "deploy", "--sysroot=/mnt", "--os=os", "--karg=a=1", "r:b"]
    );
    assert_eq!(
        deploy_args("/mnt", "os", "r:b", &[]),
        ["admin", "deploy", "--sysroot=/mnt", "--os=os", "r:b"]
    );
}

fn sample() -> ImageInstall {
    ImageInstall {
        target: "/mnt".to_string(),
        os: "buckos".to_string(),
        remote: "chan".to_string(),
        url: "https://x/ostree".to_string(),
        branch: "stable".to_string(),
        pubkey: None,
        kargs: vec!["rw".to_string()],
        ostree_bin: "/bin/ostree".to_string(),
    }
}

fn fine() -> Reply {
    Reply::exited(true, "exit status: 0".to_string(), b"", b"")
}

#[test]
fn install_runs_the_plan_in_order() {
    let install = sample();
    let mut replies: Vec<Reply> = Vec::new();
    let mut seen: Vec<String> = Vec::new();
    loop {
        match install.run(&replies) {
            Step::Ask(Request::Log { line }) => {
                seen.push(line);
                replies.push(Reply::Logged);
            }
            Step::Ask(Request::Inherit { program, args }) => {
                assert_eq!(program, "/bin/ostree");
                seen.push(args.join(" "));
                replies.push(fine());
            }
            Step::Ask(other) => panic!("{:?}", other),
            Step::Done(r) => {
                assert_eq!(r, Ok(()));
                break;
            }
        }
    }
    assert_eq!(
        seen,
        [
            "Initializing ostree sysroot",
            "admin init-fs --modern /mnt",
            "Adding signature-verified remote 'chan'",
            "--repo=/mnt/ostree/repo remote add --if-not-exists --set=sign-verify=true chan https://x/ostree",
            "Pulling chan:stable (signature-verified)",
            "--repo=/mnt/ostree/repo pull chan stable",
            "Initializing stateroot 'buckos'",
            "admin stateroot-init --sysroot=/mnt buckos",
            "Deploying initial commit",
            "admin deploy --sysroot=/mnt --os=buckos --karg=rw chan:stable",
        ]
    );
    assert_eq!(replies.len(), 10);
}

#[test]
fn install_stops_at_the_first_failure() {
    let install = sample();
    let mut replies = vec![Reply::Logged, fine(), Reply::Logged];
    replies.push(Reply::exited(false, "exit status: 1".to_string(), b"", b"no"));
    let step = install.run(&replies);
    match &step {
        Step::Done(Err(e)) => assert_eq!(
            e.message(),
            "ostree --repo=/mnt/ostree/repo remote add --if-not-exists --set=sign-verify=true chan https://x/ostree failed (exit status: 1)"
        ),
        other => panic!("{:?}", other),
    }
    replies.push(fine());
    assert_eq!(install.run(&replies), step);

    let failed = vec![
        Reply::Logged,
        Reply::Failed {
            error: "not found".to_string(),
        },
    ];
    assert_eq!(
        install.run(&failed),
        Step::Done(Err(UpdateError::NotExecuted {
            program: "/bin/ostree".to_string(),
            reason: "not found".to_string()
        }))
    );
}
