use buckos_update::display::{
    check_display_environment, find_wayland_socket, pick_socket, repair_display_environment,
    DisplayCheck, Finding, Probe, Repair, Search, WaylandEnv,
};
use buckos_update::source::{ostree_install_source, InstallSource};

fn names(v: &[&str]) -> Finding {
    Finding::Names {
        names: v.iter().map(|s| s.to_string()).collect(),
    }
}

fn some(s: &str) -> Option<String> {
    Some(s.to_string())
}

fn present(path: &str) -> Probe {
    Probe::Exists {
        path: path.to_string(),
    }
}

fn set(dir: &str, socket: &str) -> Repair {
    Repair::Done(Some(WaylandEnv {
        runtime_dir: dir.to_string(),
        socket: socket.to_string(),
    }))
}

#[test]
fn search_prefers_conventional_names() {
    let dir = "/run/user/1000";
    assert_eq!(
        find_wayland_socket(dir, &[], 0),
        Search::Look(present("/run/user/1000/wayland-0"))
    );
    assert_eq!(
        find_wayland_socket(dir, &[Finding::Yes], 0),
        Search::Found(some("wayland-0"))
    );
    assert_eq!(
        find_wayland_socket(dir, &[Finding::No], 0),
        Search::Look(present("/run/user/1000/wayland-1"))
    );
    assert_eq!(
        find_wayland_socket(dir, &[Finding::No, Finding::Yes], 0),
        Search::Found(some("wayland-1"))
    );
    assert_eq!(
        find_wayland_socket(dir, &[Finding::No, Finding::No], 0),
        Search::Look(Probe::ListDirectory {
            path: dir.to_string()
        })
    );
    assert_eq!(
        find_wayland_socket(dir, &[Finding::No, Finding::No, Finding::No], 0),
        Search::Found(None)
    );
    let listing = names(&["bus", "Alacritty-wayland-1.sock", "wayland-7.lock", "wayland-7", "wayland-8"]);
    assert_eq!(
        find_wayland_socket(dir, &[Finding::No, Finding::No, listing], 0),
        Search::Found(some("wayland-7"))
    );
    assert_eq!(pick_socket(&vec!["wayland-0.lock".to_string()]), None);
}

#[test]
fn repair_needs_root_and_a_known_user() {
    let f = [Finding::Yes, Finding::Yes];
    assert_eq!(
        repair_display_environment(1000, &some("1000"), &None, &f),
        Repair::Done(None)
    );
    assert_eq!(repair_display_environment(0, &None, &None, &f), Repair::Done(None));
    assert_eq!(
        repair_display_environment(0, &some("root"), &None, &f),
        Repair::Done(None)
    );
}

#[test]
fn repair_goes_through_its_steps() {
    let uid = some("1000");
    assert_eq!(
        repair_display_environment(0, &uid, &None, &[]),
        Repair::Look(Probe::IsDirectory {
            path: "/run/user/1000".to_string()
        })
    );
    assert_eq!(
        repair_display_environment(0, &uid, &None, &[Finding::No]),
        Repair::Done(None)
    );
    assert_eq!(
        repair_display_environment(0, &uid, &None, &[Finding::Yes, Finding::Yes]),
        set("/run/user/1000", "wayland-0")
    );
    let inherited = some("wayland-5");
    assert_eq!(
        repair_display_environment(0, &uid, &inherited, &[Finding::Yes]),
        Repair::Look(present("/run/user/1000/wayland-5"))
    );
    assert_eq!(
        repair_display_environment(0, &uid, &inherited, &[Finding::Yes, Finding::Yes]),
        set("/run/user/1000", "wayland-5")
    );
    assert_eq!(
        repair_display_environment(
            0,
            &uid,
            &inherited,
            &[Finding::Yes, Finding::No, Finding::No, Finding::Yes]
        ),
        set("/run/user/1000", "wayland-1")
    );
    assert_eq!(
        repair_display_environment(
            0,
            &uid,
            &inherited,
            &[Finding::Yes, Finding::No, Finding::No, Finding::No, names(&[])]
        ),
        Repair::Done(None)
    );
}

#[test]
fn a_name_from_elsewhere_counts_as_none() {
    let uid = some("1000");
    for name in [
        "",
        ".",
        "./",
        "..",
        "a/..",
        "../w",
        "a/../../w",
        "/",
        "/tmp/w",
        "/run/user/1000",
        "/run/user/1000/",
        "/run/user/10001/w",
        "/run/user/1000/../w",
    ] {
        assert_eq!(
            repair_display_environment(0, &uid, &some(name), &[Finding::Yes]),
            Repair::Look(present("/run/user/1000/wayland-0")),
            "{:?}",
            name
        );
        assert_eq!(
            repair_display_environment(0, &uid, &some(name), &[Finding::Yes, Finding::Yes]),
            set("/run/user/1000", "wayland-0")
        );
    }
}

#[test]
fn a_name_that_leads_into_the_directory_is_probed_and_kept() {
    let uid = some("1000");
    for (name, path) in [
        ("sub/w", "/run/user/1000/sub/w"),
        ("..w", "/run/user/1000/..w"),
        ("./wayland-1", "/run/user/1000/./wayland-1"),
        ("a/../w", "/run/user/1000/a/../w"),
        ("../1000/wayland-1", "/run/user/1000/../1000/wayland-1"),
        ("/run/user/1000/wayland-5", "/run/user/1000/wayland-5"),
        ("/run/user/1000/wayland-1", "/run/user/1000/wayland-1"),
        ("/run//user/./1000/w", "/run//user/./1000/w"),
        ("/../run/user/1000/w", "/../run/user/1000/w"),
    ] {
        assert_eq!(
            repair_display_environment(0, &uid, &some(name), &[Finding::Yes]),
            Repair::Look(present(path))
        );
        assert_eq!(
            repair_display_environment(0, &uid, &some(name), &[Finding::Yes, Finding::Yes]),
            set("/run/user/1000", name)
        );
        assert_eq!(
            repair_display_environment(
                0,
                &uid,
                &some(name),
                &[Finding::Yes, Finding::No, Finding::Yes]
            ),
            set("/run/user/1000", "wayland-0")
        );
    }
}

#[test]
fn display_check_outcomes() {
    assert_eq!(check_display_environment(1000, false, false, false), DisplayCheck::Ready);
    assert_eq!(check_display_environment(0, true, true, false), DisplayCheck::Ready);
    assert_eq!(check_display_environment(0, false, false, true), DisplayCheck::Ready);
    match check_display_environment(0, true, false, false) {
        DisplayCheck::Doubtful { notice } => assert_eq!(
            notice,
            "\n⚠️  WARNING: XDG_RUNTIME_DIR is not set.\n    The installer may have trouble connecting to Wayland.\n\n    Consider running with:\n    $ sudo -E ./target/release/buckos-installer\n\n"
        ),
        other => panic!("{:?}", other),
    }
    match check_display_environment(0, false, true, false) {
        DisplayCheck::Missing { notice, error } => {
            assert_eq!(
                error,
                "Cannot connect to display server. Please use one of the solutions above."
            );
            assert!(notice.contains("\nMissing: WAYLAND_DISPLAY environment variable\nMissing: DISPLAY environment variable\n\n📋 SOLUTIONS:\n"));
            assert!(notice.contains("     $ sudo WAYLAND_DISPLAY=\"$WAYLAND_DISPLAY\" \\\n            XDG_RUNTIME_DIR=\"$XDG_RUNTIME_DIR\" \\\n"));
        }
        other => panic!("{:?}", other),
    }
    match check_display_environment(0, false, false, false) {
        DisplayCheck::Missing { notice, .. } => {
            assert!(notice.contains("Missing: XDG_RUNTIME_DIR environment variable\n"))
        }
        other => panic!("{:?}", other),
    }
}

#[test]
fn install_source_from_flags() {
    assert_eq!(ostree_install_source(&None, "r"), None);
    assert_eq!(
        ostree_install_source(&some("https://c"), "buckos/x86_64/stable"),
        Some(InstallSource::OstreeImage {
            channel_url: "https://c".to_string(),
            branch: "buckos/x86_64/stable".to_string()
        })
    );
}
