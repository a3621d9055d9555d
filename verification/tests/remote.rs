use buckos_update::remote::{
    ini_section, refspec_remote, remote_config_verifies, section_verifies, split_refspec,
};
use buckos_update::UpdateError;

#[test]
fn refspec_split() {
    assert_eq!(
        split_refspec("buckos:buckos/x86_64/stable").unwrap(),
        ("buckos".to_string(), "buckos/x86_64/stable".to_string())
    );
    assert!(split_refspec("no-colon").is_err());
    assert!(split_refspec(":empty").is_err());
}

#[test]
fn ini_section_and_verify_policy() {
    let cfg = "\
[core]
repo_version=1

[remote \"buckos\"]
url=https://example/ostree
sign-verify=true
";
    let section = ini_section(cfg, "[remote \"buckos\"]").unwrap();
    assert!(section_verifies(&section));

    let unverified = "[remote \"buckos\"]\nurl=https://example/ostree\n";
    let s = ini_section(unverified, "[remote \"buckos\"]").unwrap();
    assert!(!section_verifies(&s));
}

#[test]
fn verify_policy_accepts_verification_file_and_rejects_lookalikes() {
    assert!(section_verifies(
        "verification-file=/etc/ostree/keys/buckos.ed25519.pub\n"
    ));
    assert!(!section_verifies("sign-verify-deltas=true\n"));
    assert!(!section_verifies("sign-verify=false\n"));
}

#[test]
fn refspec_splits_at_the_first_colon() {
    assert_eq!(
        split_refspec("a:b:c").unwrap(),
        ("a".to_string(), "b:c".to_string())
    );
    assert_eq!(
        split_refspec("a:"),
        Err(UpdateError::MalformedRefspec {
            refspec: "a:".to_string()
        })
    );
    assert_eq!(
        split_refspec("").unwrap_err().message(),
        "malformed refspec '', expected '<remote>:<ref>'"
    );
}

#[test]
fn section_text_is_exact() {
    let cfg = "x=0\r\n [a] \r\n k = v \r\n\r\n[b]\nz=1\n[a]\nlast";
    assert_eq!(ini_section(cfg, "[a]"), Some(" k = v \n\nlast\n".to_string()));
    assert_eq!(ini_section(cfg, "[b]"), Some("z=1\n".to_string()));
    assert_eq!(ini_section(cfg, "[c]"), None);
    // A group without lines is no section.
    assert_eq!(ini_section("[a]\n[b]\nx", "[a]"), None);
    assert_eq!(ini_section("", "[a]"), None);
}

#[test]
fn sign_verify_values() {
    assert!(section_verifies("sign-verify=TRUE"));
    assert!(section_verifies("  sign-verify = True \r\n"));
    assert!(!section_verifies("sign-verify==true"));
    assert!(!section_verifies("sign-verify true"));
    assert!(!section_verifies("sign-verifytrue"));
    assert!(!section_verifies("sign-verify-deltas=true"));
    assert!(section_verifies("url=x\nsign-verify=false\nverification-key=k"));
    assert!(!section_verifies("sign-verify=true1"));
    assert!(!section_verifies("sign-verify="));
    assert!(!section_verifies("gpg-verify=true"));
    assert!(!section_verifies("# sign-verify=true"));
    assert!(!section_verifies(""));
}

#[test]
fn only_the_own_section_counts() {
    let cfg = "[remote \"other\"]\nsign-verify=true\n[remote \"mine\"]\nurl=x\n";
    assert!(remote_config_verifies(cfg, "other"));
    assert!(!remote_config_verifies(cfg, "mine"));
    assert!(!remote_config_verifies(cfg, "absent"));
    assert!(!remote_config_verifies("sign-verify=true\n", "mine"));
}

#[test]
fn remote_of_a_refspec() {
    assert_eq!(refspec_remote("a:b:c"), Some("a".to_string()));
    assert_eq!(refspec_remote("a:"), Some("a".to_string()));
    assert_eq!(refspec_remote(":b"), None);
    assert_eq!(refspec_remote("plain"), None);
    assert_eq!(refspec_remote(""), None);
}
