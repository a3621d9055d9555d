use buckos_update::status::{
    first_hex64, parse_booted_checksum, parse_booted_index, parse_booted_origin,
    parse_deployment_checksums, parse_prior_checksum,
};

const STATUS: &str = "\
State: idle
Deployments:
* buckos 1111111111111111111111111111111111111111111111111111111111111111.0
    Version: 2026.2
    origin refspec: buckos:buckos/x86_64/stable
  buckos 2222222222222222222222222222222222222222222222222222222222222222.0
    Version: 2026.1
    origin refspec: buckos:buckos/x86_64/stable
";

#[test]
fn finds_booted_checksum_and_origin() {
    assert_eq!(parse_booted_checksum(STATUS).unwrap(), "1".repeat(64));
    assert_eq!(
        parse_booted_origin(STATUS).unwrap(),
        "buckos:buckos/x86_64/stable"
    );
}

#[test]
fn rollback_target_is_the_next_deployment() {
    assert_eq!(parse_booted_index(STATUS), Some(0));
    assert_eq!(parse_deployment_checksums(STATUS).len(), 2);
    assert_eq!(parse_prior_checksum(STATUS).unwrap(), "2".repeat(64));
}

#[test]
fn no_prior_when_single_deployment() {
    let single = "Deployments:\n* buckos ".to_string() + &"a".repeat(64) + ".0\n";
    assert_eq!(parse_prior_checksum(&single), None);
}

#[test]
fn booted_deployment_need_not_be_first() {
    let pending = format!("  os {}.0 (pending)\n    origin refspec: os:next\n", "3".repeat(64));
    let booted = format!("* os {}.1\n    origin refspec:  os:now \n", "B".repeat(64));
    let older = format!("  os {}.0\n    origin refspec: os:then\n", "c".repeat(64));
    let status = pending + &booted + &older;
    assert_eq!(
        parse_deployment_checksums(&status),
        vec!["3".repeat(64), "B".repeat(64), "c".repeat(64)]
    );
    assert_eq!(parse_booted_index(&status), Some(1));
    assert_eq!(parse_booted_checksum(&status), Some("B".repeat(64)));
    assert_eq!(parse_prior_checksum(&status), Some("c".repeat(64)));
    assert_eq!(parse_booted_origin(&status), Some("os:now".to_string()));
}

#[test]
fn nothing_booted_nothing_found() {
    let status = format!("  os {}.0\n    origin refspec: os:x\n", "3".repeat(64));
    assert_eq!(parse_booted_index(&status), None);
    assert_eq!(parse_booted_checksum(&status), None);
    assert_eq!(parse_prior_checksum(&status), None);
    assert_eq!(parse_booted_origin(&status), None);
    assert!(parse_deployment_checksums("").is_empty());
}

#[test]
fn a_mark_without_a_checksum_counts_for_the_origin_only() {
    let status = "* os short.0\n    origin refspec: os:x\n";
    assert_eq!(parse_booted_index(status), None);
    assert_eq!(parse_booted_origin(status), Some("os:x".to_string()));
}

#[test]
fn a_booted_deployment_has_no_origin_but_its_own() {
    let (a, b) = ("a".repeat(64), "b".repeat(64));
    let status = format!("* os {}.0\n  os {}.0\n    origin refspec: os:x\n", a, b);
    assert_eq!(parse_booted_origin(&status), None);
    let status = format!(
        "* buckos {}.0\n    Version: 2\n  buckos {}.0\n    origin refspec: other:x\n",
        a, b
    );
    assert_eq!(parse_booted_origin(&status), None);
    assert_eq!(parse_prior_checksum(&status), Some(b.clone()));
    // The origin of an earlier deployment is not its own either.
    let status = format!("  os {}.0\n    origin refspec: os:x\n* os {}.0\n", a, b);
    assert_eq!(parse_booted_origin(&status), None);
    assert_eq!(parse_booted_checksum(&status), Some(b));
}

#[test]
fn an_origin_line_is_no_deployment() {
    let (a, b) = ("a".repeat(64), "b".repeat(64));
    let status = format!(
        "* buckos {}.0\n    origin refspec: {}\n  buckos {}.0\n",
        a, a, b
    );
    assert_eq!(parse_deployment_checksums(&status), vec![a.clone(), b.clone()]);
    assert_eq!(parse_booted_index(&status), Some(0));
    assert_eq!(parse_prior_checksum(&status), Some(b));
    assert_eq!(parse_booted_origin(&status), Some(a));
}

#[test]
fn a_described_value_is_no_deployment() {
    let (a, b, c) = ("a".repeat(64), "b".repeat(64), "c".repeat(64));
    let status = format!(
        "* buckos {}.0\n    Version: {}\n    origin refspec: buckos:x\n",
        a, c
    );
    assert_eq!(parse_booted_origin(&status), Some("buckos:x".to_string()));
    assert_eq!(parse_deployment_checksums(&status), vec![a.clone()]);
    assert_eq!(parse_prior_checksum(&status), None);
    for value in [format!("build={}", c), c.clone(), format!("1 {}", c)] {
        let status = format!("* buckos {}.0\n    Version: {}\n  buckos {}.0\n", a, value, b);
        assert_eq!(parse_prior_checksum(&status), Some(b.clone()));
        assert_eq!(parse_booted_index(&status), Some(0));
    }
    // A checksum inside a word is no deployment id, with or without a key.
    assert!(parse_deployment_checksums(&format!("  os build={}\n", c)).is_empty());
    assert!(parse_deployment_checksums(&format!("  Version:{}\n", c)).is_empty());
    // A colon inside a word, or behind the id, makes no key.
    let status = format!("  os:1 {}.0\n* os {}.0 (note: staged)\n", a, b);
    assert_eq!(parse_deployment_checksums(&status), vec![a, b.clone()]);
    assert_eq!(parse_booted_checksum(&status), Some(b));
}

#[test]
fn first_checksum_of_a_text() {
    let c = "0123456789abcdefABCDEF0123456789".repeat(2);
    assert_eq!(first_hex64(&c), Some(c.clone()));
    assert_eq!(first_hex64(&format!("os {}.0", c)), Some(c.clone()));
    // A longer run is cut, and a run inside a word counts.
    assert_eq!(first_hex64(&format!("{}ff", c)), Some(c.clone()));
    assert_eq!(first_hex64(&format!("x{}", c)), Some(c.clone()));
    let run = "a".repeat(64);
    assert_eq!(first_hex64(&format!("commit={}", run)), Some(run));
    assert_eq!(first_hex64(&c[..63]), None);
    assert_eq!(first_hex64(&format!("{} {}", &c[..63], &c[..63])), None);
    assert_eq!(first_hex64(""), None);
    assert_eq!(first_hex64(&format!("x\u{3000}{}", c)), Some(c.clone()));
    // The first of two.
    let d = "d".repeat(64);
    assert_eq!(first_hex64(&format!("{} {}", d, c)), Some(d));
}
