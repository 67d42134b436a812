//! The agent skill and its installation.

use bbcli::agent_skill::{install_report, plan_install, Installed, SKILL_MD, SKILL_NAME};

#[test]
fn bundled_skill_carries_the_frontmatter_the_host_matches_on() {
    assert!(SKILL_MD.starts_with("---\n"), "frontmatter must open the file");
    let name = SKILL_MD
        .lines()
        .find_map(|l| l.strip_prefix("name: "))
        .expect("frontmatter has a name");
    assert_eq!(name.trim(), SKILL_NAME, "name must match the install dir");
    let desc = SKILL_MD
        .lines()
        .find_map(|l| l.strip_prefix("description: "))
        .expect("frontmatter has a description");
    assert!(
        desc.len() > 40,
        "description is what the model matches on; got {} chars",
        desc.len()
    );
}

/// To install again what is there already is no change and needs no force.
#[test]
fn reinstalling_an_identical_copy_is_a_no_op() {
    let out = plan_install("p/SKILL.md", None, false).unwrap();
    assert!(matches!(out, Installed::Written(_)));
    let out = plan_install("p/SKILL.md", Some(SKILL_MD), false).unwrap();
    assert!(matches!(out, Installed::Unchanged(_)));
    assert_eq!(install_report(&out), "p/SKILL.md is already up to date.");
}

#[test]
fn an_edited_copy_is_only_overwritten_by_force() {
    let err = plan_install("p", Some("hand-edited\n"), false).unwrap_err();
    assert_eq!(err, "p exists and differs from the bundled skill; pass --force to overwrite");
    let out = plan_install("p", Some("hand-edited\n"), true).unwrap();
    assert_eq!(install_report(&out), "Installed the bytebase skill to p.");
}
