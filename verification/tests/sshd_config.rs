//! Rendering and inspection of the sshd drop-in.

use mayfly_helper::ssh::sshd_config::{
    find_trusted_user_ca_keys, includes_dropin_dir, render_directive, render_dropin,
    DIRECTIVE_KEYWORD, DROPIN_DIR, DROPIN_FILENAME,
};

/// The lines, each with a line ending.
fn concat_lines(lines: &[&str]) -> String {
    let mut out = String::new();
    for line in lines {
        out.push_str(line);
        out.push('\n');
    }
    out
}

#[test]
fn renders_canonical_directive() {
    let line = render_directive("/etc/ssh/mayfly_ca.pub");
    assert_eq!(line, "TrustedUserCAKeys /etc/ssh/mayfly_ca.pub");
}

/// The shipped deploy drop-in MUST equal what the helper renders for the
/// default managed path. `verify_state` compares the on-disk drop-in to
/// `render_dropin` byte-for-byte (newline-insensitive), so any drift between
/// the bootstrap asset and the renderer would make VerifyState fail on a
/// freshly provisioned host. This pins them together.
#[test]
fn deploy_dropin_asset_matches_rendered() {
    let asset = concat_lines(&[
        "# Managed by mayfly-agent. Do not edit; changes are overwritten.",
        "# Configures the Mayfly-managed OpenSSH user-certificate trust anchor.",
        "TrustedUserCAKeys /etc/ssh/mayfly/trusted_user_ca_keys",
    ]);
    let rendered = render_dropin("/etc/ssh/mayfly/trusted_user_ca_keys");
    assert_eq!(asset.trim_end(), rendered.trim_end());
}

#[test]
fn finds_directive_value() {
    let text = "Port 22\nTrustedUserCAKeys /etc/ssh/mayfly_ca.pub\n";
    assert_eq!(
        find_trusted_user_ca_keys(text).as_deref(),
        Some("/etc/ssh/mayfly_ca.pub")
    );
}

#[test]
fn keyword_is_case_insensitive() {
    let text = "trustedusercakeys /etc/ssh/ca.pub\n";
    assert_eq!(
        find_trusted_user_ca_keys(text).as_deref(),
        Some("/etc/ssh/ca.pub")
    );
}

#[test]
fn handles_leading_whitespace_and_tabs() {
    let text = "   \tTrustedUserCAKeys\t/etc/ssh/ca.pub\n";
    assert_eq!(
        find_trusted_user_ca_keys(text).as_deref(),
        Some("/etc/ssh/ca.pub")
    );
}

#[test]
fn ignores_commented_directives() {
    let text = "# TrustedUserCAKeys /etc/ssh/old.pub\nPort 22\n";
    assert_eq!(find_trusted_user_ca_keys(text), None);
}

#[test]
fn returns_first_match() {
    let text = "TrustedUserCAKeys /first.pub\nTrustedUserCAKeys /second.pub\n";
    assert_eq!(
        find_trusted_user_ca_keys(text).as_deref(),
        Some("/first.pub")
    );
}

#[test]
fn absent_directive_returns_none() {
    let text = "Port 22\nPermitRootLogin no\n";
    assert_eq!(find_trusted_user_ca_keys(text), None);
}

#[test]
fn keyword_without_value_returns_none() {
    let text = "TrustedUserCAKeys\n";
    assert_eq!(find_trusted_user_ca_keys(text), None);
}

#[test]
fn renders_managed_dropin_body() {
    let body = render_dropin("/etc/ssh/mayfly/trusted_user_ca_keys");
    assert!(body.starts_with("# Managed by mayfly-agent"));
    assert!(body.contains("TrustedUserCAKeys /etc/ssh/mayfly/trusted_user_ca_keys"));
    assert!(body.ends_with('\n'));
    // The drop-in must itself parse as containing the directive we set.
    assert_eq!(
        find_trusted_user_ca_keys(&body).as_deref(),
        Some("/etc/ssh/mayfly/trusted_user_ca_keys")
    );
}

#[test]
fn detects_include_of_dropin_dir() {
    let text = "Port 22\nInclude /etc/ssh/sshd_config.d/*.conf\n";
    assert!(includes_dropin_dir(text, DROPIN_DIR));
    assert!(includes_dropin_dir(text, "/etc/ssh/sshd_config.d/"));
}

#[test]
fn detects_include_among_multiple_patterns() {
    let text = "Include /etc/ssh/other.d/*.conf /etc/ssh/sshd_config.d/*.conf\n";
    assert!(includes_dropin_dir(text, DROPIN_DIR));
}

#[test]
fn missing_include_is_detected() {
    let text = "Port 22\nPermitRootLogin no\n";
    assert!(!includes_dropin_dir(text, DROPIN_DIR));

    // A commented Include does not count.
    let commented = "# Include /etc/ssh/sshd_config.d/*.conf\n";
    assert!(!includes_dropin_dir(commented, DROPIN_DIR));

    // An Include of a different directory does not count.
    let other = "Include /etc/ssh/other.d/*.conf\n";
    assert!(!includes_dropin_dir(other, DROPIN_DIR));
}

#[test]
fn include_keyword_is_case_insensitive() {
    let text = "include /etc/ssh/sshd_config.d/*.conf\n";
    assert!(includes_dropin_dir(text, DROPIN_DIR));
}

#[test]
fn managed_names_are_fixed() {
    assert_eq!(DIRECTIVE_KEYWORD, "TrustedUserCAKeys");
    assert_eq!(DROPIN_DIR, "/etc/ssh/sshd_config.d");
    assert_eq!(DROPIN_FILENAME, "90-mayfly.conf");
}

#[test]
fn dropin_is_byte_exact() {
    assert_eq!(
        render_dropin("/x"),
        "# Managed by mayfly-agent. Do not edit; changes are overwritten.\n\
         # Configures the Mayfly-managed OpenSSH user-certificate trust anchor.\n\
         TrustedUserCAKeys /x\n"
    );
}

#[test]
fn equals_sign_separates_keyword_and_value() {
    assert_eq!(
        find_trusted_user_ca_keys("TrustedUserCAKeys=/a\n").as_deref(),
        Some("/a")
    );
    assert_eq!(
        find_trusted_user_ca_keys("TrustedUserCAKeys = /a b \r\n").as_deref(),
        Some("/a b")
    );
    assert_eq!(
        find_trusted_user_ca_keys("TrustedUserCAKeys == =/a").as_deref(),
        Some("=/a")
    );
}

#[test]
fn empty_first_value_hides_later_ones() {
    assert_eq!(
        find_trusted_user_ca_keys("TrustedUserCAKeys =\nTrustedUserCAKeys /a\n"),
        None
    );
    // A keyword alone on its line is no directive at all.
    assert_eq!(
        find_trusted_user_ca_keys("TrustedUserCAKeys\nTrustedUserCAKeys /a\n").as_deref(),
        Some("/a")
    );
}

#[test]
fn dropin_configures_exactly_the_paths_a_directive_can_carry() {
    for path in ["/a", "/a b", "a=b", "\u{e9}"] {
        assert_eq!(
            find_trusted_user_ca_keys(&render_dropin(path)).as_deref(),
            Some(path)
        );
    }
    for path in ["", " /a", "/a ", "=/a", "/a\n/b", "/a\r"] {
        assert_ne!(
            find_trusted_user_ca_keys(&render_dropin(path)).as_deref(),
            Some(path)
        );
    }
}

#[test]
fn trailing_slashes_of_the_directory_do_not_matter() {
    let text = "Include /etc/ssh/sshd_config.d//*.conf\n";
    for dir in [
        "/etc/ssh/sshd_config.d",
        "/etc/ssh/sshd_config.d/",
        "/etc/ssh/sshd_config.d///",
    ] {
        assert!(includes_dropin_dir(text, dir));
    }
    assert!(!includes_dropin_dir(text, "/etc/ssh"));
}

#[test]
fn include_without_a_slash_names_the_directory_itself() {
    assert!(includes_dropin_dir("Include conf.d\n", "conf.d"));
    assert!(!includes_dropin_dir("Include\n", ""));
    assert!(!includes_dropin_dir("Includes /a/b\n", "/a"));
    assert!(includes_dropin_dir("\tINCLUDE\t/a/b\r\n", "/a"));
}
