//! The `TrustedUserCAKeys` file.

use mayfly_helper::errors::{Error, TrustedCaError};
use mayfly_helper::ssh::trusted_ca::{
    is_allowed_algorithm, is_valid_base64, CaPublicKey, TrustedCaKeys,
};

/// A syntactically valid base64 blob (68 chars, multiple of 4).
fn blob() -> String {
    "A".repeat(68)
}

#[test]
fn parses_single_ed25519_key() {
    let line = format!("ssh-ed25519 {}", blob());
    let key = CaPublicKey::parse(&line).unwrap();
    assert_eq!(key.algorithm(), "ssh-ed25519");
    assert_eq!(key.key_data(), blob());
    assert_eq!(key.comment(), None);
}

#[test]
fn parses_key_with_comment() {
    let line = format!("ssh-ed25519 {} mayfly root ca", blob());
    let key = CaPublicKey::parse(&line).unwrap();
    assert_eq!(key.comment(), Some("mayfly root ca"));
}

#[test]
fn rejects_disallowed_algorithm() {
    let line = format!("ssh-dss {}", blob());
    assert_eq!(
        CaPublicKey::parse(&line).unwrap_err(),
        TrustedCaError::DisallowedAlgorithm
    );
}

#[test]
fn rejects_malformed_single_field() {
    assert_eq!(
        CaPublicKey::parse("ssh-ed25519").unwrap_err(),
        TrustedCaError::Malformed
    );
}

#[test]
fn rejects_invalid_base64() {
    // Contains an illegal '*' and wrong length.
    let line = "ssh-ed25519 not*base64";
    assert_eq!(
        CaPublicKey::parse(line).unwrap_err(),
        TrustedCaError::InvalidEncoding
    );
}

#[test]
fn rejects_control_characters() {
    let line = format!("ssh-ed25519 {}\t\u{7}", blob());
    assert_eq!(
        CaPublicKey::parse(&line).unwrap_err(),
        TrustedCaError::IllegalCharacter
    );
}

#[test]
fn base64_validator_rules() {
    assert!(is_valid_base64("AAAA"));
    assert!(is_valid_base64("AAA="));
    assert!(is_valid_base64("AA=="));
    assert!(!is_valid_base64(""));
    assert!(!is_valid_base64("AAA")); // not multiple of 4
    assert!(!is_valid_base64("A===")); // too much padding
    assert!(!is_valid_base64("AA=A")); // padding not at end
    assert!(!is_valid_base64("AAA*")); // illegal char
}

#[test]
fn parses_multi_key_file_ignoring_blanks_and_comments() {
    let contents = format!(
        "# Mayfly trusted CAs\n\nssh-ed25519 {b} primary\n   \nssh-rsa {b}\n# trailing comment\n",
        b = blob()
    );
    let keys = TrustedCaKeys::parse(&contents).unwrap();
    assert_eq!(keys.len(), 2);
    assert_eq!(keys.keys()[0].algorithm(), "ssh-ed25519");
    assert_eq!(keys.keys()[0].comment(), Some("primary"));
    assert_eq!(keys.keys()[1].algorithm(), "ssh-rsa");
}

#[test]
fn empty_file_is_valid_and_empty() {
    let keys = TrustedCaKeys::parse("\n\n# only comments\n").unwrap();
    assert!(keys.is_empty());
    assert_eq!(keys.len(), 0);
    assert_eq!(keys.render(), "");
}

#[test]
fn file_with_one_bad_entry_is_rejected() {
    let contents = format!("ssh-ed25519 {}\nssh-dss {}\n", blob(), blob());
    assert!(matches!(
        TrustedCaKeys::parse(&contents).unwrap_err(),
        Error::InvalidTrustedCa(TrustedCaError::DisallowedAlgorithm)
    ));
}

#[test]
fn render_round_trips_through_parse() {
    let contents = format!("ssh-ed25519 {b} primary\nssh-rsa {b}\n", b = blob());
    let keys = TrustedCaKeys::parse(&contents).unwrap();
    let rendered = keys.render();
    let reparsed = TrustedCaKeys::parse(&rendered).unwrap();
    assert_eq!(keys, reparsed);
}

#[test]
fn single_key_render_round_trips() {
    let line = format!("ssh-ed25519 {} some comment", blob());
    let key = CaPublicKey::parse(&line).unwrap();
    assert_eq!(CaPublicKey::parse(&key.render()).unwrap(), key);
}

#[test]
fn empty_line_is_rejected() {
    for line in ["", "   ", "\u{3000}"] {
        assert_eq!(CaPublicKey::parse(line).unwrap_err(), TrustedCaError::Empty);
    }
}

#[test]
fn algorithm_allow_list_is_exact() {
    for name in [
        "ssh-ed25519",
        "ssh-rsa",
        "rsa-sha2-256",
        "rsa-sha2-512",
        "ecdsa-sha2-nistp256",
        "ecdsa-sha2-nistp384",
        "ecdsa-sha2-nistp521",
        "sk-ssh-ed25519@openssh.com",
        "sk-ecdsa-sha2-nistp256@openssh.com",
    ] {
        let chars: Vec<char> = name.chars().collect();
        assert!(is_allowed_algorithm(&chars), "{name}");
        let line = format!("{name} {}", blob());
        assert_eq!(CaPublicKey::parse(&line).unwrap().algorithm(), name);
    }
    for name in ["ssh-dss", "SSH-RSA", "ssh-ed25519 ", ""] {
        let chars: Vec<char> = name.chars().collect();
        assert!(!is_allowed_algorithm(&chars), "{name}");
    }
}

#[test]
fn render_is_canonical() {
    let line = format!("  ssh-rsa   {}   a  comment  ", blob());
    let key = CaPublicKey::parse(&line).unwrap();
    assert_eq!(key.comment(), Some("a  comment"));
    assert_eq!(key.render(), format!("ssh-rsa {} a  comment", blob()));
}

#[test]
fn file_render_ends_every_line() {
    let contents = format!("ssh-rsa {b} one\r\n#x\nssh-ed25519 {b}", b = blob());
    let keys = TrustedCaKeys::parse(&contents).unwrap();
    assert_eq!(
        keys.render(),
        format!("ssh-rsa {b} one\nssh-ed25519 {b}\n", b = blob())
    );
}

#[test]
fn first_bad_entry_decides_the_error() {
    let contents = format!("ssh-rsa {b}\nssh-rsa\nssh-dss {b}\n", b = blob());
    assert!(matches!(
        TrustedCaKeys::parse(&contents).unwrap_err(),
        Error::InvalidTrustedCa(TrustedCaError::Malformed)
    ));
}

#[test]
fn default_file_is_empty() {
    assert!(TrustedCaKeys::default().is_empty());
}
