//! Secrets do not show themselves.
use ktesio_engine::secret::{SecretString, REDACTED};

/// A secret where it is printed.
struct Printed(SecretString);

impl std::fmt::Display for Printed {
    fn fmt(&self, f: &mut std::fmt::Formatter<'_>) -> std::fmt::Result {
        f.write_str(self.0.redacted())
    }
}

impl std::fmt::Debug for Printed {
    fn fmt(&self, f: &mut std::fmt::Formatter<'_>) -> std::fmt::Result {
        f.write_str(self.0.redacted())
    }
}

#[test]
fn display_and_debug_redact_never_the_cleartext() {
    let s = Printed(SecretString::new("s3cr3t-sentinel".to_string()));
    assert_eq!(format!("{s}"), REDACTED);
    assert_eq!(format!("{s:?}"), REDACTED);
    assert!(!format!("{s}").contains("s3cr3t-sentinel"));
    assert!(!format!("{s:?}").contains("s3cr3t-sentinel"));
}

#[test]
fn expose_secret_returns_the_cleartext() {
    let s = SecretString::new("s3cr3t-sentinel".to_string());
    assert_eq!(s.expose_secret(), "s3cr3t-sentinel");
}

#[derive(Debug)]
#[allow(dead_code)]
struct Launch {
    exec: String,
    token: Printed,
}

#[test]
fn a_struct_embedding_a_secret_does_not_leak_via_debug() {
    let launch = Launch {
        exec: "the-agent".to_string(),
        token: Printed(SecretString::new("s3cr3t-sentinel".to_string())),
    };
    let dumped = format!("{launch:?}");
    assert!(dumped.contains("the-agent"), "non-secret fields still show");
    assert!(
        !dumped.contains("s3cr3t-sentinel"),
        "the embedded secret must be redacted in a derived Debug: {dumped}"
    );
    assert!(dumped.contains(REDACTED), "the redaction token appears: {dumped}");
}

#[test]
fn secret_string_equality_is_by_cleartext() {
    assert!(SecretString::new("a".to_string()) == SecretString::new("a".to_string()));
    assert!(SecretString::new("a".to_string()) != SecretString::new("b".to_string()));
}

#[test]
fn every_secret_is_shown_the_same() {
    let short = SecretString::new("".to_string());
    let long = SecretString::new("correct horse battery staple".to_string());
    assert_eq!(short.redacted(), long.redacted());
    assert_eq!(short.redacted(), "[REDACTED]");
}
