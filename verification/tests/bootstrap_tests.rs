use obt_server::bootstrap::{
    startup_outcome, ListenAddress, Outcome, Recovery, Scheme, ServerConfig, Setting, Startup,
};

fn config(
    listen: Setting<ListenAddress>,
    certificate: Setting<String>,
    key: Setting<String>,
    tls: Setting<bool>,
) -> ServerConfig {
    ServerConfig { listen, certificate, key, work_dir: None, tls }
}

fn default_paths(tls: Setting<bool>) -> ServerConfig {
    config(
        Setting::Unset,
        Setting::Default("./obt-wilds.crt".to_string()),
        Setting::Default("./obt-wilds.key".to_string()),
        tls,
    )
}

fn address(host: &str, port: u16) -> ListenAddress {
    ListenAddress { host: host.to_string(), port }
}

#[test]
fn no_credentials_and_no_request_starts_plaintext() {
    let c = config(Setting::Unset, Setting::Unset, Setting::Unset, Setting::Unset);
    assert!(!c.tls_requested());
    assert!(!c.tls_explicit());
    match c.first_step() {
        Startup::Plaintext { address } => {
            assert_eq!(address.host, "127.0.0.1");
            assert_eq!(address.port, 80);
        },
        other => panic!("expected plaintext, got {:?}", other),
    }
    assert_eq!(startup_outcome(&c, false), Outcome::ServingPlaintext);
    assert_eq!(startup_outcome(&c, true), Outcome::ServingPlaintext);
}

#[test]
fn default_credentials_that_fail_fall_back_to_plaintext() {
    let c = default_paths(Setting::Default(true));
    assert!(c.tls_requested());
    assert!(!c.tls_explicit());
    match c.first_step() {
        Startup::Tls { address, certificate, key } => {
            assert_eq!(address.host, "127.0.0.1");
            assert_eq!(address.port, 443);
            assert_eq!(certificate.as_deref(), Some("./obt-wilds.crt"));
            assert_eq!(key.as_deref(), Some("./obt-wilds.key"));
        },
        other => panic!("expected TLS, got {:?}", other),
    }
    match c.after_tls_failure() {
        Recovery::Plaintext { address } => {
            assert_eq!(address.host, "127.0.0.1");
            assert_eq!(address.port, 80);
        },
        other => panic!("expected the fallback, got {:?}", other),
    }
    assert_eq!(startup_outcome(&c, false), Outcome::ServingPlaintext);
    assert_eq!(startup_outcome(&c, true), Outcome::ServingTls);
}

#[test]
fn explicit_certificate_makes_failure_fatal() {
    let c = config(
        Setting::Unset,
        Setting::Explicit("/etc/obt/server.crt".to_string()),
        Setting::Default("./obt-wilds.key".to_string()),
        Setting::Unset,
    );
    assert!(c.tls_explicit());
    assert!(matches!(c.first_step(), Startup::Tls { .. }));
    assert!(matches!(c.after_tls_failure(), Recovery::Abort));
    assert_eq!(startup_outcome(&c, false), Outcome::Aborted);
    assert_eq!(startup_outcome(&c, true), Outcome::ServingTls);
}

#[test]
fn explicit_key_makes_failure_fatal() {
    let c = config(
        Setting::Unset,
        Setting::Unset,
        Setting::Explicit("/etc/obt/server.key".to_string()),
        Setting::Unset,
    );
    assert!(c.tls_explicit());
    match c.first_step() {
        Startup::Tls { certificate, key, .. } => {
            assert_eq!(certificate, None);
            assert_eq!(key.as_deref(), Some("/etc/obt/server.key"));
        },
        other => panic!("expected TLS, got {:?}", other),
    }
    assert_eq!(startup_outcome(&c, false), Outcome::Aborted);
}

#[test]
fn explicit_tls_flag_makes_failure_fatal() {
    let c = config(Setting::Unset, Setting::Unset, Setting::Unset, Setting::Explicit(true));
    assert!(c.tls_requested());
    assert!(matches!(c.first_step(), Startup::Tls { certificate: None, key: None, .. }));
    assert_eq!(startup_outcome(&c, false), Outcome::Aborted);
    let d = default_paths(Setting::Explicit(true));
    assert_eq!(startup_outcome(&d, false), Outcome::Aborted);
    assert_eq!(startup_outcome(&d, true), Outcome::ServingTls);
}

#[test]
fn disabled_tls_listens_in_plaintext_whatever_else_is_given() {
    for tls in [Setting::Explicit(false), Setting::Default(false)] {
        let c = config(
            Setting::Unset,
            Setting::Explicit("/etc/obt/server.crt".to_string()),
            Setting::Explicit("/etc/obt/server.key".to_string()),
            tls,
        );
        assert!(!c.tls_enabled());
        assert!(!c.tls_requested());
        assert!(matches!(c.first_step(), Startup::Plaintext { .. }));
        assert_eq!(startup_outcome(&c, true), Outcome::ServingPlaintext);
        assert_eq!(startup_outcome(&c, false), Outcome::ServingPlaintext);
    }
}

#[test]
fn explicit_address_is_used_for_both_schemes() {
    let c = config(
        Setting::Explicit(address("0.0.0.0", 8443)),
        Setting::Default("./obt-wilds.crt".to_string()),
        Setting::Default("./obt-wilds.key".to_string()),
        Setting::Unset,
    );
    let tls = c.address(Scheme::Tls);
    assert_eq!((tls.host.as_str(), tls.port), ("0.0.0.0", 8443));
    let plain = c.address(Scheme::Plaintext);
    assert_eq!((plain.host.as_str(), plain.port), ("0.0.0.0", 8443));
    match c.after_tls_failure() {
        Recovery::Plaintext { address } => assert_eq!((address.host.as_str(), address.port), ("0.0.0.0", 8443)),
        other => panic!("expected the fallback, got {:?}", other),
    }
}

#[test]
fn defaulted_address_takes_the_port_of_the_scheme() {
    let c = config(Setting::Default(address("localhost", 443)), Setting::Unset, Setting::Unset, Setting::Unset);
    let tls = c.address(Scheme::Tls);
    assert_eq!((tls.host.as_str(), tls.port), ("localhost", 443));
    let plain = c.address(Scheme::Plaintext);
    assert_eq!((plain.host.as_str(), plain.port), ("localhost", 80));
    let unset = config(Setting::Unset, Setting::Unset, Setting::Unset, Setting::Unset);
    let tls = unset.address(Scheme::Tls);
    assert_eq!((tls.host.as_str(), tls.port), ("127.0.0.1", 443));
}
