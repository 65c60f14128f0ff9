use imap_next::proxy::config::{
    default_imap_port, default_imaps_port, Bind, Config, Connect, Identity, Service,
};
use imap_next::proxy::util::{
    filter_capabilities, is_auth_mechanism_proxyable, is_capability_supported, single_key,
    AuthMechanism, Capability, IdentityError,
};

#[test]
fn default_ports() {
    assert_eq!(default_imap_port(), 143);
    assert_eq!(default_imaps_port(), 993);
}

#[test]
fn addr_port_and_display() {
    let bind = Bind::Insecure { host: "127.0.0.1".into(), port: 1143 };
    assert_eq!(bind.addr_port(), "127.0.0.1:1143");
    assert_eq!(bind.display_string(), "imap://127.0.0.1:1143 (insecure)");

    let bind = Bind::Tls {
        host: "127.0.0.1".into(),
        port: 1993,
        identity: Identity::CertificateChainAndLeafKey {
            certificate_chain_path: "localhost.pem".into(),
            leaf_key_path: "localhost-key.pem".into(),
        },
    };
    assert_eq!(bind.addr_port(), "127.0.0.1:1993");
    assert_eq!(bind.display_string(), "imaps://127.0.0.1:1993 (TLS)");

    let connect = Connect::Tls { host: "imap.example.org".into(), port: 993 };
    assert_eq!(connect.addr_port(), "imap.example.org:993");
    assert_eq!(connect.display_string(), "imaps://imap.example.org:993 (TLS)");

    let connect = Connect::Insecure { host: "127.0.0.1".into(), port: 0 };
    assert_eq!(connect.addr_port(), "127.0.0.1:0");
    assert_eq!(connect.display_string(), "imap://127.0.0.1:0 (insecure)");

    let connect = Connect::Insecure { host: "".into(), port: 65535 };
    assert_eq!(connect.addr_port(), ":65535");
}

#[test]
fn config_values() {
    let config = Config {
        services: vec![Service {
            name: "My Email Provider".into(),
            bind: Bind::Insecure { host: "127.0.0.1".into(), port: 1143 },
            connect: Connect::Tls { host: "imap.example.org".into(), port: 993 },
        }],
    };
    assert_eq!(config.clone(), config);
    assert_eq!(config.services[0].bind.addr_port(), "127.0.0.1:1143");
}

#[test]
fn auth_mechanisms_proxyable() {
    assert!(is_auth_mechanism_proxyable(&AuthMechanism::Plain));
    assert!(is_auth_mechanism_proxyable(&AuthMechanism::Login));
    assert!(is_auth_mechanism_proxyable(&AuthMechanism::XOAuth2));
    assert!(is_auth_mechanism_proxyable(&AuthMechanism::ScramSha1));
    assert!(is_auth_mechanism_proxyable(&AuthMechanism::ScramSha256));
    assert!(!is_auth_mechanism_proxyable(&AuthMechanism::ScramSha1Plus));
    assert!(!is_auth_mechanism_proxyable(&AuthMechanism::ScramSha256Plus));
    assert!(!is_auth_mechanism_proxyable(&AuthMechanism::Other("GSSAPI".into())));
}

#[test]
fn capabilities_supported() {
    assert!(is_capability_supported(&Capability::Imap4Rev1));
    assert!(is_capability_supported(&Capability::QuotaRes("STORAGE".into())));
    assert!(is_capability_supported(&Capability::Idle));
    assert!(!is_capability_supported(&Capability::Auth(AuthMechanism::ScramSha256Plus)));
    assert!(!is_capability_supported(&Capability::Other("STARTTLS".into())));
}

#[test]
fn capabilities_filtered() {
    let input = vec![
        Capability::Other("STARTTLS".into()),
        Capability::Imap4Rev1,
        Capability::Auth(AuthMechanism::Plain),
        Capability::Auth(AuthMechanism::ScramSha1Plus),
        Capability::Other("ENABLE".into()),
        Capability::Idle,
        Capability::LiteralPlus,
    ];
    let expected = vec![
        Capability::Imap4Rev1,
        Capability::Auth(AuthMechanism::Plain),
        Capability::Idle,
        Capability::LiteralPlus,
    ];
    let filtered = filter_capabilities(input);
    assert_eq!(filtered, expected);
    // Filtering again changes nothing.
    assert_eq!(filter_capabilities(filtered), expected);
}

#[test]
fn capabilities_fallback() {
    assert_eq!(
        filter_capabilities(vec![Capability::Other("X-UNKNOWN".into())]),
        vec![Capability::Imap4Rev1]
    );
    assert_eq!(filter_capabilities(vec![]), vec![Capability::Imap4Rev1]);
}

#[test]
fn leaf_key_count() {
    assert_eq!(single_key(vec![7u8], "key.pem".into()).unwrap(), 7);
    match single_key::<u8>(vec![], "key.pem".into()) {
        Err(IdentityError::UnexpectedKeyCount { path, found }) => {
            assert_eq!(path, "key.pem");
            assert_eq!(found, 0);
        }
        _ => panic!("expected UnexpectedKeyCount"),
    }
    match single_key(vec![1u8, 2u8], "keys.pem".into()) {
        Err(IdentityError::UnexpectedKeyCount { path, found }) => {
            assert_eq!(path, "keys.pem");
            assert_eq!(found, 2);
        }
        _ => panic!("expected UnexpectedKeyCount"),
    }
}
