use transducer_agent::spiffe_auth::{
    allows_no_auth, concatenate, connection_plan, from_token, pem_blocks, AuthError,
    SpiffeCredentials, TlsConfig, TransducerCredentials, TrustBundle, WorkloadReply, X509Context,
    X509Svid, REFRESH_INTERVAL_SECS,
};

fn unavailable() -> Result<SpiffeCredentials, AuthError> {
    SpiffeCredentials::fetch(WorkloadReply::NotConnected("no socket".to_string()))
}

fn context(spiffe_id: &str) -> X509Context {
    X509Context {
        default_svid: Some(X509Svid {
            spiffe_id: spiffe_id.to_string(),
            cert_chain: vec![vec![1, 2, 3], vec![4]],
            private_key: vec![5, 6],
        }),
        bundles: vec![
            TrustBundle { trust_domain: "other.org".to_string(), authorities: vec![vec![9]] },
            TrustBundle {
                trust_domain: "example.org".to_string(),
                authorities: vec![vec![7], vec![8]],
            },
        ],
    }
}

fn credentials() -> SpiffeCredentials {
    SpiffeCredentials::fetch(WorkloadReply::Fetched(context("spiffe://example.org/agent"))).unwrap()
}

fn block(tag: &str, contents: &[u8]) -> String {
    pem::encode(&pem::Pem::new(tag, contents))
}

#[test]
fn test_credentials_identity() {
    let creds = TransducerCredentials::Token("test-token".to_string());
    assert!(creds.identity().is_none());

    let creds = TransducerCredentials::NoAuth;
    assert!(creds.identity().is_none());
}

#[test]
fn test_credentials_is_spiffe() {
    let creds = TransducerCredentials::Token("test".to_string());
    assert!(!creds.is_spiffe());

    let creds = TransducerCredentials::NoAuth;
    assert!(!creds.is_spiffe());
}

#[test]
fn h6_strict_with_no_creds_returns_err() {
    let r = TransducerCredentials::strict(unavailable(), None);
    assert!(
        r.is_err(),
        "strict() must Err when no SPIFFE socket and no TRANSDUCER_AUTH_TOKEN"
    );
}

#[test]
fn h6_strict_with_token_returns_ok() {
    let r = TransducerCredentials::strict(unavailable(), Some("h6-test-token-value".to_string()));
    match r {
        Ok(TransducerCredentials::Token(t)) => {
            assert_eq!(t, "h6-test-token-value");
        }
        Ok(_) => panic!("expected Ok(Token)"),
        Err(e) => panic!("expected Ok(Token), got Err: {}", e.message()),
    }
}

#[test]
fn h6_strict_err_message_lists_all_remediation_paths() {
    let err_msg = match TransducerCredentials::strict(unavailable(), None) {
        Ok(_) => panic!("strict() must Err with no creds available"),
        Err(e) => e.message(),
    };
    assert!(err_msg.contains("SPIFFE_ENDPOINT_SOCKET"));
    assert!(err_msg.contains("TRANSDUCER_AUTH_TOKEN"));
    assert!(
        err_msg.contains("TRANSDUCER_ALLOW_NO_AUTH") || err_msg.contains("--disable-spiffe")
    );
    assert_eq!(
        err_msg,
        "Pa.Spiffe.Audit.H6: refusing to start without authentication. \
         Neither SPIRE socket (SPIFFE_ENDPOINT_SOCKET) nor token \
         (TRANSDUCER_AUTH_TOKEN) is available. To run without \
         authentication explicitly (insecure; local dev only), set \
         TRANSDUCER_ALLOW_NO_AUTH=1 or pass --disable-spiffe."
    );
}

#[test]
fn h7_auto_with_no_spire_socket_returns_none() {
    let creds = TransducerCredentials::auto(unavailable(), None);
    assert!(matches!(creds, TransducerCredentials::NoAuth));
}

#[test]
fn h7_auto_with_empty_token_env_does_not_use_it() {
    let creds = TransducerCredentials::auto(unavailable(), Some("".to_string()));
    assert!(matches!(creds, TransducerCredentials::NoAuth));
}

#[test]
fn h7_auto_with_token_but_no_spire_returns_token() {
    match TransducerCredentials::auto(unavailable(), Some("h7-test-token-value".to_string())) {
        TransducerCredentials::Token(t) => assert_eq!(t, "h7-test-token-value"),
        TransducerCredentials::Spiffe(_) => panic!("expected Token, got Spiffe"),
        TransducerCredentials::NoAuth => panic!("expected Token, got no authentication"),
    }
}

#[test]
fn h7_connect_with_none_creds_fails_on_invalid_endpoint() {
    let creds = TransducerCredentials::NoAuth;
    let r = creds.connect("not-a-valid-url://", "some.trust.domain");
    assert!(r.is_err(), "connect() must Err on invalid endpoint URL");
    assert_eq!(r.err().unwrap().message(), "Invalid endpoint URL");
}

#[test]
fn spiffe_goes_first() {
    let creds = TransducerCredentials::auto(Ok(credentials()), Some("token".to_string()));
    assert!(creds.is_spiffe());
    assert_eq!(creds.identity(), Some("spiffe://example.org/agent".to_string()));
    assert!(TransducerCredentials::strict(Ok(credentials()), None).unwrap().is_spiffe());
}

#[test]
fn startup_needs_leave_to_do_without_authentication() {
    assert!(TransducerCredentials::at_startup(Some(unavailable()), None, false).is_err());
    assert!(TransducerCredentials::at_startup(Some(unavailable()), Some("".to_string()), false)
        .is_err());
    assert!(matches!(
        TransducerCredentials::at_startup(Some(unavailable()), None, true),
        Ok(TransducerCredentials::NoAuth)
    ));
    assert!(matches!(
        TransducerCredentials::at_startup(None, None, false),
        Ok(TransducerCredentials::NoAuth)
    ));
    assert!(matches!(
        TransducerCredentials::at_startup(None, Some("t".to_string()), false),
        Ok(TransducerCredentials::Token(_))
    ));
    assert!(matches!(
        TransducerCredentials::at_startup(Some(Ok(credentials())), Some("t".to_string()), false),
        Ok(TransducerCredentials::Spiffe(_))
    ));
}

#[test]
fn leave_is_given_by_one() {
    assert!(allows_no_auth(Some("1")));
    assert!(!allows_no_auth(Some("true")));
    assert!(!allows_no_auth(Some("")));
    assert!(!allows_no_auth(None));
}

#[test]
fn token_may_be_missing() {
    assert!(matches!(from_token(None), TransducerCredentials::NoAuth));
    assert!(matches!(from_token(Some("".to_string())), TransducerCredentials::NoAuth));
    assert!(matches!(from_token(Some("t".to_string())), TransducerCredentials::Token(_)));
}

#[test]
fn fetch_tells_what_went_wrong() {
    let message = |reply: WorkloadReply| SpiffeCredentials::fetch(reply).err().unwrap().message();
    assert_eq!(
        message(WorkloadReply::NotConnected("x".to_string())),
        "Failed to connect to SPIFFE workload API: x"
    );
    assert_eq!(
        message(WorkloadReply::NotFetched("x".to_string())),
        "Failed to fetch X.509 context: x"
    );
    assert_eq!(
        message(WorkloadReply::Fetched(X509Context { default_svid: None, bundles: vec![] })),
        "No default SVID in X.509 context"
    );
}

#[test]
fn tls_config_is_made_of_the_svid_and_the_bundle() {
    let tls = credentials().to_tls_config("example.org").unwrap();
    assert_eq!(tls.domain_name, "example.org");
    assert_eq!(tls.ca_pem, block("CERTIFICATE", &[7]) + &block("CERTIFICATE", &[8]));
    assert_eq!(tls.cert_pem, block("CERTIFICATE", &[1, 2, 3]) + &block("CERTIFICATE", &[4]));
    assert_eq!(tls.key_pem, block("PRIVATE KEY", &[5, 6]));
    let chain = pem::parse_many(tls.cert_pem.as_bytes()).unwrap();
    assert_eq!(chain.len(), 2);
    assert_eq!(chain[0].tag(), "CERTIFICATE");
    assert_eq!(chain[0].contents(), &[1, 2, 3]);
}

#[test]
fn trust_domain_may_be_given_by_an_id() {
    let tls = credentials().to_tls_config("spiffe://example.org/server").unwrap();
    assert_eq!(tls.domain_name, "spiffe://example.org/server");
    assert_eq!(tls.ca_pem, block("CERTIFICATE", &[7]) + &block("CERTIFICATE", &[8]));
}

#[test]
fn tls_config_tells_what_is_missing() {
    let message =
        |domain: &str| credentials().to_tls_config(domain).err().unwrap().message();
    assert_eq!(message("nowhere.org"), "No bundle for trust domain nowhere.org");
    assert_eq!(message("spiffe://nowhere.org/x"), "No bundle for trust domain nowhere.org");
    assert_eq!(message(""), "Invalid trust domain: trust domain is missing");
    assert_eq!(message("spiffe://"), "Invalid trust domain: trust domain is missing");
    assert_eq!(message("spiffe:///x"), "Invalid trust domain: trust domain is missing");
    assert_eq!(
        message("https://example.org"),
        "Invalid trust domain: scheme is missing or invalid"
    );
    assert_eq!(
        message(&format!("spiffe://example.org/{}", "x".repeat(2048))),
        "Invalid trust domain: SPIFFE ID URI exceeds maximum length (2048 bytes)"
    );
    let bad = "Invalid trust domain: trust domain characters are limited to lowercase letters, \
               numbers, dots, dashes, and underscores";
    assert_eq!(message("Not A Domain"), bad);
    assert_eq!(message("spiffe://Example.org/x"), bad);
    assert_eq!(message("a:b"), bad);
    let mut bare = credentials();
    assert!(bare
        .refresh(WorkloadReply::Fetched(X509Context { default_svid: None, bundles: vec![] }))
        .is_ok());
    assert_eq!(
        bare.to_tls_config("").err().unwrap().message(),
        "No default SVID available"
    );
}

#[test]
fn refresh_keeps_the_identity() {
    let mut creds = credentials();
    assert_eq!(REFRESH_INTERVAL_SECS, 300);
    assert!(creds.refresh(WorkloadReply::Fetched(context("spiffe://example.org/new"))).is_ok());
    assert_eq!(creds.spiffe_id(), "spiffe://example.org/agent");
    assert_eq!(
        creds.refresh(WorkloadReply::NotConnected("x".to_string())).err().unwrap().message(),
        "Failed to reconnect to workload API: x"
    );
    assert_eq!(
        creds.refresh(WorkloadReply::NotFetched("x".to_string())).err().unwrap().message(),
        "Failed to fetch refreshed context: x"
    );
    assert!(creds.to_tls_config("example.org").is_ok());
}

#[test]
fn credentials_can_be_cloned() {
    let creds = TransducerCredentials::Spiffe(credentials());
    assert_eq!(creds.clone().identity(), creds.identity());
    let token = TransducerCredentials::Token("t".to_string());
    assert!(matches!(token.clone(), TransducerCredentials::Token(t) if t == "t"));
}

#[test]
fn channel_fits_the_credentials() {
    let plan = TransducerCredentials::Spiffe(credentials())
        .connect("https://daemon.internal:4003", "example.org")
        .unwrap();
    assert_eq!(plan.endpoint, "https://daemon.internal:4003");
    assert!(plan.tls.is_some());
    assert!(plan.authorization.is_none());

    let plan = TransducerCredentials::Token("secret".to_string())
        .connect("http://localhost:4003", "not a domain")
        .unwrap();
    assert!(plan.tls.is_none());
    assert_eq!(plan.authorization, Some("Bearer secret".to_string()));

    let plan = TransducerCredentials::NoAuth.connect("http://localhost:4003", "").unwrap();
    assert!(plan.tls.is_none());
    assert!(plan.authorization.is_none());
}

#[test]
fn missing_bundle_is_noticed_before_a_bad_address() {
    let creds = TransducerCredentials::Spiffe(credentials());
    assert_eq!(
        creds.connect("not a url", "nowhere.org").err().unwrap().message(),
        "No bundle for trust domain nowhere.org"
    );
    assert_eq!(
        creds.connect("not a url", "example.org").err().unwrap().message(),
        "Invalid endpoint URL"
    );
    assert_eq!(
        TransducerCredentials::Token("t".to_string())
            .connect("not a url", "")
            .err().unwrap()
            .message(),
        "Invalid endpoint URL"
    );
}

#[test]
fn plan_depends_on_the_address() {
    let tls = || TlsConfig {
        domain_name: "d".to_string(),
        ca_pem: "c".to_string(),
        cert_pem: "e".to_string(),
        key_pem: "k".to_string(),
    };
    let plan = connection_plan("x", Some(tls()), None, true).unwrap();
    assert_eq!(plan.endpoint, "x");
    assert_eq!(plan.tls.unwrap().key_pem, "k");
    assert!(matches!(
        connection_plan("x", Some(tls()), None, false),
        Err(AuthError::InvalidEndpoint)
    ));
}

#[test]
fn blocks_are_joined_in_order() {
    let blocks = pem_blocks("X", &vec![vec![1, 2, 3], vec![]]);
    assert_eq!(blocks, vec![block("X", &[1, 2, 3]), block("X", &[])]);
    assert_eq!(concatenate(&blocks), block("X", &[1, 2, 3]) + &block("X", &[]));
    assert_eq!(concatenate(&vec![]), "");
    assert!(blocks[0].contains("AQID"));
}
