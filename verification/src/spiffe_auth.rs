//! Authentication of the agent towards the orchestrator: by an X.509 SVID from
//! the local SPIRE agent, by a bearer token, or not at all.

use crate::outside::{endpoint_is_valid, parse_trust_domain, pem_block};
use crate::text::same_text;
use vstd::prelude::*;
use vstd::string::*;

verus! {

/// Seconds between two refreshes of the X.509 context.
pub const REFRESH_INTERVAL_SECS: u64 = 300;

/// An X.509 SVID: the agent's SPIFFE ID with the certificates and the private
/// key that prove it, in DER.
#[derive(Clone)]
pub struct X509Svid {
    pub spiffe_id: String,
    pub cert_chain: Vec<Vec<u8>>,
    pub private_key: Vec<u8>,
}

/// The contents of an [`X509Svid`].
pub struct X509SvidView {
    pub spiffe_id: Seq<char>,
    pub cert_chain: Seq<Seq<u8>>,
    pub private_key: Seq<u8>,
}

impl View for X509Svid {
    type V = X509SvidView;

    open spec fn view(&self) -> X509SvidView {
        X509SvidView {
            spiffe_id: self.spiffe_id@,
            cert_chain: self.cert_chain.deep_view(),
            private_key: self.private_key@,
        }
    }
}

/// The authorities of a trust domain, as certificates in DER.
#[derive(Clone)]
pub struct TrustBundle {
    pub trust_domain: String,
    pub authorities: Vec<Vec<u8>>,
}

/// The contents of a [`TrustBundle`].
pub struct TrustBundleView {
    pub trust_domain: Seq<char>,
    pub authorities: Seq<Seq<u8>>,
}

impl View for TrustBundle {
    type V = TrustBundleView;

    open spec fn view(&self) -> TrustBundleView {
        TrustBundleView {
            trust_domain: self.trust_domain@,
            authorities: self.authorities.deep_view(),
        }
    }
}

/// What the workload API hands out: the agent's default SVID, if it has one,
/// and the trust bundles that it knows, one for each trust domain.
#[derive(Clone)]
pub struct X509Context {
    pub default_svid: Option<X509Svid>,
    pub bundles: Vec<TrustBundle>,
}

/// The contents of an [`X509Context`].
pub struct X509ContextView {
    pub default_svid: Option<X509SvidView>,
    pub bundles: Seq<TrustBundleView>,
}

/// The contents of an SVID, where there is one.
pub open spec fn svid_contents(svid: Option<X509Svid>) -> Option<X509SvidView> {
    match svid {
        Some(svid) => Some(svid@),
        None => None,
    }
}

impl View for X509Context {
    type V = X509ContextView;

    open spec fn view(&self) -> X509ContextView {
        X509ContextView {
            default_svid: svid_contents(self.default_svid),
            bundles: self.bundles@.map_values(|bundle: TrustBundle| bundle@),
        }
    }
}

impl X509ContextView {
    /// There is one bundle for a trust domain at most.
    pub open spec fn wf(self) -> bool {
        forall|i: int, j: int|
            0 <= i < j < self.bundles.len() ==> (#[trigger] self.bundles[i]).trust_domain != (
            #[trigger] self.bundles[j]).trust_domain
    }
}

/// The authorities of a trust domain, where they are known.
pub open spec fn authorities_of(bundles: Seq<TrustBundleView>, trust_domain: Seq<char>) -> Option<
    Seq<Seq<u8>>,
>
    decreases bundles.len(),
{
    if bundles.len() == 0 {
        None
    } else if bundles[0].trust_domain == trust_domain {
        Some(bundles[0].authorities)
    } else {
        authorities_of(bundles.drop_first(), trust_domain)
    }
}

/// What came of asking the workload API.
pub enum WorkloadReply {
    /// It could not be reached.
    NotConnected(String),
    /// It did not answer.
    NotFetched(String),
    /// What it handed out.
    Fetched(X509Context),
}

/// Why the agent cannot authenticate itself.
#[derive(Debug)]
pub enum AuthError {
    /// The workload API could not be reached.
    NotConnected(String),
    /// The workload API handed out nothing.
    NotFetched(String),
    /// The workload API handed out no SVID.
    NoDefaultSvid,
    /// There is no SVID to show to the orchestrator.
    NoSvidAvailable,
    /// The trust domain of the orchestrator is not a trust domain.
    InvalidTrustDomain(String),
    /// The authorities of the orchestrator's trust domain are not known.
    NoBundle(String),
    /// The address of the orchestrator is not an address.
    InvalidEndpoint,
    /// The workload API could not be reached again.
    NotReconnected(String),
    /// The workload API handed out nothing new.
    NotRefreshed(String),
    /// There is nothing to authenticate with.
    NoCredentials,
}

/// The contents of an [`AuthError`].
pub enum AuthErrorView {
    NotConnected(Seq<char>),
    NotFetched(Seq<char>),
    NoDefaultSvid,
    NoSvidAvailable,
    InvalidTrustDomain(Seq<char>),
    NoBundle(Seq<char>),
    InvalidEndpoint,
    NotReconnected(Seq<char>),
    NotRefreshed(Seq<char>),
    NoCredentials,
}

impl View for AuthError {
    type V = AuthErrorView;

    open spec fn view(&self) -> AuthErrorView {
        match self {
            AuthError::NotConnected(why) => AuthErrorView::NotConnected(why@),
            AuthError::NotFetched(why) => AuthErrorView::NotFetched(why@),
            AuthError::NoDefaultSvid => AuthErrorView::NoDefaultSvid,
            AuthError::NoSvidAvailable => AuthErrorView::NoSvidAvailable,
            AuthError::InvalidTrustDomain(why) => AuthErrorView::InvalidTrustDomain(why@),
            AuthError::NoBundle(name) => AuthErrorView::NoBundle(name@),
            AuthError::InvalidEndpoint => AuthErrorView::InvalidEndpoint,
            AuthError::NotReconnected(why) => AuthErrorView::NotReconnected(why@),
            AuthError::NotRefreshed(why) => AuthErrorView::NotRefreshed(why@),
            AuthError::NoCredentials => AuthErrorView::NoCredentials,
        }
    }
}

/// What an agent without credentials says that can be done about it.
pub open spec fn no_credentials_text() -> Seq<char> {
    "Pa.Spiffe.Audit.H6: refusing to start without authentication. \
     Neither SPIRE socket (SPIFFE_ENDPOINT_SOCKET) nor token \
     (TRANSDUCER_AUTH_TOKEN) is available. To run without authentication \
     explicitly (insecure; local dev only), set TRANSDUCER_ALLOW_NO_AUTH=1 \
     or pass --disable-spiffe."@
}

/// What an error is reported as.
pub open spec fn auth_error_text(error: AuthErrorView) -> Seq<char> {
    match error {
        AuthErrorView::NotConnected(why) => "Failed to connect to SPIFFE workload API: "@ + why,
        AuthErrorView::NotFetched(why) => "Failed to fetch X.509 context: "@ + why,
        AuthErrorView::NoDefaultSvid => "No default SVID in X.509 context"@,
        AuthErrorView::NoSvidAvailable => "No default SVID available"@,
        AuthErrorView::InvalidTrustDomain(why) => "Invalid trust domain: "@ + why,
        AuthErrorView::NoBundle(name) => "No bundle for trust domain "@ + name,
        AuthErrorView::InvalidEndpoint => "Invalid endpoint URL"@,
        AuthErrorView::NotReconnected(why) => "Failed to reconnect to workload API: "@ + why,
        AuthErrorView::NotRefreshed(why) => "Failed to fetch refreshed context: "@ + why,
        AuthErrorView::NoCredentials => no_credentials_text(),
    }
}

impl AuthError {
    /// What the error is reported as.
    pub fn message(&self) -> (text: String)
        ensures
            text@ == auth_error_text(self@),
    {
        match self {
            AuthError::NotConnected(why) => "Failed to connect to SPIFFE workload API: ".to_string()
                .concat(why.as_str()),
            AuthError::NotFetched(why) => "Failed to fetch X.509 context: ".to_string().concat(
                why.as_str(),
            ),
            AuthError::NoDefaultSvid => "No default SVID in X.509 context".to_string(),
            AuthError::NoSvidAvailable => "No default SVID available".to_string(),
            AuthError::InvalidTrustDomain(why) => "Invalid trust domain: ".to_string().concat(
                why.as_str(),
            ),
            AuthError::NoBundle(name) => "No bundle for trust domain ".to_string().concat(
                name.as_str(),
            ),
            AuthError::InvalidEndpoint => "Invalid endpoint URL".to_string(),
            AuthError::NotReconnected(why) => "Failed to reconnect to workload API: ".to_string()
                .concat(why.as_str()),
            AuthError::NotRefreshed(why) => "Failed to fetch refreshed context: ".to_string().concat(
                why.as_str(),
            ),
            AuthError::NoCredentials => "Pa.Spiffe.Audit.H6: refusing to start without authentication. \
                Neither SPIRE socket (SPIFFE_ENDPOINT_SOCKET) nor token \
                (TRANSDUCER_AUTH_TOKEN) is available. To run without authentication \
                explicitly (insecure; local dev only), set TRANSDUCER_ALLOW_NO_AUTH=1 \
                or pass --disable-spiffe.".to_string(),
        }
    }
}

/// What a channel with mutual TLS is set up with: the name that the server's
/// certificate has to bear, the authorities that have to vouch for it, and the
/// certificates and the key that the agent shows, all in PEM.
pub struct TlsConfig {
    pub domain_name: String,
    pub ca_pem: String,
    pub cert_pem: String,
    pub key_pem: String,
}

/// The contents of a [`TlsConfig`].
pub struct TlsConfigView {
    pub domain_name: Seq<char>,
    pub ca_pem: Seq<char>,
    pub cert_pem: Seq<char>,
    pub key_pem: Seq<char>,
}

impl View for TlsConfig {
    type V = TlsConfigView;

    open spec fn view(&self) -> TlsConfigView {
        TlsConfigView {
            domain_name: self.domain_name@,
            ca_pem: self.ca_pem@,
            cert_pem: self.cert_pem@,
            key_pem: self.key_pem@,
        }
    }
}

/// What a channel to the orchestrator is set up with: where it goes, with
/// which TLS, and what authorizes each request on it.
pub struct ConnectionPlan {
    pub endpoint: String,
    pub tls: Option<TlsConfig>,
    pub authorization: Option<String>,
}

/// The contents of a [`ConnectionPlan`].
pub struct ConnectionPlanView {
    pub endpoint: Seq<char>,
    pub tls: Option<TlsConfigView>,
    pub authorization: Option<Seq<char>>,
}

/// The contents of a TLS configuration, where there is one.
pub open spec fn tls_contents(tls: Option<TlsConfig>) -> Option<TlsConfigView> {
    match tls {
        Some(tls) => Some(tls@),
        None => None,
    }
}

impl View for ConnectionPlan {
    type V = ConnectionPlanView;

    open spec fn view(&self) -> ConnectionPlanView {
        ConnectionPlanView {
            endpoint: self.endpoint@,
            tls: tls_contents(self.tls),
            authorization: self.authorization.deep_view(),
        }
    }
}

/// The contents of a TLS configuration, or of the error in its place.
pub open spec fn tls_result(result: Result<TlsConfig, AuthError>) -> Result<
    TlsConfigView,
    AuthErrorView,
> {
    match result {
        Ok(tls) => Ok(tls@),
        Err(error) => Err(error@),
    }
}

/// The contents of a plan, or of the error in its place.
pub open spec fn plan_result(result: Result<ConnectionPlan, AuthError>) -> Result<
    ConnectionPlanView,
    AuthErrorView,
> {
    match result {
        Ok(plan) => Ok(plan@),
        Err(error) => Err(error@),
    }
}

/// Texts one behind the other.
pub open spec fn concatenated(texts: Seq<Seq<char>>) -> Seq<char>
    decreases texts.len(),
{
    if texts.len() == 0 {
        Seq::empty()
    } else {
        concatenated(texts.drop_last()) + texts.last()
    }
}

/// Certificates or keys in PEM, each a block of its own.
pub open spec fn pem_texts(tag: Seq<char>, items: Seq<Seq<u8>>) -> Seq<Seq<char>> {
    items.map_values(|item: Seq<u8>| crate::outside::pem_text(tag, item))
}

/// Texts one behind the other.
pub fn concatenate(texts: &Vec<String>) -> (whole: String)
    ensures
        whole@ == concatenated(texts.deep_view()),
{
    proof {
        reveal_strlit("");
    }
    let mut whole = "".to_string();
    let mut i: usize = 0;
    assert(whole@ =~= concatenated(texts.deep_view().take(0)));
    while i < texts.len()
        invariant
            i <= texts.len(),
            whole@ == concatenated(texts.deep_view().take(i as int)),
        decreases texts.len() - i,
    {
        whole.append(texts[i].as_str());
        assert(texts.deep_view().take(i as int + 1).drop_last() =~= texts.deep_view().take(
            i as int,
        ));
        i = i + 1;
    }
    assert(texts.deep_view().take(texts.len() as int) =~= texts.deep_view());
    whole
}

/// Certificates or keys in PEM, each a block of its own.
pub fn pem_blocks(tag: &str, items: &Vec<Vec<u8>>) -> (blocks: Vec<String>)
    ensures
        blocks.deep_view() == pem_texts(tag@, items.deep_view()),
{
    let mut blocks: Vec<String> = Vec::new();
    let mut i: usize = 0;
    while i < items.len()
        invariant
            i <= items.len(),
            blocks.len() == i,
            forall|k: int|
                0 <= k < i ==> (#[trigger] blocks@[k])@ == crate::outside::pem_text(
                    tag@,
                    items@[k]@,
                ),
        decreases items.len() - i,
    {
        blocks.push(pem_block(tag, items[i].as_slice()));
        i = i + 1;
    }
    assert forall|k: int| 0 <= k < items.len() implies (#[trigger] items.deep_view()[k])
        == items@[k]@ by {
        assert(items@[k].deep_view() =~= items@[k]@);
    }
    assert(blocks.deep_view() =~= pem_texts(tag@, items.deep_view()));
    blocks
}

/// What a TLS configuration is made of.
pub struct TlsSources<'a> {
    /// What the agent shows.
    pub svid: &'a X509Svid,
    /// What vouches for the orchestrator.
    pub authorities: &'a Vec<Vec<u8>>,
}

/// What a TLS configuration is made of, where the orchestrator is of a trust
/// domain that was found to be `trust_domain`, or not to be one.
pub open spec fn tls_sources_of(
    context: X509ContextView,
    trust_domain: Result<Seq<char>, Seq<char>>,
) -> Result<(X509SvidView, Seq<Seq<u8>>), AuthErrorView> {
    match (context.default_svid, trust_domain) {
        (None, _) => Err(AuthErrorView::NoSvidAvailable),
        (Some(_), Err(why)) => Err(AuthErrorView::InvalidTrustDomain(why)),
        (Some(svid), Ok(name)) => match authorities_of(context.bundles, name) {
            None => Err(AuthErrorView::NoBundle(name)),
            Some(authorities) => Ok((svid, authorities)),
        },
    }
}

/// The TLS configuration for an orchestrator that bears the name `server`.
pub open spec fn tls_config_of(
    context: X509ContextView,
    server: Seq<char>,
    trust_domain: Result<Seq<char>, Seq<char>>,
) -> Result<TlsConfigView, AuthErrorView> {
    match tls_sources_of(context, trust_domain) {
        Err(error) => Err(error),
        Ok((svid, authorities)) => Ok(
            TlsConfigView {
                domain_name: server,
                ca_pem: concatenated(pem_texts("CERTIFICATE"@, authorities)),
                cert_pem: concatenated(pem_texts("CERTIFICATE"@, svid.cert_chain)),
                key_pem: crate::outside::pem_text("PRIVATE KEY"@, svid.private_key),
            },
        ),
    }
}

/// The plan for a channel to `endpoint`, where its TLS is settled, or failed.
/// An address that is none is noticed last.
pub open spec fn plan_of(
    endpoint: Seq<char>,
    tls: Result<Option<TlsConfigView>, AuthErrorView>,
    authorization: Option<Seq<char>>,
    endpoint_valid: bool,
) -> Result<ConnectionPlanView, AuthErrorView> {
    match tls {
        Err(error) => Err(error),
        Ok(tls) => if endpoint_valid {
            Ok(ConnectionPlanView { endpoint, tls, authorization })
        } else {
            Err(AuthErrorView::InvalidEndpoint)
        },
    }
}

/// The plan for a channel to `endpoint`, once it is known whether that is an
/// address.
pub fn connection_plan(
    endpoint: &str,
    tls: Option<TlsConfig>,
    authorization: Option<String>,
    endpoint_valid: bool,
) -> (plan: Result<ConnectionPlan, AuthError>)
    ensures
        plan_result(plan) == plan_of(
            endpoint@,
            Ok(tls_contents(tls)),
            authorization.deep_view(),
            endpoint_valid,
        ),
        plan is Ok <==> endpoint_valid,
        plan matches Ok(plan) ==> {
            &&& plan.endpoint@ == endpoint@
            &&& plan.tls == tls
            &&& plan.authorization == authorization
        },
        plan matches Err(error) ==> error is InvalidEndpoint,
{
    if endpoint_valid {
        Ok(ConnectionPlan { endpoint: endpoint.to_string(), tls, authorization })
    } else {
        Err(AuthError::InvalidEndpoint)
    }
}

impl X509Context {
    /// What a TLS configuration is made of, once it is known which trust
    /// domain the orchestrator is of.
    pub fn tls_sources(&self, trust_domain: Result<String, String>) -> (sources: Result<
        TlsSources<'_>,
        AuthError,
    >)
        ensures
            tls_sources_of(self@, crate::outside::characters(trust_domain)) == (match sources {
                Ok(sources) => Ok((sources.svid@, sources.authorities.deep_view())),
                Err(error) => Err(error@),
            }),
    {
        let svid = match &self.default_svid {
            Some(svid) => svid,
            None => {
                return Err(AuthError::NoSvidAvailable);
            },
        };
        let name = match trust_domain {
            Ok(name) => name,
            Err(why) => {
                return Err(AuthError::InvalidTrustDomain(why));
            },
        };
        let ghost all = self@.bundles;
        let mut i: usize = 0;
        assert(all.skip(0) =~= all);
        while i < self.bundles.len()
            invariant
                i <= self.bundles.len(),
                all == self@.bundles,
                self@.default_svid == Some(svid@),
                crate::outside::characters(trust_domain) == Ok::<Seq<char>, Seq<char>>(name@),
                authorities_of(all, name@) == authorities_of(all.skip(i as int), name@),
            decreases self.bundles.len() - i,
        {
            assert(all.skip(i as int)[0] == self.bundles@[i as int]@);
            if same_text(self.bundles[i].trust_domain.as_str(), name.as_str()) {
                return Ok(TlsSources { svid, authorities: &self.bundles[i].authorities });
            }
            assert(all.skip(i as int).drop_first() =~= all.skip(i as int + 1));
            i = i + 1;
        }
        Err(AuthError::NoBundle(name))
    }
}

/// SPIFFE credentials of the agent: what the workload API handed out last, and
/// the SPIFFE ID that it handed out first.
#[derive(Clone)]
pub struct SpiffeCredentials {
    context: X509Context,
    spiffe_id: String,
}

/// The contents of [`SpiffeCredentials`].
pub struct SpiffeCredentialsView {
    pub context: X509ContextView,
    pub spiffe_id: Seq<char>,
}

impl View for SpiffeCredentials {
    type V = SpiffeCredentialsView;

    closed spec fn view(&self) -> SpiffeCredentialsView {
        SpiffeCredentialsView { context: self.context@, spiffe_id: self.spiffe_id@ }
    }
}

/// The contents of credentials, or of the error in their place.
pub open spec fn spiffe_result(result: Result<SpiffeCredentials, AuthError>) -> Result<
    SpiffeCredentialsView,
    AuthErrorView,
> {
    match result {
        Ok(credentials) => Ok(credentials@),
        Err(error) => Err(error@),
    }
}

/// The credentials that the workload API hands out.
pub open spec fn credentials_in(reply: WorkloadReply) -> Result<
    SpiffeCredentialsView,
    AuthErrorView,
> {
    match reply {
        WorkloadReply::NotConnected(why) => Err(AuthErrorView::NotConnected(why@)),
        WorkloadReply::NotFetched(why) => Err(AuthErrorView::NotFetched(why@)),
        WorkloadReply::Fetched(context) => match context@.default_svid {
            None => Err(AuthErrorView::NoDefaultSvid),
            Some(svid) => Ok(
                SpiffeCredentialsView { context: context@, spiffe_id: svid.spiffe_id },
            ),
        },
    }
}

impl SpiffeCredentialsView {
    /// The credentials after the workload API was asked again: what it handed
    /// out is used from now on, but the SPIFFE ID stays.
    pub open spec fn refreshed(self, reply: WorkloadReply) -> SpiffeCredentialsView {
        match reply {
            WorkloadReply::Fetched(context) => SpiffeCredentialsView { context: context@, ..self },
            _ => self,
        }
    }
}

impl SpiffeCredentials {
    /// The credentials that the workload API hands out.
    pub fn fetch(reply: WorkloadReply) -> (credentials: Result<Self, AuthError>)
        ensures
            spiffe_result(credentials) == credentials_in(reply),
    {
        match reply {
            WorkloadReply::NotConnected(why) => Err(AuthError::NotConnected(why)),
            WorkloadReply::NotFetched(why) => Err(AuthError::NotFetched(why)),
            WorkloadReply::Fetched(context) => {
                let spiffe_id = match &context.default_svid {
                    Some(svid) => svid.spiffe_id.clone(),
                    None => {
                        return Err(AuthError::NoDefaultSvid);
                    },
                };
                Ok(SpiffeCredentials { context, spiffe_id })
            },
        }
    }

    /// Get the transducer's SPIFFE ID.
    pub fn spiffe_id(&self) -> (id: &str)
        ensures
            id@ == self@.spiffe_id,
    {
        self.spiffe_id.as_str()
    }

    /// The TLS configuration with which the agent shows its SVID, and verifies
    /// the server's certificate against the bundle of its trust domain.
    pub fn to_tls_config(&self, server_trust_domain: &str) -> (config: Result<TlsConfig, AuthError>)
        ensures
            tls_result(config) == tls_config_of(
                self@.context,
                server_trust_domain@,
                crate::outside::trust_domain_name(server_trust_domain@),
            ),
    {
        let trust_domain = parse_trust_domain(server_trust_domain);
        match self.context.tls_sources(trust_domain) {
            Err(error) => Err(error),
            Ok(sources) => Ok(
                TlsConfig {
                    domain_name: server_trust_domain.to_string(),
                    ca_pem: concatenate(&pem_blocks("CERTIFICATE", sources.authorities)),
                    cert_pem: concatenate(&pem_blocks("CERTIFICATE", &sources.svid.cert_chain)),
                    key_pem: pem_block("PRIVATE KEY", sources.svid.private_key.as_slice()),
                },
            ),
        }
    }

    /// The plan for a channel with SPIFFE mTLS authentication.
    pub fn connect(&self, endpoint: &str, trust_domain: &str) -> (plan: Result<
        ConnectionPlan,
        AuthError,
    >)
        ensures
            plan_result(plan) == plan_of(
                endpoint@,
                match tls_config_of(
                    self@.context,
                    trust_domain@,
                    crate::outside::trust_domain_name(trust_domain@),
                ) {
                    Ok(tls) => Ok(Some(tls)),
                    Err(error) => Err(error),
                },
                None,
                crate::outside::is_endpoint_uri(endpoint@),
            ),
    {
        match self.to_tls_config(trust_domain) {
            Err(error) => Err(error),
            Ok(tls) => connection_plan(endpoint, Some(tls), None, endpoint_is_valid(endpoint)),
        }
    }

    /// Refresh the X.509 context from the workload API.
    pub fn refresh(&mut self, reply: WorkloadReply) -> (outcome: Result<(), AuthError>)
        ensures
            final(self)@ == old(self)@.refreshed(reply),
            match (outcome, reply) {
                (Ok(()), WorkloadReply::Fetched(_)) => true,
                (Err(error), WorkloadReply::NotConnected(why)) => error@
                    == AuthErrorView::NotReconnected(why@),
                (Err(error), WorkloadReply::NotFetched(why)) => error@
                    == AuthErrorView::NotRefreshed(why@),
                _ => false,
            },
    {
        match reply {
            WorkloadReply::NotConnected(why) => Err(AuthError::NotReconnected(why)),
            WorkloadReply::NotFetched(why) => Err(AuthError::NotRefreshed(why)),
            WorkloadReply::Fetched(context) => {
                self.context = context;
                Ok(())
            },
        }
    }
}

/// Authentication credentials, by SPIFFE or by what is used in its place.
#[derive(Clone)]
pub enum TransducerCredentials {
    /// SPIFFE-based mTLS authentication
    Spiffe(SpiffeCredentials),
    /// Token-based authentication (fallback when SPIFFE unavailable)
    Token(String),
    /// No authentication (insecure, for local development only)
    NoAuth,
}

/// The contents of [`TransducerCredentials`].
pub enum TransducerCredentialsView {
    Spiffe(SpiffeCredentialsView),
    Token(Seq<char>),
    NoAuth,
}

impl View for TransducerCredentials {
    type V = TransducerCredentialsView;

    open spec fn view(&self) -> TransducerCredentialsView {
        match self {
            TransducerCredentials::Spiffe(credentials) => TransducerCredentialsView::Spiffe(
                credentials@,
            ),
            TransducerCredentials::Token(token) => TransducerCredentialsView::Token(token@),
            TransducerCredentials::NoAuth => TransducerCredentialsView::NoAuth,
        }
    }
}

/// The contents of credentials, or of the error in their place.
pub open spec fn credentials_result(result: Result<TransducerCredentials, AuthError>) -> Result<
    TransducerCredentialsView,
    AuthErrorView,
> {
    match result {
        Ok(credentials) => Ok(credentials@),
        Err(error) => Err(error@),
    }
}

/// The credentials that a token makes. An empty token is none.
pub open spec fn token_credentials(token: Option<Seq<char>>) -> TransducerCredentialsView {
    match token {
        Some(text) => if text.len() > 0 {
            TransducerCredentialsView::Token(text)
        } else {
            TransducerCredentialsView::NoAuth
        },
        None => TransducerCredentialsView::NoAuth,
    }
}

/// The best credentials there are: SPIFFE before a token, and a token before
/// nothing.
pub open spec fn auto_credentials(
    fetched: Result<SpiffeCredentialsView, AuthErrorView>,
    token: Option<Seq<char>>,
) -> TransducerCredentialsView {
    match fetched {
        Ok(credentials) => TransducerCredentialsView::Spiffe(credentials),
        Err(_) => token_credentials(token),
    }
}

/// The best credentials there are, where nothing is not enough.
pub open spec fn strict_credentials(
    fetched: Result<SpiffeCredentialsView, AuthErrorView>,
    token: Option<Seq<char>>,
) -> Result<TransducerCredentialsView, AuthErrorView> {
    match auto_credentials(fetched, token) {
        TransducerCredentialsView::NoAuth => Err(AuthErrorView::NoCredentials),
        credentials => Ok(credentials),
    }
}

/// The credentials that the agent starts with. Where SPIFFE is disabled
/// nothing is fetched, and a token or nothing will do; else nothing will do
/// only where that is allowed.
pub open spec fn first_credentials(
    fetched: Option<Result<SpiffeCredentialsView, AuthErrorView>>,
    token: Option<Seq<char>>,
    allow_no_auth: bool,
) -> Result<TransducerCredentialsView, AuthErrorView> {
    match fetched {
        None => Ok(token_credentials(token)),
        Some(fetched) => if allow_no_auth {
            Ok(auto_credentials(fetched, token))
        } else {
            strict_credentials(fetched, token)
        },
    }
}

impl TransducerCredentialsView {
    /// What authorizes each request.
    pub open spec fn authorization(self) -> Option<Seq<char>> {
        match self {
            TransducerCredentialsView::Token(token) => Some("Bearer "@ + token),
            _ => None,
        }
    }

    /// The identity that the credentials prove.
    pub open spec fn identity(self) -> Option<Seq<char>> {
        match self {
            TransducerCredentialsView::Spiffe(credentials) => Some(credentials.spiffe_id),
            _ => None,
        }
    }

    /// The TLS that the credentials call for.
    pub open spec fn tls(self, trust_domain: Seq<char>) -> Result<
        Option<TlsConfigView>,
        AuthErrorView,
    > {
        match self {
            TransducerCredentialsView::Spiffe(credentials) => match tls_config_of(
                credentials.context,
                trust_domain,
                crate::outside::trust_domain_name(trust_domain),
            ) {
                Ok(tls) => Ok(Some(tls)),
                Err(error) => Err(error),
            },
            _ => Ok(None),
        }
    }
}

/// The credentials that a token makes.
pub fn from_token(token: Option<String>) -> (credentials: TransducerCredentials)
    ensures
        credentials@ == token_credentials(token.deep_view()),
{
    match token {
        Some(text) => if text.as_str().unicode_len() > 0 {
            TransducerCredentials::Token(text)
        } else {
            TransducerCredentials::NoAuth
        },
        None => TransducerCredentials::NoAuth,
    }
}

/// Whether the value of an environment variable says that the agent may do
/// without authentication.
pub fn allows_no_auth(value: Option<&str>) -> (allowed: bool)
    ensures
        allowed == (value.deep_view() == Some("1"@)),
{
    match value {
        Some(text) => same_text(text, "1"),
        None => false,
    }
}

impl TransducerCredentials {
    /// Create credentials, preferring SPIFFE if available. Falls back to token
    /// auth where it is not, or to no auth if neither is configured: this is
    /// for local development.
    pub fn auto(fetched: Result<SpiffeCredentials, AuthError>, token: Option<String>) -> (credentials:
        Self)
        ensures
            credentials@ == auto_credentials(spiffe_result(fetched), token.deep_view()),
    {
        match fetched {
            Ok(credentials) => TransducerCredentials::Spiffe(credentials),
            Err(_) => from_token(token),
        }
    }

    /// Create credentials as [`TransducerCredentials::auto`] does, but refuse
    /// to do without authentication.
    pub fn strict(fetched: Result<SpiffeCredentials, AuthError>, token: Option<String>) -> (credentials:
        Result<Self, AuthError>)
        ensures
            credentials_result(credentials) == strict_credentials(
                spiffe_result(fetched),
                token.deep_view(),
            ),
    {
        match TransducerCredentials::auto(fetched, token) {
            TransducerCredentials::Spiffe(credentials) => Ok(
                TransducerCredentials::Spiffe(credentials),
            ),
            TransducerCredentials::Token(token) => Ok(TransducerCredentials::Token(token)),
            TransducerCredentials::NoAuth => Err(AuthError::NoCredentials),
        }
    }

    /// The credentials that the agent starts with, or why it does not start.
    /// Nothing is fetched where SPIFFE is disabled.
    pub fn at_startup(
        fetched: Option<Result<SpiffeCredentials, AuthError>>,
        token: Option<String>,
        allow_no_auth: bool,
    ) -> (credentials: Result<Self, AuthError>)
        ensures
            credentials_result(credentials) == first_credentials(
                match fetched {
                    Some(fetched) => Some(spiffe_result(fetched)),
                    None => None,
                },
                token.deep_view(),
                allow_no_auth,
            ),
    {
        match fetched {
            None => Ok(from_token(token)),
            Some(fetched) => if allow_no_auth {
                Ok(TransducerCredentials::auto(fetched, token))
            } else {
                TransducerCredentials::strict(fetched, token)
            },
        }
    }

    /// The plan for a channel with the appropriate authentication.
    pub fn connect(&self, endpoint: &str, trust_domain: &str) -> (plan: Result<
        ConnectionPlan,
        AuthError,
    >)
        ensures
            plan_result(plan) == plan_of(
                endpoint@,
                self@.tls(trust_domain@),
                self@.authorization(),
                crate::outside::is_endpoint_uri(endpoint@),
            ),
    {
        match self {
            TransducerCredentials::Spiffe(credentials) => credentials.connect(
                endpoint,
                trust_domain,
            ),
            TransducerCredentials::Token(token) => connection_plan(
                endpoint,
                None,
                Some("Bearer ".to_string().concat(token.as_str())),
                endpoint_is_valid(endpoint),
            ),
            TransducerCredentials::NoAuth => connection_plan(
                endpoint,
                None,
                None,
                endpoint_is_valid(endpoint),
            ),
        }
    }

    /// Get the transducer identity string for registration: the SPIFFE ID, or
    /// nothing where the server assigns one.
    pub fn identity(&self) -> (identity: Option<String>)
        ensures
            identity.deep_view() == self@.identity(),
    {
        match self {
            TransducerCredentials::Spiffe(credentials) => Some(
                credentials.spiffe_id().to_string(),
            ),
            _ => None,
        }
    }

    /// Check if this is SPIFFE authentication.
    pub fn is_spiffe(&self) -> (yes: bool)
        ensures
            yes == (self@ is Spiffe),
    {
        match self {
            TransducerCredentials::Spiffe(_) => true,
            _ => false,
        }
    }
}

/// Strict credentials are never without authentication, and are otherwise
/// what is chosen freely; they are refused exactly where there is neither
/// SPIFFE nor a token.
pub proof fn law_strict_refuses_no_auth(
    fetched: Result<SpiffeCredentialsView, AuthErrorView>,
    token: Option<Seq<char>>,
)
    ensures
        strict_credentials(fetched, token) != Ok::<TransducerCredentialsView, AuthErrorView>(
            TransducerCredentialsView::NoAuth,
        ),
        strict_credentials(fetched, token) matches Ok(credentials) ==> credentials
            == auto_credentials(fetched, token),
        strict_credentials(fetched, token) is Err <==> auto_credentials(fetched, token) is NoAuth,
        strict_credentials(fetched, token) is Err <==> fetched is Err && (token is None || token
            == Some(Seq::<char>::empty())),
        strict_credentials(fetched, token) matches Err(error) ==> error
            == AuthErrorView::NoCredentials,
{
    if let Some(text) = token {
        if text.len() == 0 {
            assert(text =~= Seq::<char>::empty());
        }
    }
}

/// SPIFFE is used wherever it is available, whatever the token.
pub proof fn law_spiffe_goes_first(credentials: SpiffeCredentialsView, token: Option<Seq<char>>)
    ensures
        auto_credentials(Ok(credentials), token) == TransducerCredentialsView::Spiffe(credentials),
        strict_credentials(Ok(credentials), token) == Ok::<
            TransducerCredentialsView,
            AuthErrorView,
        >(TransducerCredentialsView::Spiffe(credentials)),
{
}

/// A token is used wherever there is no SPIFFE, and an empty one is as good as
/// none.
pub proof fn law_empty_token_is_no_token(
    error: AuthErrorView,
    fetched: Result<SpiffeCredentialsView, AuthErrorView>,
    token: Seq<char>,
)
    ensures
        token.len() > 0 ==> auto_credentials(Err(error), Some(token))
            == TransducerCredentialsView::Token(token),
        auto_credentials(fetched, Some(Seq::empty())) == auto_credentials(fetched, None),
{
}

/// The agent starts without authentication only where that was asked for: by
/// disabling SPIFFE, or by allowing it.
pub proof fn law_no_auth_is_asked_for(
    fetched: Option<Result<SpiffeCredentialsView, AuthErrorView>>,
    token: Option<Seq<char>>,
    allow_no_auth: bool,
)
    ensures
        first_credentials(fetched, token, allow_no_auth) == Ok::<
            TransducerCredentialsView,
            AuthErrorView,
        >(TransducerCredentialsView::NoAuth) ==> fetched is None || allow_no_auth,
        first_credentials(fetched, token, allow_no_auth) is Err ==> fetched is Some
            && !allow_no_auth,
{
}

/// Credentials prove an identity exactly where they are by SPIFFE.
pub proof fn law_identity_is_by_spiffe(credentials: TransducerCredentialsView)
    ensures
        credentials.identity() is Some <==> credentials is Spiffe,
{
}

/// A refresh never changes the agent's SPIFFE ID, and one that fails changes
/// nothing at all.
pub proof fn law_refresh_keeps_the_identity(
    credentials: SpiffeCredentialsView,
    reply: WorkloadReply,
)
    ensures
        credentials.refreshed(reply).spiffe_id == credentials.spiffe_id,
        !(reply is Fetched) ==> credentials.refreshed(reply) == credentials,
        reply matches WorkloadReply::Fetched(context) ==> credentials.refreshed(reply).context
            == context@,
{
}

/// Fetched credentials bear the SPIFFE ID of the SVID that they show.
pub proof fn law_fetched_credentials_show_their_identity(reply: WorkloadReply)
    ensures
        credentials_in(reply) matches Ok(credentials) ==> (credentials.context.default_svid
            matches Some(svid) && svid.spiffe_id == credentials.spiffe_id),
{
}

/// The authorities of a trust domain are those of its bundle, and are not
/// known exactly where it has none.
pub proof fn law_bundle_of_a_trust_domain(context: X509ContextView, trust_domain: Seq<char>, i: int)
    requires
        context.wf(),
        0 <= i < context.bundles.len(),
    ensures
        context.bundles[i].trust_domain == trust_domain ==> authorities_of(
            context.bundles,
            trust_domain,
        ) == Some(context.bundles[i].authorities),
        authorities_of(context.bundles, trust_domain) is None
            ==> context.bundles[i].trust_domain != trust_domain,
{
    lemma_authorities(context.bundles, trust_domain);
    let found = authorities_of(context.bundles, trust_domain);
    if context.bundles[i].trust_domain == trust_domain {
        let k = choose|k: int|
            0 <= k < context.bundles.len() && (#[trigger] context.bundles[k]).trust_domain
                == trust_domain && found == Some(context.bundles[k].authorities);
        assert(k == i);
    }
}

proof fn lemma_authorities(bundles: Seq<TrustBundleView>, trust_domain: Seq<char>)
    ensures
        match authorities_of(bundles, trust_domain) {
            Some(found) => exists|k: int|
                0 <= k < bundles.len() && (#[trigger] bundles[k]).trust_domain == trust_domain
                    && found == bundles[k].authorities,
            None => forall|k: int|
                0 <= k < bundles.len() ==> (#[trigger] bundles[k]).trust_domain != trust_domain,
        },
    decreases bundles.len(),
{
    if bundles.len() > 0 && bundles[0].trust_domain != trust_domain {
        let rest = bundles.drop_first();
        lemma_authorities(rest, trust_domain);
        match authorities_of(rest, trust_domain) {
            Some(found) => {
                let k = choose|k: int|
                    0 <= k < rest.len() && (#[trigger] rest[k]).trust_domain == trust_domain
                        && found == rest[k].authorities;
                assert(bundles[k + 1] == rest[k]);
            },
            None => {
                assert forall|k: int| 0 <= k < bundles.len() implies (
                #[trigger] bundles[k]).trust_domain != trust_domain by {
                    if k > 0 {
                        assert(bundles[k] == rest[k - 1]);
                    }
                }
            },
        }
    }
}

/// A channel has mutual TLS exactly where the credentials are by SPIFFE, a
/// bearer token on it exactly where they are a token, and goes where it was
/// asked to.
pub proof fn law_channel_fits_the_credentials(
    credentials: TransducerCredentialsView,
    endpoint: Seq<char>,
    trust_domain: Seq<char>,
    endpoint_valid: bool,
)
    ensures
        plan_of(
            endpoint,
            credentials.tls(trust_domain),
            credentials.authorization(),
            endpoint_valid,
        ) matches Ok(plan) ==> {
            &&& plan.endpoint == endpoint
            &&& plan.tls is Some <==> credentials is Spiffe
            &&& plan.authorization is Some <==> credentials is Token
            &&& plan.tls matches Some(tls) ==> tls.domain_name == trust_domain
        },
        !endpoint_valid ==> plan_of(
            endpoint,
            credentials.tls(trust_domain),
            credentials.authorization(),
            endpoint_valid,
        ) is Err,
{
}

/// A trust domain is named by its bare name, and by any SPIFFE ID in it that
/// is not too long.
pub proof fn law_trust_domain_is_named_by_itself_or_an_id(name: Seq<char>, path: Seq<char>)
    requires
        crate::outside::is_trust_domain(name),
    ensures
        crate::outside::trust_domain_name(name) == Ok::<Seq<char>, Seq<char>>(name),
        crate::text::byte_len("spiffe://"@ + name + "/"@ + path)
            <= crate::outside::MAX_SPIFFE_ID_BYTES ==> crate::outside::trust_domain_name(
            "spiffe://"@ + name + "/"@ + path,
        ) == Ok::<Seq<char>, Seq<char>>(name),
{
    reveal_strlit("spiffe://");
    reveal_strlit("/");
    let scheme = "spiffe://"@;
    if crate::text::starts_with(name, scheme) {
        assert(name.subrange(0, scheme.len() as int)[6] == ':');
        assert(crate::outside::trust_domain_char(name[6]));
        assert(false);
    }
    let id = scheme + name + "/"@ + path;
    assert(id.subrange(0, scheme.len() as int) =~= scheme);
    assert(id.skip(scheme.len() as int) =~= name + ("/"@ + path));
    assert(("/"@ + path)[0] == '/');
    lemma_up_to_slash(name, "/"@ + path);
}

proof fn lemma_up_to_slash(name: Seq<char>, rest: Seq<char>)
    requires
        forall|i: int|
            0 <= i < name.len() ==> crate::outside::trust_domain_char(#[trigger] name[i]),
        rest.len() > 0 && rest[0] == '/',
    ensures
        crate::outside::up_to_slash(name + rest) == name,
    decreases name.len(),
{
    let whole = name + rest;
    if name.len() == 0 {
        assert(whole =~= rest);
        assert(name =~= Seq::<char>::empty());
    } else {
        let tail = name.drop_first();
        assert(whole[0] == name[0]);
        assert(crate::outside::trust_domain_char(name[0]));
        assert forall|i: int| 0 <= i < tail.len() implies crate::outside::trust_domain_char(
            #[trigger] tail[i],
        ) by {
            assert(tail[i] == name[i + 1]);
        }
        lemma_up_to_slash(tail, rest);
        assert(whole.drop_first() =~= tail + rest);
        assert(name =~= seq![name[0]] + tail);
    }
}

/// Each error is reported with the words for it, and with what went wrong as
/// it was told, whatever that is.
pub proof fn law_errors_repeat_what_went_wrong(why: Seq<char>)
    ensures
        auth_error_text(AuthErrorView::NotConnected(why))
            == "Failed to connect to SPIFFE workload API: "@ + why,
        auth_error_text(AuthErrorView::NotFetched(why)) == "Failed to fetch X.509 context: "@ + why,
        auth_error_text(AuthErrorView::InvalidTrustDomain(why)) == "Invalid trust domain: "@ + why,
        auth_error_text(AuthErrorView::NoBundle(why)) == "No bundle for trust domain "@ + why,
        auth_error_text(AuthErrorView::NotReconnected(why))
            == "Failed to reconnect to workload API: "@ + why,
        auth_error_text(AuthErrorView::NotRefreshed(why)) == "Failed to fetch refreshed context: "@
            + why,
{
}

/// Credentials are fetched exactly where the workload API hands out a context
/// with an SVID: they hold that context as it is, and the SVID's SPIFFE ID.
/// Otherwise the error tells how far it got.
pub proof fn law_credentials_are_fetched_with_an_svid(context: X509Context, why: String)
    ensures
        credentials_in(WorkloadReply::NotConnected(why)) == Err::<
            SpiffeCredentialsView,
            AuthErrorView,
        >(AuthErrorView::NotConnected(why@)),
        credentials_in(WorkloadReply::NotFetched(why)) == Err::<
            SpiffeCredentialsView,
            AuthErrorView,
        >(AuthErrorView::NotFetched(why@)),
        context.default_svid is None ==> credentials_in(WorkloadReply::Fetched(context)) == Err::<
            SpiffeCredentialsView,
            AuthErrorView,
        >(AuthErrorView::NoDefaultSvid),
        context.default_svid matches Some(svid) ==> (credentials_in(WorkloadReply::Fetched(context))
            matches Ok(credentials) && credentials.context == context@ && credentials.spiffe_id
            == svid.spiffe_id@),
{
}

/// Known authorities of a trust domain are those of one of its bundles.
pub proof fn law_known_authorities_are_of_a_bundle(
    bundles: Seq<TrustBundleView>,
    trust_domain: Seq<char>,
)
    ensures
        authorities_of(bundles, trust_domain) matches Some(found) ==> exists|k: int|
            0 <= k < bundles.len() && (#[trigger] bundles[k]).trust_domain == trust_domain && found
                == bundles[k].authorities,
        authorities_of(bundles, trust_domain) is None <==> forall|k: int|
            0 <= k < bundles.len() ==> (#[trigger] bundles[k]).trust_domain != trust_domain,
{
    lemma_authorities(bundles, trust_domain);
}

/// Texts are put together without a gap and in order, and certificates become
/// a block each, in order.
pub proof fn law_blocks_are_put_together_in_order(
    one: Seq<Seq<char>>,
    other: Seq<Seq<char>>,
    text: Seq<char>,
    tag: Seq<char>,
    items: Seq<Seq<u8>>,
)
    ensures
        concatenated(one + other) == concatenated(one) + concatenated(other),
        concatenated(seq![text]) == text,
        concatenated(Seq::empty()) == Seq::<char>::empty(),
        pem_texts(tag, items).len() == items.len(),
        forall|i: int|
            0 <= i < items.len() ==> #[trigger] pem_texts(tag, items)[i]
                == crate::outside::pem_text(tag, items[i]),
    decreases other.len(),
{
    assert(seq![text].drop_last() =~= Seq::<Seq<char>>::empty());
    assert(concatenated(Seq::<Seq<char>>::empty()) == Seq::<char>::empty());
    assert(concatenated(seq![text]) =~= text);
    if other.len() == 0 {
        assert(one + other =~= one);
        assert(concatenated(one) + concatenated(other) =~= concatenated(one));
    } else {
        law_blocks_are_put_together_in_order(one, other.drop_last(), text, tag, items);
        assert((one + other).drop_last() =~= one + other.drop_last());
        assert((one + other).last() == other.last());
        assert(concatenated(one + other) =~= concatenated(one) + concatenated(other));
    }
}

/// A TLS configuration is made exactly where there is an SVID, the server's
/// trust domain is one, and its authorities are known; the first of these that
/// is missing is the error. It bears the server's name as it was given, shows
/// all certificates and the key of the SVID, and trusts all authorities of
/// that trust domain.
pub proof fn law_tls_shows_the_svid_and_trusts_the_bundle(
    context: X509ContextView,
    server: Seq<char>,
    trust_domain: Result<Seq<char>, Seq<char>>,
)
    ensures
        ({
            let config = tls_config_of(context, server, trust_domain);
            &&& context.default_svid is None ==> config == Err::<TlsConfigView, AuthErrorView>(
                AuthErrorView::NoSvidAvailable,
            )
            &&& context.default_svid is Some ==> (trust_domain matches Err(why) ==> config == Err::<
                TlsConfigView,
                AuthErrorView,
            >(AuthErrorView::InvalidTrustDomain(why)))
            &&& context.default_svid matches Some(svid) ==> (trust_domain matches Ok(name) ==> {
                &&& authorities_of(context.bundles, name) is None ==> config == Err::<
                    TlsConfigView,
                    AuthErrorView,
                >(AuthErrorView::NoBundle(name))
                &&& authorities_of(context.bundles, name) matches Some(authorities) ==> (config
                    matches Ok(tls) && {
                    &&& tls.domain_name == server
                    &&& tls.ca_pem == concatenated(pem_texts("CERTIFICATE"@, authorities))
                    &&& tls.cert_pem == concatenated(pem_texts("CERTIFICATE"@, svid.cert_chain))
                    &&& tls.key_pem == crate::outside::pem_text(
                        "PRIVATE KEY"@,
                        svid.private_key,
                    )
                })
            })
        }),
{
}

/// A channel is planned exactly where its TLS could be settled and its address
/// is one: to that address, with that TLS and with what authorizes requests.
/// Failed TLS is the error before a bad address is.
pub proof fn law_plan_is_what_was_asked_for(
    endpoint: Seq<char>,
    tls: Option<TlsConfigView>,
    error: AuthErrorView,
    authorization: Option<Seq<char>>,
    endpoint_valid: bool,
)
    ensures
        plan_of(endpoint, Err(error), authorization, endpoint_valid) == Err::<
            ConnectionPlanView,
            AuthErrorView,
        >(error),
        plan_of(endpoint, Ok(tls), authorization, false) == Err::<
            ConnectionPlanView,
            AuthErrorView,
        >(AuthErrorView::InvalidEndpoint),
        plan_of(endpoint, Ok(tls), authorization, true) matches Ok(plan) && plan.endpoint
            == endpoint && plan.tls == tls && plan.authorization == authorization,
{
}

/// What credentials call for is their own: SPIFFE credentials prove their id
/// and call for TLS with their context, a token stands behind the word for it
/// on each request, and no credentials call for nothing.
pub proof fn law_credentials_call_for_their_own(
    spiffe: SpiffeCredentialsView,
    token: Seq<char>,
    trust_domain: Seq<char>,
)
    ensures
        TransducerCredentialsView::Spiffe(spiffe).identity() == Some(spiffe.spiffe_id),
        TransducerCredentialsView::Spiffe(spiffe).authorization() is None,
        TransducerCredentialsView::Spiffe(spiffe).tls(trust_domain) == (match tls_config_of(
            spiffe.context,
            trust_domain,
            crate::outside::trust_domain_name(trust_domain),
        ) {
            Ok(tls) => Ok::<Option<TlsConfigView>, AuthErrorView>(Some(tls)),
            Err(error) => Err(error),
        }),
        TransducerCredentialsView::Token(token).identity() is None,
        TransducerCredentialsView::Token(token).authorization() == Some("Bearer "@ + token),
        TransducerCredentialsView::Token(token).tls(trust_domain) == Ok::<
            Option<TlsConfigView>,
            AuthErrorView,
        >(None),
        TransducerCredentialsView::NoAuth.identity() is None,
        TransducerCredentialsView::NoAuth.authorization() is None,
        TransducerCredentialsView::NoAuth.tls(trust_domain) == Ok::<
            Option<TlsConfigView>,
            AuthErrorView,
        >(None),
{
}

/// Credentials that the agent starts with: SPIFFE ones wherever they were
/// fetched; else a token that is not empty, whatever it is; else none, where
/// SPIFFE is disabled or that is allowed, and an error where not.
pub proof fn law_credentials_at_startup(
    fetched: SpiffeCredentialsView,
    error: AuthErrorView,
    token: Option<Seq<char>>,
    text: Seq<char>,
    allow_no_auth: bool,
)
    ensures
        first_credentials(Some(Ok(fetched)), token, allow_no_auth) == Ok::<
            TransducerCredentialsView,
            AuthErrorView,
        >(TransducerCredentialsView::Spiffe(fetched)),
        text.len() > 0 ==> first_credentials(Some(Err(error)), Some(text), allow_no_auth) == Ok::<
            TransducerCredentialsView,
            AuthErrorView,
        >(TransducerCredentialsView::Token(text)),
        text.len() > 0 ==> first_credentials(None, Some(text), allow_no_auth) == Ok::<
            TransducerCredentialsView,
            AuthErrorView,
        >(TransducerCredentialsView::Token(text)),
        token is None || token == Some(Seq::<char>::empty()) ==> {
            &&& first_credentials(None, token, allow_no_auth) == Ok::<
                TransducerCredentialsView,
                AuthErrorView,
            >(TransducerCredentialsView::NoAuth)
            &&& first_credentials(Some(Err(error)), token, true) == Ok::<
                TransducerCredentialsView,
                AuthErrorView,
            >(TransducerCredentialsView::NoAuth)
            &&& first_credentials(Some(Err(error)), token, false) == Err::<
                TransducerCredentialsView,
                AuthErrorView,
            >(AuthErrorView::NoCredentials)
        },
{
}

/// What names no trust domain is an error, whose text is that of the name.
pub proof fn law_what_names_no_trust_domain_is_an_error(s: Seq<char>)
    ensures
        crate::outside::trust_domain_name(s) == (match crate::outside::trust_domain_in(s) {
            Some(name) => Ok::<Seq<char>, Seq<char>>(name),
            None => Err(crate::outside::trust_domain_error(s)),
        }),
        crate::outside::trust_domain_name(s) matches Ok(name)
            ==> crate::outside::is_trust_domain(name),
{
}

/// What the workload API hands out is seen with all that it holds.
pub proof fn law_contexts_are_seen_as_they_are(
    svid: X509Svid,
    bundle: TrustBundle,
    context: X509Context,
)
    ensures
        svid@.spiffe_id == svid.spiffe_id@,
        svid@.cert_chain == svid.cert_chain.deep_view(),
        svid@.private_key == svid.private_key@,
        bundle@.trust_domain == bundle.trust_domain@,
        bundle@.authorities == bundle.authorities.deep_view(),
        context@.default_svid is Some <==> context.default_svid is Some,
        context.default_svid matches Some(own) ==> context@.default_svid == Some(own@),
        context@.bundles.len() == context.bundles@.len(),
        forall|i: int|
            0 <= i < context.bundles@.len() ==> #[trigger] context@.bundles[i]
                == context.bundles@[i]@,
{
}

/// Configurations, plans, credentials and errors are seen with all that they
/// hold.
pub proof fn law_plans_are_seen_as_they_are(
    tls: TlsConfig,
    plan: ConnectionPlan,
    spiffe: SpiffeCredentials,
    credentials: TransducerCredentials,
    text: String,
    error: AuthError,
)
    ensures
        tls@.domain_name == tls.domain_name@,
        tls@.ca_pem == tls.ca_pem@,
        tls@.cert_pem == tls.cert_pem@,
        tls@.key_pem == tls.key_pem@,
        plan@.endpoint == plan.endpoint@,
        plan@.tls is Some <==> plan.tls is Some,
        plan.tls matches Some(own) ==> plan@.tls == Some(own@),
        plan@.authorization == plan.authorization.deep_view(),
        TransducerCredentials::Spiffe(spiffe)@ == TransducerCredentialsView::Spiffe(spiffe@),
        TransducerCredentials::Token(text)@ == TransducerCredentialsView::Token(text@),
        TransducerCredentials::NoAuth@ == TransducerCredentialsView::NoAuth,
        tls_result(Ok(tls)) == Ok::<TlsConfigView, AuthErrorView>(tls@),
        tls_result(Err(error)) == Err::<TlsConfigView, AuthErrorView>(error@),
        plan_result(Ok(plan)) == Ok::<ConnectionPlanView, AuthErrorView>(plan@),
        plan_result(Err(error)) == Err::<ConnectionPlanView, AuthErrorView>(error@),
        spiffe_result(Ok(spiffe)) == Ok::<SpiffeCredentialsView, AuthErrorView>(spiffe@),
        spiffe_result(Err(error)) == Err::<SpiffeCredentialsView, AuthErrorView>(error@),
        credentials_result(Ok(credentials)) == Ok::<TransducerCredentialsView, AuthErrorView>(
            credentials@,
        ),
        credentials_result(Err(error)) == Err::<TransducerCredentialsView, AuthErrorView>(error@),
        AuthError::NotConnected(text)@ == AuthErrorView::NotConnected(text@),
        AuthError::NotFetched(text)@ == AuthErrorView::NotFetched(text@),
        AuthError::NoDefaultSvid@ == AuthErrorView::NoDefaultSvid,
        AuthError::NoSvidAvailable@ == AuthErrorView::NoSvidAvailable,
        AuthError::InvalidTrustDomain(text)@ == AuthErrorView::InvalidTrustDomain(text@),
        AuthError::NoBundle(text)@ == AuthErrorView::NoBundle(text@),
        AuthError::InvalidEndpoint@ == AuthErrorView::InvalidEndpoint,
        AuthError::NotReconnected(text)@ == AuthErrorView::NotReconnected(text@),
        AuthError::NotRefreshed(text)@ == AuthErrorView::NotRefreshed(text@),
        AuthError::NoCredentials@ == AuthErrorView::NoCredentials,
{
}

} // verus!
