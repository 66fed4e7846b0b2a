//! The settings of connections, consumers and producers.

use vstd::prelude::*;
use crate::cli::args::OffsetValue;
use crate::config::model::{ClusterConfig, SaslConfig, SaslMechanism, SecurityProtocolType, TlsConfig};
use crate::text::views;

verus! {

/// The TLS settings handed to the Kafka client.
#[derive(Debug)]
pub struct KafkaTlsSettings {
    pub verify_certificate: bool,
    pub domain: String,
    pub ca_cert_path: Option<String>,
    pub client_cert_path: Option<String>,
    pub client_key_path: Option<String>,
}

/// The content of `KafkaTlsSettings`.
pub struct KafkaTlsSettingsView {
    pub verify_certificate: bool,
    pub domain: Seq<char>,
    pub ca_cert_path: Option<Seq<char>>,
    pub client_cert_path: Option<Seq<char>>,
    pub client_key_path: Option<Seq<char>>,
}

impl View for KafkaTlsSettings {
    type V = KafkaTlsSettingsView;

    open spec fn view(&self) -> KafkaTlsSettingsView {
        KafkaTlsSettingsView {
            verify_certificate: self.verify_certificate,
            domain: self.domain@,
            ca_cert_path: self.ca_cert_path.deep_view(),
            client_cert_path: self.client_cert_path.deep_view(),
            client_key_path: self.client_key_path.deep_view(),
        }
    }
}

/// The TLS settings for a cluster's TLS configuration: certificates are
/// verified unless the configuration is insecure; the domain is the client
/// certificate path, or `localhost` when there is none; without a
/// configuration, verified TLS to `localhost` with no files.
pub open spec fn spec_tls_settings(tls: Option<TlsConfig>) -> KafkaTlsSettingsView {
    match tls {
        Some(cfg) => KafkaTlsSettingsView {
            verify_certificate: !cfg.insecure,
            domain: match cfg.cert_file {
                Some(c) => c@,
                None => "localhost"@,
            },
            ca_cert_path: cfg.ca_file.deep_view(),
            client_cert_path: cfg.cert_file.deep_view(),
            client_key_path: cfg.key_file.deep_view(),
        },
        None => KafkaTlsSettingsView {
            verify_certificate: true,
            domain: "localhost"@,
            ca_cert_path: None,
            client_cert_path: None,
            client_key_path: None,
        },
    }
}

/// Map our config TLS to the Kafka client's TLS settings.
pub fn build_kafka_tls_config(tls: &Option<TlsConfig>) -> (r: KafkaTlsSettings)
    ensures
        r@ == spec_tls_settings(*tls),
{
    match tls {
        Some(cfg) => KafkaTlsSettings {
            verify_certificate: !cfg.insecure,
            domain: match &cfg.cert_file {
                Some(c) => c.clone(),
                None => String::from_str("localhost"),
            },
            ca_cert_path: crate::config::model::copy_opt_string(&cfg.ca_file),
            client_cert_path: crate::config::model::copy_opt_string(&cfg.cert_file),
            client_key_path: crate::config::model::copy_opt_string(&cfg.key_file),
        },
        None => KafkaTlsSettings {
            verify_certificate: true,
            domain: String::from_str("localhost"),
            ca_cert_path: None,
            client_cert_path: None,
            client_key_path: None,
        },
    }
}

/// SASL credentials handed to the Kafka client.
#[derive(Debug)]
pub struct SaslCredentialSettings {
    pub mechanism: SaslMechanism,
    pub username: String,
    pub password: String,
}

/// The message when the protocol needs SASL credentials that the
/// configuration lacks.
pub open spec fn missing_sasl_message() -> Seq<char> {
    "SASL credentials required but not provided (--sasl-username / --sasl-password)"@
}

/// Extract SASL credentials or return an error
pub fn require_sasl_creds(sasl: &Option<SaslConfig>) -> (r: Result<SaslCredentialSettings, String>)
    ensures
        r is Ok <==> sasl is Some,
        r matches Ok(c) ==> c.mechanism == sasl.unwrap().mechanism && c.username@ == sasl.unwrap().username@
            && c.password@ == sasl.unwrap().password@,
        r matches Err(e) ==> e@ == missing_sasl_message(),
{
    match sasl {
        None => Err(String::from_str(
            "SASL credentials required but not provided (--sasl-username / --sasl-password)",
        )),
        Some(s) => Ok(SaslCredentialSettings {
            mechanism: s.mechanism,
            username: s.username.clone(),
            password: s.password.clone(),
        }),
    }
}

/// How the client secures its connections.
#[derive(Debug)]
pub enum SecurityPlan {
    Plaintext,
    Tls(KafkaTlsSettings),
    Sasl(SaslCredentialSettings),
    SaslTls(KafkaTlsSettings, SaslCredentialSettings),
}

/// The SASL part of a plan agrees with the configuration's credentials.
pub open spec fn creds_match(c: SaslCredentialSettings, s: Option<SaslConfig>) -> bool {
    s is Some && c.mechanism == s.unwrap().mechanism && c.username@ == s.unwrap().username@
        && c.password@ == s.unwrap().password@
}

/// The plan secures the connection as the cluster's protocol asks: nothing
/// for plain text, the TLS settings of its TLS configuration for SSL, its
/// SASL credentials for SASL_PLAINTEXT, and both for SASL_SSL.
pub open spec fn plan_secures(p: SecurityPlan, config: &ClusterConfig) -> bool {
    match config.security_protocol {
        SecurityProtocolType::Plaintext => p is Plaintext,
        SecurityProtocolType::Ssl => p matches SecurityPlan::Tls(t) && t@ == spec_tls_settings(config.tls),
        SecurityProtocolType::SaslPlaintext => p matches SecurityPlan::Sasl(c) && creds_match(c, config.sasl),
        SecurityProtocolType::SaslSsl => p matches SecurityPlan::SaslTls(t, c) && t@ == spec_tls_settings(config.tls)
            && creds_match(c, config.sasl),
    }
}

/// Decides how to secure the connection from the cluster's protocol: TLS
/// settings for SSL protocols, SASL credentials for SASL protocols (an error
/// when the configuration has none).
pub fn apply_security(config: &ClusterConfig) -> (r: Result<SecurityPlan, String>)
    ensures
        r is Err <==> ((config.security_protocol == SecurityProtocolType::SaslPlaintext
            || config.security_protocol == SecurityProtocolType::SaslSsl) && config.sasl is None),
        r matches Err(e) ==> e@ == missing_sasl_message(),
        r matches Ok(p) ==> plan_secures(p, config),
{
    match config.security_protocol {
        SecurityProtocolType::Plaintext => Ok(SecurityPlan::Plaintext),
        SecurityProtocolType::Ssl => Ok(SecurityPlan::Tls(build_kafka_tls_config(&config.tls))),
        SecurityProtocolType::SaslPlaintext => {
            let c = require_sasl_creds(&config.sasl)?;
            Ok(SecurityPlan::Sasl(c))
        },
        SecurityProtocolType::SaslSsl => {
            let t = build_kafka_tls_config(&config.tls);
            let c = require_sasl_creds(&config.sasl)?;
            Ok(SecurityPlan::SaslTls(t, c))
        },
    }
}

/// Everything needed to build the client of a cluster.
#[derive(Debug)]
pub struct ClientPlan {
    pub brokers: Vec<String>,
    pub client_id: String,
    pub metadata_ttl_secs: u64,
    pub security: SecurityPlan,
}

/// The client of a cluster: its brokers, the client id `kfk-cli`, a 30
/// second metadata cache, and the security the protocol asks for.
pub fn create_client(config: &ClusterConfig) -> (r: Result<ClientPlan, String>)
    ensures
        r is Ok <==> apply_security_succeeds(config),
        r matches Ok(p) ==> views(p.brokers@) == views(config.brokers@) && p.client_id@ == "kfk-cli"@
            && p.metadata_ttl_secs == 30 && plan_secures(p.security, config),
        r matches Err(e) ==> e@ == missing_sasl_message(),
{
    let security = apply_security(config)?;
    Ok(ClientPlan {
        brokers: crate::config::model::copy_strings(&config.brokers),
        client_id: String::from_str("kfk-cli"),
        metadata_ttl_secs: 30,
        security,
    })
}

/// Whether the configuration has the credentials its protocol needs.
pub open spec fn apply_security_succeeds(config: &ClusterConfig) -> bool {
    !((config.security_protocol == SecurityProtocolType::SaslPlaintext || config.security_protocol
        == SecurityProtocolType::SaslSsl) && config.sasl is None)
}

/// Where a consumer starts when it has no committed offset.
#[derive(Clone, Copy, Debug, PartialEq, Eq, Structural)]
pub enum OffsetReset {
    Earliest,
    Latest,
}

/// The settings of a consumer.
#[derive(Debug)]
pub struct ConsumerSettings {
    pub group_id: String,
    pub auto_commit: bool,
    pub auto_commit_interval_ms: u64,
    pub auto_offset_reset: OffsetReset,
    pub min_bytes: i32,
    pub max_bytes: i32,
    pub partition_max_bytes: i32,
    pub max_wait_ms: u64,
    pub session_timeout_ms: u64,
    pub rebalance_timeout_ms: u64,
    pub heartbeat_interval_ms: u64,
}

/// The reset rule of a `--offset` value.
pub open spec fn reset_of(o: OffsetValue) -> OffsetReset {
    match o {
        OffsetValue::Earliest => OffsetReset::Earliest,
        OffsetValue::Latest => OffsetReset::Latest,
    }
}

/// Create a consumer with given group_id and offset strategy: automatic
/// commits every 5 s, fetches of 1 byte to 10 MiB (1 MiB per partition)
/// waiting up to 1 s, a 45 s session, a 60 s rebalance and a 3 s heartbeat.
pub fn create_consumer(group_id: &str, offset: OffsetValue) -> (r: ConsumerSettings)
    ensures
        r.group_id@ == group_id@,
        r.auto_commit,
        r.auto_commit_interval_ms == 5000,
        r.auto_offset_reset == reset_of(offset),
        r.min_bytes == 1,
        r.max_bytes == 10 * 1024 * 1024,
        r.partition_max_bytes == 1024 * 1024,
        r.max_wait_ms == 1000,
        r.session_timeout_ms == 45000,
        r.rebalance_timeout_ms == 60000,
        r.heartbeat_interval_ms == 3000,
{
    ConsumerSettings {
        group_id: crate::text::to_owned_string(group_id),
        auto_commit: true,
        auto_commit_interval_ms: 5000,
        auto_offset_reset: match offset {
            OffsetValue::Earliest => OffsetReset::Earliest,
            OffsetValue::Latest => OffsetReset::Latest,
        },
        min_bytes: 1,
        max_bytes: 10 * 1024 * 1024,
        partition_max_bytes: 1024 * 1024,
        max_wait_ms: 1000,
        session_timeout_ms: 45000,
        rebalance_timeout_ms: 60000,
        heartbeat_interval_ms: 3000,
    }
}

/// The settings of a producer.
#[derive(Debug)]
pub struct ProducerSettings {
    pub acks: i16,
    pub timeout_ms: i32,
    pub retries: u32,
    pub batch_size: usize,
    pub linger_ms: u64,
}

/// Create a producer: leader acknowledgement, a 5 s timeout, 3 retries,
/// 16 KiB batches lingering up to 50 ms.
pub fn create_producer() -> (r: ProducerSettings)
    ensures
        r.acks == 1,
        r.timeout_ms == 5000,
        r.retries == 3,
        r.batch_size == 16384,
        r.linger_ms == 50,
{
    ProducerSettings { acks: 1, timeout_ms: 5000, retries: 3, batch_size: 16384, linger_ms: 50 }
}

/// The client's TLS settings come from the cluster's TLS configuration:
/// certificates are verified exactly when the configuration is not
/// insecure, the CA, client certificate and client key paths are its CA,
/// certificate and key files, and the domain is the certificate file (or
/// `localhost` when there is none); without a configuration, verified TLS
/// to `localhost` with no files.
pub proof fn law_tls_settings_from_config(tls: Option<TlsConfig>)
    ensures
        tls matches Some(cfg) ==> {
            let t = spec_tls_settings(tls);
            &&& t.verify_certificate == !cfg.insecure
            &&& t.ca_cert_path == cfg.ca_file.deep_view()
            &&& t.client_cert_path == cfg.cert_file.deep_view()
            &&& t.client_key_path == cfg.key_file.deep_view()
            &&& cfg.cert_file is Some ==> t.domain == cfg.cert_file.unwrap()@
            &&& cfg.cert_file is None ==> t.domain == "localhost"@
        },
        tls is None ==> spec_tls_settings(tls) == (KafkaTlsSettingsView {
            verify_certificate: true,
            domain: "localhost"@,
            ca_cert_path: None,
            client_cert_path: None,
            client_key_path: None,
        }),
{
}

} // verus!
