//! The arguments of the commands, and the rules that turn connection flags
//! into configuration.

use vstd::prelude::*;
use crate::config::model::{
    sasl_view, tls_view, SaslConfig, SaslConfigView, SaslMechanism, SecurityProtocolType,
    TlsConfig, TlsConfigView, copy_opt_string,
};
use crate::text::{chars_of, find_char, first_index_of, string_of, sub_chars};

verus! {

/// Output format for consume command
#[derive(Clone, Copy, Debug, PartialEq, Eq, Structural)]
pub enum OutputFormat {
    Text,
    Pretty,
}

/// Offset value for consume command
#[derive(Clone, Copy, Debug, PartialEq, Eq, Structural)]
pub enum OffsetValue {
    Earliest,
    Latest,
}

impl OffsetValue {
    /// How the offset is written (`earliest` or `latest`).
    pub open spec fn spec_name(self) -> Seq<char> {
        match self {
            OffsetValue::Earliest => "earliest"@,
            OffsetValue::Latest => "latest"@,
        }
    }

    /// How the offset is written (`earliest` or `latest`).
    pub fn name(&self) -> (r: String)
        ensures
            r@ == self.spec_name(),
    {
        match self {
            OffsetValue::Earliest => String::from_str("earliest"),
            OffsetValue::Latest => String::from_str("latest"),
        }
    }
}

/// Input format for produce command
#[derive(Clone, Copy, Debug, PartialEq, Eq, Structural)]
pub enum InputFormat {
    Text,
    Json,
}

/// Arguments of `produce`.
#[derive(Debug)]
pub struct ProduceArgs {
    /// Topic to produce to
    pub topic: String,
    /// Message key
    pub key: Option<String>,
    /// Target partition
    pub partition: Option<i32>,
    /// Headers (key:value)
    pub headers: Vec<(String, String)>,
    /// Input format
    pub input: InputFormat,
}

/// Arguments of `consume`.
#[derive(Debug)]
pub struct ConsumeArgs {
    /// Topic to consume from
    pub topic: String,
    /// Consumer group ID (use "none" for direct assign, "random" to auto-generate)
    pub group: String,
    /// Output format
    pub output: OutputFormat,
    /// Offset: earliest | latest
    pub offset: OffsetValue,
    /// Partition to consume from
    pub partition: Option<i32>,
    /// Filter by header (key:value)
    pub headers: Vec<(String, String)>,
    /// Number of messages to consume then exit
    pub tail: Option<usize>,
}

/// Connection arguments shared by the global options and `add-cluster`.
#[derive(Debug)]
pub struct KafkaConnectionArgs {
    /// SASL mechanism
    pub sasl_mechanism: Option<SaslMechanism>,
    /// SASL username (or Kerberos principal for GSSAPI)
    pub sasl_username: Option<String>,
    /// SASL password (not required for GSSAPI)
    pub sasl_password: Option<String>,
    /// Keytab file path (for GSSAPI/Kerberos authentication)
    pub sasl_keytab: Option<String>,
    /// KDC host (for GSSAPI authentication)
    pub kdc_host: Option<String>,
    /// KDC port (for GSSAPI authentication, default: 88)
    pub kdc_port: u16,
    /// Broker hostname for Kerberos service principal (for GSSAPI authentication)
    pub broker_hostname: Option<String>,
    /// Kerberos service name (for GSSAPI authentication, default: kafka)
    pub sasl_service_name: Option<String>,
    /// Kerberos realm (for GSSAPI authentication, extracted from principal if not set)
    pub sasl_realm: Option<String>,
    /// Enable TLS
    pub tls: bool,
    /// TLS CA file path
    pub tls_ca: Option<String>,
    /// TLS cert file path
    pub tls_cert: Option<String>,
    /// TLS key file path
    pub tls_key: Option<String>,
    /// Disable TLS certificate verification (insecure)
    pub tls_insecure: bool,
}

impl KafkaConnectionArgs {
    /// The mechanism that the flags determine: the one given, or `PLAIN`
    /// when none is given but both username and password are.
    pub open spec fn chosen_mechanism(&self) -> Option<SaslMechanism> {
        match self.sasl_mechanism {
            Some(m) => Some(m),
            None => if self.sasl_username is Some && self.sasl_password is Some {
                Some(SaslMechanism::Plain)
            } else {
                None
            },
        }
    }

    /// The SASL configuration the flags describe: present when a mechanism
    /// is determined, a username is given, and a password is given unless
    /// the mechanism is GSSAPI (whose password then defaults to empty).
    pub open spec fn spec_sasl(&self) -> Option<SaslConfigView> {
        match self.chosen_mechanism() {
            None => None,
            Some(m) => if self.sasl_username is None {
                None
            } else if m != SaslMechanism::Gssapi && self.sasl_password is None {
                None
            } else {
                Some(SaslConfigView {
                    mechanism: m,
                    username: self.sasl_username.unwrap()@,
                    password: match self.sasl_password {
                        Some(p) => p@,
                        None => Seq::empty(),
                    },
                    keytab: self.sasl_keytab.deep_view(),
                    kdc_host: self.kdc_host.deep_view(),
                    kdc_port: Some(self.kdc_port),
                    broker_hostname: self.broker_hostname.deep_view(),
                    service_name: self.sasl_service_name.deep_view(),
                    realm: self.sasl_realm.deep_view(),
                })
            }
        }
    }

    /// The TLS configuration the flags describe: present exactly when TLS
    /// is enabled.
    pub open spec fn spec_tls(&self) -> Option<TlsConfigView> {
        if self.tls {
            Some(TlsConfigView {
                insecure: self.tls_insecure,
                ca_file: self.tls_ca.deep_view(),
                cert_file: self.tls_cert.deep_view(),
                key_file: self.tls_key.deep_view(),
            })
        } else {
            None
        }
    }

    /// Build `SaslConfig` from CLI args.
    ///
    /// Returns `None` unless authentication can be determined: explicitly set
    /// `sasl_mechanism`, or both `sasl_username` and `sasl_password` provided
    /// (in which case `sasl_mechanism` defaults to `Plain`).
    pub fn build_sasl_config(&self) -> (r: Option<SaslConfig>)
        ensures
            sasl_view(r) == self.spec_sasl(),
    {
        let mechanism = match self.sasl_mechanism {
            Some(m) => m,
            None => {
                if self.sasl_username.is_some() && self.sasl_password.is_some() {
                    SaslMechanism::Plain
                } else {
                    return None;
                }
            },
        };
        let username = match &self.sasl_username {
            Some(u) => u.clone(),
            None => return None,
        };
        let password = match &self.sasl_password {
            Some(p) => p.clone(),
            None => {
                if mechanism == SaslMechanism::Gssapi {
                    String::new()
                } else {
                    return None;
                }
            },
        };
        let r = SaslConfig {
            mechanism,
            username,
            password,
            keytab: copy_opt_string(&self.sasl_keytab),
            kdc_host: copy_opt_string(&self.kdc_host),
            kdc_port: Some(self.kdc_port),
            broker_hostname: copy_opt_string(&self.broker_hostname),
            service_name: copy_opt_string(&self.sasl_service_name),
            realm: copy_opt_string(&self.sasl_realm),
        };
        assert(r@ =~= self.spec_sasl().unwrap());
        Some(r)
    }

    /// Build `TlsConfig` from CLI args. Returns `None` if TLS is not enabled.
    pub fn build_tls_config(&self) -> (r: Option<TlsConfig>)
        ensures
            tls_view(r) == self.spec_tls(),
    {
        if !self.tls {
            return None;
        }
        let r = TlsConfig {
            insecure: self.tls_insecure,
            ca_file: copy_opt_string(&self.tls_ca),
            cert_file: copy_opt_string(&self.tls_cert),
            key_file: copy_opt_string(&self.tls_key),
        };
        assert(r@ =~= self.spec_tls().unwrap());
        Some(r)
    }
}

/// Actions of `config`.
#[derive(Debug)]
pub enum ConfigAction {
    /// Add a new cluster configuration
    AddCluster {
        name: String,
        brokers: String,
        security_protocol: SecurityProtocolType,
        auth_args: Box<KafkaConnectionArgs>,
    },
    /// Remove a cluster configuration
    RemoveCluster { name: String },
    /// Select the active cluster
    SelectCluster { name: String },
    /// List all configured clusters
    List,
}

/// Actions of `node`.
#[derive(Debug)]
pub enum NodeAction {
    /// List all brokers
    Ls,
}

/// Actions of `topic`.
#[derive(Debug)]
pub enum TopicAction {
    /// List all topics
    Ls,
    /// Describe a topic
    Describe { topic: String },
    /// Create a topic
    Create { topic: String, partitions: i32, replication_factor: i16 },
    /// Delete a topic
    Delete { topic: String },
}

/// Actions of `group`.
#[derive(Debug)]
#[allow(inconsistent_fields)]
pub enum GroupAction {
    /// List all consumer groups
    Ls,
    /// Describe a consumer group
    Describe { group: String },
    /// Show committed offsets and lag for consumer group(s)
    Offsets { group: Option<String>, topic: Option<String> },
    /// Commit/reset offset for a consumer group
    Commit {
        group: String,
        topic: String,
        offset: String,
        partition: Option<i32>,
        all_partitions: bool,
    },
    /// Delete a consumer group
    Delete { group: String },
}

/// The connection flags give SASL settings exactly when a mechanism is
/// chosen (`--sasl-mechanism`, or PLAIN when both a username and a password
/// are given) and a username is given, with a password unless the
/// mechanism is GSSAPI; the settings hold the chosen mechanism, the
/// username, the password (empty for GSSAPI without one) and the Kerberos
/// flags as given. They give TLS settings exactly with `--tls`, holding
/// `--tls-insecure`, the CA of `--tls-ca`, the certificate of `--tls-cert`
/// and the key of `--tls-key`.
pub proof fn law_connection_settings_from_flags(a: &KafkaConnectionArgs)
    ensures
        a.spec_sasl() is Some <==> (a.sasl_username is Some && (a.sasl_mechanism is Some || a.sasl_password is Some)
            && (a.sasl_password is Some || a.sasl_mechanism == Some(SaslMechanism::Gssapi))),
        a.spec_sasl() matches Some(c) ==> {
            &&& c.mechanism == match a.sasl_mechanism {
                Some(m) => m,
                None => SaslMechanism::Plain,
            }
            &&& c.username == a.sasl_username.unwrap()@
            &&& a.sasl_password is Some ==> c.password == a.sasl_password.unwrap()@
            &&& a.sasl_password is None ==> c.password.len() == 0
            &&& c.keytab == a.sasl_keytab.deep_view()
            &&& c.kdc_host == a.kdc_host.deep_view()
            &&& c.kdc_port == Some(a.kdc_port)
            &&& c.broker_hostname == a.broker_hostname.deep_view()
            &&& c.service_name == a.sasl_service_name.deep_view()
            &&& c.realm == a.sasl_realm.deep_view()
        },
        a.spec_tls() is Some <==> a.tls,
        a.spec_tls() matches Some(t) ==> t.insecure == a.tls_insecure && t.ca_file == a.tls_ca.deep_view()
            && t.cert_file == a.tls_cert.deep_view() && t.key_file == a.tls_key.deep_view(),
{
}

/// Parse key:value pairs: the text before the first `:` and the text after
/// it; an error names the text when it holds no `:`.
pub fn parse_key_val(s: &str) -> (r: Result<(String, String), String>)
    ensures
        r is Ok <==> s@.contains(':'),
        r matches Ok((k, v)) ==> exists|p: int|
            first_index_of(s@, ':', p) && k@ == s@.take(p) && v@ == s@.skip(p + 1),
        r matches Err(e) ==> e@ == "Invalid KEY:VALUE format: "@ + s@,
{
    let cs = chars_of(s);
    match find_char(&cs, ':') {
        Some(pos) => {
            assert(first_index_of(cs@, ':', pos as int));
            let k = string_of(&sub_chars(&cs, 0, pos));
            let n = cs.len();
            let v = string_of(&sub_chars(&cs, pos + 1, n));
            assert(cs@.subrange(0, pos as int) =~= s@.take(pos as int));
            assert(cs@.subrange(pos + 1, cs@.len() as int) =~= s@.skip(pos + 1));
            assert(first_index_of(s@, ':', pos as int));
            Ok((k, v))
        },
        None => Err(crate::text::concat2("Invalid KEY:VALUE format: ", s)),
    }
}


/// The log filter for a verbosity level (the number of `-v` flags): none,
/// then `warn`, `info`, `debug`, and `trace` from four on.
pub open spec fn spec_log_level(verbose: u8) -> Seq<char> {
    if verbose == 0 {
        Seq::empty()
    } else if verbose == 1 {
        "warn"@
    } else if verbose == 2 {
        "info"@
    } else if verbose == 3 {
        "debug"@
    } else {
        "trace"@
    }
}

/// The log filter for a verbosity level; empty means no logging.
pub fn log_level(verbose: u8) -> (r: String)
    ensures
        r@ == spec_log_level(verbose),
{
    match verbose {
        0 => String::new(),
        1 => String::from_str("warn"),
        2 => String::from_str("info"),
        3 => String::from_str("debug"),
        _ => String::from_str("trace"),
    }
}

} // verus!
