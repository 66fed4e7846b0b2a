//! The saved configuration: clusters by name and how to reach them.

use vstd::prelude::*;
use crate::text::{codes, lex_lt, lex_lt_at, lemma_lex_irreflexive, lemma_lex_total, lemma_lex_transitive};

verus! {

/// How a cluster's brokers are reached.
#[derive(Clone, Copy, Debug, PartialEq, Eq, Structural)]
pub enum SecurityProtocolType {
    Plaintext,
    Ssl,
    SaslPlaintext,
    SaslSsl,
}

impl SecurityProtocolType {
    /// The protocol's name as configuration files and the command line write
    /// it.
    pub open spec fn spec_name(self) -> Seq<char> {
        match self {
            SecurityProtocolType::Plaintext => "PLAINTEXT"@,
            SecurityProtocolType::Ssl => "SSL"@,
            SecurityProtocolType::SaslPlaintext => "SASL_PLAINTEXT"@,
            SecurityProtocolType::SaslSsl => "SASL_SSL"@,
        }
    }

    /// The protocol's name (`PLAINTEXT`, `SSL`, `SASL_PLAINTEXT`, `SASL_SSL`).
    pub fn name(&self) -> (r: String)
        ensures
            r@ == self.spec_name(),
    {
        match self {
            SecurityProtocolType::Plaintext => String::from_str("PLAINTEXT"),
            SecurityProtocolType::Ssl => String::from_str("SSL"),
            SecurityProtocolType::SaslPlaintext => String::from_str("SASL_PLAINTEXT"),
            SecurityProtocolType::SaslSsl => String::from_str("SASL_SSL"),
        }
    }
}

impl Default for SecurityProtocolType {
    /// Plain text is the default protocol.
    fn default() -> (r: Self)
        ensures
            r == SecurityProtocolType::Plaintext,
    {
        SecurityProtocolType::Plaintext
    }
}

/// A SASL authentication mechanism.
#[derive(Clone, Copy, Debug, PartialEq, Eq, Structural)]
pub enum SaslMechanism {
    Plain,
    ScramSha256,
    ScramSha512,
    /// SASL/GSSAPI (Kerberos) authentication
    Gssapi,
}

impl SaslMechanism {
    /// The mechanism's name as configuration files and the command line
    /// write it.
    pub open spec fn spec_name(self) -> Seq<char> {
        match self {
            SaslMechanism::Plain => "PLAIN"@,
            SaslMechanism::ScramSha256 => "SCRAM-SHA-256"@,
            SaslMechanism::ScramSha512 => "SCRAM-SHA-512"@,
            SaslMechanism::Gssapi => "GSSAPI"@,
        }
    }

    /// The mechanism's name (`PLAIN`, `SCRAM-SHA-256`, `SCRAM-SHA-512`,
    /// `GSSAPI`).
    pub fn name(&self) -> (r: String)
        ensures
            r@ == self.spec_name(),
    {
        match self {
            SaslMechanism::Plain => String::from_str("PLAIN"),
            SaslMechanism::ScramSha256 => String::from_str("SCRAM-SHA-256"),
            SaslMechanism::ScramSha512 => String::from_str("SCRAM-SHA-512"),
            SaslMechanism::Gssapi => String::from_str("GSSAPI"),
        }
    }
}

/// A copy of an optional string, equal to it.
pub fn copy_opt_string(o: &Option<String>) -> (r: Option<String>)
    ensures
        r == *o,
{
    match o {
        Some(s) => Some(s.clone()),
        None => None,
    }
}

/// A copy of a list of strings, with the same texts.
pub fn copy_strings(v: &Vec<String>) -> (r: Vec<String>)
    ensures
        r@ == v@,
{
    let mut r: Vec<String> = Vec::new();
    let n = v.len();
    for i in 0..n
        invariant
            n == v@.len(),
            r@ == v@.take(i as int),
    {
        r.push(v[i].clone());
        assert(v@.take(i + 1) =~= v@.take(i as int).push(v@[i as int]));
    }
    assert(v@.take(n as int) =~= v@);
    r
}

/// SASL credentials of a cluster.
#[derive(Debug)]
pub struct SaslConfig {
    pub mechanism: SaslMechanism,
    pub username: String,
    pub password: String,
    /// Keytab file path (for GSSAPI/Kerberos authentication)
    pub keytab: Option<String>,
    /// KDC host (for GSSAPI authentication)
    pub kdc_host: Option<String>,
    /// KDC port (for GSSAPI authentication, default: 88)
    pub kdc_port: Option<u16>,
    /// Broker hostname for Kerberos service principal (for GSSAPI authentication)
    pub broker_hostname: Option<String>,
    /// Kerberos service name (for GSSAPI authentication, default: kafka)
    pub service_name: Option<String>,
    /// Kerberos realm (for GSSAPI authentication, extracted from principal if not set)
    pub realm: Option<String>,
}

/// The content of a `SaslConfig`.
#[verifier::ext_equal]
pub struct SaslConfigView {
    pub mechanism: SaslMechanism,
    pub username: Seq<char>,
    pub password: Seq<char>,
    pub keytab: Option<Seq<char>>,
    pub kdc_host: Option<Seq<char>>,
    pub kdc_port: Option<u16>,
    pub broker_hostname: Option<Seq<char>>,
    pub service_name: Option<Seq<char>>,
    pub realm: Option<Seq<char>>,
}

impl View for SaslConfig {
    type V = SaslConfigView;

    open spec fn view(&self) -> SaslConfigView {
        SaslConfigView {
            mechanism: self.mechanism,
            username: self.username@,
            password: self.password@,
            keytab: self.keytab.deep_view(),
            kdc_host: self.kdc_host.deep_view(),
            kdc_port: self.kdc_port,
            broker_hostname: self.broker_hostname.deep_view(),
            service_name: self.service_name.deep_view(),
            realm: self.realm.deep_view(),
        }
    }
}

impl SaslConfig {
    /// A copy, with the same content.
    pub fn copy(&self) -> (r: Self)
        ensures
            r@ == self@,
    {
        SaslConfig {
            mechanism: self.mechanism,
            username: self.username.clone(),
            password: self.password.clone(),
            keytab: copy_opt_string(&self.keytab),
            kdc_host: copy_opt_string(&self.kdc_host),
            kdc_port: self.kdc_port,
            broker_hostname: copy_opt_string(&self.broker_hostname),
            service_name: copy_opt_string(&self.service_name),
            realm: copy_opt_string(&self.realm),
        }
    }
}

/// TLS settings of a cluster.
#[derive(Debug)]
pub struct TlsConfig {
    pub insecure: bool,
    pub ca_file: Option<String>,
    pub cert_file: Option<String>,
    pub key_file: Option<String>,
}

/// The content of a `TlsConfig`.
#[verifier::ext_equal]
pub struct TlsConfigView {
    pub insecure: bool,
    pub ca_file: Option<Seq<char>>,
    pub cert_file: Option<Seq<char>>,
    pub key_file: Option<Seq<char>>,
}

impl View for TlsConfig {
    type V = TlsConfigView;

    open spec fn view(&self) -> TlsConfigView {
        TlsConfigView {
            insecure: self.insecure,
            ca_file: self.ca_file.deep_view(),
            cert_file: self.cert_file.deep_view(),
            key_file: self.key_file.deep_view(),
        }
    }
}

impl TlsConfig {
    /// A copy, with the same content.
    pub fn copy(&self) -> (r: Self)
        ensures
            r@ == self@,
    {
        TlsConfig {
            insecure: self.insecure,
            ca_file: copy_opt_string(&self.ca_file),
            cert_file: copy_opt_string(&self.cert_file),
            key_file: copy_opt_string(&self.key_file),
        }
    }
}

impl Default for TlsConfig {
    /// Verified TLS with no files given.
    fn default() -> (r: Self)
        ensures
            !r.insecure,
            r.ca_file is None,
            r.cert_file is None,
            r.key_file is None,
    {
        TlsConfig { insecure: false, ca_file: None, cert_file: None, key_file: None }
    }
}

/// How to reach one cluster.
#[derive(Debug)]
pub struct ClusterConfig {
    pub brokers: Vec<String>,
    pub security_protocol: SecurityProtocolType,
    pub sasl: Option<SaslConfig>,
    pub tls: Option<TlsConfig>,
}

/// The content of a `ClusterConfig`.
#[verifier::ext_equal]
pub struct ClusterConfigView {
    pub brokers: Seq<Seq<char>>,
    pub security_protocol: SecurityProtocolType,
    pub sasl: Option<SaslConfigView>,
    pub tls: Option<TlsConfigView>,
}

/// The content of an optional SASL configuration.
pub open spec fn sasl_view(o: Option<SaslConfig>) -> Option<SaslConfigView> {
    match o {
        Some(s) => Some(s@),
        None => None,
    }
}

/// The content of an optional TLS configuration.
pub open spec fn tls_view(o: Option<TlsConfig>) -> Option<TlsConfigView> {
    match o {
        Some(t) => Some(t@),
        None => None,
    }
}

impl View for ClusterConfig {
    type V = ClusterConfigView;

    open spec fn view(&self) -> ClusterConfigView {
        ClusterConfigView {
            brokers: crate::text::views(self.brokers@),
            security_protocol: self.security_protocol,
            sasl: sasl_view(self.sasl),
            tls: tls_view(self.tls),
        }
    }
}

impl ClusterConfig {
    /// A copy, with the same content.
    pub fn copy(&self) -> (r: Self)
        ensures
            r@ == self@,
    {
        ClusterConfig {
            brokers: copy_strings(&self.brokers),
            security_protocol: self.security_protocol,
            sasl: match &self.sasl {
                Some(s) => Some(s.copy()),
                None => None,
            },
            tls: match &self.tls {
                Some(t) => Some(t.copy()),
                None => None,
            },
        }
    }
}

/// One named cluster.
#[derive(Debug)]
pub struct ClusterEntry {
    pub name: String,
    pub config: ClusterConfig,
}

/// Names in strictly increasing code-point order (so no name occurs twice).
pub open spec fn strictly_sorted(names: Seq<Seq<char>>) -> bool {
    forall|i: int, j: int| 0 <= i < j < names.len() ==> lex_lt(codes(#[trigger] names[i]), codes(#[trigger] names[j]))
}

/// Clusters by name. The entries are kept in increasing order of name, so a
/// name occurs at most once and listing them needs no sorting.
#[derive(Debug)]
pub struct ClusterMap {
    entries: Vec<ClusterEntry>,
}

impl ClusterMap {
    /// The names, in increasing order.
    pub closed spec fn name_seq(&self) -> Seq<Seq<char>> {
        self.entries@.map_values(|e: ClusterEntry| e.name@)
    }

    /// The configurations, in the order of `name_seq`.
    pub closed spec fn config_seq(&self) -> Seq<ClusterConfigView> {
        self.entries@.map_values(|e: ClusterEntry| e.config@)
    }

    #[verifier::type_invariant]
    spec fn sorted(&self) -> bool {
        strictly_sorted(self.name_seq())
    }

    /// The configuration of each name.
    pub open spec fn spec_map(&self) -> Map<Seq<char>, ClusterConfigView> {
        map_of(self.name_seq(), self.config_seq())
    }
}

impl View for ClusterMap {
    type V = Map<Seq<char>, ClusterConfigView>;

    open spec fn view(&self) -> Map<Seq<char>, ClusterConfigView> {
        self.spec_map()
    }
}

/// The map that pairs each name with the configuration at its position.
pub open spec fn map_of(names: Seq<Seq<char>>, configs: Seq<ClusterConfigView>) -> Map<Seq<char>, ClusterConfigView> {
    Map::new(|k: Seq<char>| names.contains(k), |k: Seq<char>| configs[names.index_of(k)])
}

/// In a strictly sorted sequence a name is found at exactly one position.
proof fn lemma_sorted_unique(names: Seq<Seq<char>>, i: int, j: int)
    requires
        strictly_sorted(names),
        0 <= i < names.len(),
        0 <= j < names.len(),
        names[i] == names[j],
    ensures
        i == j,
{
    if i < j {
        lemma_lex_irreflexive(codes(names[i]));
    } else if j < i {
        lemma_lex_irreflexive(codes(names[i]));
    }
}

/// The position of a name in a strictly sorted sequence is the position
/// where it was found.
pub proof fn lemma_index_of_pub(names: Seq<Seq<char>>, i: int)
    requires
        strictly_sorted(names),
        0 <= i < names.len(),
    ensures
        names.contains(names[i]),
        names.index_of(names[i]) == i,
{
    lemma_index_of(names, i);
}

proof fn lemma_index_of(names: Seq<Seq<char>>, i: int)
    requires
        strictly_sorted(names),
        0 <= i < names.len(),
    ensures
        names.contains(names[i]),
        names.index_of(names[i]) == i,
{
    assert(names.contains(names[i]));
    let j = names.index_of(names[i]);
    lemma_sorted_unique(names, i, j);
}

impl ClusterMap {
    /// An empty map.
    pub fn new() -> (r: Self)
        ensures
            r@ == Map::<Seq<char>, ClusterConfigView>::empty(),
            r.name_seq() == Seq::<Seq<char>>::empty(),
    {
        let r = ClusterMap { entries: Vec::new() };
        assert(r.name_seq() =~= Seq::<Seq<char>>::empty());
        assert(r@ =~= Map::<Seq<char>, ClusterConfigView>::empty());
        r
    }

    /// The names of the clusters in increasing code-point order, each once,
    /// exactly the map's keys.
    pub fn names(&self) -> (r: Vec<String>)
        ensures
            crate::text::views(r@) == self.name_seq(),
            strictly_sorted(self.name_seq()),
            self.name_seq().to_set() == self@.dom(),
    {
        proof {
            use_type_invariant(self);
        }
        let mut r: Vec<String> = Vec::new();
        let n = self.entries.len();
        for i in 0..n
            invariant
                n == self.entries@.len(),
                crate::text::views(r@) == self.name_seq().take(i as int),
        {
            let ghost before = r@;
            r.push(self.entries[i].name.clone());
            assert(r@ == before.push(self.entries@[i as int].name));
            assert(crate::text::views(r@) =~= crate::text::views(before).push(self.entries@[i as int].name@));
            assert(self.name_seq().take(i + 1) =~= self.name_seq().take(i as int).push(self.entries@[i as int].name@));
        }
        assert(self.name_seq().take(n as int) =~= self.name_seq());
        assert(self.name_seq().to_set() =~= self@.dom());
        r
    }

    /// Whether the map is empty.
    pub fn is_empty(&self) -> (r: bool)
        ensures
            r == (self@.dom() == Set::<Seq<char>>::empty()),
            r == (self.name_seq().len() == 0),
    {
        let r = self.entries.len() == 0;
        if !r {
            assert(self@.dom().contains(self.name_seq()[0]));
        } else {
            assert(self@.dom() =~= Set::<Seq<char>>::empty());
        }
        r
    }

    /// The position where `name` is or would be inserted: every earlier name
    /// comes before it, and the name at the position (if any) does not.
    fn position(&self, name: &str) -> (r: usize)
        ensures
            r <= self.name_seq().len(),
            forall|i: int| 0 <= i < r ==> lex_lt(codes(#[trigger] self.name_seq()[i]), codes(name@)),
            r < self.name_seq().len() ==> !lex_lt(codes(self.name_seq()[r as int]), codes(name@)),
    {
        proof {
            use_type_invariant(self);
        }
        let n = self.entries.len();
        let mut i: usize = 0;
        while i < n
            invariant
                i <= n,
                n == self.entries@.len(),
                strictly_sorted(self.name_seq()),
                forall|j: int| 0 <= j < i ==> lex_lt(codes(#[trigger] self.name_seq()[j]), codes(name@)),
            decreases n - i,
        {
            let before = crate::text::str_lt(self.entries[i].name.as_str(), name);
            if !before {
                return i;
            }
            i = i + 1;
        }
        i
    }

    /// The configuration of `name`, if the map holds it.
    pub fn get(&self, name: &str) -> (r: Option<&ClusterConfig>)
        ensures
            r is Some <==> self@.dom().contains(name@),
            r matches Some(c) ==> c@ == self@[name@],
    {
        proof {
            use_type_invariant(self);
        }
        let p = self.position(name);
        if p < self.entries.len() && crate::text::str_eq(self.entries[p].name.as_str(), name) {
            proof {
                lemma_index_of(self.name_seq(), p as int);
            }
            Some(&self.entries[p].config)
        } else {
            proof {
                if self.name_seq().contains(name@) {
                    let j = choose|j: int| 0 <= j < self.name_seq().len() && self.name_seq()[j] == name@;
                    if j < p {
                        lemma_lex_irreflexive(codes(name@));
                    } else if j > p {
                        lemma_lex_transitive(codes(self.name_seq()[p as int]), codes(name@), codes(self.name_seq()[p as int]));
                        lemma_lex_total(codes(self.name_seq()[p as int]), codes(name@));
                        crate::text::lemma_codes_injective(self.name_seq()[p as int], name@);
                        lemma_lex_irreflexive(codes(name@));
                    }
                }
            }
            None
        }
    }

    /// Whether the map holds `name`.
    pub fn contains_key(&self, name: &str) -> (r: bool)
        ensures
            r == self@.dom().contains(name@),
    {
        self.get(name).is_some()
    }
}


/// Inserting a new name at its sorted position keeps the names strictly
/// sorted, and adds the pair to the map.
proof fn lemma_insert_new(
    names: Seq<Seq<char>>,
    configs: Seq<ClusterConfigView>,
    p: int,
    key: Seq<char>,
    v: ClusterConfigView,
)
    requires
        strictly_sorted(names),
        names.len() == configs.len(),
        0 <= p <= names.len(),
        forall|i: int| 0 <= i < p ==> lex_lt(codes(#[trigger] names[i]), codes(key)),
        p < names.len() ==> lex_lt(codes(key), codes(names[p])),
    ensures
        strictly_sorted(names.insert(p, key)),
        !names.contains(key),
        map_of(names.insert(p, key), configs.insert(p, v)) == map_of(names, configs).insert(key, v),
{
    let n2 = names.insert(p, key);
    let c2 = configs.insert(p, v);
    assert forall|i: int, j: int| 0 <= i < j < n2.len() implies lex_lt(codes(#[trigger] n2[i]), codes(#[trigger] n2[j])) by {
        if j < p {
        } else if j == p {
        } else if i < p {
            assert(n2[j] == names[j - 1]);
            if p < names.len() {
                if j - 1 > p {
                    lemma_lex_transitive(codes(key), codes(names[p]), codes(names[j - 1]));
                }
                lemma_lex_transitive(codes(names[i]), codes(key), codes(names[j - 1]));
            }
        } else if i == p {
            assert(n2[j] == names[j - 1]);
            if j - 1 > p {
                lemma_lex_transitive(codes(key), codes(names[p]), codes(names[j - 1]));
            }
        } else {
            assert(n2[i] == names[i - 1]);
            assert(n2[j] == names[j - 1]);
        }
    }
    assert(!names.contains(key)) by {
        if names.contains(key) {
            let j = choose|j: int| 0 <= j < names.len() && names[j] == key;
            lemma_lex_irreflexive(codes(key));
            if j > p {
                lemma_lex_transitive(codes(key), codes(names[p]), codes(names[j]));
            }
        }
    }
    let m1 = map_of(n2, c2);
    let m2 = map_of(names, configs).insert(key, v);
    assert forall|k: Seq<char>| #[trigger] m1.dom().contains(k) <==> m2.dom().contains(k) by {
        if n2.contains(k) {
            let j = choose|j: int| 0 <= j < n2.len() && n2[j] == k;
            if j < p {
                assert(names[j] == k);
            } else if j > p {
                assert(names[j - 1] == k);
            }
        }
        if names.contains(k) {
            let j = choose|j: int| 0 <= j < names.len() && names[j] == k;
            if j < p {
                assert(n2[j] == k);
            } else {
                assert(n2[j + 1] == k);
            }
        }
        if k == key {
            assert(n2[p] == key);
        }
    }
    assert(m1.dom() =~= m2.dom());
    assert forall|k: Seq<char>| m1.dom().contains(k) implies #[trigger] m1[k] == m2[k] by {
        let j = n2.index_of(k);
        assert(0 <= j < n2.len() && n2[j] == k);
        if k == key {
            lemma_sorted_unique(n2, j, p);
        } else {
            if j < p {
                lemma_index_of(names, j);
            } else {
                assert(j != p);
                lemma_index_of(names, j - 1);
            }
        }
    }
    assert(m1 =~= m2);
}

/// Replacing the configuration of a name already present updates the map at
/// that name only.
proof fn lemma_replace(
    names: Seq<Seq<char>>,
    configs: Seq<ClusterConfigView>,
    p: int,
    v: ClusterConfigView,
)
    requires
        strictly_sorted(names),
        names.len() == configs.len(),
        0 <= p < names.len(),
    ensures
        map_of(names, configs.update(p, v)) == map_of(names, configs).insert(names[p], v),
{
    let m1 = map_of(names, configs.update(p, v));
    let m2 = map_of(names, configs).insert(names[p], v);
    lemma_index_of(names, p);
    assert(m1.dom() =~= m2.dom());
    assert forall|k: Seq<char>| m1.dom().contains(k) implies #[trigger] m1[k] == m2[k] by {
        let j = names.index_of(k);
        lemma_index_of(names, j);
        if k == names[p] {
            lemma_sorted_unique(names, j, p);
        } else {
            assert(j != p);
        }
    }
    assert(m1 =~= m2);
}

/// Removing the entry at a name's position keeps the names strictly sorted
/// and removes the name from the map.
proof fn lemma_remove_at(names: Seq<Seq<char>>, configs: Seq<ClusterConfigView>, p: int)
    requires
        strictly_sorted(names),
        names.len() == configs.len(),
        0 <= p < names.len(),
    ensures
        strictly_sorted(names.remove(p)),
        map_of(names.remove(p), configs.remove(p)) == map_of(names, configs).remove(names[p]),
{
    let n2 = names.remove(p);
    let c2 = configs.remove(p);
    let key = names[p];
    assert forall|i: int, j: int| 0 <= i < j < n2.len() implies lex_lt(codes(#[trigger] n2[i]), codes(#[trigger] n2[j])) by {
        let i0 = if i < p { i } else { i + 1 };
        let j0 = if j < p { j } else { j + 1 };
        assert(n2[i] == names[i0]);
        assert(n2[j] == names[j0]);
    }
    let m1 = map_of(n2, c2);
    let m2 = map_of(names, configs).remove(key);
    assert forall|k: Seq<char>| #[trigger] m1.dom().contains(k) <==> m2.dom().contains(k) by {
        if n2.contains(k) {
            let j = choose|j: int| 0 <= j < n2.len() && n2[j] == k;
            let j0 = if j < p { j } else { j + 1 };
            assert(names[j0] == k);
            if k == key {
                lemma_sorted_unique(names, j0, p);
            }
        }
        if names.contains(k) && k != key {
            let j = choose|j: int| 0 <= j < names.len() && names[j] == k;
            if j < p {
                assert(n2[j] == k);
            } else {
                assert(j != p);
                assert(n2[j - 1] == k);
            }
        }
    }
    assert(m1.dom() =~= m2.dom());
    assert forall|k: Seq<char>| m1.dom().contains(k) implies #[trigger] m1[k] == m2[k] by {
        let j = n2.index_of(k);
        assert(0 <= j < n2.len() && n2[j] == k);
        let j0 = if j < p { j } else { j + 1 };
        assert(names[j0] == k);
        lemma_index_of(names, j0);
    }
    assert(m1 =~= m2);
}

impl ClusterMap {
    /// Sets the configuration of `name`, adding the name if it is new.
    pub fn insert(&mut self, name: String, config: ClusterConfig)
        ensures
            final(self)@ == old(self)@.insert(name@, config@),
    {
        proof {
            use_type_invariant(&*self);
        }
        let p = self.position(name.as_str());
        let mut entries: Vec<ClusterEntry> = Vec::new();
        std::mem::swap(&mut entries, &mut self.entries);
        let ghost names = entries@.map_values(|e: ClusterEntry| e.name@);
        let ghost configs = entries@.map_values(|e: ClusterEntry| e.config@);
        let ghost key = name@;
        let ghost v = config@;
        let found = p < entries.len() && crate::text::str_eq(entries[p].name.as_str(), name.as_str());
        if found {
            entries.set(p, ClusterEntry { name, config });
            proof {
                lemma_replace(names, configs, p as int, v);
                assert(entries@.map_values(|e: ClusterEntry| e.name@) =~= names);
                assert(entries@.map_values(|e: ClusterEntry| e.config@) =~= configs.update(p as int, v));
            }
        } else {
            proof {
                if p < names.len() {
                    lemma_lex_total(codes(names[p as int]), codes(key));
                    if codes(names[p as int]) == codes(key) {
                        crate::text::lemma_codes_injective(names[p as int], key);
                    }
                }
                lemma_insert_new(names, configs, p as int, key, v);
            }
            entries.insert(p, ClusterEntry { name, config });
            proof {
                assert(entries@.map_values(|e: ClusterEntry| e.name@) =~= names.insert(p as int, key));
                assert(entries@.map_values(|e: ClusterEntry| e.config@) =~= configs.insert(p as int, v));
            }
        }
        self.entries = entries;
    }

    /// Removes `name`, giving back its configuration if the map held it.
    pub fn remove(&mut self, name: &str) -> (r: Option<ClusterConfig>)
        ensures
            final(self)@ == old(self)@.remove(name@),
            r is Some <==> old(self)@.dom().contains(name@),
            r matches Some(c) ==> c@ == old(self)@[name@],
    {
        proof {
            use_type_invariant(&*self);
        }
        let p = self.position(name);
        if p < self.entries.len() && crate::text::str_eq(self.entries[p].name.as_str(), name) {
            let mut entries: Vec<ClusterEntry> = Vec::new();
            std::mem::swap(&mut entries, &mut self.entries);
            let ghost names = entries@.map_values(|e: ClusterEntry| e.name@);
            let ghost configs = entries@.map_values(|e: ClusterEntry| e.config@);
            proof {
                lemma_remove_at(names, configs, p as int);
                lemma_index_of(names, p as int);
            }
            let e = entries.remove(p);
            proof {
                assert(entries@.map_values(|e: ClusterEntry| e.name@) =~= names.remove(p as int));
                assert(entries@.map_values(|e: ClusterEntry| e.config@) =~= configs.remove(p as int));
            }
            self.entries = entries;
            Some(e.config)
        } else {
            let present = self.get(name).is_some();
            assert(!present);
            assert(self@.remove(name@) =~= self@);
            None
        }
    }

    /// The first name in increasing order, if the map is not empty.
    pub fn first_name(&self) -> (r: Option<String>)
        ensures
            r is Some <==> self.name_seq().len() > 0,
            r matches Some(k) ==> k@ == self.name_seq()[0] && self@.dom().contains(k@),
    {
        if self.entries.len() > 0 {
            Some(self.entries[0].name.clone())
        } else {
            None
        }
    }

    /// The entries in increasing order of name.
    pub fn entries(&self) -> (r: &Vec<ClusterEntry>)
        ensures
            r@.map_values(|e: ClusterEntry| e.name@) == self.name_seq(),
            r@.map_values(|e: ClusterEntry| e.config@) == self.config_seq(),
            strictly_sorted(self.name_seq()),
    {
        proof {
            use_type_invariant(self);
        }
        &self.entries
    }
}


/// The saved configuration: the selected cluster and every named cluster.
#[derive(Debug)]
pub struct AppConfig {
    pub current_cluster: Option<String>,
    pub clusters: ClusterMap,
}

/// The broker address used when none is configured.
pub open spec fn default_broker() -> Seq<char> {
    "127.0.0.1:9092"@
}

/// The cluster that a fresh configuration holds under the name `local`:
/// one broker at the default address, plain text, no SASL, no TLS.
pub open spec fn local_cluster() -> ClusterConfigView {
    ClusterConfigView {
        brokers: seq![default_broker()],
        security_protocol: SecurityProtocolType::Plaintext,
        sasl: None,
        tls: None,
    }
}

impl Default for AppConfig {
    /// A configuration holding the `local` cluster, selected.
    fn default() -> (r: Self)
        ensures
            r.current_cluster.deep_view() == Some("local"@),
            r.clusters@ == Map::<Seq<char>, ClusterConfigView>::empty().insert("local"@, local_cluster()),
    {
        let mut clusters = ClusterMap::new();
        let mut brokers: Vec<String> = Vec::new();
        brokers.push(String::from_str("127.0.0.1:9092"));
        let local = ClusterConfig {
            brokers,
            security_protocol: SecurityProtocolType::Plaintext,
            sasl: None,
            tls: None,
        };
        assert(local@ =~= local_cluster());
        clusters.insert(String::from_str("local"), local);
        AppConfig { current_cluster: Some(String::from_str("local")), clusters }
    }
}


/// The content of an `AppConfig`.
#[verifier::ext_equal]
pub struct AppConfigView {
    pub current_cluster: Option<Seq<char>>,
    pub clusters: Map<Seq<char>, ClusterConfigView>,
}

impl View for AppConfig {
    type V = AppConfigView;

    open spec fn view(&self) -> AppConfigView {
        AppConfigView { current_cluster: self.current_cluster.deep_view(), clusters: self.clusters@ }
    }
}

/// `k` is a name of the set that comes before every other.
pub open spec fn is_least_name(names: Set<Seq<char>>, k: Seq<char>) -> bool {
    names.contains(k) && forall|j: Seq<char>| #[trigger] names.contains(j) && j != k ==> lex_lt(codes(k), codes(j))
}

/// The name of a non-empty set that comes first in code-point order.
pub open spec fn least_name(names: Set<Seq<char>>) -> Seq<char> {
    choose|k: Seq<char>| is_least_name(names, k)
}

impl ClusterMap {
    /// The first name in increasing order, if the map is not empty: the
    /// least of its keys.
    pub fn least(&self) -> (r: Option<String>)
        ensures
            r is None <==> self@.dom() == Set::<Seq<char>>::empty(),
            r matches Some(k) ==> k@ == least_name(self@.dom()) && is_least_name(self@.dom(), k@),
    {
        proof {
            use_type_invariant(self);
        }
        let r = self.first_name();
        let empty = self.is_empty();
        if let Some(k) = &r {
            proof {
                let ns = self.name_seq();
                let d = self@.dom();
                assert forall|j: Seq<char>| #[trigger] d.contains(j) && j != k@ implies lex_lt(codes(k@), codes(j)) by {
                    let t = choose|t: int| 0 <= t < ns.len() && ns[t] == j;
                    assert(t != 0);
                }
                assert(is_least_name(d, k@));
                let c = least_name(d);
                assert(is_least_name(d, c));
                if c != k@ {
                    lemma_lex_transitive(codes(k@), codes(c), codes(k@));
                    lemma_lex_irreflexive(codes(k@));
                }
            }
        }
        r
    }
}

} // verus!
