//! The data model of the registry: instances, their ports, status values,
//! data-center descriptions, leases and free-form metadata, and the
//! application groups the registry returns.
//!
//! Every type with string content has a mathematical view whose string fields
//! are UTF-8 byte sequences; the wire serialization in `serial` and every
//! contract elsewhere speak of these views.

use vstd::pervasive::VecAdditionalExecFns;
use vstd::prelude::*;
use vstd::string::{StringExecFns, StringSliceAdditionalSpecFns};
use vstd::utf8::encode_utf8;

use crate::codec::bytes_eq;

verus! {

/// The UTF-8 bytes of a string value.
pub open spec fn string_bytes(s: String) -> Seq<u8> {
    encode_utf8(s@)
}

/// The UTF-8 bytes of an optional string value.
pub open spec fn opt_string_bytes(s: Option<String>) -> Option<Seq<u8>> {
    match s {
        Some(v) => Some(string_bytes(v)),
        None => None,
    }
}

fn clone_opt_string(s: &Option<String>) -> (r: Option<String>)
    ensures
        r == *s,
{
    match s {
        Some(v) => Some(v.clone()),
        None => None,
    }
}

/// The lifecycle status an instance advertises.
#[derive(Copy, Clone, Eq, PartialEq, Structural, Debug)]
pub enum StatusType {
    Up,
    Down,
    Starting,
    OutOfService,
    Unknown,
}

impl StatusType {
    /// The fixed token the status serializes as.
    pub open spec fn spec_token(self) -> Seq<char> {
        match self {
            StatusType::Up => "UP"@,
            StatusType::Down => "DOWN"@,
            StatusType::Starting => "STARTING"@,
            StatusType::OutOfService => "OUT_OF_SERVICE"@,
            StatusType::Unknown => "UNKNOWN"@,
        }
    }

    /// The serialization token of the status; stands in for `Display`.
    pub fn token(&self) -> (r: &'static str)
        ensures
            r@ == self.spec_token(),
    {
        match self {
            StatusType::Up => "UP",
            StatusType::Down => "DOWN",
            StatusType::Starting => "STARTING",
            StatusType::OutOfService => "OUT_OF_SERVICE",
            StatusType::Unknown => "UNKNOWN",
        }
    }

    /// Which byte sequences parse as a status, and to what: exactly the
    /// five wire tokens, each to its status.
    pub open spec fn spec_parse(s: Seq<u8>) -> Option<StatusType> {
        if s == encode_utf8("UP"@) {
            Some(StatusType::Up)
        } else if s == encode_utf8("DOWN"@) {
            Some(StatusType::Down)
        } else if s == encode_utf8("STARTING"@) {
            Some(StatusType::Starting)
        } else if s == encode_utf8("OUT_OF_SERVICE"@) {
            Some(StatusType::OutOfService)
        } else if s == encode_utf8("UNKNOWN"@) {
            Some(StatusType::Unknown)
        } else {
            None
        }
    }

    /// Parses a status token from bytes.
    pub fn from_bytes(s: &[u8]) -> (r: Option<StatusType>)
        ensures
            r == StatusType::spec_parse(s@),
    {
        if bytes_eq(s, "UP".as_bytes()) {
            Some(StatusType::Up)
        } else if bytes_eq(s, "DOWN".as_bytes()) {
            Some(StatusType::Down)
        } else if bytes_eq(s, "STARTING".as_bytes()) {
            Some(StatusType::Starting)
        } else if bytes_eq(s, "OUT_OF_SERVICE".as_bytes()) {
            Some(StatusType::OutOfService)
        } else if bytes_eq(s, "UNKNOWN".as_bytes()) {
            Some(StatusType::Unknown)
        } else {
            None
        }
    }

    /// Parses a status token from a string, as the schema's `FromStr` does.
    pub fn from_str(s: &str) -> (r: Result<StatusType, String>)
        ensures
            match r {
                Ok(v) => StatusType::spec_parse(s.spec_bytes()) == Some(v),
                Err(m) => StatusType::spec_parse(s.spec_bytes()) is None && m@
                    == "Invalid statusType"@,
            },
    {
        match StatusType::from_bytes(s.as_bytes()) {
            Some(v) => Ok(v),
            None => Err(String::from_str("Invalid statusType")),
        }
    }
}

/// Serializing a status and parsing the token back yields the same status,
/// for every one of the five variants.
pub proof fn lemma_status_token_round_trip(st: StatusType)
    ensures
        StatusType::spec_parse(encode_utf8(st.spec_token())) == Some(st),
{
    reveal_strlit("UP");
    reveal_strlit("DOWN");
    reveal_strlit("STARTING");
    reveal_strlit("OUT_OF_SERVICE");
    reveal_strlit("UNKNOWN");
    vstd::utf8::is_ascii_chars_encode_utf8("UP"@);
    vstd::utf8::is_ascii_chars_encode_utf8("DOWN"@);
    vstd::utf8::is_ascii_chars_encode_utf8("STARTING"@);
    vstd::utf8::is_ascii_chars_encode_utf8("OUT_OF_SERVICE"@);
    vstd::utf8::is_ascii_chars_encode_utf8("UNKNOWN"@);
    // The five tokens have five different lengths, so no branch of the
    // parse can confuse two of them.
    assert(encode_utf8("UP"@).len() == 2);
    assert(encode_utf8("DOWN"@).len() == 4);
    assert(encode_utf8("STARTING"@).len() == 8);
    assert(encode_utf8("OUT_OF_SERVICE"@).len() == 14);
    assert(encode_utf8("UNKNOWN"@).len() == 7);
}

/// The kind of data center an instance reports running in.
#[derive(Copy, Clone, Eq, PartialEq, Structural, Debug)]
pub enum DcNameType {
    MyOwn,
    Amazon,
}

impl DcNameType {
    /// The fixed token the data-center name serializes as.
    pub open spec fn spec_token(self) -> Seq<char> {
        match self {
            DcNameType::MyOwn => "MyOwn"@,
            DcNameType::Amazon => "Amazon"@,
        }
    }

    /// The serialization token of the name; stands in for `Display`.
    pub fn token(&self) -> (r: &'static str)
        ensures
            r@ == self.spec_token(),
    {
        match self {
            DcNameType::MyOwn => "MyOwn",
            DcNameType::Amazon => "Amazon",
        }
    }

    /// Which byte sequences parse as a data-center name, and to what.
    pub open spec fn spec_parse(s: Seq<u8>) -> Option<DcNameType> {
        if s == encode_utf8("MyOwn"@) {
            Some(DcNameType::MyOwn)
        } else if s == encode_utf8("Amazon"@) {
            Some(DcNameType::Amazon)
        } else {
            None
        }
    }

    /// Parses a data-center name from bytes.
    pub fn from_bytes(s: &[u8]) -> (r: Option<DcNameType>)
        ensures
            r == DcNameType::spec_parse(s@),
    {
        if bytes_eq(s, "MyOwn".as_bytes()) {
            Some(DcNameType::MyOwn)
        } else if bytes_eq(s, "Amazon".as_bytes()) {
            Some(DcNameType::Amazon)
        } else {
            None
        }
    }

    /// Parses a data-center name from a string, as the schema's `FromStr`
    /// does.
    pub fn from_str(s: &str) -> (r: Result<DcNameType, String>)
        ensures
            match r {
                Ok(v) => DcNameType::spec_parse(s.spec_bytes()) == Some(v),
                Err(m) => DcNameType::spec_parse(s.spec_bytes()) is None && m@
                    == "Invalid dcNameType"@,
            },
    {
        match DcNameType::from_bytes(s.as_bytes()) {
            Some(v) => Ok(v),
            None => Err(String::from_str("Invalid dcNameType")),
        }
    }
}

/// The plain port of an instance: a number and whether it is enabled. A
/// disabled port is treated as absent by consumers.
#[derive(Copy, Clone, Eq, PartialEq, Structural, Debug)]
pub struct PortData {
    pub enabled: bool,
    pub value: u16,
}

impl PortData {
    pub fn new(port: u16, enabled: bool) -> (r: Self)
        ensures
            r.value == port,
            r.enabled == enabled,
    {
        PortData { value: port, enabled }
    }
}

impl Default for PortData {
    /// Port 80, enabled.
    fn default() -> (r: Self)
        ensures
            r.enabled == true,
            r.value == 80,
    {
        PortData { enabled: true, value: 80 }
    }
}

/// The TLS port of an instance: a number and whether it is enabled.
#[derive(Copy, Clone, Eq, PartialEq, Structural, Debug)]
pub struct SecurePort {
    pub enabled: bool,
    pub value: u16,
}

impl SecurePort {
    pub fn new(port: u16, enabled: bool) -> (r: Self)
        ensures
            r.value == port,
            r.enabled == enabled,
    {
        SecurePort { value: port, enabled }
    }
}

impl Default for SecurePort {
    /// Port 443, disabled.
    fn default() -> (r: Self)
        ensures
            r.enabled == false,
            r.value == 443,
    {
        SecurePort { enabled: false, value: 443 }
    }
}

/// The lease the registry holds for an instance: how long before an instance
/// that stops renewing is evicted.
#[derive(Copy, Clone, Eq, PartialEq, Structural, Debug)]
pub struct LeaseInfo {
    pub eviction_duration_in_secs: Option<usize>,
}

/// Machine metadata an instance in a cloud data center reports.
#[derive(PartialEq, Debug)]
pub struct AmazonMetaDataType {
    pub ami_launch_index: String,
    pub local_hostname: String,
    pub availability_zone: String,
    pub instance_id: String,
    pub public_ipv4: String,
    pub public_hostname: String,
    pub ami_manifest_patch: String,
    pub local_ipv4: String,
    pub hostname: String,
    pub ami_id: String,
    pub instance_type: String,
}

/// View of `AmazonMetaDataType`: each field as its UTF-8 bytes.
pub struct AmazonMetaDataV {
    pub ami_launch_index: Seq<u8>,
    pub local_hostname: Seq<u8>,
    pub availability_zone: Seq<u8>,
    pub instance_id: Seq<u8>,
    pub public_ipv4: Seq<u8>,
    pub public_hostname: Seq<u8>,
    pub ami_manifest_patch: Seq<u8>,
    pub local_ipv4: Seq<u8>,
    pub hostname: Seq<u8>,
    pub ami_id: Seq<u8>,
    pub instance_type: Seq<u8>,
}

impl View for AmazonMetaDataType {
    type V = AmazonMetaDataV;

    open spec fn view(&self) -> AmazonMetaDataV {
        AmazonMetaDataV {
            ami_launch_index: string_bytes(self.ami_launch_index),
            local_hostname: string_bytes(self.local_hostname),
            availability_zone: string_bytes(self.availability_zone),
            instance_id: string_bytes(self.instance_id),
            public_ipv4: string_bytes(self.public_ipv4),
            public_hostname: string_bytes(self.public_hostname),
            ami_manifest_patch: string_bytes(self.ami_manifest_patch),
            local_ipv4: string_bytes(self.local_ipv4),
            hostname: string_bytes(self.hostname),
            ami_id: string_bytes(self.ami_id),
            instance_type: string_bytes(self.instance_type),
        }
    }
}

impl Clone for AmazonMetaDataType {
    fn clone(&self) -> (r: Self)
        ensures
            r == *self,
    {
        AmazonMetaDataType {
            ami_launch_index: self.ami_launch_index.clone(),
            local_hostname: self.local_hostname.clone(),
            availability_zone: self.availability_zone.clone(),
            instance_id: self.instance_id.clone(),
            public_ipv4: self.public_ipv4.clone(),
            public_hostname: self.public_hostname.clone(),
            ami_manifest_patch: self.ami_manifest_patch.clone(),
            local_ipv4: self.local_ipv4.clone(),
            hostname: self.hostname.clone(),
            ami_id: self.ami_id.clone(),
            instance_type: self.instance_type.clone(),
        }
    }
}

/// Where an instance runs: the data-center kind, the class attribute the
/// Java-side schema carries, and cloud machine metadata when present.
#[derive(PartialEq, Debug)]
pub struct DataCenterInfo {
    pub class: Option<String>,
    pub name: DcNameType,
    pub metadata: Option<AmazonMetaDataType>,
}

/// View of `DataCenterInfo`.
pub struct DataCenterInfoV {
    pub class: Option<Seq<u8>>,
    pub name: DcNameType,
    pub metadata: Option<AmazonMetaDataV>,
}

impl View for DataCenterInfo {
    type V = DataCenterInfoV;

    open spec fn view(&self) -> DataCenterInfoV {
        DataCenterInfoV {
            class: opt_string_bytes(self.class),
            name: self.name,
            metadata: match self.metadata {
                Some(m) => Some(m@),
                None => None,
            },
        }
    }
}

impl Clone for DataCenterInfo {
    fn clone(&self) -> (r: Self)
        ensures
            r == *self,
    {
        DataCenterInfo {
            class: clone_opt_string(&self.class),
            name: self.name,
            metadata: match &self.metadata {
                Some(m) => Some(m.clone()),
                None => None,
            },
        }
    }
}

impl Default for DataCenterInfo {
    /// An instance's own data center, with nothing else said of it.
    fn default() -> (r: Self)
        ensures
            r.class is None,
            r.name == DcNameType::MyOwn,
            r.metadata is None,
    {
        DataCenterInfo { class: None, name: DcNameType::MyOwn, metadata: None }
    }
}

/// Free-form string-to-string metadata of an instance, with the class
/// attribute the Java-side schema carries. Entries keep their insertion
/// order and have distinct keys.
#[derive(PartialEq, Debug)]
pub struct AppMetaDataType {
    pub class: Option<String>,
    pub map: Vec<(String, String)>,
}

/// View of `AppMetaDataType`: the entries in order, keys and values as their
/// UTF-8 bytes.
pub struct AppMetaDataV {
    pub class: Option<Seq<u8>>,
    pub map: Seq<(Seq<u8>, Seq<u8>)>,
}

impl View for AppMetaDataType {
    type V = AppMetaDataV;

    open spec fn view(&self) -> AppMetaDataV {
        AppMetaDataV {
            class: opt_string_bytes(self.class),
            map: self.map@.map_values(
                |e: (String, String)| (string_bytes(e.0), string_bytes(e.1)),
            ),
        }
    }
}

impl Clone for AppMetaDataType {
    fn clone(&self) -> (r: Self)
        ensures
            r@ == self@,
    {
        let mut map: Vec<(String, String)> = Vec::new();
        let mut i: usize = 0;
        while i < self.map.len()
            invariant
                i <= self.map@.len(),
                map@.len() == i,
                forall|j: int| 0 <= j < i ==> map@[j] == self.map@[j],
            decreases self.map@.len() - i,
        {
            let e = (self.map[i].0.clone(), self.map[i].1.clone());
            map.push(e);
            i += 1;
        }
        let r = AppMetaDataType { class: clone_opt_string(&self.class), map };
        proof {
            assert(r@.map =~= self@.map);
        }
        r
    }
}

impl Default for AppMetaDataType {
    /// No class, no entries.
    fn default() -> (r: Self)
        ensures
            r.class is None,
            r.map@.len() == 0,
    {
        AppMetaDataType { class: None, map: Vec::new() }
    }
}

/// The keys of metadata entries, in order.
pub open spec fn meta_keys(entries: Seq<(Seq<u8>, Seq<u8>)>) -> Seq<Seq<u8>> {
    entries.map_values(|e: (Seq<u8>, Seq<u8>)| e.0)
}

/// Storing under a key: the first entry with that key has its value replaced
/// in place; a fresh key goes to the end.
pub open spec fn meta_insert(m: Seq<(Seq<u8>, Seq<u8>)>, k: Seq<u8>, v: Seq<u8>) -> Seq<
    (Seq<u8>, Seq<u8>),
>
    decreases m.len(),
{
    if m.len() == 0 {
        seq![(k, v)]
    } else if m[0].0 == k {
        seq![(k, v)] + m.drop_first()
    } else {
        seq![m[0]] + meta_insert(m.drop_first(), k, v)
    }
}

proof fn lemma_meta_insert_found(m: Seq<(Seq<u8>, Seq<u8>)>, k: Seq<u8>, v: Seq<u8>, i: int)
    requires
        0 <= i < m.len(),
        m[i].0 == k,
        forall|j: int| 0 <= j < i ==> m[j].0 != k,
    ensures
        meta_insert(m, k, v) == m.update(i, (k, v)),
    decreases i,
{
    if i == 0 {
        assert(seq![(k, v)] + m.drop_first() =~= m.update(0, (k, v)));
    } else {
        assert(m.drop_first()[i - 1].0 == k);
        lemma_meta_insert_found(m.drop_first(), k, v, i - 1);
        assert(seq![m[0]] + m.drop_first().update(i - 1, (k, v)) =~= m.update(i, (k, v)));
    }
}

proof fn lemma_meta_insert_missing(m: Seq<(Seq<u8>, Seq<u8>)>, k: Seq<u8>, v: Seq<u8>)
    requires
        forall|j: int| 0 <= j < m.len() ==> m[j].0 != k,
    ensures
        meta_insert(m, k, v) == m.push((k, v)),
    decreases m.len(),
{
    if m.len() == 0 {
        assert(meta_insert(m, k, v) =~= m.push((k, v)));
    } else {
        lemma_meta_insert_missing(m.drop_first(), k, v);
        assert(seq![m[0]] + m.drop_first().push((k, v)) =~= m.push((k, v)));
    }
}

impl AppMetaDataType {
    /// The value stored under `key`, if any: the first entry with that key.
    pub fn get(&self, key: &str) -> (r: Option<&String>)
        ensures
            match r {
                Some(v) => exists|j: int|
                    0 <= j < self@.map.len() && self@.map[j].0 == key.spec_bytes()
                        && self@.map[j].1 == string_bytes(*v),
                None => forall|j: int|
                    0 <= j < self@.map.len() ==> self@.map[j].0 != key.spec_bytes(),
            },
    {
        let mut i: usize = 0;
        while i < self.map.len()
            invariant
                i <= self.map@.len(),
                forall|j: int| 0 <= j < i ==> self@.map[j].0 != key.spec_bytes(),
            decreases self.map@.len() - i,
        {
            if bytes_eq(self.map[i].0.as_str().as_bytes(), key.as_bytes()) {
                proof {
                    assert(self@.map[i as int].0 == key.spec_bytes());
                }
                return Some(&self.map[i].1);
            }
            i += 1;
        }
        None
    }

    /// Stores `value` under `key`: replaces the value of an existing entry in
    /// place, else appends a new entry.
    pub fn insert(&mut self, key: String, value: String)
        ensures
            final(self).class == old(self).class,
            final(self)@.map == meta_insert(
                old(self)@.map,
                string_bytes(key),
                string_bytes(value),
            ),
    {
        let ghost pre = self@.map;
        let ghost k = string_bytes(key);
        let ghost v = string_bytes(value);
        let mut i: usize = 0;
        while i < self.map.len()
            invariant
                i <= self.map@.len(),
                pre == old(self)@.map,
                self@.map == pre,
                self.class == old(self).class,
                self.map@.len() == pre.len(),
                k == string_bytes(key),
                v == string_bytes(value),
                forall|j: int| 0 <= j < i ==> pre[j].0 != k,
            decreases self.map@.len() - i,
        {
            if bytes_eq(self.map[i].0.as_str().as_bytes(), key.as_str().as_bytes()) {
                proof {
                    assert(pre[i as int].0 == k);
                    lemma_meta_insert_found(pre, k, v, i as int);
                }
                self.map.set(i, (key, value));
                proof {
                    assert(self@.map =~= pre.update(i as int, (k, v)));
                }
                return ;
            }
            i += 1;
        }
        proof {
            lemma_meta_insert_missing(pre, k, v);
        }
        self.map.push((key, value));
        proof {
            assert(self@.map =~= pre.push((k, v)));
        }
    }
}

/// One registered service endpoint, as the registry describes it.
#[derive(PartialEq, Debug)]
pub struct Instance {
    pub host_name: String,
    pub instance_id: Option<String>,
    pub app: String,
    pub ip_addr: String,
    pub vip_address: String,
    pub secure_vip_address: String,
    pub status: StatusType,
    pub port: PortData,
    pub secure_port: SecurePort,
    pub home_page_url: String,
    pub status_page_url: String,
    pub health_check_url: String,
    pub data_center_info: DataCenterInfo,
    pub lease_info: Option<LeaseInfo>,
    pub metadata: Option<AppMetaDataType>,
}

/// View of `Instance`: string attributes as UTF-8 bytes, everything else as
/// itself.
pub struct InstanceV {
    pub host_name: Seq<u8>,
    pub instance_id: Option<Seq<u8>>,
    pub app: Seq<u8>,
    pub ip_addr: Seq<u8>,
    pub vip_address: Seq<u8>,
    pub secure_vip_address: Seq<u8>,
    pub status: StatusType,
    pub port: PortData,
    pub secure_port: SecurePort,
    pub home_page_url: Seq<u8>,
    pub status_page_url: Seq<u8>,
    pub health_check_url: Seq<u8>,
    pub data_center_info: DataCenterInfoV,
    pub lease_info: Option<LeaseInfo>,
    pub metadata: Option<AppMetaDataV>,
}

impl View for Instance {
    type V = InstanceV;

    open spec fn view(&self) -> InstanceV {
        InstanceV {
            host_name: string_bytes(self.host_name),
            instance_id: opt_string_bytes(self.instance_id),
            app: string_bytes(self.app),
            ip_addr: string_bytes(self.ip_addr),
            vip_address: string_bytes(self.vip_address),
            secure_vip_address: string_bytes(self.secure_vip_address),
            status: self.status,
            port: self.port,
            secure_port: self.secure_port,
            home_page_url: string_bytes(self.home_page_url),
            status_page_url: string_bytes(self.status_page_url),
            health_check_url: string_bytes(self.health_check_url),
            data_center_info: self.data_center_info@,
            lease_info: self.lease_info,
            metadata: match self.metadata {
                Some(m) => Some(m@),
                None => None,
            },
        }
    }
}

impl Clone for Instance {
    fn clone(&self) -> (r: Self)
        ensures
            r@ == self@,
    {
        Instance {
            host_name: self.host_name.clone(),
            instance_id: clone_opt_string(&self.instance_id),
            app: self.app.clone(),
            ip_addr: self.ip_addr.clone(),
            vip_address: self.vip_address.clone(),
            secure_vip_address: self.secure_vip_address.clone(),
            status: self.status,
            port: self.port,
            secure_port: self.secure_port,
            home_page_url: self.home_page_url.clone(),
            status_page_url: self.status_page_url.clone(),
            health_check_url: self.health_check_url.clone(),
            data_center_info: self.data_center_info.clone(),
            lease_info: self.lease_info,
            metadata: match &self.metadata {
                Some(m) => Some(m.clone()),
                None => None,
            },
        }
    }
}

impl Default for Instance {
    /// A starting instance on this host, advertising this crate's name,
    /// with the default ports and its own data center.
    fn default() -> (r: Self)
        ensures
            r@.host_name == "localhost".spec_bytes(),
            r@.instance_id is None,
            r@.app == "eureka_client".spec_bytes(),
            r@.ip_addr == "127.0.0.1".spec_bytes(),
            r@.vip_address == "eureka_client".spec_bytes(),
            r@.secure_vip_address == "eureka_client".spec_bytes(),
            r@.status == StatusType::Starting,
            r@.port == (PortData { enabled: true, value: 80 }),
            r@.secure_port == (SecurePort { enabled: false, value: 443 }),
            r@.home_page_url.len() == 0,
            r@.status_page_url.len() == 0,
            r@.health_check_url.len() == 0,
            r@.data_center_info.class is None,
            r@.data_center_info.name == DcNameType::MyOwn,
            r@.data_center_info.metadata is None,
            r@.lease_info is None,
            r@.metadata is None,
    {
        proof {
            reveal_strlit("");
            vstd::utf8::is_ascii_chars_encode_utf8(""@);
        }
        Instance {
            host_name: String::from_str("localhost"),
            instance_id: None,
            app: String::from_str("eureka_client"),
            ip_addr: String::from_str("127.0.0.1"),
            vip_address: String::from_str("eureka_client"),
            secure_vip_address: String::from_str("eureka_client"),
            status: StatusType::Starting,
            port: PortData::default(),
            secure_port: SecurePort::default(),
            home_page_url: String::new(),
            status_page_url: String::new(),
            health_check_url: String::new(),
            data_center_info: DataCenterInfo::default(),
            lease_info: None,
            metadata: None,
        }
    }
}

/// One application group: the logical name and its instances, in the order
/// the registry returned them.
#[derive(PartialEq, Debug)]
pub struct Application {
    pub name: String,
    pub instances: Vec<Instance>,
}

/// View of `Application`.
pub struct ApplicationV {
    pub name: Seq<u8>,
    pub instances: Seq<InstanceV>,
}

impl View for Application {
    type V = ApplicationV;

    open spec fn view(&self) -> ApplicationV {
        ApplicationV {
            name: string_bytes(self.name),
            instances: self.instances@.map_values(|x: Instance| x@),
        }
    }
}

/// The whole registry listing: version markers and the application groups.
#[derive(PartialEq, Debug)]
pub struct Applications {
    pub versions_delta: Option<String>,
    pub apps_hashcode: Option<String>,
    pub applications: Vec<Application>,
}

/// View of `Applications`.
pub struct ApplicationsV {
    pub versions_delta: Option<Seq<u8>>,
    pub apps_hashcode: Option<Seq<u8>>,
    pub applications: Seq<ApplicationV>,
}

impl View for Applications {
    type V = ApplicationsV;

    open spec fn view(&self) -> ApplicationsV {
        ApplicationsV {
            versions_delta: opt_string_bytes(self.versions_delta),
            apps_hashcode: opt_string_bytes(self.apps_hashcode),
            applications: self.applications@.map_values(|x: Application| x@),
        }
    }
}

} // verus!
