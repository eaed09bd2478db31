//! The registry's document schema: how the data model of `structures` is
//! read from and written as the wire documents of `xml`.
//!
//! Reading is field-directed: each type picks its fields out of a parsed
//! element by child or attribute name, ignoring what it does not know, and
//! fails when a required field is missing or malformed. The `spec_*_from`
//! functions define the mapping; the executable readers are proved to follow
//! them.

use vstd::prelude::*;
use vstd::string::StringSliceAdditionalSpecFns;
use vstd::utf8::{encode_utf8, valid_utf8};

use crate::codec::{
    bytes_eq, bytes_to_string, parse_bool_bytes, parse_u16_bytes, parse_usize_bytes,
    spec_parse_bool, spec_parse_u16, spec_parse_usize,
};
use crate::structures::{
    AmazonMetaDataType, AmazonMetaDataV, AppMetaDataType, AppMetaDataV, Application, ApplicationV,
    Applications, ApplicationsV, DataCenterInfo, DataCenterInfoV, DcNameType, Instance, InstanceV,
    LeaseInfo, PortData, SecurePort, StatusType, meta_insert, string_bytes,
};
use crate::xml::{
    ElemV, NodeV, XmlElement, XmlNode, find_attr, find_last_child, last_attr, last_elem_named,
    parse_document_bytes, spec_parse_document, spec_text_content, text_content, view_children,
    view_node,
};
use crate::EurekaError;

verus! {

// --- reading fields out of an element ---

/// The text of the last child element with the given name, if present.
pub open spec fn spec_flat_text(e: ElemV, name: Seq<u8>) -> Option<Seq<u8>> {
    match last_elem_named(e.children, name) {
        Some(c) => Some(spec_text_content(c.children)),
        None => None,
    }
}

/// A required string field: the named child must be present and its text
/// valid UTF-8.
pub open spec fn spec_req_string(e: ElemV, name: Seq<u8>) -> Option<Seq<u8>> {
    match spec_flat_text(e, name) {
        Some(b) => if valid_utf8(b) {
            Some(b)
        } else {
            None
        },
        None => None,
    }
}

/// An optional string field: absent is fine; present text must be valid
/// UTF-8 or the read fails.
pub open spec fn spec_opt_string(e: ElemV, name: Seq<u8>) -> Option<Option<Seq<u8>>> {
    match spec_flat_text(e, name) {
        Some(b) => if valid_utf8(b) {
            Some(Some(b))
        } else {
            None
        },
        None => Some(None),
    }
}

/// An optional string attribute.
pub open spec fn spec_opt_attr_string(e: ElemV, name: Seq<u8>) -> Option<Option<Seq<u8>>> {
    match last_attr(e.attrs, name) {
        Some(b) => if valid_utf8(b) {
            Some(Some(b))
        } else {
            None
        },
        None => Some(None),
    }
}

fn req_string(e: &XmlElement, name: &str) -> (r: Option<String>)
    ensures
        match r {
            Some(s) => spec_req_string(e@, name.spec_bytes()) == Some(string_bytes(s)),
            None => spec_req_string(e@, name.spec_bytes()) is None,
        },
{
    match find_last_child(e, name.as_bytes()) {
        Some(c) => {
            let t = text_content(c);
            bytes_to_string(t)
        },
        None => None,
    }
}

fn opt_string(e: &XmlElement, name: &str) -> (r: Option<Option<String>>)
    ensures
        match r {
            Some(Some(s)) => spec_opt_string(e@, name.spec_bytes()) == Some(
                Some(string_bytes(s)),
            ),
            Some(None) => spec_opt_string(e@, name.spec_bytes()) == Some(
                None::<Seq<u8>>,
            ),
            None => spec_opt_string(e@, name.spec_bytes()) is None,
        },
{
    match find_last_child(e, name.as_bytes()) {
        Some(c) => {
            let t = text_content(c);
            match bytes_to_string(t) {
                Some(s) => Some(Some(s)),
                None => None,
            }
        },
        None => Some(None),
    }
}

fn opt_attr_string(e: &XmlElement, name: &str) -> (r: Option<Option<String>>)
    ensures
        match r {
            Some(Some(s)) => spec_opt_attr_string(e@, name.spec_bytes()) == Some(
                Some(string_bytes(s)),
            ),
            Some(None) => spec_opt_attr_string(e@, name.spec_bytes()) == Some(
                None::<Seq<u8>>,
            ),
            None => spec_opt_attr_string(e@, name.spec_bytes()) is None,
        },
{
    match find_attr(e, name.as_bytes()) {
        Some(v) => {
            let mut copy: Vec<u8> = Vec::new();
            crate::codec::push_bytes(&mut copy, v.as_slice());
            proof {
                assert(copy@ =~= v@);
            }
            match bytes_to_string(copy) {
                Some(s) => Some(Some(s)),
                None => None,
            }
        },
        None => Some(None),
    }
}

// --- ports ---

/// The fields of a port element: the required `enabled` attribute and the
/// numeric text, absent text standing for zero.
pub open spec fn spec_port_fields(e: ElemV) -> Option<(bool, u16)> {
    match last_attr(e.attrs, encode_utf8("enabled"@)) {
        None => None,
        Some(b) => match spec_parse_bool(b) {
            None => None,
            Some(en) => {
                let t = spec_text_content(e.children);
                if t.len() == 0 {
                    Some((en, 0))
                } else {
                    match spec_parse_u16(t) {
                        Some(v) => Some((en, v)),
                        None => None,
                    }
                }
            },
        },
    }
}

fn port_fields(e: &XmlElement) -> (r: Option<(bool, u16)>)
    ensures
        r == spec_port_fields(e@),
{
    match find_attr(e, "enabled".as_bytes()) {
        None => None,
        Some(b) => match parse_bool_bytes(b.as_slice()) {
            None => None,
            Some(en) => {
                let t = text_content(e);
                if t.len() == 0 {
                    Some((en, 0))
                } else {
                    match parse_u16_bytes(t.as_slice()) {
                        Some(v) => Some((en, v)),
                        None => None,
                    }
                }
            },
        },
    }
}

/// The port stored under the named child, if present and well formed.
pub open spec fn spec_port_of(e: ElemV, name: Seq<u8>) -> Option<(bool, u16)> {
    match last_elem_named(e.children, name) {
        Some(c) => spec_port_fields(c),
        None => None,
    }
}

fn port_of(e: &XmlElement, name: &str) -> (r: Option<(bool, u16)>)
    ensures
        r == spec_port_of(e@, name.spec_bytes()),
{
    match find_last_child(e, name.as_bytes()) {
        Some(c) => port_fields(c),
        None => None,
    }
}

// --- status and data-center names ---

/// The status stored in the `status` child.
pub open spec fn spec_status_field(e: ElemV) -> Option<StatusType> {
    match spec_flat_text(e, encode_utf8("status"@)) {
        Some(t) => StatusType::spec_parse(t),
        None => None,
    }
}

fn status_field(e: &XmlElement) -> (r: Option<StatusType>)
    ensures
        r == spec_status_field(e@),
{
    match find_last_child(e, "status".as_bytes()) {
        Some(c) => {
            let t = text_content(c);
            StatusType::from_bytes(t.as_slice())
        },
        None => None,
    }
}

// --- machine metadata of a cloud data center ---

/// Reading cloud machine metadata: every one of its fields is required.
pub open spec fn spec_amazon_from(e: ElemV) -> Option<AmazonMetaDataV> {
    if e.name == encode_utf8("metadata"@) && spec_req_string(e, encode_utf8("ami-launch-index"@))
        is Some && spec_req_string(e, encode_utf8("local-hostname"@)) is Some && spec_req_string(
        e,
        encode_utf8("availability-zone"@),
    ) is Some && spec_req_string(e, encode_utf8("instance-id"@)) is Some && spec_req_string(
        e,
        encode_utf8("public-ipv4"@),
    ) is Some && spec_req_string(e, encode_utf8("public-hostname"@)) is Some && spec_req_string(
        e,
        encode_utf8("ami-manifest-patch"@),
    ) is Some && spec_req_string(e, encode_utf8("local-ipv4"@)) is Some && spec_req_string(
        e,
        encode_utf8("hostname"@),
    ) is Some && spec_req_string(e, encode_utf8("ami-id"@)) is Some && spec_req_string(
        e,
        encode_utf8("instance-type"@),
    ) is Some {
        Some(
            AmazonMetaDataV {
                ami_launch_index: spec_req_string(e, encode_utf8("ami-launch-index"@))->Some_0,
                local_hostname: spec_req_string(e, encode_utf8("local-hostname"@))->Some_0,
                availability_zone: spec_req_string(e, encode_utf8("availability-zone"@))->Some_0,
                instance_id: spec_req_string(e, encode_utf8("instance-id"@))->Some_0,
                public_ipv4: spec_req_string(e, encode_utf8("public-ipv4"@))->Some_0,
                public_hostname: spec_req_string(e, encode_utf8("public-hostname"@))->Some_0,
                ami_manifest_patch: spec_req_string(e, encode_utf8("ami-manifest-patch"@))->Some_0,
                local_ipv4: spec_req_string(e, encode_utf8("local-ipv4"@))->Some_0,
                hostname: spec_req_string(e, encode_utf8("hostname"@))->Some_0,
                ami_id: spec_req_string(e, encode_utf8("ami-id"@))->Some_0,
                instance_type: spec_req_string(e, encode_utf8("instance-type"@))->Some_0,
            },
        )
    } else {
        None
    }
}

fn amazon_from_elem(e: &XmlElement) -> (r: Option<AmazonMetaDataType>)
    ensures
        match r {
            Some(m) => spec_amazon_from(e@) == Some(m@),
            None => spec_amazon_from(e@) is None,
        },
{
    if !bytes_eq(e.name.as_slice(), "metadata".as_bytes()) {
        return None;
    }
    let ami_launch_index = match req_string(e, "ami-launch-index") {
        Some(s) => s,
        None => {
            return None;
        },
    };
    let local_hostname = match req_string(e, "local-hostname") {
        Some(s) => s,
        None => {
            return None;
        },
    };
    let availability_zone = match req_string(e, "availability-zone") {
        Some(s) => s,
        None => {
            return None;
        },
    };
    let instance_id = match req_string(e, "instance-id") {
        Some(s) => s,
        None => {
            return None;
        },
    };
    let public_ipv4 = match req_string(e, "public-ipv4") {
        Some(s) => s,
        None => {
            return None;
        },
    };
    let public_hostname = match req_string(e, "public-hostname") {
        Some(s) => s,
        None => {
            return None;
        },
    };
    let ami_manifest_patch = match req_string(e, "ami-manifest-patch") {
        Some(s) => s,
        None => {
            return None;
        },
    };
    let local_ipv4 = match req_string(e, "local-ipv4") {
        Some(s) => s,
        None => {
            return None;
        },
    };
    let hostname = match req_string(e, "hostname") {
        Some(s) => s,
        None => {
            return None;
        },
    };
    let ami_id = match req_string(e, "ami-id") {
        Some(s) => s,
        None => {
            return None;
        },
    };
    let instance_type = match req_string(e, "instance-type") {
        Some(s) => s,
        None => {
            return None;
        },
    };
    Some(
        AmazonMetaDataType {
            ami_launch_index,
            local_hostname,
            availability_zone,
            instance_id,
            public_ipv4,
            public_hostname,
            ami_manifest_patch,
            local_ipv4,
            hostname,
            ami_id,
            instance_type,
        },
    )
}

// --- data-center info ---

/// Reading a data-center description: the optional class attribute, the
/// required name token, and optional machine metadata.
pub open spec fn spec_dci_from(e: ElemV) -> Option<DataCenterInfoV> {
    if e.name != encode_utf8("dataCenterInfo"@) {
        None
    } else {
        match spec_opt_attr_string(e, encode_utf8("class"@)) {
            None => None,
            Some(class) => match spec_flat_text(e, encode_utf8("name"@)) {
                None => None,
                Some(nm) => match DcNameType::spec_parse(nm) {
                    None => None,
                    Some(name) => match last_elem_named(e.children, encode_utf8("metadata"@)) {
                        None => Some(DataCenterInfoV { class, name, metadata: None }),
                        Some(me) => match spec_amazon_from(me) {
                            None => None,
                            Some(m) => Some(DataCenterInfoV { class, name, metadata: Some(m) }),
                        },
                    },
                },
            },
        }
    }
}

fn dci_from_elem(e: &XmlElement) -> (r: Option<DataCenterInfo>)
    ensures
        match r {
            Some(d) => spec_dci_from(e@) == Some(d@),
            None => spec_dci_from(e@) is None,
        },
{
    if !bytes_eq(e.name.as_slice(), "dataCenterInfo".as_bytes()) {
        return None;
    }
    let class = match opt_attr_string(e, "class") {
        Some(c) => c,
        None => {
            return None;
        },
    };
    let name = match find_last_child(e, "name".as_bytes()) {
        Some(c) => {
            let t = text_content(c);
            match DcNameType::from_bytes(t.as_slice()) {
                Some(n) => n,
                None => {
                    return None;
                },
            }
        },
        None => {
            return None;
        },
    };
    let metadata = match find_last_child(e, "metadata".as_bytes()) {
        Some(me) => match amazon_from_elem(me) {
            Some(m) => Some(m),
            None => {
                return None;
            },
        },
        None => None,
    };
    Some(DataCenterInfo { class, name, metadata })
}

// --- lease info ---

/// Reading a lease: the eviction duration is optional, but must be numeric
/// when present.
pub open spec fn spec_lease_from(e: ElemV) -> Option<LeaseInfo> {
    if e.name != encode_utf8("leaseInfo"@) {
        None
    } else {
        match spec_flat_text(e, encode_utf8("evictionDurationInSecs"@)) {
            None => Some(LeaseInfo { eviction_duration_in_secs: None }),
            Some(t) => match spec_parse_usize(t) {
                Some(v) => Some(LeaseInfo { eviction_duration_in_secs: Some(v) }),
                None => None,
            },
        }
    }
}

fn lease_from_elem(e: &XmlElement) -> (r: Option<LeaseInfo>)
    ensures
        r == spec_lease_from(e@),
{
    if !bytes_eq(e.name.as_slice(), "leaseInfo".as_bytes()) {
        return None;
    }
    match find_last_child(e, "evictionDurationInSecs".as_bytes()) {
        None => Some(LeaseInfo { eviction_duration_in_secs: None }),
        Some(c) => {
            let t = text_content(c);
            match parse_usize_bytes(t.as_slice()) {
                Some(v) => Some(LeaseInfo { eviction_duration_in_secs: Some(v) }),
                None => None,
            }
        },
    }
}

// --- free-form metadata ---

/// Reading metadata entries from the children of a `metadata` element: each
/// element child becomes an entry named after it, later entries for one key
/// replacing earlier ones in place; text children are ignored.
pub open spec fn spec_meta_entries(cs: Seq<NodeV>, acc: Seq<(Seq<u8>, Seq<u8>)>) -> Option<
    Seq<(Seq<u8>, Seq<u8>)>,
>
    decreases cs.len(),
{
    if cs.len() == 0 {
        Some(acc)
    } else {
        match cs[0] {
            NodeV::Text(_) => spec_meta_entries(cs.drop_first(), acc),
            NodeV::Elem(c) => {
                let v = spec_text_content(c.children);
                if valid_utf8(c.name) && valid_utf8(v) {
                    spec_meta_entries(cs.drop_first(), meta_insert(acc, c.name, v))
                } else {
                    None
                }
            },
        }
    }
}

/// Reading a metadata block: the optional class attribute and the entries.
pub open spec fn spec_meta_from(e: ElemV) -> Option<AppMetaDataV> {
    if e.name != encode_utf8("metadata"@) {
        None
    } else {
        match spec_opt_attr_string(e, encode_utf8("class"@)) {
            None => None,
            Some(class) => match spec_meta_entries(e.children, Seq::empty()) {
                None => None,
                Some(m) => Some(AppMetaDataV { class, map: m }),
            },
        }
    }
}

fn meta_from_elem(e: &XmlElement) -> (r: Option<AppMetaDataType>)
    ensures
        match r {
            Some(m) => spec_meta_from(e@) == Some(m@),
            None => spec_meta_from(e@) is None,
        },
{
    if !bytes_eq(e.name.as_slice(), "metadata".as_bytes()) {
        return None;
    }
    let class = match opt_attr_string(e, "class") {
        Some(c) => c,
        None => {
            return None;
        },
    };
    let ghost cs = e@.children;
    let mut out = AppMetaDataType::default();
    out.class = class;
    let ghost class_v = out@.class;
    proof {
        assert(out@.map =~= Seq::<(Seq<u8>, Seq<u8>)>::empty());
        assert(cs.skip(0) =~= cs);
    }
    let mut i: usize = 0;
    while i < e.children.len()
        invariant
            cs == e@.children,
            cs.len() == e.children@.len(),
            i <= e.children@.len(),
            out@.class == class_v,
            spec_meta_entries(cs, Seq::empty()) == spec_meta_entries(
                cs.skip(i as int),
                out@.map,
            ),
        decreases e.children@.len() - i,
    {
        proof {
            assert(cs.skip(i as int)[0] == cs[i as int]);
            assert(cs.skip(i as int).drop_first() =~= cs.skip(i + 1));
            assert(cs[i as int] == view_node(e.children@[i as int]));
        }
        match &e.children[i] {
            XmlNode::Text(_) => {},
            XmlNode::Elem(c) => {
                proof {
                    crate::xml::lemma_view_node_elem(*c);
                }
                let mut key_bytes: Vec<u8> = Vec::new();
                crate::codec::push_bytes(&mut key_bytes, c.name.as_slice());
                proof {
                    assert(key_bytes@ =~= c.name@);
                }
                let key = match bytes_to_string(key_bytes) {
                    Some(k) => k,
                    None => {
                        return None;
                    },
                };
                let value = match bytes_to_string(text_content(c)) {
                    Some(v) => v,
                    None => {
                        return None;
                    },
                };
                out.insert(key, value);
            },
        }
        i += 1;
    }
    proof {
        assert(cs.skip(cs.len() as int) =~= Seq::<NodeV>::empty());
    }
    Some(out)
}

// --- instances ---

/// Reading one instance: the string attributes, the status token, the two
/// ports, the data-center description, and the optional lease and metadata.
/// Children it does not know are ignored.
pub open spec fn spec_instance_from(e: ElemV) -> Option<InstanceV> {
    if e.name == encode_utf8("instance"@) && spec_req_string(e, encode_utf8("hostName"@)) is Some
        && spec_opt_string(e, encode_utf8("instanceId"@)) is Some && spec_req_string(
        e,
        encode_utf8("app"@),
    ) is Some && spec_req_string(e, encode_utf8("ipAddr"@)) is Some && spec_req_string(
        e,
        encode_utf8("vipAddress"@),
    ) is Some && spec_req_string(e, encode_utf8("secureVipAddress"@)) is Some && spec_status_field(
        e,
    ) is Some && spec_port_of(e, encode_utf8("port"@)) is Some && spec_port_of(
        e,
        encode_utf8("securePort"@),
    ) is Some && spec_req_string(e, encode_utf8("homePageUrl"@)) is Some && spec_req_string(
        e,
        encode_utf8("statusPageUrl"@),
    ) is Some && spec_req_string(e, encode_utf8("healthCheckUrl"@)) is Some && spec_dci_of(e)
        is Some && spec_lease_of(e) is Some && spec_meta_of(e) is Some {
        Some(
            InstanceV {
                host_name: spec_req_string(e, encode_utf8("hostName"@))->Some_0,
                instance_id: spec_opt_string(e, encode_utf8("instanceId"@))->Some_0,
                app: spec_req_string(e, encode_utf8("app"@))->Some_0,
                ip_addr: spec_req_string(e, encode_utf8("ipAddr"@))->Some_0,
                vip_address: spec_req_string(e, encode_utf8("vipAddress"@))->Some_0,
                secure_vip_address: spec_req_string(e, encode_utf8("secureVipAddress"@))->Some_0,
                status: spec_status_field(e)->Some_0,
                port: PortData {
                    enabled: spec_port_of(e, encode_utf8("port"@))->Some_0.0,
                    value: spec_port_of(e, encode_utf8("port"@))->Some_0.1,
                },
                secure_port: SecurePort {
                    enabled: spec_port_of(e, encode_utf8("securePort"@))->Some_0.0,
                    value: spec_port_of(e, encode_utf8("securePort"@))->Some_0.1,
                },
                home_page_url: spec_req_string(e, encode_utf8("homePageUrl"@))->Some_0,
                status_page_url: spec_req_string(e, encode_utf8("statusPageUrl"@))->Some_0,
                health_check_url: spec_req_string(e, encode_utf8("healthCheckUrl"@))->Some_0,
                data_center_info: spec_dci_of(e)->Some_0,
                lease_info: spec_lease_of(e)->Some_0,
                metadata: spec_meta_of(e)->Some_0,
            },
        )
    } else {
        None
    }
}

/// The data-center description of an instance element; it is required.
pub open spec fn spec_dci_of(e: ElemV) -> Option<DataCenterInfoV> {
    match last_elem_named(e.children, encode_utf8("dataCenterInfo"@)) {
        Some(c) => spec_dci_from(c),
        None => None,
    }
}

/// The lease of an instance element; absence is fine.
pub open spec fn spec_lease_of(e: ElemV) -> Option<Option<LeaseInfo>> {
    match last_elem_named(e.children, encode_utf8("leaseInfo"@)) {
        Some(c) => match spec_lease_from(c) {
            Some(l) => Some(Some(l)),
            None => None,
        },
        None => Some(None),
    }
}

/// The metadata of an instance element; absence is fine.
pub open spec fn spec_meta_of(e: ElemV) -> Option<Option<AppMetaDataV>> {
    match last_elem_named(e.children, encode_utf8("metadata"@)) {
        Some(c) => match spec_meta_from(c) {
            Some(m) => Some(Some(m)),
            None => None,
        },
        None => Some(None),
    }
}

fn instance_from_elem(e: &XmlElement) -> (r: Option<Instance>)
    ensures
        match r {
            Some(inst) => spec_instance_from(e@) == Some(inst@),
            None => spec_instance_from(e@) is None,
        },
{
    if !bytes_eq(e.name.as_slice(), "instance".as_bytes()) {
        return None;
    }
    let host_name = match req_string(e, "hostName") {
        Some(s) => s,
        None => {
            return None;
        },
    };
    let instance_id = match opt_string(e, "instanceId") {
        Some(v) => v,
        None => {
            return None;
        },
    };
    let app = match req_string(e, "app") {
        Some(s) => s,
        None => {
            return None;
        },
    };
    let ip_addr = match req_string(e, "ipAddr") {
        Some(s) => s,
        None => {
            return None;
        },
    };
    let vip_address = match req_string(e, "vipAddress") {
        Some(s) => s,
        None => {
            return None;
        },
    };
    let secure_vip_address = match req_string(e, "secureVipAddress") {
        Some(s) => s,
        None => {
            return None;
        },
    };
    let status = match status_field(e) {
        Some(s) => s,
        None => {
            return None;
        },
    };
    let port = match port_of(e, "port") {
        Some((enabled, value)) => PortData { enabled, value },
        None => {
            return None;
        },
    };
    let secure_port = match port_of(e, "securePort") {
        Some((enabled, value)) => SecurePort { enabled, value },
        None => {
            return None;
        },
    };
    let home_page_url = match req_string(e, "homePageUrl") {
        Some(s) => s,
        None => {
            return None;
        },
    };
    let status_page_url = match req_string(e, "statusPageUrl") {
        Some(s) => s,
        None => {
            return None;
        },
    };
    let health_check_url = match req_string(e, "healthCheckUrl") {
        Some(s) => s,
        None => {
            return None;
        },
    };
    let data_center_info = match find_last_child(e, "dataCenterInfo".as_bytes()) {
        Some(c) => match dci_from_elem(c) {
            Some(d) => d,
            None => {
                return None;
            },
        },
        None => {
            return None;
        },
    };
    let lease_info = match find_last_child(e, "leaseInfo".as_bytes()) {
        Some(c) => match lease_from_elem(c) {
            Some(l) => Some(l),
            None => {
                return None;
            },
        },
        None => None,
    };
    let metadata = match find_last_child(e, "metadata".as_bytes()) {
        Some(c) => match meta_from_elem(c) {
            Some(m) => Some(m),
            None => {
                return None;
            },
        },
        None => None,
    };
    Some(
        Instance {
            host_name,
            instance_id,
            app,
            ip_addr,
            vip_address,
            secure_vip_address,
            status,
            port,
            secure_port,
            home_page_url,
            status_page_url,
            health_check_url,
            data_center_info,
            lease_info,
            metadata,
        },
    )
}

// --- application groups ---

/// Reading the instances of an application element: every `instance` child
/// in order, each of which must be well formed; other children are ignored.
pub open spec fn spec_instances_from(cs: Seq<NodeV>) -> Option<Seq<InstanceV>>
    decreases cs.len(),
{
    if cs.len() == 0 {
        Some(Seq::empty())
    } else {
        match cs[0] {
            NodeV::Elem(c) => if c.name == encode_utf8("instance"@) {
                match spec_instance_from(c) {
                    None => None,
                    Some(iv) => match spec_instances_from(cs.drop_first()) {
                        None => None,
                        Some(rest) => Some(seq![iv] + rest),
                    },
                }
            } else {
                spec_instances_from(cs.drop_first())
            },
            NodeV::Text(_) => spec_instances_from(cs.drop_first()),
        }
    }
}

#[verifier::rlimit(60)]
fn instances_from(children: &Vec<XmlNode>, i: usize) -> (r: Option<Vec<Instance>>)
    requires
        i <= children@.len(),
    ensures
        match r {
            Some(v) => spec_instances_from(view_children(children@).skip(i as int)) == Some(
                v@.map_values(|x: Instance| x@),
            ),
            None => spec_instances_from(view_children(children@).skip(i as int)) is None,
        },
    decreases children@.len() - i,
{
    let ghost cs = view_children(children@);
    if i == children.len() {
        let empty: Vec<Instance> = Vec::new();
        proof {
            assert(cs.skip(i as int) =~= Seq::<NodeV>::empty());
            assert(empty@.map_values(|x: Instance| x@) =~= Seq::<InstanceV>::empty());
        }
        return Some(empty);
    }
    proof {
        assert(cs.skip(i as int)[0] == cs[i as int]);
        assert(cs.skip(i as int).drop_first() =~= cs.skip(i + 1));
        assert(cs[i as int] == view_node(children@[i as int]));
    }
    match &children[i] {
        XmlNode::Elem(c) => {
            proof {
                crate::xml::lemma_view_node_elem(*c);
            }
            if bytes_eq(c.name.as_slice(), "instance".as_bytes()) {
                match instance_from_elem(c) {
                    None => None,
                    Some(inst) => match instances_from(children, i + 1) {
                        None => None,
                        Some(mut rest) => {
                            let ghost instv = inst@;
                            rest.insert(0, inst);
                            proof {
                                assert(rest@.map_values(|x: Instance| x@) =~= seq![instv]
                                    + rest@.drop_first().map_values(|x: Instance| x@));
                            }
                            Some(rest)
                        },
                    },
                }
            } else {
                instances_from(children, i + 1)
            }
        },
        XmlNode::Text(_) => instances_from(children, i + 1),
    }
}

/// Reading one application group: its required name and its instances.
pub open spec fn spec_application_from(e: ElemV) -> Option<ApplicationV> {
    if e.name == encode_utf8("application"@) && spec_req_string(e, encode_utf8("name"@)) is Some
        && spec_instances_from(e.children) is Some {
        Some(
            ApplicationV {
                name: spec_req_string(e, encode_utf8("name"@))->Some_0,
                instances: spec_instances_from(e.children)->Some_0,
            },
        )
    } else {
        None
    }
}

fn application_from_elem(e: &XmlElement) -> (r: Option<Application>)
    ensures
        match r {
            Some(a) => spec_application_from(e@) == Some(a@),
            None => spec_application_from(e@) is None,
        },
{
    if !bytes_eq(e.name.as_slice(), "application".as_bytes()) {
        return None;
    }
    let name = match req_string(e, "name") {
        Some(s) => s,
        None => {
            return None;
        },
    };
    proof {
        assert(view_children(e.children@).skip(0) =~= e@.children);
    }
    let instances = match instances_from(&e.children, 0) {
        Some(v) => v,
        None => {
            return None;
        },
    };
    Some(Application { name, instances })
}

/// Reading the application groups of the whole listing: every `application`
/// child in order.
pub open spec fn spec_apps_from(cs: Seq<NodeV>) -> Option<Seq<ApplicationV>>
    decreases cs.len(),
{
    if cs.len() == 0 {
        Some(Seq::empty())
    } else {
        match cs[0] {
            NodeV::Elem(c) => if c.name == encode_utf8("application"@) {
                match spec_application_from(c) {
                    None => None,
                    Some(av) => match spec_apps_from(cs.drop_first()) {
                        None => None,
                        Some(rest) => Some(seq![av] + rest),
                    },
                }
            } else {
                spec_apps_from(cs.drop_first())
            },
            NodeV::Text(_) => spec_apps_from(cs.drop_first()),
        }
    }
}

fn apps_from(children: &Vec<XmlNode>, i: usize) -> (r: Option<Vec<Application>>)
    requires
        i <= children@.len(),
    ensures
        match r {
            Some(v) => spec_apps_from(view_children(children@).skip(i as int)) == Some(
                v@.map_values(|x: Application| x@),
            ),
            None => spec_apps_from(view_children(children@).skip(i as int)) is None,
        },
    decreases children@.len() - i,
{
    let ghost cs = view_children(children@);
    if i == children.len() {
        let empty: Vec<Application> = Vec::new();
        proof {
            assert(cs.skip(i as int) =~= Seq::<NodeV>::empty());
            assert(empty@.map_values(|x: Application| x@) =~= Seq::<ApplicationV>::empty());
        }
        return Some(empty);
    }
    proof {
        assert(cs.skip(i as int)[0] == cs[i as int]);
        assert(cs.skip(i as int).drop_first() =~= cs.skip(i + 1));
        assert(cs[i as int] == view_node(children@[i as int]));
    }
    match &children[i] {
        XmlNode::Elem(c) => {
            proof {
                crate::xml::lemma_view_node_elem(*c);
            }
            if bytes_eq(c.name.as_slice(), "application".as_bytes()) {
                match application_from_elem(c) {
                    None => None,
                    Some(a) => match apps_from(children, i + 1) {
                        None => None,
                        Some(mut rest) => {
                            let ghost av = a@;
                            rest.insert(0, a);
                            proof {
                                assert(rest@.map_values(|x: Application| x@) =~= seq![av]
                                    + rest@.drop_first().map_values(|x: Application| x@));
                            }
                            Some(rest)
                        },
                    },
                }
            } else {
                apps_from(children, i + 1)
            }
        },
        XmlNode::Text(_) => apps_from(children, i + 1),
    }
}

/// Reading the whole listing: the optional version markers and the
/// application groups.
pub open spec fn spec_applications_from(e: ElemV) -> Option<ApplicationsV> {
    if e.name == encode_utf8("applications"@) && spec_opt_string(
        e,
        encode_utf8("versions__delta"@),
    ) is Some && spec_opt_string(e, encode_utf8("apps__hashcode"@)) is Some && spec_apps_from(
        e.children,
    ) is Some {
        Some(
            ApplicationsV {
                versions_delta: spec_opt_string(e, encode_utf8("versions__delta"@))->Some_0,
                apps_hashcode: spec_opt_string(e, encode_utf8("apps__hashcode"@))->Some_0,
                applications: spec_apps_from(e.children)->Some_0,
            },
        )
    } else {
        None
    }
}

fn applications_from_elem(e: &XmlElement) -> (r: Option<Applications>)
    ensures
        match r {
            Some(a) => spec_applications_from(e@) == Some(a@),
            None => spec_applications_from(e@) is None,
        },
{
    if !bytes_eq(e.name.as_slice(), "applications".as_bytes()) {
        return None;
    }
    let versions_delta = match opt_string(e, "versions__delta") {
        Some(v) => v,
        None => {
            return None;
        },
    };
    let apps_hashcode = match opt_string(e, "apps__hashcode") {
        Some(v) => v,
        None => {
            return None;
        },
    };
    proof {
        assert(view_children(e.children@).skip(0) =~= e@.children);
    }
    let applications = match apps_from(&e.children, 0) {
        Some(v) => v,
        None => {
            return None;
        },
    };
    Some(Applications { versions_delta, apps_hashcode, applications })
}

// --- whole documents ---

/// What a whole document denotes as a listing of applications.
pub open spec fn spec_applications_doc(s: Seq<u8>) -> Option<ApplicationsV> {
    match spec_parse_document(s) {
        Some(e) => spec_applications_from(e),
        None => None,
    }
}

/// What a whole document denotes as one application group.
pub open spec fn spec_application_doc(s: Seq<u8>) -> Option<ApplicationV> {
    match spec_parse_document(s) {
        Some(e) => spec_application_from(e),
        None => None,
    }
}

/// What a whole document denotes as one instance.
pub open spec fn spec_instance_doc(s: Seq<u8>) -> Option<InstanceV> {
    match spec_parse_document(s) {
        Some(e) => spec_instance_from(e),
        None => None,
    }
}

fn malformed() -> (r: EurekaError)
    ensures
        r is ParseError,
{
    EurekaError::ParseError(<String as vstd::string::StringExecFns>::from_str("malformed document"))
}

/// Parses a whole listing of applications from bytes.
pub fn applications_from_bytes(s: &[u8]) -> (r: Result<Applications, EurekaError>)
    ensures
        match r {
            Ok(a) => spec_applications_doc(s@) == Some(a@),
            Err(e) => spec_applications_doc(s@) is None && e is ParseError,
        },
{
    match parse_document_bytes(s) {
        Some(e) => match applications_from_elem(&e) {
            Some(a) => Ok(a),
            None => Err(malformed()),
        },
        None => Err(malformed()),
    }
}

/// Parses one application group from bytes.
pub fn application_from_bytes(s: &[u8]) -> (r: Result<Application, EurekaError>)
    ensures
        match r {
            Ok(a) => spec_application_doc(s@) == Some(a@),
            Err(e) => spec_application_doc(s@) is None && e is ParseError,
        },
{
    match parse_document_bytes(s) {
        Some(e) => match application_from_elem(&e) {
            Some(a) => Ok(a),
            None => Err(malformed()),
        },
        None => Err(malformed()),
    }
}

/// Parses one instance from bytes.
pub fn instance_from_bytes(s: &[u8]) -> (r: Result<Instance, EurekaError>)
    ensures
        match r {
            Ok(a) => spec_instance_doc(s@) == Some(a@),
            Err(e) => spec_instance_doc(s@) is None && e is ParseError,
        },
{
    match parse_document_bytes(s) {
        Some(e) => match instance_from_elem(&e) {
            Some(a) => Ok(a),
            None => Err(malformed()),
        },
        None => Err(malformed()),
    }
}

// --- writing ---
//
// Serialization is defined by the `ser_*` functions as plain concatenation
// of byte pieces, and the writers are proved to emit exactly that. Text is
// escaped; tag names and numeric or token values need no escaping but run
// through the same definition where they are written as text.

/// The token a boolean serializes as.
pub open spec fn bool_bytes(b: bool) -> Seq<u8> {
    if b {
        encode_utf8("true"@)
    } else {
        encode_utf8("false"@)
    }
}

/// `<name>` escaped-text `</name>`.
pub open spec fn ser_text_elem(name: Seq<u8>, text: Seq<u8>) -> Seq<u8> {
    ("<").spec_bytes() + name + (">").spec_bytes() + crate::xml::escaped(text) + (
    "</").spec_bytes() + name + (">").spec_bytes()
}

/// A port element: the enabled attribute and the number as text.
pub open spec fn ser_port(name: Seq<u8>, enabled: bool, value: u16) -> Seq<u8> {
    ("<").spec_bytes() + name + (" enabled=\"").spec_bytes() + bool_bytes(enabled) + (
    "\">").spec_bytes() + crate::codec::dec_bytes(value as int) + ("</").spec_bytes() + name + (
    ">").spec_bytes()
}

/// The machine metadata block, every field written in order.
pub open spec fn ser_amazon(m: AmazonMetaDataV) -> Seq<u8> {
    ("<metadata>").spec_bytes() + ser_text_elem(
        ("ami-launch-index").spec_bytes(),
        m.ami_launch_index,
    ) + ser_text_elem(("local-hostname").spec_bytes(), m.local_hostname) + ser_text_elem(
        ("availability-zone").spec_bytes(),
        m.availability_zone,
    ) + ser_text_elem(("instance-id").spec_bytes(), m.instance_id) + ser_text_elem(
        ("public-ipv4").spec_bytes(),
        m.public_ipv4,
    ) + ser_text_elem(("public-hostname").spec_bytes(), m.public_hostname) + ser_text_elem(
        ("ami-manifest-patch").spec_bytes(),
        m.ami_manifest_patch,
    ) + ser_text_elem(("local-ipv4").spec_bytes(), m.local_ipv4) + ser_text_elem(
        ("hostname").spec_bytes(),
        m.hostname,
    ) + ser_text_elem(("ami-id").spec_bytes(), m.ami_id) + ser_text_elem(
        ("instance-type").spec_bytes(),
        m.instance_type,
    ) + ("</metadata>").spec_bytes()
}

/// The data-center block: optional class attribute, name token, optional
/// machine metadata.
pub open spec fn ser_dci(d: DataCenterInfoV) -> Seq<u8> {
    ("<dataCenterInfo").spec_bytes() + (match d.class {
        Some(c) => (" class=\"").spec_bytes() + crate::xml::escaped(c) + ("\"").spec_bytes(),
        None => Seq::<u8>::empty(),
    }) + (">").spec_bytes() + ser_text_elem(
        ("name").spec_bytes(),
        encode_utf8(d.name.spec_token()),
    ) + (match d.metadata {
        Some(m) => ser_amazon(m),
        None => Seq::<u8>::empty(),
    }) + ("</dataCenterInfo>").spec_bytes()
}

/// The lease block, with the eviction duration when set.
pub open spec fn ser_lease(l: LeaseInfo) -> Seq<u8> {
    ("<leaseInfo>").spec_bytes() + (match l.eviction_duration_in_secs {
        Some(n) => ser_text_elem(
            ("evictionDurationInSecs").spec_bytes(),
            crate::codec::dec_bytes(n as int),
        ),
        None => Seq::<u8>::empty(),
    }) + ("</leaseInfo>").spec_bytes()
}

/// One metadata entry: the key as the tag, the value as escaped text.
pub open spec fn ser_meta_entries(entries: Seq<(Seq<u8>, Seq<u8>)>) -> Seq<u8>
    decreases entries.len(),
{
    if entries.len() == 0 {
        Seq::empty()
    } else {
        ser_meta_entries(entries.drop_last()) + ser_text_elem(
            entries.last().0,
            entries.last().1,
        )
    }
}

/// The metadata block: optional class attribute and the entries in order.
pub open spec fn ser_meta(m: AppMetaDataV) -> Seq<u8> {
    ("<metadata").spec_bytes() + (match m.class {
        Some(c) => (" class=\"").spec_bytes() + crate::xml::escaped(c) + ("\"").spec_bytes(),
        None => Seq::<u8>::empty(),
    }) + (">").spec_bytes() + ser_meta_entries(m.map) + ("</metadata>").spec_bytes()
}

/// A whole instance as the registry's register request carries it, fields
/// in schema order, the optional ones only when set.
pub open spec fn ser_instance(v: InstanceV) -> Seq<u8> {
    ("<instance>").spec_bytes() + ser_text_elem(("hostName").spec_bytes(), v.host_name) + (
    match v.instance_id {
        Some(id) => ser_text_elem(("instanceId").spec_bytes(), id),
        None => Seq::<u8>::empty(),
    }) + ser_text_elem(("app").spec_bytes(), v.app) + ser_text_elem(
        ("ipAddr").spec_bytes(),
        v.ip_addr,
    ) + ser_text_elem(("vipAddress").spec_bytes(), v.vip_address) + ser_text_elem(
        ("secureVipAddress").spec_bytes(),
        v.secure_vip_address,
    ) + ser_text_elem(("status").spec_bytes(), encode_utf8(v.status.spec_token())) + ser_port(
        ("port").spec_bytes(),
        v.port.enabled,
        v.port.value,
    ) + ser_port(("securePort").spec_bytes(), v.secure_port.enabled, v.secure_port.value)
        + ser_text_elem(("homePageUrl").spec_bytes(), v.home_page_url) + ser_text_elem(
        ("statusPageUrl").spec_bytes(),
        v.status_page_url,
    ) + ser_text_elem(("healthCheckUrl").spec_bytes(), v.health_check_url) + ser_dci(
        v.data_center_info,
    ) + (match v.lease_info {
        Some(l) => ser_lease(l),
        None => Seq::<u8>::empty(),
    }) + (match v.metadata {
        Some(m) => ser_meta(m),
        None => Seq::<u8>::empty(),
    }) + ("</instance>").spec_bytes()
}

fn push_lit(out: &mut Vec<u8>, s: &str)
    ensures
        final(out)@ == old(out)@ + s.spec_bytes(),
{
    crate::codec::push_bytes(out, s.as_bytes());
}

fn push_text_elem(out: &mut Vec<u8>, name: &str, text: &[u8])
    ensures
        final(out)@ == old(out)@ + ser_text_elem(name.spec_bytes(), text@),
{
    push_lit(out, "<");
    push_lit(out, name);
    push_lit(out, ">");
    crate::xml::push_escaped(out, text);
    push_lit(out, "</");
    push_lit(out, name);
    push_lit(out, ">");
    proof {
        assert(out@ =~= old(out)@ + ser_text_elem(name.spec_bytes(), text@));
    }
}

fn push_port(out: &mut Vec<u8>, name: &str, enabled: bool, value: u16)
    ensures
        final(out)@ == old(out)@ + ser_port(name.spec_bytes(), enabled, value),
{
    push_lit(out, "<");
    push_lit(out, name);
    push_lit(out, " enabled=\"");
    if enabled {
        push_lit(out, "true");
    } else {
        push_lit(out, "false");
    }
    push_lit(out, "\">");
    let digits = crate::codec::u64_to_dec_bytes(value as u64);
    crate::codec::push_bytes(out, digits.as_slice());
    push_lit(out, "</");
    push_lit(out, name);
    push_lit(out, ">");
    proof {
        assert(out@ =~= old(out)@ + ser_port(name.spec_bytes(), enabled, value));
    }
}

fn push_amazon(out: &mut Vec<u8>, m: &AmazonMetaDataType)
    ensures
        final(out)@ == old(out)@ + ser_amazon(m@),
{
    push_lit(out, "<metadata>");
    push_text_elem(out, "ami-launch-index", m.ami_launch_index.as_str().as_bytes());
    push_text_elem(out, "local-hostname", m.local_hostname.as_str().as_bytes());
    push_text_elem(out, "availability-zone", m.availability_zone.as_str().as_bytes());
    push_text_elem(out, "instance-id", m.instance_id.as_str().as_bytes());
    push_text_elem(out, "public-ipv4", m.public_ipv4.as_str().as_bytes());
    push_text_elem(out, "public-hostname", m.public_hostname.as_str().as_bytes());
    push_text_elem(out, "ami-manifest-patch", m.ami_manifest_patch.as_str().as_bytes());
    push_text_elem(out, "local-ipv4", m.local_ipv4.as_str().as_bytes());
    push_text_elem(out, "hostname", m.hostname.as_str().as_bytes());
    push_text_elem(out, "ami-id", m.ami_id.as_str().as_bytes());
    push_text_elem(out, "instance-type", m.instance_type.as_str().as_bytes());
    push_lit(out, "</metadata>");
    proof {
        assert(out@ =~= old(out)@ + ser_amazon(m@));
    }
}

fn push_dci(out: &mut Vec<u8>, d: &DataCenterInfo)
    ensures
        final(out)@ == old(out)@ + ser_dci(d@),
{
    let mut seg: Vec<u8> = Vec::new();
    push_lit(&mut seg, "<dataCenterInfo");
    proof {
        assert(Seq::<u8>::empty() + ("<dataCenterInfo").spec_bytes() =~= (
        "<dataCenterInfo").spec_bytes());
    }
    let ghost a = seg@;
    match &d.class {
        Some(c) => {
            push_lit(&mut seg, " class=\"");
            crate::xml::push_escaped(&mut seg, c.as_str().as_bytes());
            push_lit(&mut seg, "\"");
            proof {
                assert(seg@ =~= a + ((" class=\"").spec_bytes() + crate::xml::escaped(
                    string_bytes(*c),
                ) + ("\"").spec_bytes()));
            }
        },
        None => {
            proof {
                assert(seg@ =~= a + Seq::<u8>::empty());
            }
        },
    }
    proof {
        assert(seg@ == a + (match d@.class {
            Some(c) => (" class=\"").spec_bytes() + crate::xml::escaped(c) + ("\"").spec_bytes(),
            None => Seq::<u8>::empty(),
        }));
    }
    push_lit(&mut seg, ">");
    push_text_elem(&mut seg, "name", d.name.token().as_bytes());
    let ghost before_meta = seg@;
    match &d.metadata {
        Some(m) => {
            push_amazon(&mut seg, m);
        },
        None => {},
    }
    proof {
        assert(seg@ =~= before_meta + (match d@.metadata {
            Some(m) => ser_amazon(m),
            None => Seq::<u8>::empty(),
        }));
    }
    push_lit(&mut seg, "</dataCenterInfo>");
    proof {
        assert(seg@ == ser_dci(d@));
    }
    crate::codec::push_bytes(out, seg.as_slice());
}

fn push_lease(out: &mut Vec<u8>, l: &LeaseInfo)
    ensures
        final(out)@ == old(out)@ + ser_lease(*l),
{
    push_lit(out, "<leaseInfo>");
    match l.eviction_duration_in_secs {
        Some(n) => {
            let digits = crate::codec::u64_to_dec_bytes(n as u64);
            push_text_elem(out, "evictionDurationInSecs", digits.as_slice());
        },
        None => {},
    }
    push_lit(out, "</leaseInfo>");
    proof {
        assert(out@ =~= old(out)@ + ser_lease(*l));
    }
}

fn push_meta(out: &mut Vec<u8>, m: &AppMetaDataType)
    ensures
        final(out)@ == old(out)@ + ser_meta(m@),
{
    push_lit(out, "<metadata");
    match &m.class {
        Some(c) => {
            push_lit(out, " class=\"");
            crate::xml::push_escaped(out, c.as_str().as_bytes());
            push_lit(out, "\"");
        },
        None => {},
    }
    push_lit(out, ">");
    let ghost before_entries = out@;
    let ghost entries = m@.map;
    let mut i: usize = 0;
    while i < m.map.len()
        invariant
            entries == m@.map,
            m.map@.len() == entries.len(),
            i <= m.map@.len(),
            out@ == before_entries + ser_meta_entries(entries.take(i as int)),
        decreases m.map@.len() - i,
    {
        proof {
            assert(entries.take(i + 1).drop_last() =~= entries.take(i as int));
            assert(entries.take(i + 1).last() == entries[i as int]);
        }
        let mut key_bytes: Vec<u8> = Vec::new();
        crate::codec::push_bytes(&mut key_bytes, m.map[i].0.as_str().as_bytes());
        proof {
            assert(key_bytes@ =~= entries[i as int].0);
        }
        push_lit(out, "<");
        crate::codec::push_bytes(out, key_bytes.as_slice());
        push_lit(out, ">");
        crate::xml::push_escaped(out, m.map[i].1.as_str().as_bytes());
        push_lit(out, "</");
        crate::codec::push_bytes(out, key_bytes.as_slice());
        push_lit(out, ">");
        proof {
            assert(out@ =~= before_entries + ser_meta_entries(entries.take(i + 1)));
        }
        i += 1;
    }
    proof {
        assert(entries.take(entries.len() as int) =~= entries);
    }
    push_lit(out, "</metadata>");
    proof {
        assert(out@ =~= old(out)@ + ser_meta(m@));
    }
}

impl Instance {
    /// The instance as the register request's body.
    pub fn to_xml_bytes(&self) -> (r: Vec<u8>)
        ensures
            r@ == ser_instance(self@),
    {
        let mut out: Vec<u8> = Vec::new();
        push_lit(&mut out, "<instance>");
        proof {
            assert(Seq::<u8>::empty() + ("<instance>").spec_bytes() =~= (
            "<instance>").spec_bytes());
        }
        push_text_elem(&mut out, "hostName", self.host_name.as_str().as_bytes());
        match &self.instance_id {
            Some(id) => {
                push_text_elem(&mut out, "instanceId", id.as_str().as_bytes());
            },
            None => {},
        }
        proof {
            assert(out@ =~= ("<instance>").spec_bytes() + ser_text_elem(
                ("hostName").spec_bytes(),
                self@.host_name,
            ) + (match self@.instance_id {
                Some(id) => ser_text_elem(("instanceId").spec_bytes(), id),
                None => Seq::<u8>::empty(),
            }));
        }
        push_text_elem(&mut out, "app", self.app.as_str().as_bytes());
        push_text_elem(&mut out, "ipAddr", self.ip_addr.as_str().as_bytes());
        push_text_elem(&mut out, "vipAddress", self.vip_address.as_str().as_bytes());
        push_text_elem(&mut out, "secureVipAddress", self.secure_vip_address.as_str().as_bytes());
        push_text_elem(&mut out, "status", self.status.token().as_bytes());
        push_port(&mut out, "port", self.port.enabled, self.port.value);
        push_port(&mut out, "securePort", self.secure_port.enabled, self.secure_port.value);
        push_text_elem(&mut out, "homePageUrl", self.home_page_url.as_str().as_bytes());
        push_text_elem(&mut out, "statusPageUrl", self.status_page_url.as_str().as_bytes());
        push_text_elem(&mut out, "healthCheckUrl", self.health_check_url.as_str().as_bytes());
        push_dci(&mut out, &self.data_center_info);
        let ghost before_opt = out@;
        match &self.lease_info {
            Some(l) => {
                push_lease(&mut out, l);
            },
            None => {},
        }
        proof {
            assert(out@ =~= before_opt + (match self@.lease_info {
                Some(l) => ser_lease(l),
                None => Seq::<u8>::empty(),
            }));
        }
        let ghost before_meta = out@;
        match &self.metadata {
            Some(m) => {
                push_meta(&mut out, m);
            },
            None => {},
        }
        proof {
            assert(out@ =~= before_meta + (match self@.metadata {
                Some(m) => ser_meta(m),
                None => Seq::<u8>::empty(),
            }));
        }
        push_lit(&mut out, "</instance>");
        proof {
            assert(out@ =~= ser_instance(self@));
        }
        out
    }
}

// --- reading and writing whole documents through the model types ---

/// What a whole document denotes as a plain port.
pub open spec fn spec_portdata_doc(s: Seq<u8>) -> Option<PortData> {
    match spec_parse_document(s) {
        Some(e) => if e.name == encode_utf8("port"@) {
            match spec_port_fields(e) {
                Some((en, v)) => Some(PortData { enabled: en, value: v }),
                None => None,
            }
        } else {
            None
        },
        None => None,
    }
}

/// What a whole document denotes as a TLS port.
pub open spec fn spec_secureport_doc(s: Seq<u8>) -> Option<SecurePort> {
    match spec_parse_document(s) {
        Some(e) => if e.name == encode_utf8("securePort"@) {
            match spec_port_fields(e) {
                Some((en, v)) => Some(SecurePort { enabled: en, value: v }),
                None => None,
            }
        } else {
            None
        },
        None => None,
    }
}

/// What a whole document denotes as a data-center description.
pub open spec fn spec_dci_doc(s: Seq<u8>) -> Option<DataCenterInfoV> {
    match spec_parse_document(s) {
        Some(e) => spec_dci_from(e),
        None => None,
    }
}

/// What a whole document denotes as a lease.
pub open spec fn spec_lease_doc(s: Seq<u8>) -> Option<LeaseInfo> {
    match spec_parse_document(s) {
        Some(e) => spec_lease_from(e),
        None => None,
    }
}

/// What a whole document denotes as a metadata block.
pub open spec fn spec_meta_doc(s: Seq<u8>) -> Option<AppMetaDataV> {
    match spec_parse_document(s) {
        Some(e) => spec_meta_from(e),
        None => None,
    }
}

impl Applications {
    /// Parses a whole listing from its document text.
    pub fn from_str(s: &str) -> (r: Result<Applications, EurekaError>)
        ensures
            match r {
                Ok(a) => spec_applications_doc(s.spec_bytes()) == Some(a@),
                Err(_) => spec_applications_doc(s.spec_bytes()) is None,
            },
    {
        applications_from_bytes(s.as_bytes())
    }
}

impl Application {
    /// Parses one application group from its document text.
    pub fn from_str(s: &str) -> (r: Result<Application, EurekaError>)
        ensures
            match r {
                Ok(a) => spec_application_doc(s.spec_bytes()) == Some(a@),
                Err(_) => spec_application_doc(s.spec_bytes()) is None,
            },
    {
        application_from_bytes(s.as_bytes())
    }
}

impl Instance {
    /// Parses one instance from its document text.
    pub fn from_str(s: &str) -> (r: Result<Instance, EurekaError>)
        ensures
            match r {
                Ok(a) => spec_instance_doc(s.spec_bytes()) == Some(a@),
                Err(_) => spec_instance_doc(s.spec_bytes()) is None,
            },
    {
        instance_from_bytes(s.as_bytes())
    }

    /// The instance's document text, as the register request sends it.
    pub fn to_string(&self) -> (r: Result<String, EurekaError>)
        ensures
            match r {
                Ok(s) => valid_utf8(ser_instance(self@)) && encode_utf8(s@) == ser_instance(
                    self@,
                ),
                Err(_) => !valid_utf8(ser_instance(self@)),
            },
    {
        let out = self.to_xml_bytes();
        match crate::codec::bytes_to_string(out) {
            Some(s) => Ok(s),
            None => Err(malformed()),
        }
    }
}

impl PortData {
    /// Parses a plain port from its document text.
    pub fn from_str(s: &str) -> (r: Result<PortData, EurekaError>)
        ensures
            match r {
                Ok(p) => spec_portdata_doc(s.spec_bytes()) == Some(p),
                Err(_) => spec_portdata_doc(s.spec_bytes()) is None,
            },
    {
        match parse_document_bytes(s.as_bytes()) {
            Some(e) => {
                if bytes_eq(e.name.as_slice(), "port".as_bytes()) {
                    match port_fields(&e) {
                        Some((enabled, value)) => Ok(PortData { enabled, value }),
                        None => Err(malformed()),
                    }
                } else {
                    Err(malformed())
                }
            },
            None => Err(malformed()),
        }
    }
}

impl SecurePort {
    /// Parses a TLS port from its document text.
    pub fn from_str(s: &str) -> (r: Result<SecurePort, EurekaError>)
        ensures
            match r {
                Ok(p) => spec_secureport_doc(s.spec_bytes()) == Some(p),
                Err(_) => spec_secureport_doc(s.spec_bytes()) is None,
            },
    {
        match parse_document_bytes(s.as_bytes()) {
            Some(e) => {
                if bytes_eq(e.name.as_slice(), "securePort".as_bytes()) {
                    match port_fields(&e) {
                        Some((enabled, value)) => Ok(SecurePort { enabled, value }),
                        None => Err(malformed()),
                    }
                } else {
                    Err(malformed())
                }
            },
            None => Err(malformed()),
        }
    }
}

impl DataCenterInfo {
    /// Parses a data-center description from its document text.
    pub fn from_str(s: &str) -> (r: Result<DataCenterInfo, EurekaError>)
        ensures
            match r {
                Ok(d) => spec_dci_doc(s.spec_bytes()) == Some(d@),
                Err(_) => spec_dci_doc(s.spec_bytes()) is None,
            },
    {
        match parse_document_bytes(s.as_bytes()) {
            Some(e) => match dci_from_elem(&e) {
                Some(d) => Ok(d),
                None => Err(malformed()),
            },
            None => Err(malformed()),
        }
    }
}

impl LeaseInfo {
    /// Parses a lease from its document text.
    pub fn from_str(s: &str) -> (r: Result<LeaseInfo, EurekaError>)
        ensures
            match r {
                Ok(l) => spec_lease_doc(s.spec_bytes()) == Some(l),
                Err(_) => spec_lease_doc(s.spec_bytes()) is None,
            },
    {
        match parse_document_bytes(s.as_bytes()) {
            Some(e) => match lease_from_elem(&e) {
                Some(l) => Ok(l),
                None => Err(malformed()),
            },
            None => Err(malformed()),
        }
    }
}

impl AppMetaDataType {
    /// Parses a metadata block from its document text.
    pub fn from_str(s: &str) -> (r: Result<AppMetaDataType, EurekaError>)
        ensures
            match r {
                Ok(m) => spec_meta_doc(s.spec_bytes()) == Some(m@),
                Err(_) => spec_meta_doc(s.spec_bytes()) is None,
            },
    {
        match parse_document_bytes(s.as_bytes()) {
            Some(e) => match meta_from_elem(&e) {
                Some(m) => Ok(m),
                None => Err(malformed()),
            },
            None => Err(malformed()),
        }
    }

    /// The metadata block's document text.
    pub fn to_string(&self) -> (r: Result<String, EurekaError>)
        ensures
            match r {
                Ok(s) => valid_utf8(ser_meta(self@)) && encode_utf8(s@) == ser_meta(self@),
                Err(_) => !valid_utf8(ser_meta(self@)),
            },
    {
        let mut out: Vec<u8> = Vec::new();
        push_meta(&mut out, self);
        proof {
            assert(Seq::<u8>::empty() + ser_meta(self@) =~= ser_meta(self@));
        }
        match crate::codec::bytes_to_string(out) {
            Some(s) => Ok(s),
            None => Err(malformed()),
        }
    }
}

} // verus!
