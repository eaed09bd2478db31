//! Client-side agent for a Eureka-style service registry: it registers one
//! local service instance, keeps the registration alive with heartbeats,
//! maintains a cached snapshot of all registered instances, and resolves a
//! logical application name to one healthy endpoint.
//!
//! The modules split the work as the design does: `structures` holds the data
//! model, `xml` the generic wire document reader and writer, `serial` the
//! schema-specific serialization, `codec` the percent-encoders for URL parts,
//! `rest` the wire-level request builders and outcome decoders, `registry` the
//! snapshot cache, and `instance` the registration lifecycle state machine.
//! All network transport is left to the embedding program: every function here
//! computes over plain values.

pub mod codec;
pub mod instance;
pub mod registry;
pub mod rest;
pub mod serial;
pub mod structures;
pub mod xml;

pub use crate::structures::{Instance, PortData, SecurePort, StatusType};

use vstd::prelude::*;
use vstd::string::{StringExecFns, StringSliceAdditionalSpecFns};
use vstd::utf8::{decode_utf8, encode_utf8};

use crate::instance::InstanceClient;
use crate::registry::{spec_select, RegistryClient};
use crate::structures::InstanceV;

verus! {

/// Error taxonomy of the client, mirroring how the registry is spoken to:
/// transport failures, unexpected HTTP status codes, the distinguished
/// "registry does not recognize this instance" outcome, and malformed
/// payloads.
#[derive(Debug)]
pub enum EurekaError {
    /// Transport-level failure; carries a description of the cause.
    Network(String),
    /// The server answered, but not with the expected success status.
    Request(u16),
    /// Semantically distinguished: the registry has forgotten this instance.
    UnexpectedState(String),
    /// The payload did not match the expected schema.
    ParseError(String),
}

impl EurekaError {
    /// A human-readable description of the error; stands in for `Display`.
    pub fn describe(&self) -> (r: String)
        ensures
            r@ == self.describe_spec(),
    {
        match self {
            EurekaError::Network(cause) => {
                let mut s = String::new();
                s.append("network failure: ");
                s.append(cause.as_str());
                s
            },
            EurekaError::Request(status) => {
                let mut s = String::new();
                s.append("unexpected status code ");
                s.append(crate::codec::u32_to_string(*status as u32).as_str());
                s
            },
            EurekaError::UnexpectedState(reason) => {
                let mut s = String::new();
                s.append("unexpected state: ");
                s.append(reason.as_str());
                s
            },
            EurekaError::ParseError(reason) => {
                let mut s = String::new();
                s.append("parse error: ");
                s.append(reason.as_str());
                s
            },
        }
    }

    pub open spec fn describe_spec(&self) -> Seq<char> {
        match self {
            EurekaError::Network(cause) => "network failure: "@ + cause@,
            EurekaError::Request(status) => "unexpected status code "@
                + crate::codec::spec_u32_string(*status as int),
            EurekaError::UnexpectedState(reason) => "unexpected state: "@ + reason@,
            EurekaError::ParseError(reason) => "parse error: "@ + reason@,
        }
    }
}

// --- configuration surface ---

/// Connection settings towards the registry server.
#[derive(Debug, Clone)]
pub struct ClientConfig {
    pub eureka_connection_idle_timeout_seconds: usize,
    pub eureka_server_connect_timeout_seconds: usize,
    pub eureka_server_d_n_s_name: String,
    pub eureka_server_port: u16,
    pub eureka_server_read_timeout_seconds: usize,
}

/// Per-instance configuration beyond the instance record itself.
#[derive(Debug, Clone)]
pub struct EurekaInstanceConfig {}

/// How the client speaks to the registry: where it is, how often to
/// heartbeat and refresh, and what to register and fetch.
#[derive(Debug, Clone)]
pub struct EurekaConfig {
    /// Server host.
    pub host: String,
    /// Server port.
    pub port: u16,
    /// Heartbeat interval in milliseconds.
    pub heartbeat_interval: usize,
    /// Registry fetch interval in milliseconds.
    pub registry_fetch_interval: usize,
    /// Request retry limit.
    pub max_retries: usize,
    /// Request retry delay in milliseconds.
    pub request_retry_delay: usize,
    /// Whether to fetch the registry at all.
    pub fetch_registry: bool,
    /// Whether resolution filters to UP instances.
    pub filter_up_instances: bool,
    /// Path of the registry API below the host.
    pub service_path: String,
    /// Whether to speak TLS.
    pub ssl: bool,
    pub use_dns: bool,
    pub prefer_same_zone: bool,
    pub cluster_refresh_interval: usize,
    pub fetch_metadata: bool,
    /// Whether this process registers an instance of its own.
    pub register_with_eureka: bool,
    pub use_local_metadata: bool,
    pub prefer_ip_address: bool,
}

/// What the configuration defaults to: a local registry on its usual port,
/// half-minute heartbeat and refresh periods, registering and fetching.
pub open spec fn is_default_eureka_config(c: EurekaConfig) -> bool {
    &&& c.host@ == "localhost"@
    &&& c.port == 8761
    &&& c.heartbeat_interval == 30000
    &&& c.registry_fetch_interval == 30000
    &&& c.max_retries == 3
    &&& c.request_retry_delay == 500
    &&& c.fetch_registry == true
    &&& c.filter_up_instances == true
    &&& c.service_path@ == "/eureka"@
    &&& c.ssl == false
    &&& c.use_dns == false
    &&& c.prefer_same_zone == true
    &&& c.cluster_refresh_interval == 300000
    &&& c.fetch_metadata == true
    &&& c.register_with_eureka == true
    &&& c.use_local_metadata == false
    &&& c.prefer_ip_address == false
}

impl Default for EurekaConfig {
    fn default() -> (r: Self)
        ensures
            is_default_eureka_config(r),
    {
        EurekaConfig {
            host: <String as StringExecFns>::from_str("localhost"),
            port: 8761,
            heartbeat_interval: 30000,
            registry_fetch_interval: 30000,
            max_retries: 3,
            request_retry_delay: 500,
            fetch_registry: true,
            filter_up_instances: true,
            service_path: <String as StringExecFns>::from_str("/eureka"),
            ssl: false,
            use_dns: false,
            prefer_same_zone: true,
            cluster_refresh_interval: 300000,
            fetch_metadata: true,
            register_with_eureka: true,
            use_local_metadata: false,
            prefer_ip_address: false,
        }
    }
}

/// The whole configuration: the registry settings and the instance this
/// process would register.
#[derive(Debug)]
pub struct BaseConfig {
    pub eureka: EurekaConfig,
    pub instance: Instance,
}

impl Default for BaseConfig {
    fn default() -> (r: Self)
        ensures
            is_default_eureka_config(r.eureka),
            r.instance@.instance_id is None,
            r.instance@.host_name == "localhost".spec_bytes(),
            r.instance@.status == StatusType::Starting,
    {
        BaseConfig { eureka: EurekaConfig::default(), instance: Instance::default() }
    }
}

// --- the facade ---

/// The registry base URL a configuration denotes:
/// `{protocol}://{host}:{port}{servicePath}`.
pub open spec fn spec_base_url(
    ssl: bool,
    host: Seq<char>,
    port: u16,
    service_path: Seq<char>,
) -> Seq<char> {
    (if ssl {
        "https"@
    } else {
        "http"@
    }) + "://"@ + host + ":"@ + crate::codec::spec_u32_string(port as int) + service_path
}

/// A path with its leading slashes removed.
pub open spec fn trim_slashes(s: Seq<char>) -> Seq<char>
    decreases s.len(),
{
    if s.len() > 0 && s[0] == '/' {
        trim_slashes(s.drop_first())
    } else {
        s
    }
}

/// The endpoint an instance offers under a TLS preference: its IP address
/// with the preferred port — absent when that port is disabled.
pub open spec fn endpoint_of(iv: InstanceV, ssl: bool) -> Option<Seq<char>> {
    let enabled = if ssl {
        iv.secure_port.enabled
    } else {
        iv.port.enabled
    };
    let value = if ssl {
        iv.secure_port.value
    } else {
        iv.port.value
    };
    if enabled {
        Some(decode_utf8(iv.ip_addr) + ":"@ + crate::codec::spec_u32_string(value as int))
    } else {
        None
    }
}

/// The URL a request to a resolved instance goes to:
/// `{protocol}://{host}:{port}/{path}`, the path's leading slashes dropped.
pub open spec fn spec_target_url(
    ssl: bool,
    host: Seq<char>,
    port: u16,
    path: Seq<char>,
) -> Seq<char> {
    (if ssl {
        "https"@
    } else {
        "http"@
    }) + "://"@ + host + ":"@ + crate::codec::spec_u32_string(port as int) + "/"@ + trim_slashes(
        path,
    )
}

fn trim_leading_slashes<'a>(path: &'a str) -> (r: &'a str)
    ensures
        r@ == trim_slashes(path@),
{
    let n = path.unicode_len();
    let mut k: usize = 0;
    proof {
        assert(path@.skip(0) =~= path@);
    }
    while k < n && path.get_char(k) == '/'
        invariant
            k <= n,
            n == path@.len(),
            trim_slashes(path@) == trim_slashes(path@.skip(k as int)),
        decreases n - k,
    {
        proof {
            assert(path@.skip(k as int)[0] == path@[k as int]);
            assert(path@.skip(k as int).drop_first() =~= path@.skip(k + 1));
        }
        k += 1;
    }
    proof {
        if k == n {
            assert(path@.skip(k as int) =~= Seq::<char>::empty());
        }
        assert(trim_slashes(path@.skip(k as int)) == path@.skip(k as int));
    }
    let r = path.substring_char(k, n);
    proof {
        assert(r@ =~= path@.skip(k as int));
    }
    r
}

/// This process's view of the cluster: the registry cache it resolves
/// against, and, when this process registers itself, the lifecycle manager
/// of its own instance. All transport is the embedding program's: the
/// facade computes requests, URLs and decisions.
#[derive(Debug)]
pub struct EurekaClient {
    pub base_url: String,
    pub config: BaseConfig,
    pub registry: RegistryClient,
    pub instance: Option<InstanceClient>,
}

impl EurekaClient {
    /// Builds the client: derives the registry base URL from the
    /// configuration, advertises the instance under its application name as
    /// VIP and secure VIP, and sets up a lifecycle manager exactly when the
    /// configuration asks to register.
    pub fn new(config: BaseConfig) -> (r: EurekaClient)
        ensures
            r.base_url@ == spec_base_url(
                config.eureka.ssl,
                config.eureka.host@,
                config.eureka.port,
                config.eureka.service_path@,
            ),
            r.registry.client.base_url@ == r.base_url@,
            r.registry@.snapshot.len() == 0,
            !r.registry@.is_running,
            r.config == config,
            match r.instance {
                Some(ic) => config.eureka.register_with_eureka && ic.client.base_url@
                    == r.base_url@ && !ic.is_running && ic.state
                    == crate::instance::LifecycleState::NotRegistered && ic.config@ == (
                InstanceV {
                    vip_address: config.instance@.app,
                    secure_vip_address: config.instance@.app,
                    ..config.instance@
                }),
                None => !config.eureka.register_with_eureka,
            },
    {
        let mut base_url = String::new();
        if config.eureka.ssl {
            base_url.append("https");
            proof {
                assert(base_url@ =~= "https"@);
            }
        } else {
            base_url.append("http");
            proof {
                assert(base_url@ =~= "http"@);
            }
        }
        base_url.append("://");
        base_url.append(config.eureka.host.as_str());
        base_url.append(":");
        let port_str = crate::codec::u32_to_string(config.eureka.port as u32);
        base_url.append(port_str.as_str());
        base_url.append(config.eureka.service_path.as_str());
        let mut instance = config.instance.clone();
        instance.vip_address = instance.app.clone();
        instance.secure_vip_address = instance.vip_address.clone();
        let registry = RegistryClient::new(base_url.clone());
        let instance_client = if config.eureka.register_with_eureka {
            Some(InstanceClient::new(base_url.clone(), instance))
        } else {
            None
        };
        EurekaClient { base_url, config, registry, instance: instance_client }
    }

    /// Resolves an application to a `host:port` endpoint string: one UP
    /// instance is picked uniformly at random from the cache, and the
    /// TLS-preference setting picks its port; an unknown application, one
    /// with no UP instance, and one whose preferred port is disabled all
    /// collapse to the same empty outcome.
    pub fn find_app_address(&self, app_id: &str) -> (r: Option<String>)
        ensures
            match r {
                Some(s) => exists|rr: int|
                    0 <= rr && (#[trigger] spec_select(
                        self.registry@.snapshot,
                        encode_utf8(app_id@),
                        rr,
                    ) matches Some(iv) && endpoint_of(iv, self.config.eureka.ssl) == Some(s@)),
                None => exists|rr: int|
                    0 <= rr && match #[trigger] spec_select(
                        self.registry@.snapshot,
                        encode_utf8(app_id@),
                        rr,
                    ) {
                        Some(iv) => endpoint_of(iv, self.config.eureka.ssl) is None,
                        None => true,
                    },
            },
    {
        let draw: usize = rand::random::<usize>();
        match self.registry.select_up_instance(app_id, draw) {
            Some(inst) => {
                let ghost iv = inst@;
                let ssl = self.config.eureka.ssl;
                let enabled = if ssl {
                    inst.secure_port.enabled
                } else {
                    inst.port.enabled
                };
                let port = if ssl {
                    inst.secure_port.value
                } else {
                    inst.port.value
                };
                if !enabled {
                    proof {
                        assert(match spec_select(
                            self.registry@.snapshot,
                            encode_utf8(app_id@),
                            draw as int,
                        ) {
                            Some(iv2) => endpoint_of(iv2, self.config.eureka.ssl) is None,
                            None => true,
                        });
                    }
                    return None;
                }
                let ghost ip_chars = inst.ip_addr@;
                let mut s = inst.ip_addr;
                s.append(":");
                let port_str = crate::codec::u32_to_string(port as u32);
                s.append(port_str.as_str());
                proof {
                    vstd::utf8::encode_utf8_decode_utf8(ip_chars);
                    assert(endpoint_of(iv, ssl) == Some(s@));
                    assert(spec_select(self.registry@.snapshot, encode_utf8(app_id@), draw as int)
                        == Some(iv));
                }
                Some(s)
            },
            None => {
                proof {
                    assert(match spec_select(
                        self.registry@.snapshot,
                        encode_utf8(app_id@),
                        0,
                    ) {
                        Some(iv2) => endpoint_of(iv2, self.config.eureka.ssl) is None,
                        None => true,
                    });
                }
                None
            },
        }
    }

    /// Computes the URL a request to another application goes to: resolves
    /// the application as `find_app_address` does, then joins protocol,
    /// address and path. An application that cannot be resolved is the
    /// distinguished "could not find app" outcome.
    pub fn make_request_url(&self, app: &str, path: &str) -> (r: Result<String, EurekaError>)
        ensures
            match r {
                Ok(url) => exists|rr: int|
                    0 <= rr && (#[trigger] spec_select(
                        self.registry@.snapshot,
                        encode_utf8(app@),
                        rr,
                    ) matches Some(iv) && (if self.config.eureka.ssl {
                        iv.secure_port.enabled
                    } else {
                        iv.port.enabled
                    }) && url@ == spec_target_url(
                        self.config.eureka.ssl,
                        decode_utf8(iv.ip_addr),
                        if self.config.eureka.ssl {
                            iv.secure_port.value
                        } else {
                            iv.port.value
                        },
                        path@,
                    )),
                Err(e) => e matches EurekaError::UnexpectedState(m) && m@ == "Could not find app "@
                    + app@ && (exists|rr: int|
                    0 <= rr && match #[trigger] spec_select(
                        self.registry@.snapshot,
                        encode_utf8(app@),
                        rr,
                    ) {
                        Some(iv) => endpoint_of(iv, self.config.eureka.ssl) is None,
                        None => true,
                    }),
            },
    {
        let draw: usize = rand::random::<usize>();
        match self.registry.select_up_instance(app, draw) {
            Some(inst) => {
                let ghost iv = inst@;
                let ssl = self.config.eureka.ssl;
                let enabled = if ssl {
                    inst.secure_port.enabled
                } else {
                    inst.port.enabled
                };
                let port = if ssl {
                    inst.secure_port.value
                } else {
                    inst.port.value
                };
                if !enabled {
                    let mut m = <String as StringExecFns>::from_str("Could not find app ");
                    m.append(app);
                    proof {
                        assert(match spec_select(
                            self.registry@.snapshot,
                            encode_utf8(app@),
                            draw as int,
                        ) {
                            Some(iv2) => endpoint_of(iv2, self.config.eureka.ssl) is None,
                            None => true,
                        });
                    }
                    return Err(EurekaError::UnexpectedState(m));
                }
                let mut url = String::new();
                if ssl {
                    url.append("https");
                    proof {
                        assert(url@ =~= "https"@);
                    }
                } else {
                    url.append("http");
                    proof {
                        assert(url@ =~= "http"@);
                    }
                }
                url.append("://");
                url.append(inst.ip_addr.as_str());
                url.append(":");
                let port_str = crate::codec::u32_to_string(port as u32);
                url.append(port_str.as_str());
                url.append("/");
                let tail = trim_leading_slashes(path);
                url.append(tail);
                proof {
                    vstd::utf8::encode_utf8_decode_utf8(inst.ip_addr@);
                    assert(url@ == spec_target_url(
                        ssl,
                        decode_utf8(iv.ip_addr),
                        port,
                        path@,
                    ));
                    assert(spec_select(self.registry@.snapshot, encode_utf8(app@), draw as int)
                        == Some(iv));
                }
                Ok(url)
            },
            None => {
                let mut m = <String as StringExecFns>::from_str("Could not find app ");
                m.append(app);
                proof {
                    assert(match spec_select(self.registry@.snapshot, encode_utf8(app@), 0) {
                        Some(iv2) => endpoint_of(iv2, self.config.eureka.ssl) is None,
                        None => true,
                    });
                }
                Err(EurekaError::UnexpectedState(m))
            },
        }
    }
}

} // verus!
