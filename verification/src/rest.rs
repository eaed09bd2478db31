//! The wire client: for each of the registry's operations, building the
//! request to make and deciding what its outcome means.
//!
//! The client itself performs no transport. The embedding program takes an
//! `HttpRequest`, carries it over HTTP, and hands the result back as a
//! `Result<HttpResponse, String>` (a status code with body bytes, or the
//! description of a transport failure); the outcome functions here turn that
//! into the typed result of the operation. No operation retries: every
//! failure propagates to the caller.

use vstd::prelude::*;
use vstd::string::{StringExecFns, StringSliceAdditionalSpecFns};
use vstd::utf8::encode_utf8;

use crate::codec::{ascii_chars, path_encoded, path_segment_encode, query_encode, query_encoded};
use crate::serial::{
    applications_from_bytes, application_from_bytes, instance_from_bytes, ser_instance,
    spec_applications_doc, spec_application_doc, spec_instance_doc,
};
use crate::structures::{Application, ApplicationV, Applications, Instance, InstanceV, StatusType};
use crate::EurekaError;

verus! {

/// The HTTP method of a request.
#[derive(Copy, Clone, Eq, PartialEq, Structural, Debug)]
pub enum HttpMethod {
    Get,
    Post,
    Put,
    Delete,
}

/// The `Accept` header a request carries, where one matters.
#[derive(Copy, Clone, Eq, PartialEq, Structural, Debug)]
pub enum AcceptKind {
    Unset,
    Xml,
    Json,
}

/// One request for the transport to carry: method, full URL, optional body
/// (always the XML wire format when present), and the `Accept` header.
#[derive(Debug)]
pub struct HttpRequest {
    pub method: HttpMethod,
    pub url: String,
    pub body: Option<Vec<u8>>,
    pub accept: AcceptKind,
}

/// What the transport saw when a request did reach the server.
#[derive(Debug)]
pub struct HttpResponse {
    pub status: u16,
    pub body: Vec<u8>,
}

/// A path segment as it stands inside a URL: percent-encoded, one character
/// per encoded byte.
pub open spec fn enc_path(s: Seq<char>) -> Seq<char> {
    ascii_chars(path_encoded(encode_utf8(s)))
}

/// A query value as it stands inside a URL.
pub open spec fn enc_query(s: Seq<char>) -> Seq<char> {
    ascii_chars(query_encoded(encode_utf8(s)))
}

/// The listing URL: `{base}/apps`.
pub open spec fn spec_apps_url(base: Seq<char>) -> Seq<char> {
    base + "/apps"@
}

/// An application's URL: `{base}/apps/{app}`.
pub open spec fn spec_app_url(base: Seq<char>, app: Seq<char>) -> Seq<char> {
    base + "/apps/"@ + enc_path(app)
}

/// An instance's URL: `{base}/apps/{app}/{instanceId}`.
pub open spec fn spec_instance_url(base: Seq<char>, app: Seq<char>, id: Seq<char>) -> Seq<char> {
    base + "/apps/"@ + enc_path(app) + "/"@ + enc_path(id)
}

/// The status-update URL: `{base}/apps/{app}/{instanceId}/status?value={STATUS}`.
pub open spec fn spec_status_url(
    base: Seq<char>,
    app: Seq<char>,
    id: Seq<char>,
    status: StatusType,
) -> Seq<char> {
    base + "/apps/"@ + enc_path(app) + "/"@ + enc_path(id) + "/status?value="@
        + status.spec_token()
}

/// The metadata-update URL: `{base}/apps/{app}/{instanceId}/metadata?{key}={value}`.
pub open spec fn spec_metadata_url(
    base: Seq<char>,
    app: Seq<char>,
    id: Seq<char>,
    key: Seq<char>,
    value: Seq<char>,
) -> Seq<char> {
    base + "/apps/"@ + enc_path(app) + "/"@ + enc_path(id) + "/metadata?"@ + enc_query(key)
        + "="@ + enc_query(value)
}

/// A VIP lookup URL: `{base}/vips/{vip}`.
pub open spec fn spec_vip_url(base: Seq<char>, vip: Seq<char>) -> Seq<char> {
    base + "/vips/"@ + enc_path(vip)
}

/// A secure-VIP lookup URL: `{base}/svips/{svip}`.
pub open spec fn spec_svip_url(base: Seq<char>, svip: Seq<char>) -> Seq<char> {
    base + "/svips/"@ + enc_path(svip)
}

/// The wire client: it remembers the registry's base URL and builds each
/// operation's request from it.
#[derive(Debug)]
pub struct EurekaRestClient {
    pub base_url: String,
}

impl EurekaRestClient {
    pub fn new(base_url: String) -> (r: EurekaRestClient)
        ensures
            r.base_url == base_url,
    {
        EurekaRestClient { base_url }
    }

    /// The register request: a POST of the instance document to the
    /// application's URL.
    pub fn register_request(&self, app_id: &str, data: &Instance) -> (r: HttpRequest)
        ensures
            r.method == HttpMethod::Post,
            r.url@ == spec_app_url(self.base_url@, app_id@),
            r.body matches Some(b) && b@ == ser_instance(data@),
            r.accept == AcceptKind::Unset,
    {
        let mut url = self.base_url.clone();
        url.append("/apps/");
        let enc = path_segment_encode(app_id);
        url.append(enc.as_str());
        HttpRequest {
            method: HttpMethod::Post,
            url,
            body: Some(data.to_xml_bytes()),
            accept: AcceptKind::Unset,
        }
    }

    /// The deregister request: a DELETE of the instance's URL.
    pub fn deregister_request(&self, app_id: &str, instance_id: &str) -> (r: HttpRequest)
        ensures
            r.method == HttpMethod::Delete,
            r.url@ == spec_instance_url(self.base_url@, app_id@, instance_id@),
            r.body is None,
            r.accept == AcceptKind::Unset,
    {
        let mut url = self.base_url.clone();
        url.append("/apps/");
        let enc = path_segment_encode(app_id);
        url.append(enc.as_str());
        url.append("/");
        let enc_id = path_segment_encode(instance_id);
        url.append(enc_id.as_str());
        HttpRequest { method: HttpMethod::Delete, url, body: None, accept: AcceptKind::Unset }
    }

    /// The heartbeat request: a PUT of the instance's URL.
    pub fn heartbeat_request(&self, app_id: &str, instance_id: &str) -> (r: HttpRequest)
        ensures
            r.method == HttpMethod::Put,
            r.url@ == spec_instance_url(self.base_url@, app_id@, instance_id@),
            r.body is None,
            r.accept == AcceptKind::Unset,
    {
        let mut url = self.base_url.clone();
        url.append("/apps/");
        let enc = path_segment_encode(app_id);
        url.append(enc.as_str());
        url.append("/");
        let enc_id = path_segment_encode(instance_id);
        url.append(enc_id.as_str());
        HttpRequest { method: HttpMethod::Put, url, body: None, accept: AcceptKind::Unset }
    }

    /// The fetch-all request: a GET of the listing URL, asking for XML.
    pub fn get_all_instances_request(&self) -> (r: HttpRequest)
        ensures
            r.method == HttpMethod::Get,
            r.url@ == spec_apps_url(self.base_url@),
            r.body is None,
            r.accept == AcceptKind::Xml,
    {
        let mut url = self.base_url.clone();
        url.append("/apps");
        HttpRequest { method: HttpMethod::Get, url, body: None, accept: AcceptKind::Xml }
    }

    /// The fetch-by-application request: a GET of the application's URL.
    pub fn get_instances_by_app_request(&self, app_id: &str) -> (r: HttpRequest)
        ensures
            r.method == HttpMethod::Get,
            r.url@ == spec_app_url(self.base_url@, app_id@),
            r.body is None,
            r.accept == AcceptKind::Xml,
    {
        let mut url = self.base_url.clone();
        url.append("/apps/");
        let enc = path_segment_encode(app_id);
        url.append(enc.as_str());
        HttpRequest { method: HttpMethod::Get, url, body: None, accept: AcceptKind::Xml }
    }

    /// The fetch-one request: a GET of the instance's URL.
    pub fn get_instance_by_app_and_instance_request(
        &self,
        app_id: &str,
        instance_id: &str,
    ) -> (r: HttpRequest)
        ensures
            r.method == HttpMethod::Get,
            r.url@ == spec_instance_url(self.base_url@, app_id@, instance_id@),
            r.body is None,
            r.accept == AcceptKind::Xml,
    {
        let mut url = self.base_url.clone();
        url.append("/apps/");
        let enc = path_segment_encode(app_id);
        url.append(enc.as_str());
        url.append("/");
        let enc_id = path_segment_encode(instance_id);
        url.append(enc_id.as_str());
        HttpRequest { method: HttpMethod::Get, url, body: None, accept: AcceptKind::Xml }
    }

    /// The status-update request: a PUT with the new status as a query value.
    pub fn update_status_request(
        &self,
        app_id: &str,
        instance_id: &str,
        new_status: StatusType,
    ) -> (r: HttpRequest)
        ensures
            r.method == HttpMethod::Put,
            r.url@ == spec_status_url(self.base_url@, app_id@, instance_id@, new_status),
            r.body is None,
            r.accept == AcceptKind::Unset,
    {
        let mut url = self.base_url.clone();
        url.append("/apps/");
        let enc = path_segment_encode(app_id);
        url.append(enc.as_str());
        url.append("/");
        let enc_id = path_segment_encode(instance_id);
        url.append(enc_id.as_str());
        url.append("/status?value=");
        url.append(new_status.token());
        HttpRequest { method: HttpMethod::Put, url, body: None, accept: AcceptKind::Unset }
    }

    /// The metadata-update request: a PUT with the key and value as a query
    /// pair, query-encoded.
    pub fn update_metadata_request(
        &self,
        app_id: &str,
        instance_id: &str,
        key: &str,
        value: &str,
    ) -> (r: HttpRequest)
        ensures
            r.method == HttpMethod::Put,
            r.url@ == spec_metadata_url(self.base_url@, app_id@, instance_id@, key@, value@),
            r.body is None,
            r.accept == AcceptKind::Unset,
    {
        let mut url = self.base_url.clone();
        url.append("/apps/");
        let enc = path_segment_encode(app_id);
        url.append(enc.as_str());
        url.append("/");
        let enc_id = path_segment_encode(instance_id);
        url.append(enc_id.as_str());
        url.append("/metadata?");
        let enc_key = query_encode(key);
        url.append(enc_key.as_str());
        url.append("=");
        let enc_value = query_encode(value);
        url.append(enc_value.as_str());
        HttpRequest { method: HttpMethod::Put, url, body: None, accept: AcceptKind::Unset }
    }

    /// The VIP lookup request, asking for XML.
    pub fn get_instances_by_vip_address_request(&self, vip_address: &str) -> (r: HttpRequest)
        ensures
            r.method == HttpMethod::Get,
            r.url@ == spec_vip_url(self.base_url@, vip_address@),
            r.body is None,
            r.accept == AcceptKind::Xml,
    {
        let mut url = self.base_url.clone();
        url.append("/vips/");
        let enc = path_segment_encode(vip_address);
        url.append(enc.as_str());
        HttpRequest { method: HttpMethod::Get, url, body: None, accept: AcceptKind::Xml }
    }

    /// The secure-VIP lookup request; this one asks for JSON, as the
    /// registry's API has it.
    pub fn get_instances_by_svip_address_request(&self, svip_address: &str) -> (r: HttpRequest)
        ensures
            r.method == HttpMethod::Get,
            r.url@ == spec_svip_url(self.base_url@, svip_address@),
            r.body is None,
            r.accept == AcceptKind::Json,
    {
        let mut url = self.base_url.clone();
        url.append("/svips/");
        let enc = path_segment_encode(svip_address);
        url.append(enc.as_str());
        HttpRequest { method: HttpMethod::Get, url, body: None, accept: AcceptKind::Json }
    }
}

// --- deciding what an outcome means ---

/// The outcome of a write operation that succeeds on exactly one status
/// code: success there, `Request` on any other status, `Network` on a
/// transport failure.
pub fn write_outcome(resp: Result<HttpResponse, String>, success: u16) -> (r: Result<
    (),
    EurekaError,
>)
    ensures
        match resp {
            Ok(h) => if h.status == success {
                r is Ok
            } else {
                r == Err::<(), EurekaError>(EurekaError::Request(h.status))
            },
            Err(e) => r == Err::<(), EurekaError>(EurekaError::Network(e)),
        },
{
    match resp {
        Ok(h) => {
            if h.status == success {
                Ok(())
            } else {
                Err(EurekaError::Request(h.status))
            }
        },
        Err(e) => Err(EurekaError::Network(e)),
    }
}

/// The outcome of a heartbeat: renewed on 200; on 404 the distinguished
/// "the registry has forgotten this instance", which callers branch on to
/// re-register; any other status a generic request error.
pub fn heartbeat_outcome(resp: Result<HttpResponse, String>) -> (r: Result<(), EurekaError>)
    ensures
        match resp {
            Ok(h) => if h.status == 200 {
                r is Ok
            } else if h.status == 404 {
                r matches Err(EurekaError::UnexpectedState(m)) && m@ == "Instance does not exist"@
            } else {
                r == Err::<(), EurekaError>(EurekaError::Request(h.status))
            },
            Err(e) => r == Err::<(), EurekaError>(EurekaError::Network(e)),
        },
{
    match resp {
        Ok(h) => {
            if h.status == 200 {
                Ok(())
            } else if h.status == 404 {
                Err(
                    EurekaError::UnexpectedState(
                        <String as StringExecFns>::from_str("Instance does not exist"),
                    ),
                )
            } else {
                Err(EurekaError::Request(h.status))
            }
        },
        Err(e) => Err(EurekaError::Network(e)),
    }
}

/// All instances of a parsed listing, in document order.
pub open spec fn flat_instances(apps: Seq<ApplicationV>) -> Seq<InstanceV>
    decreases apps.len(),
{
    if apps.len() == 0 {
        Seq::empty()
    } else {
        flat_instances(apps.drop_last()) + apps.last().instances
    }
}

fn flatten_applications(apps: &Applications) -> (r: Vec<Instance>)
    ensures
        r@.map_values(|x: Instance| x@) == flat_instances(apps@.applications),
{
    let ghost av = apps@.applications;
    let mut out: Vec<Instance> = Vec::new();
    let mut i: usize = 0;
    proof {
        assert(out@.map_values(|x: Instance| x@) =~= flat_instances(av.take(0)));
    }
    while i < apps.applications.len()
        invariant
            av == apps@.applications,
            av.len() == apps.applications@.len(),
            i <= apps.applications@.len(),
            out@.map_values(|x: Instance| x@) == flat_instances(av.take(i as int)),
        decreases apps.applications@.len() - i,
    {
        proof {
            assert(av.take(i + 1).drop_last() =~= av.take(i as int));
            assert(av.take(i + 1).last() == av[i as int]);
            assert(av[i as int] == apps.applications@[i as int]@);
        }
        let app = &apps.applications[i];
        let ghost iv = app@.instances;
        let mut j: usize = 0;
        while j < app.instances.len()
            invariant
                iv == app@.instances,
                iv.len() == app.instances@.len(),
                j <= app.instances@.len(),
                out@.map_values(|x: Instance| x@) == flat_instances(av.take(i as int)) + iv.take(
                    j as int,
                ),
            decreases app.instances@.len() - j,
        {
            proof {
                assert(iv[j as int] == app.instances@[j as int]@);
            }
            let inst_clone = app.instances[j].clone();
            let ghost cv = inst_clone@;
            out.push(inst_clone);
            proof {
                assert(out@.map_values(|x: Instance| x@) =~= (flat_instances(av.take(i as int))
                    + iv.take(j as int)).push(cv));
                assert((flat_instances(av.take(i as int)) + iv.take(j as int)).push(cv)
                    =~= flat_instances(av.take(i as int)) + iv.take(j + 1));
            }
            j += 1;
        }
        proof {
            assert(iv.take(iv.len() as int) =~= iv);
        }
        i += 1;
    }
    proof {
        assert(av.take(av.len() as int) =~= av);
    }
    out
}

/// The outcome of a fetch that returns a whole listing (fetch-all and the
/// VIP lookups): on 200, the parsed instances in document order; a body that
/// does not parse is the distinguished parse error; any other status a
/// request error; a transport failure a network error.
pub fn instances_outcome(resp: Result<HttpResponse, String>) -> (r: Result<
    Vec<Instance>,
    EurekaError,
>)
    ensures
        match resp {
            Ok(h) => if h.status == 200 {
                match spec_applications_doc(h.body@) {
                    Some(a) => r matches Ok(v) && v@.map_values(|x: Instance| x@)
                        == flat_instances(a.applications),
                    None => r matches Err(e) && e is ParseError,
                }
            } else {
                r == Err::<Vec<Instance>, EurekaError>(EurekaError::Request(h.status))
            },
            Err(e) => r == Err::<Vec<Instance>, EurekaError>(EurekaError::Network(e)),
        },
{
    match resp {
        Ok(h) => {
            if h.status == 200 {
                match applications_from_bytes(h.body.as_slice()) {
                    Ok(apps) => Ok(flatten_applications(&apps)),
                    Err(e) => Err(e),
                }
            } else {
                Err(EurekaError::Request(h.status))
            }
        },
        Err(e) => Err(EurekaError::Network(e)),
    }
}

/// The outcome of a fetch of one application: on 200, its instances.
pub fn app_instances_outcome(resp: Result<HttpResponse, String>) -> (r: Result<
    Vec<Instance>,
    EurekaError,
>)
    ensures
        match resp {
            Ok(h) => if h.status == 200 {
                match spec_application_doc(h.body@) {
                    Some(a) => r matches Ok(v) && v@.map_values(|x: Instance| x@) == a.instances,
                    None => r matches Err(e) && e is ParseError,
                }
            } else {
                r == Err::<Vec<Instance>, EurekaError>(EurekaError::Request(h.status))
            },
            Err(e) => r == Err::<Vec<Instance>, EurekaError>(EurekaError::Network(e)),
        },
{
    match resp {
        Ok(h) => {
            if h.status == 200 {
                match application_from_bytes(h.body.as_slice()) {
                    Ok(app) => Ok(app.instances),
                    Err(e) => Err(e),
                }
            } else {
                Err(EurekaError::Request(h.status))
            }
        },
        Err(e) => Err(EurekaError::Network(e)),
    }
}

/// The outcome of a fetch of one instance: on 200, the parsed instance.
pub fn instance_outcome(resp: Result<HttpResponse, String>) -> (r: Result<Instance, EurekaError>)
    ensures
        match resp {
            Ok(h) => if h.status == 200 {
                match spec_instance_doc(h.body@) {
                    Some(iv) => r matches Ok(inst) && inst@ == iv,
                    None => r matches Err(e) && e is ParseError,
                }
            } else {
                r == Err::<Instance, EurekaError>(EurekaError::Request(h.status))
            },
            Err(e) => r == Err::<Instance, EurekaError>(EurekaError::Network(e)),
        },
{
    match resp {
        Ok(h) => {
            if h.status == 200 {
                instance_from_bytes(h.body.as_slice())
            } else {
                Err(EurekaError::Request(h.status))
            }
        },
        Err(e) => Err(EurekaError::Network(e)),
    }
}

} // verus!
