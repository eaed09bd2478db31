//! The registry cache: a point-in-time snapshot of every registered
//! instance, grouped by application name, and health-aware random selection
//! over it.
//!
//! The snapshot is replaced as a whole on each successful refresh and left
//! untouched by a failed one, so readers always see one consistent listing,
//! stale at worst. Resolution filters an application's instances to those
//! that are up and picks one of them by a fresh random draw, uniformly: the
//! draw selects by residue, so equal residues give equal picks and every UP
//! instance is the pick of some draw.

use vstd::prelude::*;
use vstd::string::StringExecFns;
use vstd::utf8::encode_utf8;

use crate::codec::bytes_eq;
use crate::rest::EurekaRestClient;
use crate::structures::{Instance, InstanceV, StatusType, string_bytes};
use crate::EurekaError;

verus! {

/// Relies on `rand::random`: a fresh draw from the thread-local generator;
/// nothing can be promised of its value.
pub assume_specification<T>[ rand::random::<T> ]() -> (r: T)
    where
        rand::distributions::Standard: rand::distributions::Distribution<T>,
;

/// The views of a sequence of instances.
pub open spec fn instances_view(s: Seq<Instance>) -> Seq<InstanceV> {
    s.map_values(|x: Instance| x@)
}

/// The view of a snapshot: each group's name as bytes with its instances'
/// views.
pub open spec fn snapshot_view(v: Seq<(String, Vec<Instance>)>) -> Seq<(Seq<u8>, Seq<InstanceV>)> {
    v.map_values(
        |e: (String, Vec<Instance>)| (string_bytes(e.0), e.1@.map_values(|x: Instance| x@)),
    )
}

/// The distinct application names of a listing, in order of first
/// appearance.
pub open spec fn group_keys(s: Seq<InstanceV>) -> Seq<Seq<u8>>
    decreases s.len(),
{
    if s.len() == 0 {
        Seq::empty()
    } else {
        let prev = group_keys(s.drop_last());
        if prev.contains(s.last().app) {
            prev
        } else {
            prev.push(s.last().app)
        }
    }
}

/// The instances of one application, in the order the listing has them.
pub open spec fn group_of(s: Seq<InstanceV>, k: Seq<u8>) -> Seq<InstanceV>
    decreases s.len(),
{
    if s.len() == 0 {
        Seq::empty()
    } else {
        let rest = group_of(s.drop_last(), k);
        if s.last().app == k {
            rest.push(s.last())
        } else {
            rest
        }
    }
}

/// Stable grouping of a listing by application name: one group per distinct
/// name in order of first appearance, each holding that application's
/// instances in listing order.
pub open spec fn spec_group(s: Seq<InstanceV>) -> Seq<(Seq<u8>, Seq<InstanceV>)> {
    group_keys(s).map_values(|k: Seq<u8>| (k, group_of(s, k)))
}

/// The view of the names of collected keys.
pub open spec fn keys_view(ks: Seq<String>) -> Seq<Seq<u8>> {
    ks.map_values(|s: String| string_bytes(s))
}

fn contains_key(keys: &Vec<String>, app: &String) -> (r: bool)
    ensures
        r == keys_view(keys@).contains(string_bytes(*app)),
{
    let mut i: usize = 0;
    while i < keys.len()
        invariant
            i <= keys@.len(),
            forall|j: int| 0 <= j < i ==> keys_view(keys@)[j] != string_bytes(*app),
        decreases keys@.len() - i,
    {
        if bytes_eq(keys[i].as_str().as_bytes(), app.as_str().as_bytes()) {
            proof {
                assert(keys_view(keys@)[i as int] == string_bytes(*app));
            }
            return true;
        }
        i += 1;
    }
    proof {
        assert(forall|j: int| 0 <= j < keys_view(keys@).len() ==> keys_view(keys@)[j]
            != string_bytes(*app));
    }
    false
}

/// Groups a listing of instances by application name, stably: group order
/// follows first appearance, instance order within a group follows the
/// listing.
pub fn group_instances_by_app(instances: Vec<Instance>) -> (r: Vec<(String, Vec<Instance>)>)
    ensures
        snapshot_view(r@) == spec_group(instances_view(instances@)),
{
    let ghost sv = instances_view(instances@);
    let mut keys: Vec<String> = Vec::new();
    let mut i: usize = 0;
    proof {
        assert(sv.take(0) =~= Seq::<InstanceV>::empty());
        assert(keys_view(keys@) =~= group_keys(sv.take(0)));
    }
    while i < instances.len()
        invariant
            sv == instances_view(instances@),
            sv.len() == instances@.len(),
            i <= instances@.len(),
            keys_view(keys@) == group_keys(sv.take(i as int)),
        decreases instances@.len() - i,
    {
        proof {
            assert(sv.take(i + 1).drop_last() =~= sv.take(i as int));
            assert(sv.take(i + 1).last() == sv[i as int]);
            assert(sv[i as int] == instances@[i as int]@);
        }
        if !contains_key(&keys, &instances[i].app) {
            let ghost pre = keys_view(keys@);
            keys.push(instances[i].app.clone());
            proof {
                assert(keys_view(keys@) =~= pre.push(sv[i as int].app));
            }
        }
        i += 1;
    }
    proof {
        assert(sv.take(sv.len() as int) =~= sv);
    }
    let ghost kv = group_keys(sv);
    let mut out: Vec<(String, Vec<Instance>)> = Vec::new();
    let mut ki: usize = 0;
    proof {
        assert(snapshot_view(out@) =~= spec_group(sv).take(0));
    }
    while ki < keys.len()
        invariant
            sv == instances_view(instances@),
            sv.len() == instances@.len(),
            kv == group_keys(sv),
            keys_view(keys@) == kv,
            keys@.len() == kv.len(),
            ki <= keys@.len(),
            snapshot_view(out@) == spec_group(sv).take(ki as int),
        decreases keys@.len() - ki,
    {
        let ghost k = kv[ki as int];
        proof {
            assert(k == string_bytes(keys@[ki as int]));
        }
        let mut grp: Vec<Instance> = Vec::new();
        let mut j: usize = 0;
        proof {
            assert(sv.take(0) =~= Seq::<InstanceV>::empty());
            assert(grp@.map_values(|x: Instance| x@) =~= group_of(sv.take(0), k));
        }
        while j < instances.len()
            invariant
                sv == instances_view(instances@),
                sv.len() == instances@.len(),
                ki < keys@.len(),
                k == string_bytes(keys@[ki as int]),
                j <= instances@.len(),
                grp@.map_values(|x: Instance| x@) == group_of(sv.take(j as int), k),
            decreases instances@.len() - j,
        {
            proof {
                assert(sv.take(j + 1).drop_last() =~= sv.take(j as int));
                assert(sv.take(j + 1).last() == sv[j as int]);
                assert(sv[j as int] == instances@[j as int]@);
            }
            if bytes_eq(instances[j].app.as_str().as_bytes(), keys[ki].as_str().as_bytes()) {
                let inst_clone = instances[j].clone();
                let ghost cv = inst_clone@;
                grp.push(inst_clone);
                proof {
                    assert(grp@.map_values(|x: Instance| x@) =~= group_of(
                        sv.take(j as int),
                        k,
                    ).push(cv));
                }
            }
            j += 1;
        }
        proof {
            assert(sv.take(sv.len() as int) =~= sv);
        }
        let ghost pre_out = snapshot_view(out@);
        let key_clone = keys[ki].clone();
        out.push((key_clone, grp));
        proof {
            assert(snapshot_view(out@) =~= pre_out.push((k, group_of(sv, k))));
            assert(snapshot_view(out@) =~= spec_group(sv).take(ki + 1));
        }
        ki += 1;
    }
    proof {
        assert(spec_group(sv).take(spec_group(sv).len() as int) =~= spec_group(sv));
    }
    out
}

// --- lookup and selection over a snapshot ---

/// The instance list stored under an application name: the first group with
/// that name (grouping never makes two).
pub open spec fn lookup(snap: Seq<(Seq<u8>, Seq<InstanceV>)>, app: Seq<u8>) -> Option<
    Seq<InstanceV>,
>
    decreases snap.len(),
{
    if snap.len() == 0 {
        None
    } else if snap[0].0 == app {
        Some(snap[0].1)
    } else {
        lookup(snap.drop_first(), app)
    }
}

/// The instances of a list whose status is up, in order.
pub open spec fn up_instances(list: Seq<InstanceV>) -> Seq<InstanceV>
    decreases list.len(),
{
    if list.len() == 0 {
        Seq::empty()
    } else {
        let rest = up_instances(list.drop_last());
        if list.last().status == StatusType::Up {
            rest.push(list.last())
        } else {
            rest
        }
    }
}

/// What resolving an application against a snapshot with the draw `r`
/// yields: nothing when the application is unknown or none of its instances
/// is up, else the UP instance picked by the draw's residue.
pub open spec fn spec_select(
    snap: Seq<(Seq<u8>, Seq<InstanceV>)>,
    app: Seq<u8>,
    r: int,
) -> Option<InstanceV> {
    match lookup(snap, app) {
        None => None,
        Some(list) => {
            let ups = up_instances(list);
            if ups.len() == 0 {
                None
            } else {
                Some(ups[r % (ups.len() as int)])
            }
        },
    }
}

proof fn lemma_lookup_found(snap: Seq<(Seq<u8>, Seq<InstanceV>)>, app: Seq<u8>, i: int)
    requires
        0 <= i < snap.len(),
        snap[i].0 == app,
        forall|j: int| 0 <= j < i ==> snap[j].0 != app,
    ensures
        lookup(snap, app) == Some(snap[i].1),
    decreases i,
{
    if i > 0 {
        assert(snap.drop_first()[i - 1] == snap[i]);
        lemma_lookup_found(snap.drop_first(), app, i - 1);
    }
}

proof fn lemma_lookup_missing(snap: Seq<(Seq<u8>, Seq<InstanceV>)>, app: Seq<u8>)
    requires
        forall|j: int| 0 <= j < snap.len() ==> snap[j].0 != app,
    ensures
        lookup(snap, app) is None,
    decreases snap.len(),
{
    if snap.len() > 0 {
        lemma_lookup_missing(snap.drop_first(), app);
    }
}

/// Everything `up_instances` keeps is up.
pub proof fn lemma_up_instances_only_up(list: Seq<InstanceV>, i: int)
    requires
        0 <= i < up_instances(list).len(),
    ensures
        up_instances(list)[i].status == StatusType::Up,
    decreases list.len(),
{
    if list.len() > 0 {
        let rest = up_instances(list.drop_last());
        if i < rest.len() {
            lemma_up_instances_only_up(list.drop_last(), i);
        }
    }
}

/// Resolution never yields an instance that is not up, whatever the draw.
pub proof fn lemma_resolve_only_up(
    snap: Seq<(Seq<u8>, Seq<InstanceV>)>,
    app: Seq<u8>,
    r: int,
)
    ensures
        match spec_select(snap, app, r) {
            Some(iv) => iv.status == StatusType::Up,
            None => true,
        },
{
    match lookup(snap, app) {
        None => {},
        Some(list) => {
            let ups = up_instances(list);
            if ups.len() > 0 {
                lemma_up_instances_only_up(list, r % (ups.len() as int));
            }
        },
    }
}

/// Resolution is uniform over the UP instances: every UP instance is the
/// pick of the draw equal to its position, so each one is picked by the same
/// share of draws.
pub proof fn lemma_resolve_covers(snap: Seq<(Seq<u8>, Seq<InstanceV>)>, app: Seq<u8>, k: int)
    requires
        lookup(snap, app) matches Some(list) && 0 <= k < up_instances(list).len(),
    ensures
        lookup(snap, app) matches Some(list) && spec_select(snap, app, k) == Some(
            up_instances(list)[k],
        ),
{
    let list = lookup(snap, app)->Some_0;
    let ups = up_instances(list);
    vstd::arithmetic::div_mod::lemma_small_mod(k as nat, ups.len());
    assert(k % (ups.len() as int) == k);
}

/// Draws with equal residue pick the same instance: the draw enters the
/// selection only through its residue among the UP instances.
pub proof fn lemma_resolve_residue(
    snap: Seq<(Seq<u8>, Seq<InstanceV>)>,
    app: Seq<u8>,
    r1: int,
    r2: int,
)
    requires
        lookup(snap, app) matches Some(list) && up_instances(list).len() > 0 && r1 % (
        up_instances(list).len() as int) == r2 % (up_instances(list).len() as int),
    ensures
        spec_select(snap, app, r1) == spec_select(snap, app, r2),
{
}

/// The view of a registry client: its snapshot and whether its background
/// refresh loop should keep running.
pub struct RegistryV {
    pub snapshot: Seq<(Seq<u8>, Seq<InstanceV>)>,
    pub is_running: bool,
}

/// The registry cache itself: the wire client it builds fetch requests
/// with, the snapshot, and the running flag of the refresh loop.
#[derive(Debug)]
pub struct RegistryClient {
    pub client: EurekaRestClient,
    pub app_cache: Vec<(String, Vec<Instance>)>,
    pub is_running: bool,
}

impl View for RegistryClient {
    type V = RegistryV;

    open spec fn view(&self) -> RegistryV {
        RegistryV { snapshot: snapshot_view(self.app_cache@), is_running: self.is_running }
    }
}

impl RegistryClient {
    /// A fresh cache for the given registry: empty snapshot, not running.
    pub fn new(base_url: String) -> (r: RegistryClient)
        ensures
            r.client.base_url == base_url,
            r@.snapshot.len() == 0,
            !r@.is_running,
    {
        let r = RegistryClient {
            client: EurekaRestClient::new(base_url),
            app_cache: Vec::new(),
            is_running: false,
        };
        proof {
            assert(snapshot_view(r.app_cache@) =~= Seq::<(Seq<u8>, Seq<InstanceV>)>::empty());
        }
        r
    }

    /// One refresh from the outcome of a fetch-all: a successful fetch
    /// replaces the snapshot as a whole with the stable grouping of what was
    /// fetched; a failed one changes nothing at all and reports why, so the
    /// cache keeps serving the last good snapshot.
    pub fn update_app_cache(&mut self, fetched: Result<Vec<Instance>, EurekaError>) -> (r: Result<
        (),
        String,
    >)
        ensures
            final(self)@.is_running == old(self)@.is_running,
            final(self).client == old(self).client,
            match fetched {
                Ok(instances) => final(self)@.snapshot == spec_group(instances_view(instances@))
                    && r is Ok,
                Err(e) => final(self)@.snapshot == old(self)@.snapshot && (r matches Err(m) && m@
                    == "Failed to fetch registry: "@ + e.describe_spec()),
            },
    {
        match fetched {
            Ok(instances) => {
                self.app_cache = group_instances_by_app(instances);
                Ok(())
            },
            Err(e) => {
                let mut m = <String as StringExecFns>::from_str("Failed to fetch registry: ");
                let d = e.describe();
                m.append(d.as_str());
                Err(m)
            },
        }
    }

    /// Starting the cache: marks the refresh loop as running and applies the
    /// first, synchronous refresh. Errors of that refresh are reported, not
    /// fatal.
    pub fn start(&mut self, first_fetch: Result<Vec<Instance>, EurekaError>) -> (r: Result<
        (),
        String,
    >)
        ensures
            final(self)@.is_running,
            final(self).client == old(self).client,
            match first_fetch {
                Ok(instances) => final(self)@.snapshot == spec_group(instances_view(instances@))
                    && r is Ok,
                Err(_) => final(self)@.snapshot == old(self)@.snapshot && r is Err,
            },
    {
        self.is_running = true;
        self.update_app_cache(first_fetch)
    }

    /// Whether the background refresh loop should keep running.
    pub fn should_run(&self) -> (r: bool)
        ensures
            r == self@.is_running,
    {
        self.is_running
    }

    /// Stopping the cache: the refresh loop's sole cancellation signal. The
    /// snapshot stays as it is.
    pub fn stop(&mut self)
        ensures
            !final(self)@.is_running,
            final(self)@.snapshot == old(self)@.snapshot,
            final(self).client == old(self).client,
    {
        self.is_running = false;
    }

    /// Resolution with an explicit draw: the UP instance of `app` that the
    /// draw's residue picks, as a copy, or nothing when the application is
    /// unknown or has no UP instance.
    pub fn select_up_instance(&self, app: &str, r: usize) -> (res: Option<Instance>)
        ensures
            match res {
                Some(inst) => spec_select(self@.snapshot, encode_utf8(app@), r as int) == Some(
                    inst@,
                ),
                None => spec_select(self@.snapshot, encode_utf8(app@), r as int) is None,
            },
    {
        let ghost snap = self@.snapshot;
        let ghost appb = encode_utf8(app@);
        let mut i: usize = 0;
        while i < self.app_cache.len()
            invariant
                snap == snapshot_view(self.app_cache@),
                snap.len() == self.app_cache@.len(),
                appb == encode_utf8(app@),
                i <= self.app_cache@.len(),
                forall|j: int| 0 <= j < i ==> snap[j].0 != appb,
            decreases self.app_cache@.len() - i,
        {
            proof {
                assert(snap[i as int] == (
                    string_bytes(self.app_cache@[i as int].0),
                    self.app_cache@[i as int].1@.map_values(|x: Instance| x@),
                ));
            }
            if bytes_eq(self.app_cache[i].0.as_str().as_bytes(), app.as_bytes()) {
                proof {
                    lemma_lookup_found(snap, appb, i as int);
                }
                let list = &self.app_cache[i].1;
                let ghost lv = snap[i as int].1;
                let mut ups: Vec<Instance> = Vec::new();
                let mut j: usize = 0;
                proof {
                    assert(lv.take(0) =~= Seq::<InstanceV>::empty());
                    assert(ups@.map_values(|x: Instance| x@) =~= up_instances(lv.take(0)));
                }
                while j < list.len()
                    invariant
                        lv == snap[i as int].1,
                        i < self.app_cache@.len(),
                        snap == snapshot_view(self.app_cache@),
                        lv == self.app_cache@[i as int].1@.map_values(|x: Instance| x@),
                        lv.len() == list@.len(),
                        list == &self.app_cache@[i as int].1,
                        j <= list@.len(),
                        ups@.map_values(|x: Instance| x@) == up_instances(lv.take(j as int)),
                    decreases list@.len() - j,
                {
                    proof {
                        assert(lv.take(j + 1).drop_last() =~= lv.take(j as int));
                        assert(lv.take(j + 1).last() == lv[j as int]);
                        assert(lv[j as int] == list@[j as int]@);
                    }
                    if list[j].status == StatusType::Up {
                        let inst_clone = list[j].clone();
                        let ghost cv = inst_clone@;
                        ups.push(inst_clone);
                        proof {
                            assert(ups@.map_values(|x: Instance| x@) =~= up_instances(
                                lv.take(j as int),
                            ).push(cv));
                        }
                    }
                    j += 1;
                }
                proof {
                    assert(lv.take(lv.len() as int) =~= lv);
                }
                if ups.len() == 0 {
                    return None;
                }
                let idx = r % ups.len();
                let picked = ups[idx].clone();
                proof {
                    assert(picked@ == up_instances(lv)[idx as int]);
                }
                return Some(picked);
            }
            i += 1;
        }
        proof {
            lemma_lookup_missing(snap, appb);
        }
        None
    }

    /// Resolves an application name to one healthy instance: a fresh random
    /// draw picks uniformly among the application's UP instances; an unknown
    /// application or one with no UP instance yields nothing. The returned
    /// instance is a copy: mutating it cannot touch the cache.
    pub fn get_instance_by_app_name(&self, app: &str) -> (res: Option<Instance>)
        ensures
            match res {
                Some(inst) => inst@.status == StatusType::Up && (exists|rr: int|
                    0 <= rr && spec_select(self@.snapshot, encode_utf8(app@), rr) == Some(inst@)),
                None => spec_select(self@.snapshot, encode_utf8(app@), 0) is None,
            },
    {
        let draw: usize = rand::random::<usize>();
        let res = self.select_up_instance(app, draw);
        proof {
            match &res {
                Some(inst) => {
                    lemma_resolve_only_up(self@.snapshot, encode_utf8(app@), draw as int);
                    assert(spec_select(self@.snapshot, encode_utf8(app@), draw as int) == Some(
                        inst@,
                    ));
                },
                None => {},
            }
        }
        res
    }
}

} // verus!
