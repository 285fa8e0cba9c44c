//! HTTP clients that the whole process shares: built once per kind, dropped
//! together when the upstream proxy changes.

use vstd::prelude::*;

use crate::proxy_url::{configured_proxy, enabled_proxy, UpstreamProxyConfig};
use crate::text::opt_str_text;

verus! {

/// What tells shared clients apart: the length of the timeout, and whether the
/// client looks like a browser on the wire.
#[derive(Debug, Clone, Copy, PartialEq, Eq, Hash, Structural)]
pub struct ClientKey {
    pub timeout_secs: u64,
    pub emulated: bool,
}

impl ClientKey {
    /// The key of the clients with this timeout and this look.
    pub fn new(timeout_secs: u64, emulated: bool) -> (r: Self)
        ensures
            r == (ClientKey { timeout_secs, emulated }),
    {
        ClientKey { timeout_secs, emulated }
    }
}

/// The clients as a map; of two entries with one key the later would count.
pub open spec fn entries_map<C>(s: Seq<(ClientKey, C)>) -> Map<ClientKey, C>
    decreases s.len(),
{
    if s.len() == 0 {
        Map::empty()
    } else {
        entries_map(s.drop_last()).insert(s.last().0, s.last().1)
    }
}

/// No key stands twice.
pub open spec fn keys_differ<C>(s: Seq<(ClientKey, C)>) -> bool {
    forall|i: int, j: int| 0 <= i < j < s.len() ==> (#[trigger] s[i]).0 != (#[trigger] s[j]).0
}

proof fn lemma_entries<C>(s: Seq<(ClientKey, C)>)
    requires
        keys_differ(s),
    ensures
        forall|i: int|
            0 <= i < s.len() ==> entries_map(s).contains_key((#[trigger] s[i]).0) && entries_map(
                s,
            )[s[i].0] == s[i].1,
        forall|k: ClientKey| #[trigger]
            entries_map(s).contains_key(k) ==> exists|i: int|
                0 <= i < s.len() && (#[trigger] s[i]).0 == k,
        entries_map(s).dom().finite(),
        entries_map(s).dom().len() == s.len(),
    decreases s.len(),
{
    if s.len() > 0 {
        let t = s.drop_last();
        lemma_entries(t);
        let last = s.last();
        assert(!entries_map(t).contains_key(last.0)) by {
            if entries_map(t).contains_key(last.0) {
                let i = choose|i: int| 0 <= i < t.len() && (#[trigger] t[i]).0 == last.0;
                assert(s[i] == t[i] && s[s.len() - 1] == last);
            }
        }
        assert forall|i: int| 0 <= i < s.len() implies entries_map(s).contains_key(
            (#[trigger] s[i]).0,
        ) && entries_map(s)[s[i].0] == s[i].1 by {
            if i < t.len() {
                assert(s[i] == t[i]);
            }
        }
        assert forall|k: ClientKey| #[trigger] entries_map(s).contains_key(k) implies exists|i: int|
            0 <= i < s.len() && (#[trigger] s[i]).0 == k by {
            if k != last.0 {
                let i = choose|i: int| 0 <= i < t.len() && (#[trigger] t[i]).0 == k;
                assert(s[i] == t[i]);
            } else {
                assert(s[s.len() - 1].0 == k);
            }
        }
        assert(entries_map(s).dom() =~= entries_map(t).dom().insert(last.0));
    }
}

/// The clients that were built and not dropped since, one per key.
pub struct SharedClients<C> {
    built: Vec<(ClientKey, C)>,
}

impl<C> View for SharedClients<C> {
    type V = Map<ClientKey, C>;

    closed spec fn view(&self) -> Map<ClientKey, C> {
        entries_map(self.built@)
    }
}

impl<C> SharedClients<C> {
    #[verifier::type_invariant]
    spec fn one_per_key(self) -> bool {
        keys_differ(self.built@)
    }

    /// No clients yet.
    pub fn new() -> (r: Self)
        ensures
            r@ == Map::<ClientKey, C>::empty(),
    {
        SharedClients { built: Vec::new() }
    }

    /// Where the client with this key stands; the number of clients where there is none.
    fn position(&self, key: ClientKey) -> (r: usize)
        ensures
            r <= self.built.len(),
            r < self.built.len() ==> self.built@[r as int].0 == key && self@.contains_key(key)
                && self@[key] == self.built@[r as int].1,
            r == self.built.len() ==> !self@.contains_key(key),
    {
        proof {
            use_type_invariant(&*self);
            lemma_entries(self.built@);
        }
        let mut i: usize = 0;
        while i < self.built.len()
            invariant
                i <= self.built.len(),
                forall|j: int| 0 <= j < i ==> (#[trigger] self.built@[j]).0 != key,
            decreases self.built.len() - i,
        {
            if self.built[i].0 == key {
                proof {
                    use_type_invariant(&*self);
                    lemma_entries(self.built@);
                }
                return i;
            }
            i = i + 1;
        }
        i
    }

    /// The client with this key, which `build` makes where there is none yet.
    pub fn get<F: FnOnce(ClientKey) -> C>(&mut self, key: ClientKey, build: F) -> (r: &C)
        requires
            call_requires(build, (key,)),
        ensures
            final(self)@.contains_key(key),
            *r == final(self)@[key],
            old(self)@.contains_key(key) ==> final(self)@ == old(self)@,
            !old(self)@.contains_key(key) ==> call_ensures(build, (key,), *r) && final(self)@
                == old(self)@.insert(key, *r),
    {
        let at: usize = self.position(key);
        if at == self.built.len() {
            let client = build(key);
            let ghost before = self.built@;
            proof {
                use_type_invariant(&*self);
                lemma_entries(before);
            }
            let mut built: Vec<(ClientKey, C)> = Vec::new();
            std::mem::swap(&mut built, &mut self.built);
            built.push((key, client));
            assert(built@.drop_last() =~= before);
            assert forall|i: int, j: int| 0 <= i < j < built@.len() implies (
            #[trigger] built@[i]).0 != (#[trigger] built@[j]).0 by {
                assert(before.contains(before[i]));
            }
            self.built = built;
        }
        &self.built[at].1
    }

    /// Drops all clients and says how many there were.
    pub fn clear(&mut self) -> (dropped: usize)
        ensures
            final(self)@ == Map::<ClientKey, C>::empty(),
            dropped == old(self)@.dom().len(),
    {
        proof {
            use_type_invariant(&*self);
            lemma_entries(self.built@);
        }
        let dropped: usize = self.built.len();
        self.built = Vec::new();
        dropped
    }

    /// The keys of the clients, each once.
    pub fn keys(&self) -> (r: Vec<ClientKey>)
        ensures
            r@.no_duplicates(),
            r@.to_set() == self@.dom(),
    {
        proof {
            use_type_invariant(&*self);
            lemma_entries(self.built@);
        }
        let mut out: Vec<ClientKey> = Vec::new();
        let mut i: usize = 0;
        while i < self.built.len()
            invariant
                i <= self.built.len(),
                out.len() == i,
                forall|j: int| 0 <= j < i ==> #[trigger] out@[j] == self.built@[j].0,
            decreases self.built.len() - i,
        {
            out.push(self.built[i].0);
            i = i + 1;
        }
        proof {
            assert forall|k: ClientKey| self@.contains_key(k) implies #[trigger] out@.contains(
                k,
            ) by {
                let j = choose|j: int|
                    0 <= j < self.built.len() && (#[trigger] self.built@[j]).0 == k;
                assert(out@[j] == k);
            }
            assert forall|k: ClientKey| #[trigger] out@.contains(k) implies self@.contains_key(
                k,
            ) by {
                let j = choose|j: int| 0 <= j < out.len() && out@[j] == k;
                assert(self.built@[j].0 == k);
            }
            assert(out@.to_set() =~= self@.dom());
        }
        out
    }
}

/// Drops all shared clients, so that each is built anew with the settings in
/// force when it is next asked for. Says how many there were.
pub fn invalidate_shared_clients<C>(shared: &mut SharedClients<C>) -> (dropped: usize)
    ensures
        final(shared)@ == Map::<ClientKey, C>::empty(),
        dropped == old(shared)@.dom().len(),
{
    shared.clear()
}

/// The keys of the shared clients, each once.
pub fn shared_client_keys<C>(shared: &SharedClients<C>) -> (r: Vec<ClientKey>)
    ensures
        r@.no_duplicates(),
        r@.to_set() == shared@.dom(),
{
    shared.keys()
}

/// `shared` went over to `after` by a request for the client of `key`, which got `r`.
pub open spec fn served<C>(
    before: Map<ClientKey, C>,
    after: Map<ClientKey, C>,
    key: ClientKey,
    r: C,
) -> bool {
    &&& after == if before.contains_key(key) {
        before
    } else {
        before.insert(key, r)
    }
    &&& after[key] == r
}

/// The client with this key, which `build` makes where there is none yet.
pub fn acquire<C, F: FnOnce(ClientKey) -> C>(
    shared: &mut SharedClients<C>,
    key: ClientKey,
    build: F,
) -> (r: &C)
    requires
        call_requires(build, (key,)),
    ensures
        served(old(shared)@, final(shared)@, key, *r),
        !old(shared)@.contains_key(key) ==> call_ensures(build, (key,), *r),
{
    shared.get(key, build)
}

/// The key of the usual client.
pub open spec fn usual_key() -> ClientKey {
    ClientKey { timeout_secs: 15, emulated: true }
}

/// The key of the plain client.
pub open spec fn standard_key() -> ClientKey {
    ClientKey { timeout_secs: 15, emulated: false }
}

/// The key of the plain client that waits longer.
pub open spec fn long_standard_key() -> ClientKey {
    ClientKey { timeout_secs: 60, emulated: false }
}

/// The usual client: 15 seconds, looking like a browser.
pub fn get_client<C, F: FnOnce(ClientKey) -> C>(shared: &mut SharedClients<C>, build: F) -> (r: &C)
    requires
        call_requires(build, (usual_key(),)),
    ensures
        served(old(shared)@, final(shared)@, usual_key(), *r),
        !old(shared)@.contains_key(usual_key()) ==> call_ensures(build, (usual_key(),), *r),
{
    acquire(shared, ClientKey::new(15, true), build)
}

/// The plain client: 15 seconds, looking like what it is.
pub fn get_standard_client<C, F: FnOnce(ClientKey) -> C>(
    shared: &mut SharedClients<C>,
    build: F,
) -> (r: &C)
    requires
        call_requires(build, (standard_key(),)),
    ensures
        served(old(shared)@, final(shared)@, standard_key(), *r),
        !old(shared)@.contains_key(standard_key()) ==> call_ensures(build, (standard_key(),), *r),
{
    acquire(shared, ClientKey::new(15, false), build)
}

/// The plain client that waits longer: 60 seconds.
pub fn get_long_standard_client<C, F: FnOnce(ClientKey) -> C>(
    shared: &mut SharedClients<C>,
    build: F,
) -> (r: &C)
    requires
        call_requires(build, (long_standard_key(),)),
    ensures
        served(old(shared)@, final(shared)@, long_standard_key(), *r),
        !old(shared)@.contains_key(long_standard_key()) ==> call_ensures(
            build,
            (long_standard_key(),),
            *r,
        ),
{
    acquire(shared, ClientKey::new(60, false), build)
}

// ----- Building -----

/// How a shared client is built.
pub struct ClientPlan<'a> {
    /// The browser look is put on.
    pub emulated: bool,
    /// The timeout of a whole request.
    pub timeout_secs: u64,
    /// The upstream proxy to go through, if its address can be parsed.
    pub proxy: Option<&'a str>,
    /// What log lines call the client.
    pub label: &'static str,
}

/// How the shared client of `key` is built under the configuration in force.
pub fn client_plan<'a>(key: ClientKey, config: Option<&'a UpstreamProxyConfig>) -> (r: ClientPlan<
    'a,
>)
    ensures
        r.emulated == key.emulated,
        r.timeout_secs == key.timeout_secs,
        opt_str_text(r.proxy) == enabled_proxy(config),
        r.label@ == if key.emulated {
            "HTTP shared client"@
        } else {
            "HTTP standard client"@
        },
{
    let label = if key.emulated {
        "HTTP shared client"
    } else {
        "HTTP standard client"
    };
    ClientPlan {
        emulated: key.emulated,
        timeout_secs: key.timeout_secs,
        proxy: configured_proxy(config),
        label,
    }
}

// ----- Laws -----

/// A client is kept until it is dropped: asking twice for one key gets the same
/// client, and the second time nothing is built.
pub proof fn law_second_request_is_served_from_cache<C>(
    m0: Map<ClientKey, C>,
    m1: Map<ClientKey, C>,
    m2: Map<ClientKey, C>,
    key: ClientKey,
    first: C,
    second: C,
)
    requires
        served(m0, m1, key, first),
        served(m1, m2, key, second),
    ensures
        second == first,
        m2 == m1,
        m1.contains_key(key),
{
}

/// Asking for one key leaves the clients of all others as they are.
pub proof fn law_other_clients_stay<C>(
    before: Map<ClientKey, C>,
    after: Map<ClientKey, C>,
    key: ClientKey,
    r: C,
    other: ClientKey,
)
    requires
        served(before, after, key, r),
        other != key,
    ensures
        after.contains_key(other) == before.contains_key(other),
        before.contains_key(other) ==> after[other] == before[other],
{
}

/// After all clients were dropped, a request leaves exactly the one it got.
pub proof fn law_rebuilt_after_drop<C>(after: Map<ClientKey, C>, key: ClientKey, r: C)
    requires
        served(Map::<ClientKey, C>::empty(), after, key, r),
    ensures
        after == Map::<ClientKey, C>::empty().insert(key, r),
{
}

/// A client that was built and not dropped is the one that is given out, and nothing is
/// built; otherwise what is built is given out and kept. The clients of other keys stay as
/// they are.
pub proof fn law_clients_are_built_once<C, F: FnOnce(ClientKey) -> C>(
    shared: &mut SharedClients<C>,
    key: ClientKey,
    build: F,
    other: ClientKey,
    r: &C,
)
    requires
        call_ensures(acquire::<C, F>, (shared, key, build), r),
    ensures
        old(shared)@.contains_key(key) ==> *r == old(shared)@[key],
        !old(shared)@.contains_key(key) ==> call_ensures(build, (key,), *r),
        final(shared)@.contains_key(key) && final(shared)@[key] == *r,
        other != key ==> final(shared)@.contains_key(other) == old(shared)@.contains_key(other),
        other != key && old(shared)@.contains_key(other) ==> final(shared)@[other]
            == old(shared)@[other],
{
}

/// The usual client waits 15 seconds and looks like a browser.
pub proof fn law_usual_client<C, F: FnOnce(ClientKey) -> C>(
    shared: &mut SharedClients<C>,
    build: F,
    key: ClientKey,
    r: &C,
)
    requires
        call_ensures(get_client::<C, F>, (shared, build), r),
        key.timeout_secs == 15,
        key.emulated,
    ensures
        old(shared)@.contains_key(key) ==> *r == old(shared)@[key],
        !old(shared)@.contains_key(key) ==> call_ensures(build, (key,), *r),
        final(shared)@ == old(shared)@.insert(key, *r),
{
    assert(key == usual_key());
    assert(final(shared)@ =~= old(shared)@.insert(key, *r));
}

/// The plain client waits 15 seconds and looks like what it is.
pub proof fn law_plain_client<C, F: FnOnce(ClientKey) -> C>(
    shared: &mut SharedClients<C>,
    build: F,
    key: ClientKey,
    r: &C,
)
    requires
        call_ensures(get_standard_client::<C, F>, (shared, build), r),
        key.timeout_secs == 15,
        !key.emulated,
    ensures
        old(shared)@.contains_key(key) ==> *r == old(shared)@[key],
        !old(shared)@.contains_key(key) ==> call_ensures(build, (key,), *r),
        final(shared)@ == old(shared)@.insert(key, *r),
{
    assert(key == standard_key());
    assert(final(shared)@ =~= old(shared)@.insert(key, *r));
}

/// The plain client that waits longer waits 60 seconds.
pub proof fn law_patient_client<C, F: FnOnce(ClientKey) -> C>(
    shared: &mut SharedClients<C>,
    build: F,
    key: ClientKey,
    r: &C,
)
    requires
        call_ensures(get_long_standard_client::<C, F>, (shared, build), r),
        key.timeout_secs == 60,
        !key.emulated,
    ensures
        old(shared)@.contains_key(key) ==> *r == old(shared)@[key],
        !old(shared)@.contains_key(key) ==> call_ensures(build, (key,), *r),
        final(shared)@ == old(shared)@.insert(key, *r),
{
    assert(key == long_standard_key());
    assert(final(shared)@ =~= old(shared)@.insert(key, *r));
}

/// Dropping leaves no client of any key, and tells how many there were.
pub proof fn law_all_clients_are_dropped<C>(
    shared: &mut SharedClients<C>,
    key: ClientKey,
    dropped: usize,
)
    requires
        call_ensures(invalidate_shared_clients::<C>, (shared,), dropped),
    ensures
        !final(shared)@.contains_key(key),
        dropped == old(shared)@.dom().len(),
{
}

/// The keys of the clients are listed, each once and no other.
pub proof fn law_keys_are_listed<C>(
    shared: &SharedClients<C>,
    key: ClientKey,
    i: int,
    j: int,
    r: Vec<ClientKey>,
)
    requires
        call_ensures(shared_client_keys::<C>, (shared,), r),
    ensures
        r@.contains(key) <==> shared@.contains_key(key),
        0 <= i < j < r.len() ==> r@[i] != r@[j],
{
    assert(r@.to_set().contains(key) == r@.contains(key));
}

/// A shared client is built as its key says, and through the proxy that the configuration
/// turns on, whatever the key; only where that is off or empty, without one.
pub proof fn law_how_shared_clients_are_built(
    key: ClientKey,
    config: Option<&UpstreamProxyConfig>,
    r: ClientPlan<'static>,
)
    requires
        call_ensures(client_plan, (key, config), r),
    ensures
        r.emulated == key.emulated,
        r.timeout_secs == key.timeout_secs,
        r.proxy is Some <==> (config matches Some(c) && c.enabled && c.url@.len() > 0),
        r.proxy matches Some(p) ==> p@ == (config->0).url@,
        key.emulated ==> r.label@ == "HTTP shared client"@,
        !key.emulated ==> r.label@ == "HTTP standard client"@,
{
}

/// A key is its timeout and its look.
pub proof fn law_keys_of_clients(timeout_secs: u64, emulated: bool, r: ClientKey)
    requires
        call_ensures(ClientKey::new, (timeout_secs, emulated), r),
    ensures
        r.timeout_secs == timeout_secs,
        r.emulated == emulated,
{
}

/// What holds of the clients of the process holds of each collection of them: it starts
/// empty, gives out what it has and builds what it lacks, lists its keys, and drops all.
pub proof fn law_collections_of_clients<C, F: FnOnce(ClientKey) -> C>(
    shared: &mut SharedClients<C>,
    key: ClientKey,
    build: F,
    r: &C,
    fresh: SharedClients<C>,
    other: &SharedClients<C>,
    keys: Vec<ClientKey>,
)
    requires
        call_ensures(SharedClients::<C>::get::<F>, (shared, key, build), r),
        call_ensures(SharedClients::<C>::new, (), fresh),
        call_ensures(SharedClients::<C>::keys, (other,), keys),
    ensures
        old(shared)@.contains_key(key) ==> *r == old(shared)@[key] && final(shared)@
            == old(shared)@,
        !old(shared)@.contains_key(key) ==> call_ensures(build, (key,), *r) && final(shared)@
            == old(shared)@.insert(key, *r),
        !fresh@.contains_key(key),
        keys@.no_duplicates(),
        keys@.contains(key) <==> other@.contains_key(key),
{
    assert(keys@.to_set().contains(key) == keys@.contains(key));
}

/// Clearing a collection leaves nothing in it, and tells how many there were.
pub proof fn law_collections_are_cleared<C>(
    shared: &mut SharedClients<C>,
    key: ClientKey,
    dropped: usize,
)
    requires
        call_ensures(SharedClients::<C>::clear, (shared,), dropped),
    ensures
        !final(shared)@.contains_key(key),
        dropped == old(shared)@.dom().len(),
{
}

} // verus!
