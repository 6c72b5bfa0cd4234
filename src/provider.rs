//! Snapshots of the tracer-provider registry: an immutable map from names to
//! providers. A new provider goes into a copy of the current snapshot, which
//! is then published whole, so a reader sees either the old or the new map.
use vstd::prelude::*;
use ahash::{AHashMap, RandomState};
use opentelemetry_sdk::trace::TracerProvider;

verus! {

#[verifier::external_type_specification]
#[verifier::external_body]
pub struct ExTracerProvider(TracerProvider);

#[verifier::external_type_specification]
#[verifier::external_body]
pub struct ExRandomState(RandomState);

#[verifier::external_type_specification]
#[verifier::external_body]
#[verifier::reject_recursive_types(K)]
#[verifier::reject_recursive_types(V)]
#[verifier::reject_recursive_types(S)]
pub struct ExAHashMap<K, V, S>(AHashMap<K, V, S>);

/// The names that a provider map holds.
pub uninterp spec fn provider_names(m: AHashMap<String, TracerProvider>) -> Set<Seq<char>>;

/// The providers that a provider map holds, by name.
pub uninterp spec fn provider_map(m: AHashMap<String, TracerProvider>) -> Map<Seq<char>, TracerProvider>;

/// Relies on `AHashMap::new` of `ahash`: an empty map.
#[verifier::external_body]
fn map_new() -> (r: AHashMap<String, TracerProvider>)
    ensures
        provider_names(r) == Set::<Seq<char>>::empty(),
        provider_map(r).dom() == Set::<Seq<char>>::empty(),
{
    AHashMap::new()
}

/// Relies on the derived `Clone` of `AHashMap`: a map with the same entries.
#[verifier::external_body]
fn map_clone(m: &AHashMap<String, TracerProvider>) -> (r: AHashMap<String, TracerProvider>)
    ensures
        provider_names(r) == provider_names(*m),
        provider_map(r) == provider_map(*m),
{
    m.clone()
}

/// Relies on `AHashMap::insert` of `ahash`: the key is present afterwards and
/// the other keys are kept.
#[verifier::external_body]
fn map_insert(m: &mut AHashMap<String, TracerProvider>, name: String, provider: TracerProvider)
    ensures
        provider_names(*final(m)) == provider_names(*old(m)).insert(name@),
        provider_map(*final(m)) == provider_map(*old(m)).insert(name@, provider),
{
    m.insert(name, provider);
}

/// Relies on `AHashMap::get` of `ahash`, with the provider cloned (a handle
/// to the same provider): found exactly when the name is present.
#[verifier::external_body]
fn map_get(m: &AHashMap<String, TracerProvider>, name: &str) -> (r: Option<TracerProvider>)
    ensures
        r is Some <==> provider_names(*m).contains(name@),
        r matches Some(p) ==> p == provider_map(*m)[name@],
{
    m.get(name).cloned()
}

/// One published state of the registry.
pub struct ProviderSnapshot {
    pub providers: AHashMap<String, TracerProvider>,
}

impl ProviderSnapshot {
    pub open spec fn names(&self) -> Set<Seq<char>> {
        provider_names(self.providers)
    }

    pub open spec fn entries(&self) -> Map<Seq<char>, TracerProvider> {
        provider_map(self.providers)
    }

    /// The snapshot the registry starts from: no provider.
    pub fn new() -> (r: ProviderSnapshot)
        ensures
            r.names() == Set::<Seq<char>>::empty(),
            r.entries().dom() == Set::<Seq<char>>::empty(),
    {
        ProviderSnapshot { providers: map_new() }
    }

    /// A new snapshot: a copy of this one with `provider` under `name`,
    /// replacing what that name held. This one is left as it is.
    pub fn with_provider(&self, name: &str, provider: TracerProvider) -> (r: ProviderSnapshot)
        ensures
            r.names() == self.names().insert(name@),
            r.entries() == self.entries().insert(name@, provider),
    {
        let mut providers = map_clone(&self.providers);
        map_insert(&mut providers, String::from_str(name), provider);
        ProviderSnapshot { providers }
    }

    /// The provider under `name`, if any.
    pub fn lookup(&self, name: &str) -> (r: Option<TracerProvider>)
        ensures
            r is Some <==> self.names().contains(name@),
            r matches Some(p) ==> p == self.entries()[name@],
    {
        map_get(&self.providers, name)
    }
}

/// After `provider` is registered under a name, a lookup of that name in the
/// new snapshot finds that provider, and every other name keeps the provider
/// it had.
pub proof fn lemma_registered_is_found(
    before: ProviderSnapshot,
    after: ProviderSnapshot,
    name: Seq<char>,
    provider: TracerProvider,
)
    requires
        after.names() == before.names().insert(name),
        after.entries() == before.entries().insert(name, provider),
    ensures
        after.names().contains(name),
        after.entries()[name] == provider,
        forall|n: Seq<char>| before.names().contains(n) ==> #[trigger] after.names().contains(n),
        forall|n: Seq<char>|
            n != name && before.entries().contains_key(n) ==> #[trigger] after.entries()[n]
                == before.entries()[n],
{
}

} // verus!
