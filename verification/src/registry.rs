//! The registry of the providers that the gateway may use: each under its
//! name, with what it can do.

use vstd::prelude::*;
use vstd::hash_map::StringHashMap;
use crate::config::AppConfig;
use crate::errors::{GatewayError, GatewayErrorView, provider_error};
use crate::text::concat_str;
use crate::text::views;

verus! {

/// The operations that a provider supports.
#[derive(Debug, Clone, Copy, PartialEq, Eq, Structural)]
pub struct ProviderCapabilities {
    pub search: bool,
    pub extract: bool,
    pub crawl: bool,
}

impl ProviderCapabilities {
    /// What the built-in Tavily-compatible provider can do: everything.
    pub fn tavily() -> (c: Self)
        ensures
            c.search && c.extract && c.crawl,
    {
        ProviderCapabilities { search: true, extract: true, crawl: true }
    }

    /// What the built-in DuckDuckGo provider can do: search only.
    pub fn duckduckgo() -> (c: Self)
        ensures
            c.search && !c.extract && !c.crawl,
    {
        ProviderCapabilities { search: true, extract: false, crawl: false }
    }
}

/// An operation of the gateway.
#[derive(Debug, Clone, Copy, PartialEq, Eq, Structural)]
pub enum Operation {
    Search,
    Extract,
    Crawl,
}

pub open spec fn supports(c: ProviderCapabilities, op: Operation) -> bool {
    match op {
        Operation::Search => c.search,
        Operation::Extract => c.extract,
        Operation::Crawl => c.crawl,
    }
}

/// A provider under its name.
pub struct RegisteredProvider<P> {
    pub name: String,
    pub capabilities: ProviderCapabilities,
    pub provider: P,
}

/// A registered name with what its provider can do.
struct Listing {
    name: String,
    capabilities: ProviderCapabilities,
}

/// The listed names, each with what it can do and its provider in `handles`.
spec fn entries_of<P>(listings: Seq<Listing>, handles: Map<Seq<char>, P>) -> Seq<RegisteredProvider<P>> {
    Seq::new(
        listings.len(),
        |i: int|
            RegisteredProvider {
                name: listings[i].name,
                capabilities: listings[i].capabilities,
                provider: handles[listings[i].name@],
            },
    )
}

/// The providers by name; no name occurs twice.
#[verifier::reject_recursive_types(P)]
pub struct ProviderRegistry<P> {
    /// The names with what each provider can do, in the order in which they
    /// were first registered.
    listings: Vec<Listing>,
    /// The provider under each name.
    handles: StringHashMap<P>,
}

/// The names of `entries`.
pub open spec fn entry_names<P>(entries: Seq<RegisteredProvider<P>>) -> Seq<String> {
    entries.map_values(|e: RegisteredProvider<P>| e.name)
}

/// No name occurs twice in `entries`.
pub open spec fn distinct_names<P>(entries: Seq<RegisteredProvider<P>>) -> bool {
    forall|i: int, j: int|
        0 <= i < entries.len() && 0 <= j < entries.len() && i != j ==> entries[i].name@
            != entries[j].name@
}

/// The first place at or after `i` of the provider named `name`, or -1.
pub open spec fn place_of<P>(entries: Seq<RegisteredProvider<P>>, name: Seq<char>, i: int) -> int
    decreases entries.len() - i,
{
    if i < 0 || i >= entries.len() {
        -1
    } else if entries[i].name@ == name {
        i
    } else {
        place_of(entries, name, i + 1)
    }
}

/// The names of the providers of `entries` that support `op`, in order.
pub open spec fn capable_names<P>(entries: Seq<RegisteredProvider<P>>, op: Operation) -> Seq<String>
    decreases entries.len(),
{
    if entries.len() == 0 {
        Seq::empty()
    } else if supports(entries.last().capabilities, op) {
        capable_names(entries.drop_last(), op).push(entries.last().name)
    } else {
        capable_names(entries.drop_last(), op)
    }
}

proof fn lemma_place_of_found<P>(entries: Seq<RegisteredProvider<P>>, name: Seq<char>, i: int, k: int)
    requires
        0 <= i <= k < entries.len(),
        entries[k].name@ == name,
        forall|j: int| i <= j < k ==> entries[j].name@ != name,
    ensures
        place_of(entries, name, i) == k,
    decreases k - i,
{
    if i < k {
        lemma_place_of_found(entries, name, i + 1, k);
    }
}

proof fn lemma_place_of_absent<P>(entries: Seq<RegisteredProvider<P>>, name: Seq<char>, i: int)
    requires
        0 <= i,
        forall|j: int| i <= j < entries.len() ==> entries[j].name@ != name,
    ensures
        place_of(entries, name, i) == -1,
    decreases entries.len() - i,
{
    if i < entries.len() {
        lemma_place_of_absent(entries, name, i + 1);
    }
}

proof fn lemma_place_of_range<P>(entries: Seq<RegisteredProvider<P>>, name: Seq<char>, i: int)
    ensures
        place_of(entries, name, i) == -1 || (i <= place_of(entries, name, i) < entries.len()
            && entries[place_of(entries, name, i)].name@ == name),
    decreases entries.len() - i,
{
    if 0 <= i < entries.len() && entries[i].name@ != name {
        lemma_place_of_range(entries, name, i + 1);
    }
}

impl<P> ProviderRegistry<P> {
    /// No name occurs twice; every name has its provider; every provider is
    /// under a listed name.
    #[verifier::type_invariant]
    spec fn well_formed(self) -> bool {
        &&& distinct_names(self.entries())
        &&& forall|i: int|
            0 <= i < self.listings@.len() ==> self.handles@.contains_key(#[trigger] self.listings@[i].name@)
        &&& forall|k: Seq<char>|
            #[trigger] self.handles@.contains_key(k) ==> exists|i: int|
                0 <= i < self.listings@.len() && #[trigger] self.listings@[i].name@ == k
    }

    /// The registered providers, in the order in which they were first
    /// registered.
    pub closed spec fn entries(self) -> Seq<RegisteredProvider<P>> {
        entries_of(self.listings@, self.handles@)
    }

    /// The place of the provider named `name`, or -1.
    pub open spec fn place(self, name: Seq<char>) -> int {
        place_of(self.entries(), name, 0)
    }

    /// An empty registry.
    pub fn new() -> (r: Self)
        ensures
            r.entries() == Seq::<RegisteredProvider<P>>::empty(),
    {
        let r = ProviderRegistry { listings: Vec::new(), handles: StringHashMap::new() };
        assert(r.entries() =~= Seq::<RegisteredProvider<P>>::empty());
        r
    }

    /// Registers `provider` under `name`, in place of a provider registered
    /// under that name before.
    pub fn register(&mut self, name: String, capabilities: ProviderCapabilities, provider: P)
        ensures
            ({
                let e = RegisteredProvider { name, capabilities, provider };
                let p = old(self).place(name@);
                final(self).entries() == if p >= 0 {
                    old(self).entries().update(p, e)
                } else {
                    old(self).entries().push(e)
                }
            }),
    {
        proof {
            use_type_invariant(&*self);
        }
        let found = self.find(name.as_str());
        let ghost before = self.entries();
        let ghost e = RegisteredProvider { name, capabilities, provider };
        let mut taken = ProviderRegistry { listings: Vec::new(), handles: StringHashMap::new() };
        proof {
            assert(taken.entries() =~= Seq::<RegisteredProvider<P>>::empty());
        }
        std::mem::swap(self, &mut taken);
        let ProviderRegistry { listings, handles } = taken;
        let mut listings = listings;
        let mut handles = handles;
        let ghost old_listings = listings@;
        let ghost old_handles = handles@;
        match found {
            Some(i) => {
                listings.set(i, Listing { name: name.clone(), capabilities });
            },
            None => {
                listings.push(Listing { name: name.clone(), capabilities });
            },
        }
        handles.insert(name, provider);
        proof {
            lemma_place_of_range(before, name@, 0);
            let after = entries_of(listings@, handles@);
            let expected = if found is Some {
                before.update(found->Some_0 as int, e)
            } else {
                before.push(e)
            };
            assert forall|j: int| 0 <= j < after.len() implies #[trigger] after[j] == expected[j] by {
                if j < before.len() && (found is None || j != found->Some_0 as int) {
                    assert(listings@[j] == old_listings[j]);
                    assert(before[j].name@ != name@);
                }
            }
            assert(after =~= expected);
            assert forall|a: int, b: int|
                0 <= a < after.len() && 0 <= b < after.len() && a != b implies after[a].name@
                != after[b].name@ by {
                assert(after[a] == expected[a] && after[b] == expected[b]);
            }
            assert forall|i: int| 0 <= i < listings@.len() implies handles@.contains_key(
                #[trigger] listings@[i].name@,
            ) by {
                if i < old_listings.len() && (found is None || i != found->Some_0 as int) {
                    assert(listings@[i] == old_listings[i]);
                }
            }
            assert forall|k: Seq<char>| #[trigger] handles@.contains_key(k) implies exists|i: int|
                0 <= i < listings@.len() && #[trigger] listings@[i].name@ == k by {
                if k == name@ {
                    let i = if found is Some { found->Some_0 as int } else { old_listings.len() as int };
                    assert(listings@[i].name@ == k);
                } else {
                    assert(old_handles.contains_key(k));
                    let i = choose|i: int| 0 <= i < old_listings.len() && #[trigger] old_listings[i].name@ == k;
                    assert(listings@[i] == old_listings[i]);
                }
            }
        }
        *self = ProviderRegistry { listings, handles };
    }

    fn find(&self, name: &str) -> (r: Option<usize>)
        ensures
            match r {
                Some(i) => i as int == self.place(name@),
                None => self.place(name@) == -1 && forall|j: int|
                    0 <= j < self.entries().len() ==> (#[trigger] self.entries()[j]).name@ != name@,
            },
            self.place(name@) == -1 || 0 <= self.place(name@) < self.entries().len(),
            self.entries().len() == self.listings@.len(),
    {
        proof {
            lemma_place_of_range(self.entries(), name@, 0);
        }
        let key = name.to_owned();
        let mut i: usize = 0;
        while i < self.listings.len()
            invariant
                i <= self.listings.len(),
                key@ == name@,
                forall|j: int| 0 <= j < i ==> (#[trigger] self.entries()[j]).name@ != name@,
            decreases self.listings.len() - i,
        {
            assert(self.entries()[i as int].name == self.listings@[i as int].name);
            if self.listings[i].name == key {
                proof {
                    lemma_place_of_found(self.entries(), name@, 0, i as int);
                }
                return Some(i);
            }
            i = i + 1;
        }
        proof {
            lemma_place_of_absent(self.entries(), name@, 0);
        }
        None
    }

    /// The provider registered under `name`.
    pub fn get(&self, name: &str) -> (r: Option<&P>)
        ensures
            match r {
                Some(p) => self.place(name@) >= 0 && *p == self.entries()[self.place(name@)].provider,
                None => self.place(name@) == -1,
            },
    {
        proof {
            use_type_invariant(self);
            lemma_place_of_range(self.entries(), name@, 0);
        }
        let r = self.handles.get(name);
        proof {
            let entries = self.entries();
            if self.handles@.contains_key(name@) {
                let i = choose|i: int| 0 <= i < self.listings@.len() && #[trigger] self.listings@[i].name@ == name@;
                assert(entries[i].name@ == name@);
                assert forall|j: int| 0 <= j < i implies entries[j].name@ != name@ by {
                    assert(entries[j].name@ != entries[i].name@);
                }
                lemma_place_of_found(entries, name@, 0, i);
            } else if self.place(name@) >= 0 {
                let p = self.place(name@);
                assert(self.handles@.contains_key(self.listings@[p].name@));
            }
        }
        r
    }

    /// Whether a provider is registered under `name`.
    pub fn contains(&self, name: &str) -> (b: bool)
        ensures
            b == (self.place(name@) >= 0),
    {
        self.get(name).is_some()
    }

    /// The names of all registered providers.
    pub fn names(&self) -> (names: Vec<String>)
        ensures
            names@ == entry_names(self.entries()),
            distinct_names(self.entries()),
    {
        proof {
            use_type_invariant(self);
        }
        let mut names: Vec<String> = Vec::new();
        let mut i: usize = 0;
        while i < self.listings.len()
            invariant
                i <= self.listings.len(),
                names@ == entry_names(self.entries().take(i as int)),
            decreases self.listings.len() - i,
        {
            assert(self.entries()[i as int].name == self.listings@[i as int].name
                && self.entries()[i as int].capabilities == self.listings@[i as int].capabilities);
            assert(entry_names(self.entries().take(i + 1)) =~= entry_names(self.entries().take(i as int)).push(
                self.entries()[i as int].name,
            ));
            names.push(self.listings[i].name.clone());
            i = i + 1;
        }
        assert(self.entries().take(self.listings@.len() as int) =~= self.entries());
        names
    }

    /// The names of the providers that support `op`, in registry order.
    pub fn names_for(&self, op: Operation) -> (names: Vec<String>)
        ensures
            names@ == capable_names(self.entries(), op),
    {
        let mut names: Vec<String> = Vec::new();
        let mut i: usize = 0;
        while i < self.listings.len()
            invariant
                i <= self.listings.len(),
                names@ == capable_names(self.entries().take(i as int), op),
            decreases self.listings.len() - i,
        {
            assert(self.entries()[i as int].name == self.listings@[i as int].name
                && self.entries()[i as int].capabilities == self.listings@[i as int].capabilities);
            let ghost t = self.entries().take(i + 1);
            assert(t.drop_last() =~= self.entries().take(i as int));
            assert(t.last() == self.entries()[i as int]);
            let caps = self.listings[i].capabilities;
            let ok = match op {
                Operation::Search => caps.search,
                Operation::Extract => caps.extract,
                Operation::Crawl => caps.crawl,
            };
            if ok {
                names.push(self.listings[i].name.clone());
            }
            i = i + 1;
        }
        assert(self.entries().take(self.listings@.len() as int) =~= self.entries());
        names
    }

    /// The names of the providers that can search.
    pub fn search_providers(&self) -> (names: Vec<String>)
        ensures
            names@ == capable_names(self.entries(), Operation::Search),
    {
        self.names_for(Operation::Search)
    }

    /// The names of the providers that can extract.
    pub fn extract_providers(&self) -> (names: Vec<String>)
        ensures
            names@ == capable_names(self.entries(), Operation::Extract),
    {
        self.names_for(Operation::Extract)
    }

    /// The names of the providers that can crawl.
    pub fn crawl_providers(&self) -> (names: Vec<String>)
        ensures
            names@ == capable_names(self.entries(), Operation::Crawl),
    {
        self.names_for(Operation::Crawl)
    }

    /// Each registered provider's name with what it can do.
    pub fn providers_with_capabilities(&self) -> (list: Vec<(String, ProviderCapabilities)>)
        ensures
            list.len() == self.entries().len(),
            forall|i: int|
                0 <= i < list.len() ==> (#[trigger] list@[i]).0 == self.entries()[i].name
                    && list@[i].1 == self.entries()[i].capabilities,
    {
        let mut list: Vec<(String, ProviderCapabilities)> = Vec::new();
        let mut i: usize = 0;
        while i < self.listings.len()
            invariant
                i <= self.listings.len(),
                list.len() == i,
                forall|j: int|
                    0 <= j < i ==> (#[trigger] list@[j]).0 == self.entries()[j].name && list@[j].1
                        == self.entries()[j].capabilities,
            decreases self.listings.len() - i,
        {
            assert(self.entries()[i as int].name == self.listings@[i as int].name
                && self.entries()[i as int].capabilities == self.listings@[i as int].capabilities);
            list.push((self.listings[i].name.clone(), self.listings[i].capabilities));
            i = i + 1;
        }
        list
    }
}


/// The names of the built-in providers that `config` enables, in the order
/// in which they are built: Tavily, then DuckDuckGo.
pub open spec fn enabled_names(config: AppConfig) -> Seq<Seq<char>> {
    (if config.tavily.enabled {
        seq!["tavily"@]
    } else {
        Seq::empty()
    }) + (if config.ddg.enabled {
        seq!["ddg"@]
    } else {
        Seq::empty()
    })
}

/// What the built-in provider named `name` can do: Tavily everything,
/// DuckDuckGo search only.
pub open spec fn builtin_capabilities(name: Seq<char>) -> ProviderCapabilities {
    if name == "tavily"@ {
        ProviderCapabilities { search: true, extract: true, crawl: true }
    } else {
        ProviderCapabilities { search: true, extract: false, crawl: false }
    }
}

/// Whether `entries` holds, in order, the built-in providers `names`, each
/// with its capabilities and a provider that `build` made for its name.
pub open spec fn built_entries<P, B: Fn(&String) -> Result<P, GatewayError>>(
    entries: Seq<RegisteredProvider<P>>,
    names: Seq<Seq<char>>,
    build: B,
) -> bool {
    &&& views(entry_names(entries)) == names
    &&& forall|i: int|
        0 <= i < entries.len() ==> (#[trigger] entries[i]).capabilities == builtin_capabilities(
            entries[i].name@,
        ) && call_ensures(build, (&entries[i].name,), Ok(entries[i].provider))
}

impl<P> ProviderRegistry<P> {
    /// The registry of the built-in providers that `config` enables, each
    /// made by `build` from its name, Tavily first; the first provider that
    /// cannot be made ends the construction with its error.
    pub fn from_config<B: Fn(&String) -> Result<P, GatewayError>>(config: &AppConfig, build: B) -> (r: Result<
        Self,
        GatewayError,
    >)
        requires
            forall|n: &String| call_requires(build, (n,)),
        ensures
            match r {
                Ok(reg) => built_entries(reg.entries(), enabled_names(*config), build),
                Err(e) => exists|n: String|
                    #![trigger call_ensures(build, (&n,), Err(e))]
                    enabled_names(*config).contains(n@) && call_ensures(build, (&n,), Err(e)),
            },
    {
        proof {
            reveal_strlit("tavily");
            reveal_strlit("ddg");
        }
        let mut reg: ProviderRegistry<P> = ProviderRegistry::new();
        let ghost tav: Seq<Seq<char>> = if config.tavily.enabled {
            seq!["tavily"@]
        } else {
            Seq::empty()
        };
        if config.tavily.enabled {
            let name = "tavily".to_owned();
            let provider = match build(&name) {
                Ok(p) => p,
                Err(e) => {
                    assert(enabled_names(*config)[0] == name@);
                    return Err(e);
                },
            };
            let capabilities = ProviderCapabilities::tavily();
            reg.register(name, capabilities, provider);
            assert(reg.entries().len() == 1);
        }
        assert(views(entry_names(reg.entries())) =~= tav);
        assert(built_entries(reg.entries(), tav, build));
        if config.ddg.enabled {
            let name = "ddg".to_owned();
            let provider = match build(&name) {
                Ok(p) => p,
                Err(e) => {
                    assert(enabled_names(*config)[tav.len() as int] == name@);
                    return Err(e);
                },
            };
            let capabilities = ProviderCapabilities::duckduckgo();
            let ghost before = reg.entries();
            let ghost last = RegisteredProvider { name, capabilities, provider };
            assert(name@ == "ddg"@);
            assert("ddg"@.len() == 3);
            assert("ddg"@ != "tavily"@);
            assert(last.capabilities == builtin_capabilities(last.name@));
            assert(call_ensures(build, (&last.name,), Ok(last.provider)));
            proof {
                assert forall|j: int| 0 <= j < before.len() implies before[j].name@ != name@ by {
                    assert(views(entry_names(before))[j] == before[j].name@);
                }
                lemma_place_of_absent(before, name@, 0);
            }
            reg.register(name, capabilities, provider);
            assert(reg.entries() == before.push(last));
            assert(entry_names(reg.entries()) =~= entry_names(before).push(last.name));
            assert(views(entry_names(reg.entries())) =~= views(entry_names(before)).push("ddg"@));
            assert forall|i: int| 0 <= i < reg.entries().len() implies (#[trigger] reg.entries()[i]).capabilities
                == builtin_capabilities(reg.entries()[i].name@) && call_ensures(
                build,
                (&reg.entries()[i].name,),
                Ok(reg.entries()[i].provider),
            ) by {
                if i < before.len() {
                    assert(reg.entries()[i] == before[i]);
                }
            }
        }
        assert(views(entry_names(reg.entries())) =~= enabled_names(*config));
        assert(built_entries(reg.entries(), enabled_names(*config), build));
        Ok(reg)
    }
}


/// The name of an operation, as the gateway's messages write it.
pub open spec fn operation_text(op: Operation) -> Seq<char> {
    match op {
        Operation::Search => "search"@,
        Operation::Extract => "extract"@,
        Operation::Crawl => "crawl"@,
    }
}

/// The error of a provider that is asked for an operation it does not
/// support; it is not retried.
pub open spec fn unsupported_error(provider: Seq<char>, op: Operation) -> GatewayErrorView {
    provider_error(
        provider,
        "unsupported_operation"@,
        "provider does not support "@ + operation_text(op),
        false,
    )
}

/// The error that `provider` gives when asked for `op`, which it does not
/// support.
pub fn unsupported_operation(provider: &str, op: Operation) -> (e: GatewayError)
    ensures
        e@ == unsupported_error(provider@, op),
{
    let name = match op {
        Operation::Search => "search",
        Operation::Extract => "extract",
        Operation::Crawl => "crawl",
    };
    let message = concat_str("provider does not support ", name);
    GatewayError::provider(provider, "unsupported_operation", message.as_str(), false)
}

} // verus!
