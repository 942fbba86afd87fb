//! The quote cache: shields the engine from an unreliable, rate-limited
//! upstream price feed.
//!
//! The cache maps a symbol to the last fetched quote or profile and the
//! time it was fetched. A lookup within the entry's time-to-live is
//! served from the cache — no upstream call; after that the entry is
//! stale and the caller must fetch afresh. Prices live for five
//! minutes, profiles for a day. A non-positive upstream price is an
//! invalid response: it is never cached and always surfaces as
//! `PriceUnavailable`. On a failed fetch the stale entry is *not*
//! served — there is no fallback to stale data.
//!
//! All prices here are integer minor currency units; the caller
//! converts the upstream's source units at the fetch site (multiply by
//! one hundred and truncate), identically on every read path.

use vstd::prelude::*;

use crate::errors::TradeError;
use crate::models::FinnhubProfile;
use crate::models::ProfileV;

verus! {

/// How long a cached price stays fresh, in seconds: five minutes.
pub const PRICE_TTL_SECS: u64 = 300;

/// How long a cached profile stays fresh, in seconds: a day. Profiles
/// change far less often than prices, so they are cached far longer to
/// conserve upstream quota.
pub const PROFILE_TTL_SECS: u64 = 86400;

/// A point-in-time price snapshot, in integer minor currency units:
/// current price, absolute and percent day change (the percentage in
/// hundredths of a percent), and the previous close.
#[derive(Clone, Copy, Debug, PartialEq, Eq)]
pub struct Quote {
    pub price: i64,
    pub day_change: i64,
    pub day_change_percent: i64,
    pub prev_close: i64,
}

/// The mathematical view of a [`Quote`].
pub struct QuoteV {
    pub price: int,
    pub day_change: int,
    pub day_change_percent: int,
    pub prev_close: int,
}

impl View for Quote {
    type V = QuoteV;

    open spec fn view(&self) -> QuoteV {
        QuoteV {
            price: self.price as int,
            day_change: self.day_change as int,
            day_change_percent: self.day_change_percent as int,
            prev_close: self.prev_close as int,
        }
    }
}

impl DeepView for Quote {
    type V = QuoteV;

    open spec fn deep_view(&self) -> QuoteV {
        self@
    }
}

/// A quote the cache accepts: the current price is positive.
pub open spec fn quote_ok(q: QuoteV) -> bool {
    1 <= q.price
}

/// One cached price: the quote and the time it was fetched.
pub struct PriceEntry {
    pub symbol: String,
    pub quote: Quote,
    pub fetched_at: u64,
}

/// The mathematical view of a [`PriceEntry`].
pub struct PriceEntryV {
    pub symbol: Seq<char>,
    pub quote: QuoteV,
    pub fetched_at: int,
}

impl View for PriceEntry {
    type V = PriceEntryV;

    open spec fn view(&self) -> PriceEntryV {
        PriceEntryV { symbol: self.symbol@, quote: self.quote@, fetched_at: self.fetched_at as int }
    }
}

impl DeepView for PriceEntry {
    type V = PriceEntryV;

    open spec fn deep_view(&self) -> PriceEntryV {
        self@
    }
}

/// One cached profile: the descriptive data and the time it was fetched.
pub struct ProfileEntry {
    pub symbol: String,
    pub profile: FinnhubProfile,
    pub fetched_at: u64,
}

/// The mathematical view of a [`ProfileEntry`].
pub struct ProfileEntryV {
    pub symbol: Seq<char>,
    pub profile: ProfileV,
    pub fetched_at: int,
}

impl View for ProfileEntry {
    type V = ProfileEntryV;

    open spec fn view(&self) -> ProfileEntryV {
        ProfileEntryV {
            symbol: self.symbol@,
            profile: self.profile@,
            fetched_at: self.fetched_at as int,
        }
    }
}

impl DeepView for ProfileEntry {
    type V = ProfileEntryV;

    open spec fn deep_view(&self) -> ProfileEntryV {
        self@
    }
}

/// The quote cache. Owned explicitly and injected where it is needed:
/// constructed once at process start and shared for the life of the
/// process.
pub struct QuoteCache {
    pub prices: Vec<PriceEntry>,
    pub profiles: Vec<ProfileEntry>,
}

/// The mathematical view of a [`QuoteCache`].
#[verifier::ext_equal]
pub struct CacheV {
    pub prices: Seq<PriceEntryV>,
    pub profiles: Seq<ProfileEntryV>,
}

impl View for QuoteCache {
    type V = CacheV;

    open spec fn view(&self) -> CacheV {
        CacheV { prices: self.prices.deep_view(), profiles: self.profiles.deep_view() }
    }
}

// ---------------------------------------------------------------------
// Lookups and well-formedness
// ---------------------------------------------------------------------

/// Does the cache hold a price entry for `sym`?
pub open spec fn has_price_in(s: Seq<PriceEntryV>, sym: Seq<char>) -> bool {
    exists|i: int| 0 <= i < s.len() && (#[trigger] s[i]).symbol == sym
}

/// The index of the price entry for `sym` (unique under [`cache_wf`]).
pub open spec fn price_index_in(s: Seq<PriceEntryV>, sym: Seq<char>) -> int {
    choose|i: int| 0 <= i < s.len() && (#[trigger] s[i]).symbol == sym
}

/// Does the cache hold a profile entry for `sym`?
pub open spec fn has_profile_in(s: Seq<ProfileEntryV>, sym: Seq<char>) -> bool {
    exists|i: int| 0 <= i < s.len() && (#[trigger] s[i]).symbol == sym
}

/// The index of the profile entry for `sym` (unique under [`cache_wf`]).
pub open spec fn profile_index_in(s: Seq<ProfileEntryV>, sym: Seq<char>) -> int {
    choose|i: int| 0 <= i < s.len() && (#[trigger] s[i]).symbol == sym
}

/// Each symbol keys at most one price entry.
pub open spec fn price_entries_unique(s: Seq<PriceEntryV>) -> bool {
    forall|i: int, j: int|
        0 <= i < s.len() && 0 <= j < s.len() && (#[trigger] s[i]).symbol == (
        #[trigger] s[j]).symbol ==> i == j
}

/// Each symbol keys at most one profile entry.
pub open spec fn profile_entries_unique(s: Seq<ProfileEntryV>) -> bool {
    forall|i: int, j: int|
        0 <= i < s.len() && 0 <= j < s.len() && (#[trigger] s[i]).symbol == (
        #[trigger] s[j]).symbol ==> i == j
}

/// The cache invariant: unique keys, and only valid quotes are ever
/// cached.
pub open spec fn cache_wf(c: CacheV) -> bool {
    &&& price_entries_unique(c.prices)
    &&& profile_entries_unique(c.profiles)
    &&& forall|i: int| 0 <= i < c.prices.len() ==> quote_ok((#[trigger] c.prices[i]).quote)
}

/// Is a cache entry fetched at `fetched_at` still fresh at `now`?
pub open spec fn fresh_at(fetched_at: int, now: int, ttl: int) -> bool {
    fetched_at <= now < fetched_at + ttl
}

/// The quote a lookup at time `now` is served from the cache, if any:
/// the entry for the symbol, provided it is within its time-to-live.
pub open spec fn cached_price(c: CacheV, sym: Seq<char>, now: int) -> Option<QuoteV> {
    if has_price_in(c.prices, sym) {
        let e = c.prices[price_index_in(c.prices, sym)];
        if fresh_at(e.fetched_at, now, PRICE_TTL_SECS as int) {
            Some(e.quote)
        } else {
            None
        }
    } else {
        None
    }
}

/// The profile a lookup at time `now` is served from the cache, if any.
pub open spec fn cached_profile(c: CacheV, sym: Seq<char>, now: int) -> Option<ProfileV> {
    if has_profile_in(c.profiles, sym) {
        let e = c.profiles[profile_index_in(c.profiles, sym)];
        if fresh_at(e.fetched_at, now, PROFILE_TTL_SECS as int) {
            Some(e.profile)
        } else {
            None
        }
    } else {
        None
    }
}

/// The cache after a successful price fetch is recorded: the entry for
/// the symbol is overwritten (or inserted) with the new quote and
/// fetch time; both concurrent fetchers of a missed symbol converge on
/// this same state.
pub open spec fn upsert_price(c: CacheV, sym: Seq<char>, q: QuoteV, now: int) -> CacheV {
    if has_price_in(c.prices, sym) {
        CacheV {
            prices: c.prices.update(
                price_index_in(c.prices, sym),
                PriceEntryV { symbol: sym, quote: q, fetched_at: now },
            ),
            profiles: c.profiles,
        }
    } else {
        CacheV {
            prices: c.prices.push(PriceEntryV { symbol: sym, quote: q, fetched_at: now }),
            profiles: c.profiles,
        }
    }
}

/// The cache after a fetched profile is recorded.
pub open spec fn upsert_profile(c: CacheV, sym: Seq<char>, p: ProfileV, now: int) -> CacheV {
    if has_profile_in(c.profiles, sym) {
        CacheV {
            prices: c.prices,
            profiles: c.profiles.update(
                profile_index_in(c.profiles, sym),
                ProfileEntryV { symbol: sym, profile: p, fetched_at: now },
            ),
        }
    } else {
        CacheV {
            prices: c.prices,
            profiles: c.profiles.push(ProfileEntryV { symbol: sym, profile: p, fetched_at: now }),
        }
    }
}

/// Under key uniqueness, a price entry found at index `i` is the entry
/// every lookup denotes.
pub proof fn lemma_price_lookup_at(s: Seq<PriceEntryV>, sym: Seq<char>, i: int)
    requires
        price_entries_unique(s),
        0 <= i < s.len(),
        s[i].symbol == sym,
    ensures
        has_price_in(s, sym),
        price_index_in(s, sym) == i,
{
    assert(has_price_in(s, sym));
    let j = price_index_in(s, sym);
    assert(s[j].symbol == sym);
}

/// Under key uniqueness, a profile entry found at index `i` is the
/// entry every lookup denotes.
pub proof fn lemma_profile_lookup_at(s: Seq<ProfileEntryV>, sym: Seq<char>, i: int)
    requires
        profile_entries_unique(s),
        0 <= i < s.len(),
        s[i].symbol == sym,
    ensures
        has_profile_in(s, sym),
        profile_index_in(s, sym) == i,
{
    assert(has_profile_in(s, sym));
    let j = profile_index_in(s, sym);
    assert(s[j].symbol == sym);
}

// ---------------------------------------------------------------------
// Operations
// ---------------------------------------------------------------------

impl QuoteCache {
    /// The cache invariant, on the executable cache.
    pub open spec fn wf(&self) -> bool {
        cache_wf(self@)
    }

    /// An empty cache.
    pub fn new() -> (r: QuoteCache)
        ensures
            r.wf(),
            r@.prices == Seq::<PriceEntryV>::empty(),
            r@.profiles == Seq::<ProfileEntryV>::empty(),
    {
        let r = QuoteCache { prices: Vec::new(), profiles: Vec::new() };
        proof {
            assert(r@.prices =~= Seq::<PriceEntryV>::empty());
            assert(r@.profiles =~= Seq::<ProfileEntryV>::empty());
        }
        r
    }

    /// The index of the price entry for `symbol`, if any.
    fn find_price_index(&self, symbol: &String) -> (r: Option<usize>)
        ensures
            match r {
                Some(i) => i < self.prices.len() && self@.prices[i as int].symbol == symbol@
                    && has_price_in(self@.prices, symbol@),
                None => !has_price_in(self@.prices, symbol@),
            },
    {
        let n = self.prices.len();
        let mut i: usize = 0;
        while i < n
            invariant
                n == self.prices.len(),
                i <= n,
                forall|j: int| 0 <= j < i ==> (#[trigger] self@.prices[j]).symbol != symbol@,
            decreases n - i,
        {
            if self.prices[i].symbol == *symbol {
                proof {
                    assert(self@.prices[i as int] == self.prices@[i as int]@);
                }
                return Some(i);
            }
            i += 1;
        }
        None
    }

    /// The index of the profile entry for `symbol`, if any.
    fn find_profile_index(&self, symbol: &String) -> (r: Option<usize>)
        ensures
            match r {
                Some(i) => i < self.profiles.len() && self@.profiles[i as int].symbol == symbol@
                    && has_profile_in(self@.profiles, symbol@),
                None => !has_profile_in(self@.profiles, symbol@),
            },
    {
        let n = self.profiles.len();
        let mut i: usize = 0;
        while i < n
            invariant
                n == self.profiles.len(),
                i <= n,
                forall|j: int| 0 <= j < i ==> (#[trigger] self@.profiles[j]).symbol != symbol@,
            decreases n - i,
        {
            if self.profiles[i].symbol == *symbol {
                proof {
                    assert(self@.profiles[i as int] == self.profiles@[i as int]@);
                }
                return Some(i);
            }
            i += 1;
        }
        None
    }

    /// The price lookup at time `now`: the cached quote while its
    /// time-to-live lasts, otherwise nothing — the caller must then
    /// fetch upstream and record the result with [`store_price`].
    pub fn get_price(&self, symbol: &String, now: u64) -> (r: Option<Quote>)
        requires
            self.wf(),
        ensures
            match r {
                Some(q) => cached_price(self@, symbol@, now as int) == Some(q@),
                None => cached_price(self@, symbol@, now as int) is None,
            },
            r matches Some(q) ==> quote_ok(q@),
    {
        match self.find_price_index(symbol) {
            None => None,
            Some(i) => {
                proof {
                    lemma_price_lookup_at(self@.prices, symbol@, i as int);
                }
                let e = &self.prices[i];
                if e.fetched_at <= now && now - e.fetched_at < PRICE_TTL_SECS {
                    Some(e.quote)
                } else {
                    None
                }
            },
        }
    }

    /// Records the outcome of an upstream price fetch at time `now`. A
    /// non-positive current price is an invalid response: it is never
    /// cached and surfaces as `PriceUnavailable`; a valid quote
    /// overwrites (or creates) the symbol's entry.
    pub fn store_price(&mut self, symbol: &String, quote: Quote, now: u64) -> (r: Result<
        (),
        TradeError,
    >)
        requires
            old(self).wf(),
        ensures
            final(self).wf(),
            quote.price < 1 ==> r == Err::<(), TradeError>(TradeError::PriceUnavailable) && final(self)@ == old(self)@,
            quote.price >= 1 ==> r == Ok::<(), TradeError>(()) && final(self)@ == upsert_price(
                old(self)@,
                symbol@,
                quote@,
                now as int,
            ),
    {
        if quote.price < 1 {
            return Err(TradeError::PriceUnavailable);
        }
        let ghost pre = self@;
        let entry = PriceEntry { symbol: symbol.clone(), quote, fetched_at: now };
        let ghost ev = entry@;
        match self.find_price_index(symbol) {
            Some(i) => {
                proof {
                    lemma_price_lookup_at(pre.prices, symbol@, i as int);
                }
                self.prices[i] = entry;
                proof {
                    assert(final(self)@.prices =~= pre.prices.update(i as int, ev));
                    assert(final(self)@.profiles =~= pre.profiles);
                    assert(final(self)@ =~= upsert_price(pre, symbol@, quote@, now as int));
                }
            },
            None => {
                let ghost n = self.prices.len() as int;
                self.prices.push(entry);
                proof {
                    assert(final(self)@.prices =~= pre.prices.push(ev));
                    assert(final(self)@.profiles =~= pre.profiles);
                    assert(final(self)@ =~= upsert_price(pre, symbol@, quote@, now as int));
                    assert forall|a: int, b: int|
                        0 <= a < final(self)@.prices.len() && 0 <= b < final(self)@.prices.len()
                            && (#[trigger] final(self)@.prices[a]).symbol == (
                        #[trigger] final(self)@.prices[b]).symbol implies a == b by {
                        if a < n && b < n {
                            assert(pre.prices[a].symbol == pre.prices[b].symbol);
                        }
                    }
                }
            },
        }
        Ok(())
    }

    /// The profile lookup at time `now`: the cached profile while its
    /// (day-long) time-to-live lasts.
    pub fn get_profile(&self, symbol: &String, now: u64) -> (r: Option<FinnhubProfile>)
        requires
            self.wf(),
        ensures
            match r {
                Some(p) => cached_profile(self@, symbol@, now as int) == Some(p@),
                None => cached_profile(self@, symbol@, now as int) is None,
            },
    {
        match self.find_profile_index(symbol) {
            None => None,
            Some(i) => {
                proof {
                    lemma_profile_lookup_at(self@.profiles, symbol@, i as int);
                }
                let e = &self.profiles[i];
                if e.fetched_at <= now && now - e.fetched_at < PROFILE_TTL_SECS {
                    Some(
                        FinnhubProfile {
                            name: e.profile.name.clone(),
                            logo: e.profile.logo.clone(),
                            finnhub_industry: e.profile.finnhub_industry.clone(),
                        },
                    )
                } else {
                    None
                }
            },
        }
    }

    /// Records a fetched profile at time `now`, overwriting (or
    /// creating) the symbol's entry.
    pub fn store_profile(&mut self, symbol: &String, profile: FinnhubProfile, now: u64)
        requires
            old(self).wf(),
        ensures
            final(self).wf(),
            final(self)@ == upsert_profile(old(self)@, symbol@, profile@, now as int),
    {
        let ghost pre = self@;
        let entry = ProfileEntry { symbol: symbol.clone(), profile, fetched_at: now };
        let ghost ev = entry@;
        match self.find_profile_index(symbol) {
            Some(i) => {
                proof {
                    lemma_profile_lookup_at(pre.profiles, symbol@, i as int);
                }
                self.profiles[i] = entry;
                proof {
                    assert(final(self)@.profiles =~= pre.profiles.update(i as int, ev));
                    assert(final(self)@.prices =~= pre.prices);
                    assert(final(self)@ =~= upsert_profile(pre, symbol@, profile@, now as int));
                }
            },
            None => {
                let ghost n = self.profiles.len() as int;
                self.profiles.push(entry);
                proof {
                    assert(final(self)@.profiles =~= pre.profiles.push(ev));
                    assert(final(self)@.prices =~= pre.prices);
                    assert(final(self)@ =~= upsert_profile(pre, symbol@, profile@, now as int));
                    assert forall|a: int, b: int|
                        0 <= a < final(self)@.profiles.len() && 0 <= b < final(self)@.profiles.len()
                            && (#[trigger] final(self)@.profiles[a]).symbol == (
                        #[trigger] final(self)@.profiles[b]).symbol implies a == b by {
                        if a < n && b < n {
                            assert(pre.profiles[a].symbol == pre.profiles[b].symbol);
                        }
                    }
                }
            },
        }
    }
}

// ---------------------------------------------------------------------
// Laws
// ---------------------------------------------------------------------

/// A price fetched once is served from the cache for the whole
/// time-to-live window: a second lookup within it needs no upstream
/// call.
pub proof fn lemma_second_lookup_hits_cache(
    c: CacheV,
    sym: Seq<char>,
    q: QuoteV,
    t: int,
    t2: int,
)
    requires
        cache_wf(c),
        t <= t2 < t + PRICE_TTL_SECS,
    ensures
        cached_price(upsert_price(c, sym, q, t), sym, t2) == Some(q),
{
    let c1 = upsert_price(c, sym, q, t);
    let e = PriceEntryV { symbol: sym, quote: q, fetched_at: t };
    if has_price_in(c.prices, sym) {
        let i = price_index_in(c.prices, sym);
        assert(0 <= i < c.prices.len());
        assert(c1.prices[i] == e);
        assert forall|a: int, b: int|
            0 <= a < c1.prices.len() && 0 <= b < c1.prices.len() && (
            #[trigger] c1.prices[a]).symbol == (#[trigger] c1.prices[b]).symbol implies a == b by {
            assert(c1.prices[a].symbol == c.prices[a].symbol);
            assert(c1.prices[b].symbol == c.prices[b].symbol);
        }
        lemma_price_lookup_at(c1.prices, sym, i);
    } else {
        let n = c.prices.len() as int;
        assert(c1.prices[n] == e);
        assert forall|a: int, b: int|
            0 <= a < c1.prices.len() && 0 <= b < c1.prices.len() && (
            #[trigger] c1.prices[a]).symbol == (#[trigger] c1.prices[b]).symbol implies a == b by {
            if a < n && b < n {
                assert(c.prices[a].symbol == c.prices[b].symbol);
            } else if a < n {
                assert(c.prices[a].symbol == sym);
                assert(has_price_in(c.prices, sym));
            } else if b < n {
                assert(c.prices[b].symbol == sym);
                assert(has_price_in(c.prices, sym));
            }
        }
        lemma_price_lookup_at(c1.prices, sym, n);
    }
}

/// Once the time-to-live has passed, the cache misses and a new
/// upstream call must be issued.
pub proof fn lemma_expired_entry_misses(c: CacheV, sym: Seq<char>, q: QuoteV, t: int, t2: int)
    requires
        cache_wf(c),
        t2 >= t + PRICE_TTL_SECS || t2 < t,
    ensures
        cached_price(upsert_price(c, sym, q, t), sym, t2) is None,
{
    let c1 = upsert_price(c, sym, q, t);
    let e = PriceEntryV { symbol: sym, quote: q, fetched_at: t };
    if has_price_in(c.prices, sym) {
        let i = price_index_in(c.prices, sym);
        assert(0 <= i < c.prices.len());
        assert(c1.prices[i] == e);
        assert forall|a: int, b: int|
            0 <= a < c1.prices.len() && 0 <= b < c1.prices.len() && (
            #[trigger] c1.prices[a]).symbol == (#[trigger] c1.prices[b]).symbol implies a == b by {
            assert(c1.prices[a].symbol == c.prices[a].symbol);
            assert(c1.prices[b].symbol == c.prices[b].symbol);
        }
        lemma_price_lookup_at(c1.prices, sym, i);
    } else {
        let n = c.prices.len() as int;
        assert(c1.prices[n] == e);
        assert forall|a: int, b: int|
            0 <= a < c1.prices.len() && 0 <= b < c1.prices.len() && (
            #[trigger] c1.prices[a]).symbol == (#[trigger] c1.prices[b]).symbol implies a == b by {
            if a < n && b < n {
                assert(c.prices[a].symbol == c.prices[b].symbol);
            } else if a < n {
                assert(c.prices[a].symbol == sym);
                assert(has_price_in(c.prices, sym));
            } else if b < n {
                assert(c.prices[b].symbol == sym);
                assert(has_price_in(c.prices, sym));
            }
        }
        lemma_price_lookup_at(c1.prices, sym, n);
    }
}

} // verus!
