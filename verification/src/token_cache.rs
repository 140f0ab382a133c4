//! A token cache whose decisions take the clock reading as an argument.
//!
//! Instants are nanoseconds since the Unix epoch. A cached token is served
//! while the clock is before its expiry instant, and becomes due for a
//! background refresh once the clock plus the refresh margin passes that
//! instant. A failed fetch clears what was cached for that provider. The
//! caller performs the fetches and the sleeping; the cache decides what to
//! serve, what to refresh and what to keep. A ghost history records every
//! (provider, token) pair ever stored from a provider's answer; whatever
//! is served for a provider is in that history under the same provider.

use vstd::prelude::*;
use vstd::string::*;
use crate::name_table::NameTable;
use crate::runtime::{RuntimeError, TokenResponse};

verus! {

/// Nanoseconds in one second.
pub const NANOS_PER_SECOND: i128 = 1_000_000_000;

/// The largest number of seconds that a lifetime or a refresh margin may
/// span: a span of seconds converts to milliseconds within an `i64`.
pub const MAX_SPAN_SECONDS: u64 = 9_223_372_036_854_775;

/// The earliest instant that a UTC date-time can hold, in nanoseconds since
/// the epoch: the start of January 1 of the year -262143.
pub const EARLIEST_INSTANT_NANOS: i128 = -8_334_601_315_200_000_000_000;

/// The latest instant that a UTC date-time can hold, in nanoseconds since
/// the epoch: the last nanosecond of December 31 of the year 262142.
pub const LATEST_INSTANT_NANOS: i128 = 8_210_266_876_799_999_999_999;

/// Fallback for the remaining lifetime when a refreshed token cannot be
/// read back from the cache.
pub const FALLBACK_EXPIRES_IN_SECONDS: u64 = 3600;

/// The lifetime that the refresh schedule is planned around.
pub const TOKEN_LIFETIME_SECONDS: i64 = 3600;

/// What the cache holds for one provider.
pub struct CachedTokenView {
    pub access_token: Seq<char>,
    pub token_type: Seq<char>,
    /// Expiry instant, in nanoseconds since the epoch.
    pub expires_at: int,
    /// Seconds before expiry at which a refresh becomes due.
    pub refresh_margin_seconds: int,
}

/// A token in the cache with its expiry bookkeeping.
pub struct CachedToken {
    access_token: String,
    token_type: String,
    expires_at: i128,
    refresh_margin_seconds: i64,
}

impl View for CachedToken {
    type V = CachedTokenView;

    closed spec fn view(&self) -> CachedTokenView {
        CachedTokenView {
            access_token: self.access_token@,
            token_type: self.token_type@,
            expires_at: self.expires_at as int,
            refresh_margin_seconds: self.refresh_margin_seconds as int,
        }
    }
}

/// The character sequences of a list of strings.
pub open spec fn string_views(v: Seq<String>) -> Seq<Seq<char>> {
    v.map_values(|s: String| s@)
}

/// The token may still be used at `now`.
pub open spec fn token_is_valid(t: CachedTokenView, now: int) -> bool {
    now < t.expires_at
}

/// At `now` the token is within its refresh margin of expiry (or past it).
pub open spec fn token_should_refresh(t: CachedTokenView, now: int) -> bool {
    now + t.refresh_margin_seconds * NANOS_PER_SECOND > t.expires_at
}

/// Whole seconds left before expiry at `now`, and 0 once it has passed.
pub open spec fn remaining_seconds(t: CachedTokenView, now: int) -> int {
    if t.expires_at > now {
        (t.expires_at - now) / (NANOS_PER_SECOND as int)
    } else {
        0
    }
}

/// The entry that a token fetched at `fetched_at` becomes.
pub open spec fn entry_for(
    access_token: Seq<char>,
    token_type: Seq<char>,
    expires_in: int,
    fetched_at: int,
    margin: int,
) -> CachedTokenView {
    CachedTokenView {
        access_token,
        token_type,
        expires_at: fetched_at + expires_in * NANOS_PER_SECOND,
        refresh_margin_seconds: margin,
    }
}

/// What a lookup serves: the cached token and its remaining seconds when it
/// is still valid, nothing otherwise.
pub open spec fn cache_hit(tokens: Map<Seq<char>, CachedTokenView>, name: Seq<char>, now: int) -> Option<
    (Seq<char>, int),
> {
    if tokens.contains_key(name) && token_is_valid(tokens[name], now) {
        Some((tokens[name].access_token, remaining_seconds(tokens[name], now)))
    } else {
        None
    }
}

/// The value of the sleep interval of the refresh loop: the planned token
/// lifetime minus the margin, as an unsigned number of seconds (a negative
/// difference wraps around).
pub open spec fn refresh_interval_spec(margin: int) -> int {
    if TOKEN_LIFETIME_SECONDS - margin >= 0 {
        TOKEN_LIFETIME_SECONDS - margin
    } else {
        TOKEN_LIFETIME_SECONDS - margin + 0x1_0000_0000_0000_0000
    }
}

/// An instant that a UTC date-time can hold.
pub open spec fn instant_in_range(t: int) -> bool {
    EARLIEST_INSTANT_NANOS <= t <= LATEST_INSTANT_NANOS
}

/// A token's `expires_in` read as a signed number of seconds: values past
/// `i64::MAX` wrap around to negative lifetimes.
pub open spec fn signed_seconds(expires_in: u64) -> int {
    if expires_in <= i64::MAX {
        expires_in as int
    } else {
        expires_in as int - 0x1_0000_0000_0000_0000
    }
}

/// A span of seconds that converts to a duration.
pub open spec fn span_in_range(seconds: int) -> bool {
    -(MAX_SPAN_SECONDS as int) <= seconds <= MAX_SPAN_SECONDS
}

/// A token with this `expires_in`, fetched at `fetched_at`, has an expiry
/// that can be computed: its lifetime converts to a duration and its expiry
/// instant can be held.
pub open spec fn expiry_in_range(expires_in: u64, fetched_at: int) -> bool {
    &&& span_in_range(signed_seconds(expires_in))
    &&& instant_in_range(fetched_at + signed_seconds(expires_in) * NANOS_PER_SECOND)
}

/// Bounds that every entry keeps: a margin that converts to a duration, and
/// an expiry instant that can be held.
pub open spec fn entry_bounded(t: CachedTokenView) -> bool {
    &&& span_in_range(t.refresh_margin_seconds)
    &&& instant_in_range(t.expires_at)
}

/// `expires_in` read as a signed number of seconds.
pub fn lifetime_seconds(expires_in: u64) -> (s: i64)
    ensures
        s == signed_seconds(expires_in),
{
    let s: i64 = #[verifier::truncate] (expires_in as i64);
    assert(s == (if expires_in <= 0x7fff_ffff_ffff_ffff { expires_in as int } else { expires_in
        - 0x1_0000_0000_0000_0000 })) by (bit_vector)
        requires
            s == #[verifier::truncate] (expires_in as i64),
    ;
    s
}

/// Whether a token with this `expires_in`, fetched at `fetched_at`, has an
/// expiry that can be computed.
pub fn expiry_representable(expires_in: u64, fetched_at: i64) -> (r: bool)
    ensures
        r == expiry_in_range(expires_in, fetched_at as int),
{
    let secs = lifetime_seconds(expires_in);
    if secs < -(MAX_SPAN_SECONDS as i64) || secs > MAX_SPAN_SECONDS as i64 {
        false
    } else {
        let at = (fetched_at as i128) + (secs as i128) * NANOS_PER_SECOND;
        EARLIEST_INSTANT_NANOS <= at && at <= LATEST_INSTANT_NANOS
    }
}

impl CachedToken {
    /// Whether the token may still be used at `now`.
    pub fn is_valid(&self, now: i64) -> (r: bool)
        ensures
            r == token_is_valid(self@, now as int),
    {
        (now as i128) < self.expires_at
    }

    /// Whether the token is within its refresh margin of expiry at `now`.
    pub fn should_refresh(&self, now: i64) -> (r: bool)
        requires
            entry_bounded(self@),
        ensures
            r == token_should_refresh(self@, now as int),
    {
        (now as i128) + (self.refresh_margin_seconds as i128) * NANOS_PER_SECOND > self.expires_at
    }
}


/// Cached tokens by provider name, with the refresh margin that new entries
/// are given.
pub struct TokenCache {
    tokens: NameTable<CachedToken>,
    refresh_margin_seconds: i64,
    stored: Ghost<Set<(Seq<char>, Seq<char>)>>,
}

impl View for TokenCache {
    type V = Map<Seq<char>, CachedTokenView>;

    closed spec fn view(&self) -> Map<Seq<char>, CachedTokenView> {
        self.tokens@.map_values(|t: CachedToken| t@)
    }
}

impl TokenCache {
    /// The margin, in seconds, that newly stored tokens are given.
    pub closed spec fn margin(&self) -> int {
        self.refresh_margin_seconds as int
    }

    /// Every (provider, token) pair that has ever been stored from a
    /// provider's answer.
    pub closed spec fn history(&self) -> Set<(Seq<char>, Seq<char>)> {
        self.stored@
    }

    /// Every entry keeps its bounds and the cache's margin, and was stored
    /// under its own name.
    #[verifier::type_invariant]
    closed spec fn entries_well_kept(&self) -> bool {
        forall|k: Seq<char>| #[trigger]
            self.tokens@.contains_key(k) ==> {
                &&& entry_bounded(self.tokens@[k]@)
                &&& self.tokens@[k]@.refresh_margin_seconds == self.refresh_margin_seconds
                &&& self.stored@.contains((k, self.tokens@[k]@.access_token))
            }
    }

    /// What the cache keeps for every entry: bounds that its arithmetic
    /// needs, the cache's own refresh margin, and a place in the history
    /// under its own name.
    pub open spec fn well_kept(&self) -> bool {
        forall|k: Seq<char>| #[trigger]
            self@.contains_key(k) ==> {
                &&& entry_bounded(self@[k])
                &&& self@[k].refresh_margin_seconds == self.margin()
                &&& self.history().contains((k, self@[k].access_token))
            }
    }

    /// Every due-check at `now` can add the margin to the clock reading.
    pub open spec fn scan_in_range(&self, now: int) -> bool {
        forall|k: Seq<char>| #[trigger]
            self@.contains_key(k) ==> instant_in_range(
                now + self@[k].refresh_margin_seconds * NANOS_PER_SECOND,
            )
    }

    /// An empty cache whose entries will be refreshed
    /// `refresh_margin_seconds` before they expire.
    pub fn new(refresh_margin_seconds: i64) -> (c: Self)
        ensures
            c@ == Map::<Seq<char>, CachedTokenView>::empty(),
            c.margin() == refresh_margin_seconds,
            c.history() == Set::<(Seq<char>, Seq<char>)>::empty(),
            c.well_kept(),
    {
        let c = TokenCache {
            tokens: NameTable::new(),
            refresh_margin_seconds,
            stored: Ghost(Set::empty()),
        };
        assert(c@ =~= Map::<Seq<char>, CachedTokenView>::empty());
        c
    }

    /// The refresh margin in seconds.
    pub fn refresh_margin_seconds(&self) -> (m: i64)
        ensures
            m == self.margin(),
            self.well_kept(),
    {
        proof {
            use_type_invariant(self);
        }
        self.refresh_margin_seconds
    }

    /// The cache-hit path of a token request: the token cached for
    /// `provider_name` and its remaining whole seconds, when that token is
    /// still valid at `now`. `None` means that a fresh token has to be
    /// fetched (see `complete_refresh`).
    pub fn get_token_with_expiry(&self, provider_name: &str, now: i64) -> (r: Option<(String, u64)>)
        ensures
            r is Some <==> cache_hit(self@, provider_name@, now as int) is Some,
            r matches Some((token, secs)) ==> cache_hit(self@, provider_name@, now as int) == Some(
                (token@, secs as int),
            ),
            r matches Some((token, _)) ==> self.history().contains((provider_name@, token@)),
    {
        proof {
            use_type_invariant(self);
        }
        match self.tokens.find(provider_name) {
            Some(i) => {
                let cached = self.tokens.value_at(i);
                proof {
                    assert(self.tokens@.contains_key(provider_name@));
                }
                if cached.is_valid(now) {
                    let secs = ((cached.expires_at - (now as i128)) / NANOS_PER_SECOND) as u64;
                    Some((cached.access_token.clone(), secs))
                } else {
                    None
                }
            },
            None => None,
        }
    }


    /// The token for `provider_name` when a valid one is cached at `now`.
    pub fn get_token(&self, provider_name: &str, now: i64) -> (r: Option<String>)
        ensures
            r is Some <==> cache_hit(self@, provider_name@, now as int) is Some,
            r matches Some(token) ==> cache_hit(self@, provider_name@, now as int)->Some_0.0
                == token@,
            r matches Some(token) ==> self.history().contains((provider_name@, token@)),
    {
        match self.get_token_with_expiry(provider_name, now) {
            Some((token, _)) => Some(token),
            None => None,
        }
    }

    /// Caches `response` for `provider_name` as fetched at `fetched_at`:
    /// it expires `expires_in` seconds later and takes the cache's margin.
    /// Any earlier entry for the provider is replaced. Returns the token.
    pub fn store_token(&mut self, provider_name: &str, response: TokenResponse, fetched_at: i64) -> (token: String)
        requires
            expiry_in_range(response.expires_in, fetched_at as int),
            span_in_range(old(self).margin()),
        ensures
            final(self)@ == old(self)@.insert(
                provider_name@,
                entry_for(
                    response.access_token@,
                    response.token_type@,
                    signed_seconds(response.expires_in),
                    fetched_at as int,
                    old(self).margin(),
                ),
            ),
            final(self).margin() == old(self).margin(),
            final(self).history() == old(self).history().insert(
                (provider_name@, response.access_token@),
            ),
            token@ == response.access_token@,
            final(self).well_kept(),
    {
        proof {
            use_type_invariant(&*self);
        }
        let secs = lifetime_seconds(response.expires_in);
        let expires_at = (fetched_at as i128) + (secs as i128) * NANOS_PER_SECOND;
        let token = response.access_token.clone();
        let entry = CachedToken {
            access_token: response.access_token,
            token_type: response.token_type,
            expires_at,
            refresh_margin_seconds: self.refresh_margin_seconds,
        };
        let ghost before = self.tokens@;
        let ghost added = entry@;
        let ghost pair = (provider_name@, token@);
        self.stored = Ghost(self.stored@.insert(pair));
        let mut tokens = NameTable::new();
        std::mem::swap(&mut tokens, &mut self.tokens);
        tokens.insert(String::from_str(provider_name), entry);
        self.tokens = tokens;
        proof {
            assert(self.tokens@ == before.insert(provider_name@, entry));
            assert(self@ =~= old(self)@.insert(
                provider_name@,
                entry_for(
                    response.access_token@,
                    response.token_type@,
                    signed_seconds(response.expires_in),
                    fetched_at as int,
                    old(self).margin(),
                ),
            ));
            use_type_invariant(&*self);
        }
        token
    }


    /// Whole seconds left, at `now`, on the token cached for
    /// `provider_name`; the fallback when none is cached.
    pub fn expires_in_seconds(&self, provider_name: &str, now: i64) -> (secs: u64)
        ensures
            self@.contains_key(provider_name@) ==> secs == remaining_seconds(
                self@[provider_name@],
                now as int,
            ),
            !self@.contains_key(provider_name@) ==> secs == FALLBACK_EXPIRES_IN_SECONDS,
    {
        proof {
            use_type_invariant(self);
        }
        match self.tokens.find(provider_name) {
            Some(i) => {
                let cached = self.tokens.value_at(i);
                proof {
                    assert(self.tokens@.contains_key(provider_name@));
                }
                if cached.expires_at > (now as i128) {
                    ((cached.expires_at - (now as i128)) / NANOS_PER_SECOND) as u64
                } else {
                    0
                }
            },
            None => FALLBACK_EXPIRES_IN_SECONDS,
        }
    }

    /// Drops whatever is cached for `provider_name`.
    pub fn invalidate(&mut self, provider_name: &str)
        ensures
            final(self)@ == old(self)@.remove(provider_name@),
            final(self).margin() == old(self).margin(),
            final(self).history() == old(self).history(),
            final(self).well_kept(),
    {
        proof {
            use_type_invariant(&*self);
        }
        let ghost before = self.tokens@;
        let mut tokens = NameTable::new();
        std::mem::swap(&mut tokens, &mut self.tokens);
        tokens.remove(provider_name);
        self.tokens = tokens;
        proof {
            assert(self.tokens@ == before.remove(provider_name@));
            assert(self@ =~= old(self)@.remove(provider_name@));
            use_type_invariant(&*self);
        }
    }

    /// The miss path of a token request, once the provider has answered:
    /// a fetched token, obtained at `fetched_at`, is cached and handed back
    /// with its remaining seconds read at `now`; a failed fetch clears what
    /// was cached for the provider and hands the error back.
    pub fn complete_refresh(
        &mut self,
        provider_name: &str,
        fetched: Result<TokenResponse, RuntimeError>,
        fetched_at: i64,
        now: i64,
    ) -> (r: Result<(String, u64), RuntimeError>)
        requires
            fetched matches Ok(resp) ==> expiry_in_range(resp.expires_in, fetched_at as int),
            fetched is Ok ==> span_in_range(old(self).margin()),
        ensures
            final(self).margin() == old(self).margin(),
            final(self).well_kept(),
            fetched matches Err(e) ==> {
                &&& r == Err::<(String, u64), RuntimeError>(e)
                &&& final(self)@ == old(self)@.remove(provider_name@)
                &&& final(self).history() == old(self).history()
            },
            fetched matches Ok(resp) ==> {
                &&& final(self)@ == old(self)@.insert(
                    provider_name@,
                    entry_for(
                        resp.access_token@,
                        resp.token_type@,
                        signed_seconds(resp.expires_in),
                        fetched_at as int,
                        old(self).margin(),
                    ),
                )
                &&& final(self).history() == old(self).history().insert(
                    (provider_name@, resp.access_token@),
                )
                &&& r matches Ok((token, secs))
                &&& token@ == resp.access_token@
                &&& secs == remaining_seconds(final(self)@[provider_name@], now as int)
            },
    {
        match fetched {
            Err(e) => {
                self.invalidate(provider_name);
                Err(e)
            },
            Ok(resp) => {
                let token = self.store_token(provider_name, resp, fetched_at);
                let secs = self.expires_in_seconds(provider_name, now);
                Ok((token, secs))
            },
        }
    }

    /// Sleep interval, in seconds, of the background refresh loop: the
    /// planned token lifetime minus the margin (wrapping when negative).
    pub fn refresh_interval_seconds(&self) -> (secs: u64)
        requires
            TOKEN_LIFETIME_SECONDS - self.margin() <= i64::MAX,
        ensures
            secs == refresh_interval_spec(self.margin()),
    {
        let interval: i64 = TOKEN_LIFETIME_SECONDS - self.refresh_margin_seconds;
        let secs: u64 = #[verifier::truncate] (interval as u64);
        assert(secs == (if interval >= 0 { interval as int } else { interval + 0x1_0000_0000_0000_0000 })) by (bit_vector)
            requires
                secs == #[verifier::truncate] (interval as u64),
        ;
        secs
    }

    /// Whether every due-check at `now` can add the margin to the clock
    /// reading.
    pub fn can_scan(&self, now: i64) -> (r: bool)
        ensures
            r == self.scan_in_range(now as int),
    {
        proof {
            use_type_invariant(self);
            use_type_invariant(&self.tokens);
            self.tokens.lemma_storage();
        }
        if self.tokens.len() == 0 {
            proof {
                assert forall|k: Seq<char>| !#[trigger] self@.contains_key(k) by {
                    if self.tokens@.contains_key(k) {
                        assert(self.tokens.names().contains(k));
                    }
                }
            }
            true
        } else {
            let at = (now as i128) + (self.refresh_margin_seconds as i128) * NANOS_PER_SECOND;
            proof {
                let k = self.tokens.names()[0];
                assert(self.tokens.names().contains(k));
                assert(self.tokens@.contains_key(k));
                assert(self@.contains_key(k));
            }
            EARLIEST_INSTANT_NANOS <= at && at <= LATEST_INSTANT_NANOS
        }
    }

    /// The providers whose tokens are due for a refresh at `now`, each once.
    pub fn tokens_to_refresh(&self, now: i64) -> (names: Vec<String>)
        requires
            self.scan_in_range(now as int),
        ensures
            string_views(names@).no_duplicates(),
            forall|k: Seq<char>|
                #![trigger string_views(names@).contains(k)]
                string_views(names@).contains(k) <==> (self@.contains_key(k)
                    && token_should_refresh(self@[k], now as int)),
    {
        proof {
            use_type_invariant(self);
            use_type_invariant(&self.tokens);
            self.tokens.lemma_storage();
        }
        let n = self.tokens.len();
        let mut names: Vec<String> = Vec::new();
        let mut i: usize = 0;
        while i < n
            invariant
                n == self.tokens.names().len(),
                n == self.tokens.values().len(),
                0 <= i <= n,
                self.tokens.names().no_duplicates(),
                forall|k: Seq<char>| #[trigger]
                    self.tokens@.contains_key(k) <==> self.tokens.names().contains(k),
                forall|j: int|
                    0 <= j < n ==> #[trigger] self.tokens@[self.tokens.names()[j]]
                        == self.tokens.values()[j],
                forall|k: Seq<char>| #[trigger]
                    self.tokens@.contains_key(k) ==> entry_bounded(self.tokens@[k]@),
                string_views(names@).no_duplicates(),
                forall|k: Seq<char>|
                    #![trigger string_views(names@).contains(k)]
                    string_views(names@).contains(k) <==> (exists|j: int|
                        0 <= j < i && self.tokens.names()[j] == k && token_should_refresh(
                            self.tokens.values()[j]@,
                            now as int,
                        )),
            decreases n - i,
        {
            let cached = self.tokens.value_at(i);
            let name = self.tokens.name_at(i);
            let ghost before = string_views(names@);
            proof {
                let k = self.tokens.names()[i as int];
                assert(self.tokens.names().contains(k));
                assert(self.tokens@.contains_key(k));
            }
            if cached.should_refresh(now) {
                names.push(name.clone());
                proof {
                    let after = string_views(names@);
                    assert(after =~= before.push(name@));
                    assert(!before.contains(name@)) by {
                        if before.contains(name@) {
                            let j = choose|j: int|
                                0 <= j < i && self.tokens.names()[j] == name@
                                    && token_should_refresh(self.tokens.values()[j]@, now as int);
                            assert(self.tokens.names()[j] == self.tokens.names()[i as int]);
                        }
                    }
                    assert forall|k: Seq<char>|
                        #![trigger after.contains(k)]
                        after.contains(k) <==> (exists|j: int|
                            0 <= j < i + 1 && self.tokens.names()[j] == k && token_should_refresh(
                                self.tokens.values()[j]@,
                                now as int,
                            )) by {
                        if after.contains(k) && k != name@ {
                            let m = choose|m: int| 0 <= m < after.len() && after[m] == k;
                            assert(before[m] == k);
                            assert(before.contains(k));
                        }
                        if k == name@ {
                            assert(after[after.len() - 1] == k);
                        }
                        if exists|j: int|
                            0 <= j < i && self.tokens.names()[j] == k && token_should_refresh(
                                self.tokens.values()[j]@,
                                now as int,
                            ) {
                            assert(before.contains(k));
                            let m = choose|m: int| 0 <= m < before.len() && before[m] == k;
                            assert(after[m] == k);
                        }
                    }
                }
            } else {
                proof {
                    assert forall|k: Seq<char>|
                        #![trigger before.contains(k)]
                        before.contains(k) <==> (exists|j: int|
                            0 <= j < i + 1 && self.tokens.names()[j] == k && token_should_refresh(
                                self.tokens.values()[j]@,
                                now as int,
                            )) by {
                        if exists|j: int|
                            0 <= j < i + 1 && self.tokens.names()[j] == k && token_should_refresh(
                                self.tokens.values()[j]@,
                                now as int,
                            ) {
                            let j = choose|j: int|
                                0 <= j < i + 1 && self.tokens.names()[j] == k
                                    && token_should_refresh(self.tokens.values()[j]@, now as int);
                            assert(j != i);
                        }
                    }
                }
            }
            i = i + 1;
        }
        proof {
            let out = string_views(names@);
            assert forall|k: Seq<char>|
                #![trigger out.contains(k)]
                out.contains(k) <==> (self@.contains_key(k) && token_should_refresh(
                    self@[k],
                    now as int,
                )) by {
                if out.contains(k) {
                    let j = choose|j: int|
                        0 <= j < n && self.tokens.names()[j] == k && token_should_refresh(
                            self.tokens.values()[j]@,
                            now as int,
                        );
                    assert(self.tokens.names().contains(k));
                }
                if self@.contains_key(k) && token_should_refresh(self@[k], now as int) {
                    assert(self.tokens.names().contains(k));
                    let j = choose|j: int| 0 <= j < n && self.tokens.names()[j] == k;
                    assert(self.tokens@[self.tokens.names()[j]] == self.tokens.values()[j]);
                }
            }
        }
        names
    }

    /// Outcome of one background refresh of `provider_name`: a fetched
    /// token, obtained at `fetched_at`, replaces the cached one; a failed
    /// fetch clears what was cached for the provider, leaves every other
    /// provider's entry as it was, and hands the error back.
    pub fn apply_background_refresh(
        &mut self,
        provider_name: &str,
        fetched: Result<TokenResponse, RuntimeError>,
        fetched_at: i64,
    ) -> (r: Result<(), RuntimeError>)
        requires
            fetched matches Ok(resp) ==> expiry_in_range(resp.expires_in, fetched_at as int),
            fetched is Ok ==> span_in_range(old(self).margin()),
        ensures
            final(self).margin() == old(self).margin(),
            final(self).well_kept(),
            fetched matches Err(e) ==> {
                &&& r == Err::<(), RuntimeError>(e)
                &&& final(self)@ == old(self)@.remove(provider_name@)
                &&& final(self).history() == old(self).history()
            },
            fetched matches Ok(resp) ==> {
                &&& r is Ok
                &&& final(self)@ == old(self)@.insert(
                    provider_name@,
                    entry_for(
                        resp.access_token@,
                        resp.token_type@,
                        signed_seconds(resp.expires_in),
                        fetched_at as int,
                        old(self).margin(),
                    ),
                )
                &&& final(self).history() == old(self).history().insert(
                    (provider_name@, resp.access_token@),
                )
            },
    {
        match fetched {
            Err(e) => {
                self.invalidate(provider_name);
                Err(e)
            },
            Ok(resp) => {
                let _ = self.store_token(provider_name, resp, fetched_at);
                Ok(())
            },
        }
    }
}


/// A token cached at `fetched_at` with a lifetime of `expires_in` seconds is
/// served, instead of being fetched again, at every instant from
/// `fetched_at` until its expiry, and the remaining seconds reported with
/// it never exceed its lifetime.
pub proof fn lemma_stored_token_is_served(
    tokens: Map<Seq<char>, CachedTokenView>,
    name: Seq<char>,
    access_token: Seq<char>,
    token_type: Seq<char>,
    expires_in: nat,
    fetched_at: int,
    margin: int,
    now: int,
)
    requires
        fetched_at <= now < fetched_at + expires_in * NANOS_PER_SECOND,
    ensures
        ({
            let cached = tokens.insert(
                name,
                entry_for(access_token, token_type, expires_in as int, fetched_at, margin),
            );
            &&& cache_hit(cached, name, now) matches Some((token, secs))
            &&& token == access_token
            &&& 0 <= secs <= expires_in
            &&& secs * 1_000_000_000 <= fetched_at + expires_in * 1_000_000_000 - now < (secs + 1)
                * 1_000_000_000
            &&& now == fetched_at ==> secs == expires_in
        }),
{
    let left = fetched_at + expires_in * NANOS_PER_SECOND - now;
    let q = left / (NANOS_PER_SECOND as int);
    assert(q * 1_000_000_000 <= left < (q + 1) * 1_000_000_000) by (nonlinear_arith)
        requires
            0 < left,
            q == left / (NANOS_PER_SECOND as int),
            NANOS_PER_SECOND == 1_000_000_000,
    ;
    if now == fetched_at {
        assert(q == expires_in) by (nonlinear_arith)
            requires
                q * 1_000_000_000 <= left < (q + 1) * 1_000_000_000,
                left == expires_in * 1_000_000_000,
        ;
    }
    assert(left / (NANOS_PER_SECOND as int) <= expires_in) by (nonlinear_arith)
        requires
            0 < left <= expires_in * NANOS_PER_SECOND,
            NANOS_PER_SECOND == 1_000_000_000,
    ;
    assert(left / (NANOS_PER_SECOND as int) >= 0) by (nonlinear_arith)
        requires
            0 < left,
            NANOS_PER_SECOND == 1_000_000_000,
    ;
}

/// Caching a token for one provider changes nothing that is served for
/// another provider.
pub proof fn lemma_store_leaves_other_providers(
    tokens: Map<Seq<char>, CachedTokenView>,
    name: Seq<char>,
    entry: CachedTokenView,
    other: Seq<char>,
    now: int,
)
    requires
        other != name,
    ensures
        cache_hit(tokens.insert(name, entry), other, now) == cache_hit(tokens, other, now),
{
}

/// A token that can no longer be served is due for a refresh, when the
/// refresh margin is positive.
pub proof fn lemma_expired_token_is_due(t: CachedTokenView, now: int)
    requires
        t.refresh_margin_seconds > 0,
        !token_is_valid(t, now),
    ensures
        token_should_refresh(t, now),
{
}

/// Once a token is due for a refresh it stays due as time passes.
pub proof fn lemma_due_stays_due(t: CachedTokenView, now: int, later: int)
    requires
        now <= later,
        token_should_refresh(t, now),
    ensures
        token_should_refresh(t, later),
{
}

/// Once a token has expired it stays expired as time passes.
pub proof fn lemma_expired_stays_expired(t: CachedTokenView, now: int, later: int)
    requires
        now <= later,
        !token_is_valid(t, now),
    ensures
        !token_is_valid(t, later),
{
}

/// The remaining seconds of a token never grow as time passes.
pub proof fn lemma_remaining_never_grows(t: CachedTokenView, now: int, later: int)
    requires
        now <= later,
    ensures
        0 <= remaining_seconds(t, later) <= remaining_seconds(t, now),
{
    if t.expires_at > later {
        let a = t.expires_at - later;
        let b = t.expires_at - now;
        assert(0 <= a / (NANOS_PER_SECOND as int) <= b / (NANOS_PER_SECOND as int)) by (nonlinear_arith)
            requires
                0 < a <= b,
                NANOS_PER_SECOND == 1_000_000_000,
        ;
    } else if t.expires_at > now {
        let b = t.expires_at - now;
        assert(0 <= b / (NANOS_PER_SECOND as int)) by (nonlinear_arith)
            requires
                0 < b,
                NANOS_PER_SECOND == 1_000_000_000,
        ;
    }
}

/// With a positive margin a token becomes due for a refresh while it can
/// still be served: just before its expiry it is both valid and due.
pub proof fn lemma_refresh_comes_before_expiry(t: CachedTokenView)
    requires
        t.refresh_margin_seconds > 0,
    ensures
        token_is_valid(t, t.expires_at - 1),
        token_should_refresh(t, t.expires_at - 1),
{
}


/// After a failed fetch clears a provider's entry, nothing is served for
/// that provider until a fetch succeeds, and every other provider is
/// served as before.
pub proof fn lemma_cleared_provider_not_served(
    tokens: Map<Seq<char>, CachedTokenView>,
    name: Seq<char>,
    other: Seq<char>,
    now: int,
)
    ensures
        cache_hit(tokens.remove(name), name, now) is None,
        other != name ==> cache_hit(tokens.remove(name), other, now) == cache_hit(
            tokens,
            other,
            now,
        ),
{
}


/// The remaining seconds reported for a token are the whole seconds left
/// before its expiry: the largest count of full seconds that fits before
/// the expiry instant, and 0 once it has passed.
pub proof fn lemma_remaining_is_whole_seconds_left(t: CachedTokenView, now: int)
    ensures
        now < t.expires_at ==> remaining_seconds(t, now) * 1_000_000_000 <= t.expires_at - now < (
        remaining_seconds(t, now) + 1) * 1_000_000_000,
        now >= t.expires_at ==> remaining_seconds(t, now) == 0,
{
    if now < t.expires_at {
        let left = t.expires_at - now;
        let q = left / (NANOS_PER_SECOND as int);
        assert(q * 1_000_000_000 <= left < (q + 1) * 1_000_000_000) by (nonlinear_arith)
            requires
                0 < left,
                q == left / (NANOS_PER_SECOND as int),
                NANOS_PER_SECOND == 1_000_000_000,
        ;
    }
}

/// A token becomes due for a refresh exactly when the clock passes its
/// expiry minus its own margin: not due at that instant, due one
/// nanosecond later, whatever the margin.
pub proof fn lemma_due_exactly_after_margin_before_expiry(t: CachedTokenView)
    ensures
        !token_should_refresh(t, t.expires_at - t.refresh_margin_seconds * 1_000_000_000),
        token_should_refresh(t, t.expires_at - t.refresh_margin_seconds * 1_000_000_000 + 1),
{
}

/// A token fetched at `fetched_at` with a lifetime of `lifetime` seconds
/// and a margin of `margin` seconds is due for a refresh at `now` exactly
/// when `now` is past `fetched_at + (lifetime - margin)` seconds.
pub proof fn lemma_fetched_token_due_time(
    access_token: Seq<char>,
    token_type: Seq<char>,
    lifetime: int,
    fetched_at: int,
    margin: int,
    now: int,
)
    ensures
        token_should_refresh(
            entry_for(access_token, token_type, lifetime, fetched_at, margin),
            now,
        ) <==> now > fetched_at + (lifetime - margin) * 1_000_000_000,
        token_is_valid(entry_for(access_token, token_type, lifetime, fetched_at, margin), now)
            <==> now < fetched_at + lifetime * 1_000_000_000,
{
    assert((lifetime - margin) * 1_000_000_000 == lifetime * 1_000_000_000 - margin
        * 1_000_000_000) by (nonlinear_arith);
}


/// The background task wakes so that a margin and an interval together
/// span the planned one-hour lifetime: for a margin of at most an hour,
/// interval plus margin is 3600 seconds, and a longer margin wraps to an
/// interval of at least 2^63 seconds (any `i64` margin).
pub proof fn lemma_interval_plus_margin_is_lifetime(margin: int)
    ensures
        margin <= 3600 ==> refresh_interval_spec(margin) + margin == 3600,
        3600 < margin <= i64::MAX ==> refresh_interval_spec(margin) >= 0x8000_0000_0000_0000,
{
}

} // verus!
