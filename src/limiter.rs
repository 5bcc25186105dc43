//! Per-client token buckets, kept by `ratelimit::Ratelimiter`.
use vstd::prelude::*;
use ratelimit::Ratelimiter;

verus! {

#[verifier::external_type_specification]
#[verifier::external_body]
pub struct ExRatelimiter(Ratelimiter);

#[verifier::external_type_specification]
#[verifier::external_body]
pub struct ExRatelimitError(ratelimit::Error);

/// The tokens a bucket holds.
pub uninterp spec fn bucket_tokens(b: Ratelimiter) -> nat;

/// The most tokens a bucket can hold (its `max_tokens`).
pub uninterp spec fn bucket_capacity(b: Ratelimiter) -> nat;

/// The whole seconds between two refills of a bucket.
pub uninterp spec fn bucket_refill_secs(b: Ratelimiter) -> nat;

/// The tokens a bucket gains at each refill.
pub uninterp spec fn bucket_refill_amount(b: Ratelimiter) -> nat;

/// When a bucket's next refill falls due, in nanoseconds of the monotonic
/// clock (its `refill_at`).
pub uninterp spec fn bucket_next_refill(b: Ratelimiter) -> nat;

/// Relies on `Ratelimiter::builder(amount, interval)`, `Builder::max_tokens`,
/// `Builder::initial_available` and `Builder::build` of ratelimit: `build`
/// fails exactly when the max tokens are below the refill amount (the
/// interval is short enough to fit in nanoseconds); otherwise the bucket
/// holds `amount` tokens and keeps the parameters it was given. `build` adds
/// the interval to the clock's nanoseconds with a plain `+`: `requires`
/// keeps the interval far below where that could overflow.
#[verifier::external_body]
fn build_bucket(amount: u64, interval_secs: u64, max_tokens: u64) -> (r: Result<
    Ratelimiter,
    ratelimit::Error,
>)
    requires
        interval_secs <= u32::MAX,
    ensures
        r is Ok <==> max_tokens >= amount,
        r matches Ok(b) ==> bucket_tokens(b) == amount && bucket_capacity(b) == max_tokens
            && bucket_refill_secs(b) == interval_secs && bucket_refill_amount(b) == amount,
{
    Ratelimiter::builder(amount, std::time::Duration::from_secs(interval_secs))
        .max_tokens(max_tokens)
        .initial_available(amount)
        .build()
}

/// Relies on `Ratelimiter::try_wait` (and the `refill` it calls) of
/// ratelimit, called by the bucket's only user. If the next refill has
/// fallen due, it moves forward past the clock (never more than one
/// interval ahead of it) and the tokens of the refills due are added, never
/// above the capacity; otherwise nothing is added. Then one token is taken
/// if there is one; if there is none, the result is the time until the next
/// refill, which is positive and at most one interval. A zero interval would
/// divide by zero and a bucket over its capacity would underflow: `requires`
/// leaves both out.
#[verifier::external_body]
fn take_token(b: &mut Ratelimiter) -> (r: Result<(), u128>)
    requires
        bucket_refill_secs(*old(b)) >= 1,
        bucket_refill_amount(*old(b)) <= u32::MAX,
        bucket_tokens(*old(b)) <= bucket_capacity(*old(b)),
    ensures
        bucket_capacity(*final(b)) == bucket_capacity(*old(b)),
        bucket_refill_secs(*final(b)) == bucket_refill_secs(*old(b)),
        bucket_refill_amount(*final(b)) == bucket_refill_amount(*old(b)),
        bucket_tokens(*final(b)) <= bucket_capacity(*final(b)),
        bucket_next_refill(*final(b)) >= bucket_next_refill(*old(b)),
        bucket_next_refill(*final(b)) == bucket_next_refill(*old(b)) ==> bucket_tokens(*final(b))
            + (if r is Ok { 1nat } else { 0nat }) == bucket_tokens(*old(b)),
        bucket_tokens(*old(b)) > 0 ==> r is Ok,
        r is Ok ==> bucket_tokens(*final(b)) + 1 >= bucket_tokens(*old(b)),
        r matches Err(n) ==> bucket_tokens(*old(b)) == 0 && bucket_tokens(*final(b)) == 0 && 0 < n
            <= bucket_refill_secs(*old(b)) * 1_000_000_000,
{
    b.try_wait().map_err(|d| d.as_nanos())
}

/// The rule parameters a bucket is made from: at least one token per
/// window, a window of at least one second, both small enough that
/// ratelimit's clock and refill arithmetic never overflow, and a capacity
/// that holds the initial tokens.
pub open spec fn usable_params(limit: u64, duration: u64, max_tokens: u64) -> bool {
    &&& 1 <= duration <= u32::MAX
    &&& 1 <= limit <= u32::MAX
    &&& limit <= max_tokens
}

/// A bucket the registry may take tokens from.
pub open spec fn sound_bucket(b: Ratelimiter) -> bool {
    &&& bucket_refill_secs(b) >= 1
    &&& bucket_refill_amount(b) <= u32::MAX
    &&& bucket_tokens(b) <= bucket_capacity(b)
}

/// `b` is the bucket a rule with these parameters makes: `limit` tokens
/// every `duration` seconds, at most `max_tokens`, starting with `limit`.
pub open spec fn fresh_bucket(b: Ratelimiter, limit: u64, duration: u64, max_tokens: u64) -> bool {
    &&& bucket_tokens(b) == limit
    &&& bucket_capacity(b) == max_tokens
    &&& bucket_refill_secs(b) == duration
    &&& bucket_refill_amount(b) == limit
}

/// The outcome of asking for one token.
#[derive(Debug, Clone, Copy, PartialEq, Eq, Structural)]
pub enum Acquire {
    /// A token was taken.
    Admitted,
    /// No token: the next refill is this many nanoseconds away.
    Wait(u128),
    /// The client had no bucket and the rule's parameters cannot make one.
    Unusable,
}

/// `a` is a possible outcome of taking a token from the bucket `before`,
/// which is `after` now: parameters kept, refills only forward, exactly one
/// token taken on admission when no refill fell due.
pub open spec fn took_token(before: Ratelimiter, after: Ratelimiter, a: Acquire) -> bool {
    &&& bucket_capacity(after) == bucket_capacity(before)
    &&& bucket_refill_secs(after) == bucket_refill_secs(before)
    &&& bucket_refill_amount(after) == bucket_refill_amount(before)
    &&& bucket_tokens(after) <= bucket_capacity(after)
    &&& bucket_next_refill(after) >= bucket_next_refill(before)
    &&& bucket_next_refill(after) == bucket_next_refill(before) ==> bucket_tokens(after) + (if a is Admitted {
        1nat
    } else {
        0nat
    }) == bucket_tokens(before)
    &&& bucket_tokens(before) > 0 ==> a is Admitted
    &&& a is Admitted ==> bucket_tokens(after) + 1 >= bucket_tokens(before)
    &&& a matches Acquire::Wait(n) ==> bucket_tokens(before) == 0 && bucket_tokens(after) == 0 && 0
        < n <= bucket_refill_secs(before) * 1_000_000_000
    &&& !(a is Unusable)
}

/// `a` is a possible outcome of taking a token for client `key` from the
/// buckets `before`, leaving the buckets `after`. A client with a bucket
/// keeps it; one without gets a fresh bucket made from `limit`, `duration`
/// and `max_tokens`, or none when those are not usable.
pub open spec fn acquisition(
    before: Map<Seq<char>, Ratelimiter>,
    after: Map<Seq<char>, Ratelimiter>,
    key: Seq<char>,
    limit: u64,
    duration: u64,
    max_tokens: u64,
    a: Acquire,
) -> bool {
    &&& after.remove(key) == before.remove(key)
    &&& before.contains_key(key) ==> after.contains_key(key) && took_token(
        before[key],
        after[key],
        a,
    )
    &&& !before.contains_key(key) && usable_params(limit, duration, max_tokens)
        ==> after.contains_key(key) && exists|b: Ratelimiter|
        fresh_bucket(b, limit, duration, max_tokens) && #[trigger] took_token(b, after[key], a)
    &&& !before.contains_key(key) && !usable_params(limit, duration, max_tokens) ==> after
        == before && a is Unusable
}

/// One client's bucket.
pub struct ClientBucket {
    key: String,
    bucket: Ratelimiter,
}

/// The buckets of all clients seen so far, one per client key. The entries
/// sit in a `Vec` whose invariant keeps keys unique: vstd specifies
/// `HashMap` contents only for keys with a key model, which it gives to
/// integer keys and not to `String`.
pub struct RateLimiterRegistry {
    entries: Vec<ClientBucket>,
}

impl RateLimiterRegistry {
    /// Entry `i` is the one for `key`.
    pub closed spec fn entry_for(&self, key: Seq<char>, i: int) -> bool {
        0 <= i < self.entries@.len() && self.entries@[i].key@ == key
    }

    /// The bucket of each client key.
    pub closed spec fn view(&self) -> Map<Seq<char>, Ratelimiter> {
        Map::new(
            |k: Seq<char>| exists|i: int| self.entry_for(k, i),
            |k: Seq<char>| self.entries@[choose|i: int| self.entry_for(k, i)].bucket,
        )
    }

    /// One entry per key, each bucket sound.
    pub closed spec fn wf(&self) -> bool {
        &&& forall|i: int, j: int|
            0 <= i < j < self.entries@.len() ==> self.entries@[i].key@ != self.entries@[j].key@
        &&& forall|i: int|
            0 <= i < self.entries@.len() ==> sound_bucket(#[trigger] self.entries@[i].bucket)
    }

    proof fn lemma_view_at(&self, i: int)
        requires
            self.wf(),
            0 <= i < self.entries@.len(),
        ensures
            self.view().contains_key(self.entries@[i].key@),
            self.view()[self.entries@[i].key@] == self.entries@[i].bucket,
    {
        let k = self.entries@[i].key@;
        assert(self.entry_for(k, i));
        let j = choose|j: int| self.entry_for(k, j);
        assert(j == i);
    }

    proof fn lemma_same_elsewhere(
        old_view: Map<Seq<char>, Ratelimiter>,
        new_view: Map<Seq<char>, Ratelimiter>,
        key: Seq<char>,
    )
        requires
            forall|k2: Seq<char>|
                #![trigger new_view.contains_key(k2)]
                #![trigger old_view.contains_key(k2)]
                k2 != key ==> (new_view.contains_key(k2) == old_view.contains_key(k2)) && (
                new_view.contains_key(k2) ==> new_view[k2] == old_view[k2]),
        ensures
            new_view.remove(key) == old_view.remove(key),
    {
        assert forall|k2: Seq<char>| #[trigger]
            new_view.remove(key).contains_key(k2) == old_view.remove(key).contains_key(k2) by {
            if k2 != key {
                assert(new_view.contains_key(k2) == old_view.contains_key(k2));
            }
        }
        assert(new_view.remove(key) =~= old_view.remove(key));
    }

    /// Entries that keep their keys, change only for `key` and are added
    /// only for `key` leave the buckets of every other client as they were.
    proof fn lemma_others_kept(old_r: Self, new_r: Self, key: Seq<char>)
        requires
            old_r.wf(),
            new_r.wf(),
            old_r.entries@.len() <= new_r.entries@.len(),
            forall|j: int|
                0 <= j < old_r.entries@.len() ==> #[trigger] new_r.entries@[j].key@
                    == old_r.entries@[j].key@,
            forall|j: int|
                0 <= j < old_r.entries@.len() && old_r.entries@[j].key@ != key ==> #[trigger]
                    new_r.entries@[j] == old_r.entries@[j],
            forall|j: int|
                old_r.entries@.len() <= j < new_r.entries@.len() ==> #[trigger]
                    new_r.entries@[j].key@ == key,
        ensures
            new_r.view().remove(key) == old_r.view().remove(key),
    {
        assert forall|k2: Seq<char>|
            #![trigger new_r.view().contains_key(k2)]
            #![trigger old_r.view().contains_key(k2)]
            k2 != key implies (new_r.view().contains_key(k2) == old_r.view().contains_key(k2)) && (
            new_r.view().contains_key(k2) ==> new_r.view()[k2] == old_r.view()[k2]) by {
            if old_r.view().contains_key(k2) {
                let j = choose|j: int| old_r.entry_for(k2, j);
                old_r.lemma_view_at(j);
                assert(new_r.entries@[j] == old_r.entries@[j]);
                assert(new_r.entry_for(k2, j));
                new_r.lemma_view_at(j);
            }
            if new_r.view().contains_key(k2) {
                let j = choose|j: int| new_r.entry_for(k2, j);
                assert(j < old_r.entries@.len());
                assert(new_r.entries@[j].key@ == old_r.entries@[j].key@);
                assert(old_r.entry_for(k2, j));
            }
        }
        Self::lemma_same_elsewhere(old_r.view(), new_r.view(), key);
    }

    /// An empty registry.
    pub fn new() -> (r: Self)
        ensures
            r.wf(),
            r.view() == Map::<Seq<char>, Ratelimiter>::empty(),
    {
        let r = RateLimiterRegistry { entries: Vec::new() };
        assert(r.view() =~= Map::<Seq<char>, Ratelimiter>::empty());
        r
    }

    /// The position of `key`'s entry.
    fn find(&self, key: &String) -> (r: Option<usize>)
        ensures
            match r {
                Some(i) => self.entry_for(key@, i as int),
                None => forall|i: int| !self.entry_for(key@, i),
            },
    {
        let mut i: usize = 0;
        while i < self.entries.len()
            invariant
                i <= self.entries@.len(),
                forall|j: int| 0 <= j < i ==> self.entries@[j].key@ != key@,
            decreases self.entries.len() - i,
        {
            if self.entries[i].key == *key {
                return Some(i);
            }
            i = i + 1;
        }
        None
    }

    /// Whether the client `key` has a bucket.
    pub fn contains(&self, key: &str) -> (r: bool)
        ensures
            r == self.view().contains_key(key@),
    {
        let k = key.to_owned();
        match self.find(&k) {
            Some(i) => {
                assert(self.entry_for(key@, i as int));
                true
            },
            None => false,
        }
    }

    /// Takes one token from `key`'s bucket, creating the bucket from the
    /// rule parameters `limit`, `duration` and `max_tokens` if the client has
    /// none yet. Buckets of other clients stay as they were.
    pub fn try_acquire(&mut self, key: &str, limit: u64, duration: u64, max_tokens: u64) -> (r:
        Acquire)
        requires
            old(self).wf(),
        ensures
            final(self).wf(),
            acquisition(old(self).view(), final(self).view(), key@, limit, duration, max_tokens, r),
    {
        let k = key.to_owned();
        match self.find(&k) {
            Some(i) => {
                proof {
                    self.lemma_view_at(i as int);
                }
                let res = take_token(&mut self.entries[i].bucket);
                assert forall|a: int, b: int|
                    0 <= a < b < self.entries@.len() implies self.entries@[a].key@
                    != self.entries@[b].key@ by {
                    assert(self.entries@[a].key == old(self).entries@[a].key);
                    assert(self.entries@[b].key == old(self).entries@[b].key);
                }
                assert forall|j: int| 0 <= j < self.entries@.len() implies sound_bucket(
                    #[trigger] self.entries@[j].bucket,
                ) by {
                    if j != i {
                        assert(self.entries@[j] == old(self).entries@[j]);
                    }
                }
                proof {
                    self.lemma_view_at(i as int);
                    Self::lemma_others_kept(*old(self), *self, key@);
                }
                match res {
                    Ok(()) => Acquire::Admitted,
                    Err(n) => Acquire::Wait(n),
                }
            },
            None => {
                if duration == 0 || duration > 4_294_967_295 || limit == 0 || limit > 4_294_967_295
                    || limit > max_tokens {
                    return Acquire::Unusable;
                }
                let built = build_bucket(limit, duration, max_tokens);
                let mut bucket = match built {
                    Ok(b) => b,
                    Err(_) => {
                        return Acquire::Unusable;
                    },
                };
                let ghost fresh = bucket;
                let res = take_token(&mut bucket);
                let ghost got = match res {
                    Ok(()) => Acquire::Admitted,
                    Err(n) => Acquire::Wait(n),
                };
                assert(fresh_bucket(fresh, limit, duration, max_tokens) && took_token(
                    fresh,
                    bucket,
                    got,
                ));
                self.entries.push(ClientBucket { key: k, bucket });
                let ghost n = (self.entries.len() - 1) as int;
                proof {
                    assert forall|a: int, b: int|
                        0 <= a < b < self.entries@.len() implies self.entries@[a].key@
                        != self.entries@[b].key@ by {
                        if b == n {
                            assert(!old(self).entry_for(key@, a));
                        } else {
                            assert(self.entries@[a] == old(self).entries@[a]);
                            assert(self.entries@[b] == old(self).entries@[b]);
                        }
                    }
                    assert forall|j: int| 0 <= j < self.entries@.len() implies sound_bucket(
                        #[trigger] self.entries@[j].bucket,
                    ) by {
                        if j < n {
                            assert(self.entries@[j] == old(self).entries@[j]);
                        }
                    }
                    self.lemma_view_at(n);
                    Self::lemma_others_kept(*old(self), *self, key@);
                }
                match res {
                    Ok(()) => Acquire::Admitted,
                    Err(n) => Acquire::Wait(n),
                }
            },
        }
    }
}

} // verus!
