//! Best-effort key/value persistence of filter state.
//!
//! The store is an in-memory key/value client (keys and values are
//! strings) and a manager that frames filter snapshots through the
//! checkpoint wire format. A corrupt or missing entry reads back as
//! nothing: the caller cold-starts the filter.

use vstd::prelude::*;

use crate::codec::{FilterState, encodable, encode_filter_state, decode_filter_state};

verus! {

/// First-match lookup by key view.
pub open spec fn kv_lookup(es: Seq<(String, String)>, k: Seq<char>) -> Option<Seq<char>>
    decreases es.len(),
{
    if es.len() == 0 {
        None
    } else if es[0].0@ == k {
        Some(es[0].1@)
    } else {
        kv_lookup(es.subrange(1, es.len() as int), k)
    }
}

proof fn lemma_kv_skip(es: Seq<(String, String)>, i: int, k: Seq<char>)
    requires
        0 <= i <= es.len(),
        forall|j: int| 0 <= j < i ==> es[j].0@ != k,
    ensures
        kv_lookup(es, k) == kv_lookup(es.subrange(i, es.len() as int), k),
    decreases i,
{
    if i > 0 {
        let rest = es.subrange(1, es.len() as int);
        lemma_kv_skip(rest, i - 1, k);
        assert(rest.subrange(i - 1, rest.len() as int) =~= es.subrange(i, es.len() as int));
    } else {
        assert(es.subrange(0, es.len() as int) =~= es);
    }
}

proof fn lemma_kv_update_other(es: Seq<(String, String)>, i: int, v: (String, String),
    k: Seq<char>)
    requires
        0 <= i < es.len(),
        es[i].0@ != k,
        v.0@ != k,
    ensures
        kv_lookup(es.update(i, v), k) == kv_lookup(es, k),
    decreases es.len(),
{
    let upd = es.update(i, v);
    if i == 0 {
        assert(upd.subrange(1, upd.len() as int) =~= es.subrange(1, es.len() as int));
    } else {
        if es[0].0@ == k {
        } else {
            let rest = es.subrange(1, es.len() as int);
            lemma_kv_update_other(rest, i - 1, v, k);
            assert(upd.subrange(1, upd.len() as int) =~= rest.update(i - 1, v));
        }
    }
}

proof fn lemma_kv_push_other(es: Seq<(String, String)>, v: (String, String), k: Seq<char>)
    requires
        v.0@ != k,
    ensures
        kv_lookup(es.push(v), k) == kv_lookup(es, k),
    decreases es.len(),
{
    let pushed = es.push(v);
    if es.len() == 0 {
        assert(pushed[0] == v);
        assert(pushed.subrange(1, pushed.len() as int).len() == 0);
        assert(kv_lookup(pushed.subrange(1, pushed.len() as int), k)
            is None);
    } else {
        assert(pushed[0] == es[0]);
        if es[0].0@ == k {
        } else {
            let rest = es.subrange(1, es.len() as int);
            lemma_kv_push_other(rest, v, k);
            assert(pushed.subrange(1, pushed.len() as int) =~= rest.push(v));
        }
    }
}

proof fn lemma_kv_remove(es: Seq<(String, String)>, i: int, k: Seq<char>, k2: Seq<char>)
    requires
        0 <= i < es.len(),
        es[i].0@ == k,
        forall|j: int| 0 <= j < es.len() && j != i ==> es[j].0@ != k,
    ensures
        kv_lookup(es.remove(i), k) is None,
        k2 != k ==> kv_lookup(es.remove(i), k2) == kv_lookup(es, k2),
    decreases es.len(),
{
    let rem = es.remove(i);
    if i == 0 {
        assert(rem =~= es.subrange(1, es.len() as int));
        lemma_kv_none(rem, k);
    } else {
        let rest = es.subrange(1, es.len() as int);
        assert(rem[0] == es[0]);
        assert(rem.subrange(1, rem.len() as int) =~= rest.remove(i - 1));
        assert forall|j: int| 0 <= j < rest.len() && j != i - 1
            implies rest[j].0@ != k by {
            assert(rest[j] == es[j + 1]);
        }
        lemma_kv_remove(rest, i - 1, k, k2);
        assert(es[0].0@ != k);
    }
}

proof fn lemma_kv_none(es: Seq<(String, String)>, k: Seq<char>)
    requires
        forall|j: int| 0 <= j < es.len() ==> es[j].0@ != k,
    ensures
        kv_lookup(es, k) is None,
    decreases es.len(),
{
    if es.len() > 0 {
        let rest = es.subrange(1, es.len() as int);
        assert forall|j: int| 0 <= j < rest.len() implies rest[j].0@ != k by {
            assert(rest[j] == es[j + 1]);
        }
        lemma_kv_none(rest, k);
    }
}

/// In-memory key/value client standing in for the external store.
pub struct MockRedisClient {
    storage: Vec<(String, String)>,
}

impl MockRedisClient {
    /// Keys are unique, so a delete removes the only binding.
    pub closed spec fn wf(&self) -> bool {
        forall|i: int, j: int| 0 <= i < j < self.storage@.len()
            ==> self.storage@[i].0@ != self.storage@[j].0@
    }

    /// The stored value's characters under each key.
    pub closed spec fn value_of(&self, k: Seq<char>) -> Option<Seq<char>> {
        kv_lookup(self.storage@, k)
    }

    pub fn new() -> (r: Self)
        ensures
            r.wf(),
            forall|k: Seq<char>| r.value_of(k) is None,
    {
        MockRedisClient { storage: Vec::new() }
    }

    /// Value bound to `key`, if any.
    pub fn get(&self, key: &str) -> (r: Option<String>)
        requires
            self.wf(),
        ensures
            match self.value_of(key@) {
                Some(v) => r is Some && (r->0)@ == v,
                None => r is None,
            },
    {
        let key_owned = key.to_owned();
        let mut i: usize = 0;
        while i < self.storage.len()
            invariant
                key_owned@ == key@,
                i <= self.storage.len(),
                forall|j: int| 0 <= j < i ==> self.storage@[j].0@ != key@,
            decreases self.storage.len() - i,
        {
            let hit = {
                let e = &self.storage[i];
                e.0 == key_owned
            };
            if hit {
                proof {
                    lemma_kv_skip(self.storage@, i as int, key@);
                    let tail = self.storage@.subrange(i as int, self.storage@.len() as int);
                    assert(tail[0] == self.storage@[i as int]);
                }
                let e = &self.storage[i];
                return Some(e.1.clone());
            }
            i = i + 1;
        }
        proof {
            lemma_kv_none(self.storage@, key@);
        }
        None
    }

    /// Bind `key` to `value` (the optional time-to-live is accepted
    /// and ignored by this in-memory stand-in).
    pub fn set(&mut self, key: String, value: String, _ttl: Option<u64>)
        requires
            old(self).wf(),
        ensures
            final(self).wf(),
            final(self).value_of(key@) == Some(value@),
            forall|k: Seq<char>| k != key@
                ==> final(self).value_of(k) == old(self).value_of(k),
    {
        let mut i: usize = 0;
        while i < self.storage.len()
            invariant
                self.wf(),
                self.storage@ == old(self).storage@,
                i <= self.storage.len(),
                forall|j: int| 0 <= j < i ==> self.storage@[j].0@ != key@,
            decreases self.storage.len() - i,
        {
            let hit = {
                let e = &self.storage[i];
                e.0 == key
            };
            if hit {
                let ghost before = self.storage@;
                let ghost kview = key@;
                self.storage.set(i, (key, value));
                proof {
                    assert(before[i as int].0@ == kview);
                    lemma_kv_skip(self.storage@, i as int, kview);
                    let tail = self.storage@.subrange(i as int, self.storage@.len() as int);
                    assert(tail[0] == self.storage@[i as int]);
                    assert forall|k: Seq<char>| k != kview
                        implies kv_lookup(self.storage@, k) == kv_lookup(before, k) by {
                        lemma_kv_update_other(
                            before, i as int, self.storage@[i as int], k);
                    }
                    assert forall|i2: int, j2: int|
                        0 <= i2 < j2 < self.storage@.len()
                        implies self.storage@[i2].0@ != self.storage@[j2].0@ by {
                        assert(self.storage@[i2].0@ == before[i2].0@);
                        assert(self.storage@[j2].0@ == before[j2].0@);
                    }
                }
                return;
            }
            i = i + 1;
        }
        let ghost before = self.storage@;
        let ghost kview = key@;
        self.storage.push((key, value));
        proof {
            lemma_kv_skip(self.storage@, before.len() as int, kview);
            let tail = self.storage@.subrange(
                before.len() as int, self.storage@.len() as int);
            assert(tail[0] == self.storage@[before.len() as int]);
            assert forall|k: Seq<char>| k != kview
                implies kv_lookup(self.storage@, k) == kv_lookup(before, k) by {
                lemma_kv_push_other(before, self.storage@[before.len() as int], k);
            }
            assert forall|i2: int, j2: int| 0 <= i2 < j2 < self.storage@.len()
                implies self.storage@[i2].0@ != self.storage@[j2].0@ by {
                if j2 == self.storage@.len() - 1 {
                    assert(self.storage@[i2] == before[i2]);
                }
            }
        }
    }

    /// Remove `key`'s binding; reports whether one existed.
    pub fn delete(&mut self, key: &str) -> (r: bool)
        requires
            old(self).wf(),
        ensures
            final(self).wf(),
            r == (old(self).value_of(key@) is Some),
            final(self).value_of(key@) is None,
            forall|k: Seq<char>| k != key@
                ==> final(self).value_of(k) == old(self).value_of(k),
    {
        let key_owned = key.to_owned();
        let mut i: usize = 0;
        while i < self.storage.len()
            invariant
                self.wf(),
                key_owned@ == key@,
                self.storage@ == old(self).storage@,
                i <= self.storage.len(),
                forall|j: int| 0 <= j < i ==> self.storage@[j].0@ != key@,
            decreases self.storage.len() - i,
        {
            let hit = {
                let e = &self.storage[i];
                e.0 == key_owned
            };
            if hit {
                proof {
                    lemma_kv_skip(self.storage@, i as int, key@);
                    let tail = self.storage@.subrange(i as int, self.storage@.len() as int);
                    assert(tail[0] == self.storage@[i as int]);
                }
                let ghost before = self.storage@;
                self.storage.remove(i);
                proof {
                    assert forall|j: int| 0 <= j < before.len() && j != i as int
                        implies before[j].0@ != key@ by {}
                    assert forall|k: Seq<char>| k != key@
                        implies kv_lookup(self.storage@, k) == kv_lookup(before, k) by {
                        lemma_kv_remove(before, i as int, key@, k);
                    }
                    lemma_kv_remove(before, i as int, key@, key@);
                    assert forall|i2: int, j2: int| 0 <= i2 < j2 < self.storage@.len()
                        implies self.storage@[i2].0@ != self.storage@[j2].0@ by {
                        let oi = if i2 < i as int { i2 } else { i2 + 1 };
                        let oj = if j2 < i as int { j2 } else { j2 + 1 };
                        assert(self.storage@[i2] == before[oi]);
                        assert(self.storage@[j2] == before[oj]);
                    }
                }
                return true;
            }
            i = i + 1;
        }
        proof {
            lemma_kv_none(self.storage@, key@);
        }
        false
    }

    /// Drop every binding.
    pub fn clear(&mut self)
        ensures
            final(self).wf(),
            forall|k: Seq<char>| final(self).value_of(k) is None,
    {
        self.storage = Vec::new();
    }
}

/// Manager framing filter snapshots through the wire format, keyed by
/// `(pattern id, market key)` under a prefix.
pub struct RedisStateManager {
    pub client: MockRedisClient,
    pub key_prefix: String,
    /// Time-to-live handed to the store, seconds.
    pub state_ttl: u64,
}

impl RedisStateManager {
    pub open spec fn wf(&self) -> bool {
        self.client.wf()
    }

    pub fn new(key_prefix: String, state_ttl: u64) -> (r: Self)
        ensures
            r.wf(),
            r.key_prefix@ == key_prefix@,
            r.state_ttl == state_ttl,
            forall|k: Seq<char>| r.client.value_of(k) is None,
    {
        RedisStateManager { client: MockRedisClient::new(), key_prefix, state_ttl }
    }

    /// Save a snapshot, best effort: it lands in the store under its
    /// pair's key as the wire format's bytes; an unencodable snapshot
    /// (or a non-ASCII prefix) is dropped and `false` returned.
    pub fn save_filter_state(&mut self, state: &FilterState) -> (r: bool)
        requires
            old(self).wf(),
        ensures
            final(self).wf(),
            final(self).key_prefix@ == old(self).key_prefix@,
            final(self).state_ttl == old(self).state_ttl,
            r == (encodable(*state)
                && vstd::utf8::is_ascii_chars(old(self).key_prefix@)),
            !r ==> final(self).client == old(self).client,
            r ==> ({
                let key = checkpoint_key_chars(
                    old(self).key_prefix@, state.pattern_id, state.market_id@);
                &&& final(self).client.value_of(key) is Some
                &&& vstd::utf8::encode_utf8(final(self).client.value_of(key)->0)
                    == crate::codec::encode_spec(*state)
                &&& forall|k: Seq<char>| k != key
                    ==> final(self).client.value_of(k) == old(self).client.value_of(k)
            }),
    {
        let key = match self.make_key(state.pattern_id, state.market_id.as_str()) {
            Some(k) => k,
            None => {
                return false;
            },
        };
        match encode_filter_state(state) {
            Some(encoded) => {
                let ttl = self.state_ttl;
                self.client.set(key, encoded, Some(ttl));
                true
            },
            None => false,
        }
    }

    /// Load the snapshot stored for `(pattern_id, market_id)`: a
    /// missing or corrupt entry is a cold start and reads back as
    /// nothing, and a well-formed entry reads back as exactly what its
    /// bytes describe.
    pub fn load_filter_state(&self, pattern_id: u16, market_id: &str) -> (r: Option<FilterState>)
        requires
            self.wf(),
        ensures
            !(vstd::utf8::is_ascii_chars(self.key_prefix@)
                && vstd::utf8::is_ascii_chars(market_id@)) ==> r is None,
            (vstd::utf8::is_ascii_chars(self.key_prefix@)
                && vstd::utf8::is_ascii_chars(market_id@)) ==> ({
                let key = checkpoint_key_chars(self.key_prefix@, pattern_id, market_id@);
                match self.client.value_of(key) {
                    None => r is None,
                    Some(stored) => {
                        &&& (r is Some) == crate::codec::decode_ok(
                            vstd::utf8::encode_utf8(stored))
                        &&& r is Some ==> crate::codec::decodes_to(
                            vstd::utf8::encode_utf8(stored), r->0)
                    },
                }
            }),
    {
        let key = match self.make_key(pattern_id, market_id) {
            Some(k) => k,
            None => {
                return None;
            },
        };
        match self.client.get(key.as_str()) {
            Some(stored) => decode_filter_state(stored.as_str()),
            None => None,
        }
    }

    /// Drop the stored snapshot for `(pattern_id, market_id)`; reports
    /// whether one existed.
    pub fn delete_filter_state(&mut self, pattern_id: u16, market_id: &str) -> (r: bool)
        requires
            old(self).wf(),
        ensures
            final(self).wf(),
            final(self).key_prefix@ == old(self).key_prefix@,
            final(self).state_ttl == old(self).state_ttl,
            !(vstd::utf8::is_ascii_chars(old(self).key_prefix@)
                && vstd::utf8::is_ascii_chars(market_id@))
                ==> !r && final(self).client == old(self).client,
            (vstd::utf8::is_ascii_chars(old(self).key_prefix@)
                && vstd::utf8::is_ascii_chars(market_id@)) ==> ({
                let key = checkpoint_key_chars(
                    old(self).key_prefix@, pattern_id, market_id@);
                &&& r == (old(self).client.value_of(key) is Some)
                &&& final(self).client.value_of(key) is None
                &&& forall|k: Seq<char>| k != key
                    ==> final(self).client.value_of(k) == old(self).client.value_of(k)
            }),
    {
        let key = match self.make_key(pattern_id, market_id) {
            Some(k) => k,
            None => {
                return false;
            },
        };
        self.client.delete(key.as_str())
    }

    /// The store key for a `(pattern id, market)` pair:
    /// `prefix:pattern:market`, refused when prefix or market is not
    /// ASCII.
    fn make_key(&self, pattern_id: u16, market_id: &str) -> (r: Option<String>)
        ensures
            (r is Some) == (vstd::utf8::is_ascii_chars(self.key_prefix@)
                && vstd::utf8::is_ascii_chars(market_id@)),
            r is Some ==> (r->0)@
                == checkpoint_key_chars(self.key_prefix@, pattern_id, market_id@),
    {
        if !self.key_prefix.as_str().is_ascii() || !market_id.is_ascii() {
            return None;
        }
        proof {
            assert(crate::codec::pow10(20) > 0x1_0000_0000_0000_0000) by {
                reveal_with_fuel(crate::codec::pow10, 21);
            }
            crate::codec::lemma_fx_roundtrip(pattern_id as int, 20);
            vstd::utf8::is_ascii_chars_encode_utf8(self.key_prefix@);
            vstd::utf8::is_ascii_chars_encode_utf8(market_id@);
        }
        let mut out: Vec<u8> = Vec::new();
        let pb = self.key_prefix.as_str().as_bytes();
        let mut i: usize = 0;
        while i < pb.len()
            invariant
                pb@ == vstd::utf8::encode_utf8(self.key_prefix@),
                i <= pb.len(),
                out@ == pb@.subrange(0, i as int),
            decreases pb.len() - i,
        {
            out.push(pb[i]);
            proof {
                assert(out@ =~= pb@.subrange(0, i as int + 1));
            }
            i = i + 1;
        }
        proof {
            assert(pb@.subrange(0, pb@.len() as int) =~= pb@);
        }
        out.push(58);
        crate::codec::push_fixed(&mut out, pattern_id as u64, 20);
        out.push(58);
        let ghost head = vstd::utf8::encode_utf8(self.key_prefix@) + seq![58u8]
            + crate::codec::dfx(pattern_id as int, 20) + seq![58u8];
        proof {
            assert(out@ =~= head);
        }
        let mb = market_id.as_bytes();
        let mut j: usize = 0;
        while j < mb.len()
            invariant
                mb@ == vstd::utf8::encode_utf8(market_id@),
                j <= mb.len(),
                out@ == head + mb@.subrange(0, j as int),
            decreases mb.len() - j,
        {
            out.push(mb[j]);
            proof {
                assert(out@ =~= head + mb@.subrange(0, j as int + 1));
            }
            j = j + 1;
        }
        proof {
            assert(mb@.subrange(0, mb@.len() as int) =~= mb@);
            lemma_key_chars_bytes(self.key_prefix@, pattern_id, market_id@);
            assert(out@ =~= vstd::utf8::encode_utf8(
                checkpoint_key_chars(self.key_prefix@, pattern_id, market_id@)));
        }
        let built = crate::codec::string_from_ascii(out);
        proof {
            let kc = checkpoint_key_chars(self.key_prefix@, pattern_id, market_id@);
            if built is Some {
                let v = built->0;
                vstd::utf8::is_ascii_chars_encode_utf8(v@);
                vstd::utf8::is_ascii_chars_encode_utf8(kc);
                lemma_key_chars_ascii(self.key_prefix@, pattern_id, market_id@);
                assert forall|n: int| 0 <= n < v@.len() implies v@[n] == kc[n] by {
                    assert(vstd::utf8::encode_utf8(v@)[n] == v@[n] as u8);
                    assert(vstd::utf8::encode_utf8(kc)[n] == kc[n] as u8);
                }
                assert(v@ =~= kc);
            }
        }
        built
    }
}

/// The checkpoint store key for one `(pattern, market)` pair:
/// the prefix, a colon, the pattern id's twenty digits, a colon, and
/// the market key.
pub open spec fn checkpoint_key_chars(prefix: Seq<char>, pattern_id: u16, market: Seq<char>)
    -> Seq<char> {
    prefix + seq![':'] + crate::codec::dfx(pattern_id as int, 20).map_values(|b: u8| b as char)
        + seq![':'] + market
}

/// The key's characters are ASCII, and their UTF-8 bytes are the
/// prefix's bytes, a colon, the pattern digits, a colon, and the
/// market's bytes.
proof fn lemma_key_chars_ascii(prefix: Seq<char>, pattern_id: u16, market: Seq<char>)
    requires
        vstd::utf8::is_ascii_chars(prefix),
        vstd::utf8::is_ascii_chars(market),
    ensures
        vstd::utf8::is_ascii_chars(checkpoint_key_chars(prefix, pattern_id, market)),
{
    assert(crate::codec::pow10(20) > 0x1_0000_0000_0000_0000) by {
        reveal_with_fuel(crate::codec::pow10, 21);
    }
    crate::codec::lemma_fx_roundtrip(pattern_id as int, 20);
    let digits = crate::codec::dfx(pattern_id as int, 20);
    let kc = checkpoint_key_chars(prefix, pattern_id, market);
    assert forall|n: int| 0 <= n < kc.len() implies '\0' <= #[trigger] kc[n] <= '\u{7f}' by {
        let p = prefix.len() as int;
        if n < p {
            assert(kc[n] == prefix[n]);
        } else if n == p {
            assert(kc[n] == ':');
        } else if n < p + 21 {
            assert(kc[n] == digits.map_values(|b: u8| b as char)[n - p - 1]);
            assert(48 <= digits[n - p - 1] <= 57);
        } else if n == p + 21 {
            assert(kc[n] == ':');
        } else {
            assert(kc[n] == market[n - p - 22]);
        }
    }
}

proof fn lemma_key_chars_bytes(prefix: Seq<char>, pattern_id: u16, market: Seq<char>)
    requires
        vstd::utf8::is_ascii_chars(prefix),
        vstd::utf8::is_ascii_chars(market),
    ensures
        vstd::utf8::encode_utf8(checkpoint_key_chars(prefix, pattern_id, market))
            =~= vstd::utf8::encode_utf8(prefix) + seq![58u8]
                + crate::codec::dfx(pattern_id as int, 20) + seq![58u8]
                + vstd::utf8::encode_utf8(market),
{
    assert(crate::codec::pow10(20) > 0x1_0000_0000_0000_0000) by {
        reveal_with_fuel(crate::codec::pow10, 21);
    }
    crate::codec::lemma_fx_roundtrip(pattern_id as int, 20);
    let digits = crate::codec::dfx(pattern_id as int, 20);
    let kc = checkpoint_key_chars(prefix, pattern_id, market);
    lemma_key_chars_ascii(prefix, pattern_id, market);
    vstd::utf8::is_ascii_chars_encode_utf8(kc);
    vstd::utf8::is_ascii_chars_encode_utf8(prefix);
    vstd::utf8::is_ascii_chars_encode_utf8(market);
    let target = vstd::utf8::encode_utf8(prefix) + seq![58u8] + digits + seq![58u8]
        + vstd::utf8::encode_utf8(market);
    assert forall|n: int| 0 <= n < kc.len()
        implies vstd::utf8::encode_utf8(kc)[n] == target[n] by {
        let p = prefix.len() as int;
        assert(vstd::utf8::encode_utf8(kc)[n] == kc[n] as u8);
        if n < p {
            assert(kc[n] == prefix[n]);
            assert(target[n] == vstd::utf8::encode_utf8(prefix)[n]);
            assert(vstd::utf8::encode_utf8(prefix)[n] == prefix[n] as u8);
        } else if n == p {
            assert(kc[n] == ':');
            assert(target[n] == 58u8);
        } else if n < p + 21 {
            assert(kc[n] == digits.map_values(|b: u8| b as char)[n - p - 1]);
            assert(48 <= digits[n - p - 1] <= 57);
            assert(target[n] == digits[n - p - 1]);
        } else if n == p + 21 {
            assert(kc[n] == ':');
            assert(target[n] == 58u8);
        } else {
            assert(kc[n] == market[n - p - 22]);
            assert(target[n] == vstd::utf8::encode_utf8(market)[n - p - 22]);
            assert(vstd::utf8::encode_utf8(market)[n - p - 22]
                == market[n - p - 22] as u8);
        }
    }
}

} // verus!
