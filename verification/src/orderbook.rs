//! Top-of-book state for one market at one venue.
//!
//! Each side of the book lives in a single 64-bit word packing
//! `price:16 | size:32 | seq:16`, next to a 64-bit timestamp. A writer
//! publishes a whole word at a time and bumps the sequence bits, so a
//! reader that checks the sequence can never see a torn
//! (price, size) pair; here the scheme is modelled and proved on the
//! single-writer-per-side discipline the feed adapters guarantee.

use vstd::prelude::*;

verus! {

/// One published price level: price and size in integer cents, receipt
/// timestamp in nanoseconds. A zero price means "no quote".
#[derive(Clone, Copy, Debug, PartialEq, Eq, Structural)]
pub struct PriceLevel {
    pub price: u16,
    pub size: u32,
    pub timestamp_ns: u64,
}

/// The packed word for a side: `price` in the top 16 bits, `size` in the
/// middle 32, the write sequence number in the low 16.
pub open spec fn pack_spec(price: u16, size: u32, seq: u16) -> u64 {
    ((price as u64) << 48) | ((size as u64) << 16) | (seq as u64)
}

pub open spec fn word_price(w: u64) -> u16 {
    (w >> 48) as u16
}

pub open spec fn word_size(w: u64) -> u32 {
    ((w >> 16) & 0xffff_ffff) as u32
}

pub open spec fn word_seq(w: u64) -> u16 {
    (w & 0xffff) as u16
}

/// A packed word decodes to exactly the triple that was packed: a reader
/// that sees one whole word sees a consistent (price, size, seq).
pub proof fn lemma_pack_roundtrip(price: u16, size: u32, seq: u16)
    ensures
        word_price(pack_spec(price, size, seq)) == price,
        word_size(pack_spec(price, size, seq)) == size,
        word_seq(pack_spec(price, size, seq)) == seq,
{
    assert((((((price as u64) << 48) | ((size as u64) << 16) | (seq as u64)) >> 48) as u16)
        == price) by (bit_vector);
    assert(((((((price as u64) << 48) | ((size as u64) << 16) | (seq as u64)) >> 16)
        & 0xffff_ffff) as u32) == size) by (bit_vector);
    assert((((((price as u64) << 48) | ((size as u64) << 16) | (seq as u64)) & 0xffff) as u16)
        == seq) by (bit_vector);
}

fn pack(price: u16, size: u32, seq: u16) -> (w: u64)
    ensures
        w == pack_spec(price, size, seq),
        word_price(w) == price,
        word_size(w) == size,
        word_seq(w) == seq,
{
    proof {
        lemma_pack_roundtrip(price, size, seq);
    }
    ((price as u64) << 48) | ((size as u64) << 16) | (seq as u64)
}

/// Top-of-book for one side pair (YES/NO for binaries, BID/ASK for
/// sports), with strictly monotonic per-side timestamps.
#[derive(Clone, Copy, Debug)]
pub struct AtomicOrderbook {
    yes_word: u64,
    yes_ts: u64,
    no_word: u64,
    no_ts: u64,
}

impl AtomicOrderbook {
    pub closed spec fn yes_level(&self) -> PriceLevel {
        PriceLevel {
            price: word_price(self.yes_word),
            size: word_size(self.yes_word),
            timestamp_ns: self.yes_ts,
        }
    }

    pub closed spec fn no_level(&self) -> PriceLevel {
        PriceLevel {
            price: word_price(self.no_word),
            size: word_size(self.no_word),
            timestamp_ns: self.no_ts,
        }
    }

    /// Empty book: no quotes, timestamp zero.
    pub fn new() -> (r: Self)
        ensures
            r.yes_level() == (PriceLevel { price: 0, size: 0, timestamp_ns: 0 }),
            r.no_level() == (PriceLevel { price: 0, size: 0, timestamp_ns: 0 }),
    {
        proof {
            lemma_pack_roundtrip(0, 0, 0);
            assert(pack_spec(0, 0, 0) == 0) by (bit_vector);
        }
        AtomicOrderbook { yes_word: 0, yes_ts: 0, no_word: 0, no_ts: 0 }
    }

    /// Publish a new YES (or BID) level. Applied only when `ts_ns` is
    /// strictly newer than the side's current timestamp; re-applying an
    /// observation with an older or equal timestamp is a no-op.
    pub fn update_yes(&mut self, price: u16, size: u32, ts_ns: u64)
        ensures
            ts_ns > old(self).yes_level().timestamp_ns ==> final(self).yes_level()
                == (PriceLevel { price, size, timestamp_ns: ts_ns }),
            ts_ns <= old(self).yes_level().timestamp_ns ==> *final(self) == *old(self),
            final(self).no_level() == old(self).no_level(),
            final(self).yes_level().timestamp_ns >= old(self).yes_level().timestamp_ns,
    {
        if ts_ns > self.yes_ts {
            let seq = word_seq_exec(self.yes_word);
            self.yes_word = pack(price, size, seq.wrapping_add(1));
            self.yes_ts = ts_ns;
        }
    }

    /// Publish a new NO (or ASK) level; same monotonicity rule as the
    /// YES side.
    pub fn update_no(&mut self, price: u16, size: u32, ts_ns: u64)
        ensures
            ts_ns > old(self).no_level().timestamp_ns ==> final(self).no_level()
                == (PriceLevel { price, size, timestamp_ns: ts_ns }),
            ts_ns <= old(self).no_level().timestamp_ns ==> *final(self) == *old(self),
            final(self).yes_level() == old(self).yes_level(),
            final(self).no_level().timestamp_ns >= old(self).no_level().timestamp_ns,
    {
        if ts_ns > self.no_ts {
            let seq = word_seq_exec(self.no_word);
            self.no_word = pack(price, size, seq.wrapping_add(1));
            self.no_ts = ts_ns;
        }
    }

    /// Consistent snapshot: each side's (price, size, ts) is exactly the
    /// last level published on that side; the two sides need not be
    /// coincident. Returns
    /// `(yes_price, yes_size, no_price, no_size, latest_ts)`.
    pub fn load(&self) -> (r: (u16, u32, u16, u32, u64))
        ensures
            r.0 == self.yes_level().price,
            r.1 == self.yes_level().size,
            r.2 == self.no_level().price,
            r.3 == self.no_level().size,
            r.4 == if self.yes_level().timestamp_ns >= self.no_level().timestamp_ns {
                self.yes_level().timestamp_ns
            } else {
                self.no_level().timestamp_ns
            },
    {
        let yes_price = word_price_exec(self.yes_word);
        let yes_size = word_size_exec(self.yes_word);
        let no_price = word_price_exec(self.no_word);
        let no_size = word_size_exec(self.no_word);
        let latest = if self.yes_ts >= self.no_ts {
            self.yes_ts
        } else {
            self.no_ts
        };
        (yes_price, yes_size, no_price, no_size, latest)
    }

    /// The YES (or BID) side as a `PriceLevel`.
    pub fn load_yes(&self) -> (r: PriceLevel)
        ensures
            r == self.yes_level(),
    {
        PriceLevel {
            price: word_price_exec(self.yes_word),
            size: word_size_exec(self.yes_word),
            timestamp_ns: self.yes_ts,
        }
    }

    /// The NO (or ASK) side as a `PriceLevel`.
    pub fn load_no(&self) -> (r: PriceLevel)
        ensures
            r == self.no_level(),
    {
        PriceLevel {
            price: word_price_exec(self.no_word),
            size: word_size_exec(self.no_word),
            timestamp_ns: self.no_ts,
        }
    }

    /// Signed spread against the side-pair identity. For a binary book
    /// the spread is `yes + no - 100`; for a sports book it is
    /// `ask - bid` (NO holds the ask, YES the bid). The spread is
    /// returned exactly when both sides are quoted and its magnitude
    /// reaches `threshold_cents`.
    pub fn check_spread(&self, threshold_cents: u16, binary: bool) -> (r: Option<i32>)
        ensures
            r == self.spread_spec(threshold_cents, binary),
    {
        let yes = self.load_yes();
        let no = self.load_no();
        if yes.price == 0 || no.price == 0 {
            return None;
        }
        let spread: i32 = if binary {
            yes.price as i32 + no.price as i32 - 100
        } else {
            no.price as i32 - yes.price as i32
        };
        let magnitude: i32 = if spread >= 0 {
            spread
        } else {
            -spread
        };
        if magnitude >= threshold_cents as i32 {
            Some(spread)
        } else {
            None
        }
    }

    pub open spec fn spread_spec(&self, threshold_cents: u16, binary: bool) -> Option<i32> {
        let yes = self.yes_level().price;
        let no = self.no_level().price;
        let spread = if binary {
            yes + no - 100
        } else {
            no - yes
        };
        if yes == 0 || no == 0 {
            None
        } else if (if spread >= 0 { spread } else { -spread }) >= threshold_cents {
            Some(spread as i32)
        } else {
            None
        }
    }
}

fn word_price_exec(w: u64) -> (r: u16)
    ensures
        r == word_price(w),
{
    proof {
        assert((w >> 48) <= 0xffff) by (bit_vector);
    }
    (w >> 48) as u16
}

fn word_size_exec(w: u64) -> (r: u32)
    ensures
        r == word_size(w),
{
    proof {
        assert(((w >> 16) & 0xffff_ffff) <= 0xffff_ffff) by (bit_vector);
    }
    ((w >> 16) & 0xffff_ffff) as u32
}

fn word_seq_exec(w: u64) -> (r: u16)
    ensures
        r == word_seq(w),
{
    proof {
        assert((w & 0xffff) <= 0xffff) by (bit_vector);
    }
    (w & 0xffff) as u16
}

} // verus!
