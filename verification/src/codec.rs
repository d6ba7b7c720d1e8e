//! Checkpoint wire format for filter state.
//!
//! All numeric fields are fixed-width ASCII decimals, so decoding is
//! pure offset arithmetic: a 20-digit pattern id, one regime digit, a
//! 20-digit timestamp, a 3-digit state length, the state entries (a
//! sign byte and 20 digits each), a 3-digit covariance length, the
//! covariance entries, and finally the market key's bytes. Decoding is
//! an exact inverse of encoding, proved below.

use vstd::prelude::*;
use vstd::string::StringSliceAdditionalSpecFns;

use crate::types::Regime;

verus! {

/// Powers of ten.
pub open spec fn pow10(k: int) -> int
    decreases k,
{
    if k <= 0 {
        1
    } else {
        10 * pow10(k - 1)
    }
}

/// `v` as exactly `k` decimal digits, most significant first.
pub open spec fn dfx(v: int, k: int) -> Seq<u8>
    decreases k,
{
    if k <= 0 {
        Seq::empty()
    } else {
        dfx(v / 10, k - 1).push((48 + v % 10) as u8)
    }
}

/// Value of a digit string, most significant first.
pub open spec fn vfx(s: Seq<u8>) -> int
    decreases s.len(),
{
    if s.len() == 0 {
        0
    } else {
        vfx(s.drop_last()) * 10 + (s.last() - 48)
    }
}

/// All bytes are ASCII.
pub open spec fn ascii_bytes(s: Seq<u8>) -> bool {
    forall|i: int| 0 <= i < s.len() ==> #[trigger] s[i] < 128
}

/// All bytes are decimal digits.
pub open spec fn digits_ok(s: Seq<u8>) -> bool {
    forall|i: int| 0 <= i < s.len() ==> 48 <= #[trigger] s[i] <= 57
}

/// Fixed-width encoding round-trips: for `0 <= v < 10^k`, the digit
/// string has length `k`, holds only digits, and reads back as `v`.
pub proof fn lemma_fx_roundtrip(v: int, k: int)
    requires
        0 <= v < pow10(k),
        0 <= k,
    ensures
        dfx(v, k).len() == k,
        digits_ok(dfx(v, k)),
        vfx(dfx(v, k)) == v,
    decreases k,
{
    if k <= 0 {
    } else {
        assert(pow10(k) == 10 * pow10(k - 1));
        assert(v / 10 < pow10(k - 1)) by (nonlinear_arith)
            requires v < 10 * pow10(k - 1), v >= 0;
        lemma_fx_roundtrip(v / 10, k - 1);
        let s = dfx(v, k);
        assert(s.drop_last() =~= dfx(v / 10, k - 1));
        assert(s.last() == (48 + v % 10) as u8);
        assert forall|i: int| 0 <= i < s.len() implies 48 <= #[trigger] s[i] <= 57 by {
            if i < s.len() - 1 {
                assert(s[i] == dfx(v / 10, k - 1)[i]);
            } else {
                assert(s[i] == s.last());
            }
        }
        assert(vfx(s) == (v / 10) * 10 + v % 10);
        assert((v / 10) * 10 + v % 10 == v) by (nonlinear_arith)
            requires v >= 0;
    }
}

/// Append the fixed-width digits of `v`.
pub fn push_fixed(out: &mut Vec<u8>, v: u64, k: usize)
    requires
        0 <= v < pow10(k as int),
        k <= 20,
    ensures
        final(out)@ == old(out)@ + dfx(v as int, k as int),
    decreases k,
{
    if k == 0 {
        proof {
            assert(out@ + dfx(v as int, 0) =~= out@);
        }
    } else {
        proof {
            assert(pow10(k as int) == 10 * pow10(k as int - 1));
            assert((v as int) / 10 < pow10(k as int - 1)) by (nonlinear_arith)
                requires (v as int) < 10 * pow10(k as int - 1), v >= 0;
        }
        push_fixed(out, v / 10, k - 1);
        out.push(48 + (v % 10) as u8);
        proof {
            assert(out@ =~= old(out)@ + dfx(v as int, k as int));
        }
    }
}

/// A prefix's value never exceeds the whole string's value.
proof fn lemma_vfx_prefix(s: Seq<u8>, i: int)
    requires
        0 <= i <= s.len(),
        digits_ok(s),
    ensures
        0 <= vfx(s.subrange(0, i)) <= vfx(s),
        vfx(s) >= 0,
    decreases s.len(),
{
    if s.len() == 0 {
        assert(s.subrange(0, i) =~= s);
    } else {
        lemma_vfx_prefix(s.drop_last(), if i <= s.len() - 1 { i } else { s.len() - 1 });
        if i == s.len() {
            assert(s.subrange(0, i) =~= s);
        } else {
            assert(s.subrange(0, i) =~= s.drop_last().subrange(0, i));
        }
        assert(vfx(s.drop_last()) * 10 + (s.last() - 48) >= vfx(s.drop_last()))
            by (nonlinear_arith)
            requires vfx(s.drop_last()) >= 0, s.last() >= 48;
    }
}

/// Read a fixed-width decimal of `k` digits at `pos`: the digits'
/// value, when every byte is a digit and the value fits in u64.
pub open spec fn read_fixed_spec(b: Seq<u8>, pos: int, k: int) -> Option<u64> {
    let s = b.subrange(pos, pos + k);
    if digits_ok(s) && vfx(s) <= u64::MAX {
        Some(vfx(s) as u64)
    } else {
        None
    }
}

fn read_fixed(b: &[u8], pos: usize, k: usize) -> (r: Option<u64>)
    requires
        pos + k <= b.len(),
        k <= 20,
    ensures
        r == read_fixed_spec(b@, pos as int, k as int),
{
    let ghost s = b@.subrange(pos as int, pos as int + k as int);
    let mut acc: u128 = 0;
    let mut i: usize = 0;
    while i < k
        invariant
            pos + k <= b.len(),
            k <= 20,
            i <= k,
            s == b@.subrange(pos as int, pos as int + k as int),
            digits_ok(s.subrange(0, i as int)),
            acc == vfx(s.subrange(0, i as int)),
            acc <= 0xffff_ffff_ffff_ffff_ffff_ffffu128,
        decreases k - i,
    {
        let d = b[pos + i];
        if d < 48 || d > 57 {
            proof {
                assert(s[i as int] == d);
                assert(!digits_ok(s));
            }
            return None;
        }
        proof {
            let pre = s.subrange(0, i as int);
            let cur = s.subrange(0, i as int + 1);
            assert(cur.drop_last() =~= pre);
            assert(cur.last() == s[i as int]);
            assert(s[i as int] == d);
            assert(acc * 10 + (d - 48) <= 0xffff_ffff_ffff_ffff_ffff_ffffu128 * 10 + 9)
                by (nonlinear_arith)
                requires acc <= 0xffff_ffff_ffff_ffff_ffff_ffffu128, d <= 57;
        }
        acc = acc * 10 + (d - 48) as u128;
        if acc > 0xffff_ffff_ffff_ffff_ffff_ffffu128 {
            // The value cannot recover to within u64 range.
            proof {
                lemma_vfx_overflow(s, i as int + 1);
            }
            return None;
        }
        i = i + 1;
    }
    proof {
        assert(s.subrange(0, k as int) =~= s);
    }
    if acc > u64::MAX as u128 {
        return None;
    }
    Some(acc as u64)
}

/// Once a prefix exceeds u64 range by a wide margin, the whole string
/// does too.
proof fn lemma_vfx_overflow(s: Seq<u8>, i: int)
    requires
        0 <= i <= s.len(),
        digits_ok(s.subrange(0, i)),
        vfx(s.subrange(0, i)) > u64::MAX,
    ensures
        !(digits_ok(s) && vfx(s) <= u64::MAX),
{
    if digits_ok(s) {
        lemma_vfx_prefix(s, i);
    }
}

/// One signed entry: a sign byte then 20 digits of magnitude.
pub open spec fn entry_bytes(v: i64) -> Seq<u8> {
    let sign: u8 = if v < 0 {
        45u8
    } else {
        43u8
    };
    let mag: int = if v >= 0 {
        v as int
    } else {
        -(v as int)
    };
    seq![sign] + dfx(mag, 20)
}

/// Read one signed entry at `pos`.
pub open spec fn read_entry_spec(b: Seq<u8>, pos: int) -> Option<i64> {
    let sign = b[pos];
    match read_fixed_spec(b, pos + 1, 20) {
        None => None,
        Some(mag) => {
            if sign == 43 {
                if mag <= i64::MAX {
                    Some(mag as i64)
                } else {
                    None
                }
            } else if sign == 45 {
                if mag <= 0x8000_0000_0000_0000u64 {
                    Some((-(mag as int)) as i64)
                } else {
                    None
                }
            } else {
                None
            }
        },
    }
}

fn read_entry(b: &[u8], pos: usize) -> (r: Option<i64>)
    requires
        pos + 21 <= b.len(),
    ensures
        r == read_entry_spec(b@, pos as int),
{
    let sign = b[pos];
    if sign != 43 && sign != 45 {
        return None;
    }
    match read_fixed(b, pos + 1, 20) {
        None => None,
        Some(mag) => {
            if sign == 43 {
                if mag <= i64::MAX as u64 {
                    Some(mag as i64)
                } else {
                    None
                }
            } else {
                if mag <= 0x8000_0000_0000_0000u64 {
                    if mag == 0x8000_0000_0000_0000u64 {
                        Some(i64::MIN)
                    } else {
                        Some(-(mag as i64))
                    }
                } else {
                    None
                }
            }
        },
    }
}

/// An entry round-trips.
pub proof fn lemma_entry_roundtrip(v: i64, b: Seq<u8>, pos: int)
    requires
        0 <= pos,
        pos + 21 <= b.len(),
        b.subrange(pos, pos + 21) == entry_bytes(v),
    ensures
        read_entry_spec(b, pos) == Some(v),
{
    let mag: int = if v >= 0 {
        v as int
    } else {
        -(v as int)
    };
    assert(pow10(20) > 0x1_0000_0000_0000_0000) by {
        reveal_with_fuel(pow10, 21);
    }
    lemma_fx_roundtrip(mag, 20);
    assert(b[pos] == entry_bytes(v)[0]);
    assert(b.subrange(pos + 1, pos + 21) =~= entry_bytes(v).subrange(1, 21));
    assert(entry_bytes(v).subrange(1, 21) =~= dfx(mag, 20));
}

/// Read `count` signed entries starting at `pos`.
pub open spec fn read_entries_spec(b: Seq<u8>, pos: int, count: int) -> Option<Seq<i64>>
    decreases count,
{
    if count <= 0 {
        Some(Seq::empty())
    } else {
        match read_entry_spec(b, pos) {
            None => None,
            Some(v) => match read_entries_spec(b, pos + 21, count - 1) {
                None => None,
                Some(rest) => Some(seq![v] + rest),
            },
        }
    }
}

fn read_entries(b: &[u8], pos: usize, count: usize) -> (r: Option<Vec<i64>>)
    requires
        pos + 21 * count <= b.len(),
    ensures
        match r {
            Some(vs) => read_entries_spec(b@, pos as int, count as int) == Some(vs@),
            None => read_entries_spec(b@, pos as int, count as int) is None,
        },
{
    let mut acc: Vec<i64> = Vec::new();
    let mut k: usize = 0;
    while k < count
        invariant
            pos + 21 * count <= b.len(),
            k <= count,
            acc.len() == k,
            ({
                let full = read_entries_spec(b@, pos as int, count as int);
                let rest = read_entries_spec(
                    b@, pos as int + 21 * k as int, count as int - k as int);
                match rest {
                    Some(r2) => full == Some(acc@ + r2),
                    None => full is None,
                }
            }),
        decreases count - k,
    {
        proof {
            assert(pos + 21 * k + 21 <= pos + 21 * count) by (nonlinear_arith)
                requires k < count, pos >= 0;
        }
        match read_entry(b, pos + 21 * k) {
            None => {
                return None;
            },
            Some(v) => {
                acc.push(v);
                proof {
                    let rest_pre = read_entries_spec(
                        b@, pos as int + 21 * (k as int), count as int - k as int);
                    let rest_post = read_entries_spec(
                        b@, pos as int + 21 * (k as int + 1), count as int - k as int - 1);
                    match rest_post {
                        Some(r2) => {
                            assert(rest_pre == Some(seq![v] + r2));
                            assert(acc@ + r2 =~= acc@.drop_last() + (seq![v] + r2));
                        },
                        None => {},
                    }
                }
            },
        }
        k = k + 1;
    }
    proof {
        assert(read_entries_spec(b@, pos as int + 21 * k as int, 0) == Some(Seq::<i64>::empty()));
        assert(acc@ + Seq::<i64>::empty() =~= acc@);
    }
    Some(acc)
}

/// The concatenated entries of a vector.
pub open spec fn entries_bytes(vs: Seq<i64>) -> Seq<u8>
    decreases vs.len(),
{
    if vs.len() == 0 {
        Seq::empty()
    } else {
        entry_bytes(vs[0]) + entries_bytes(vs.subrange(1, vs.len() as int))
    }
}

/// Entries laid out back to back read back as themselves.
pub proof fn lemma_entries_roundtrip(vs: Seq<i64>, b: Seq<u8>, pos: int)
    requires
        0 <= pos,
        pos + 21 * vs.len() <= b.len(),
        b.subrange(pos, pos + 21 * vs.len()) == entries_bytes(vs),
    ensures
        read_entries_spec(b, pos, vs.len() as int) == Some(vs),
    decreases vs.len(),
{
    if vs.len() == 0 {
        assert(read_entries_spec(b, pos, 0) == Some(Seq::<i64>::empty()));
        assert(vs =~= Seq::<i64>::empty());
    } else {
        assert(entries_bytes(vs).len() == 21 * vs.len()) by {
            lemma_entries_bytes_len(vs);
        }
        assert(b.subrange(pos, pos + 21) =~= entry_bytes(vs[0])) by {
            lemma_entry_bytes_len(vs[0]);
            assert forall|i: int| 0 <= i < 21
                implies b.subrange(pos, pos + 21)[i] == entry_bytes(vs[0])[i] by {
                assert(b.subrange(pos, pos + 21 * vs.len())[i] == entry_bytes(vs[0])[i]);
            }
        }
        lemma_entry_roundtrip(vs[0], b, pos);
        let rest = vs.subrange(1, vs.len() as int);
        assert(b.subrange(pos + 21, pos + 21 + 21 * rest.len()) =~= entries_bytes(rest)) by {
            lemma_entry_bytes_len(vs[0]);
            lemma_entries_bytes_len(rest);
            assert forall|i: int| 0 <= i < 21 * rest.len()
                implies b.subrange(pos + 21, pos + 21 + 21 * rest.len())[i]
                    == entries_bytes(rest)[i] by {
                assert(b.subrange(pos, pos + 21 * vs.len())[21 + i]
                    == (entry_bytes(vs[0]) + entries_bytes(rest))[21 + i]);
            }
        }
        lemma_entries_roundtrip(rest, b, pos + 21);
        assert(vs =~= seq![vs[0]] + rest);
    }
}

pub proof fn lemma_entry_bytes_len(v: i64)
    ensures
        entry_bytes(v).len() == 21,
        digits_ok(entry_bytes(v).subrange(1, 21)),
{
    let mag: int = if v >= 0 {
        v as int
    } else {
        -(v as int)
    };
    assert(pow10(20) > 0x1_0000_0000_0000_0000) by {
        reveal_with_fuel(pow10, 21);
    }
    lemma_fx_roundtrip(mag, 20);
    assert(entry_bytes(v).subrange(1, 21) =~= dfx(mag, 20));
}

pub proof fn lemma_entries_bytes_len(vs: Seq<i64>)
    ensures
        entries_bytes(vs).len() == 21 * vs.len(),
    decreases vs.len(),
{
    if vs.len() > 0 {
        lemma_entry_bytes_len(vs[0]);
        lemma_entries_bytes_len(vs.subrange(1, vs.len() as int));
    }
}

/// Append every entry of a vector.
pub fn push_entries(out: &mut Vec<u8>, vs: &Vec<i64>)
    ensures
        final(out)@ == old(out)@ + entries_bytes(vs@),
{
    let mut k: usize = 0;
    while k < vs.len()
        invariant
            k <= vs.len(),
            out@ == old(out)@ + entries_bytes(vs@.subrange(0, k as int)),
        decreases vs.len() - k,
    {
        let v = vs[k];
        let sign: u8 = if v < 0 {
            45
        } else {
            43
        };
        out.push(sign);
        let mag: u64 = if v >= 0 {
            v as u64
        } else if v == i64::MIN {
            0x8000_0000_0000_0000u64
        } else {
            (-v) as u64
        };
        proof {
            assert(pow10(20) > 0x1_0000_0000_0000_0000) by {
            reveal_with_fuel(pow10, 21);
        }
        }
        push_fixed(out, mag, 20);
        proof {
            lemma_entries_push(vs@, k as int);
            assert(out@ =~= old(out)@ + entries_bytes(vs@.subrange(0, k as int))
                + entry_bytes(v));
        }
        k = k + 1;
    }
    proof {
        assert(vs@.subrange(0, vs@.len() as int) =~= vs@);
    }
}

/// Appending one more value extends the concatenation by its entry.
proof fn lemma_entries_push(vs: Seq<i64>, k: int)
    requires
        0 <= k < vs.len(),
    ensures
        entries_bytes(vs.subrange(0, k + 1))
            == entries_bytes(vs.subrange(0, k)) + entry_bytes(vs[k]),
    decreases k,
{
    if k == 0 {
        let s1 = vs.subrange(0, 1);
        assert(s1[0] == vs[0]);
        assert(s1.subrange(1, 1).len() == 0);
        assert(entries_bytes(s1.subrange(1, 1)) =~= Seq::<u8>::empty());
        assert(entries_bytes(vs.subrange(0, 0)) =~= Seq::<u8>::empty());
        assert(entries_bytes(s1) =~= entry_bytes(vs[0]));
        assert(entries_bytes(vs.subrange(0, 0)) + entry_bytes(vs[0])
            =~= entry_bytes(vs[0]));
    } else {
        let tail = vs.subrange(1, vs.len() as int);
        lemma_entries_push(tail, k - 1);
        let a = vs.subrange(0, k + 1);
        let b2 = vs.subrange(0, k);
        assert(a.subrange(1, a.len() as int) =~= tail.subrange(0, k));
        assert(b2.subrange(1, b2.len() as int) =~= tail.subrange(0, k - 1));
        assert(a[0] == vs[0] && b2[0] == vs[0]);
        assert(tail[k - 1] == vs[k]);
        assert(entries_bytes(a)
            == entry_bytes(vs[0]) + entries_bytes(tail.subrange(0, k)));
        assert(entries_bytes(b2)
            == entry_bytes(vs[0]) + entries_bytes(tail.subrange(0, k - 1)));
        assert(entry_bytes(vs[0]) + (entries_bytes(tail.subrange(0, k - 1))
            + entry_bytes(vs[k]))
            =~= (entry_bytes(vs[0]) + entries_bytes(tail.subrange(0, k - 1)))
                + entry_bytes(vs[k]));
    }
}

/// The regime's digit.
pub open spec fn regime_digit(r: Regime) -> u8 {
    match r {
        Regime::Quiet => 48u8,
        Regime::Steam => 49u8,
        Regime::Suspended => 50u8,
    }
}


/// Serializable snapshot of one filter: pattern, market key, state
/// vector, flattened covariance, regime, and last update time.
pub struct FilterState {
    pub pattern_id: u16,
    pub market_id: String,
    pub state_vector: Vec<i64>,
    pub covariance_matrix: Vec<i64>,
    pub current_regime: Regime,
    pub last_update_ns: u64,
}

/// A snapshot the wire format can carry: short vectors and an ASCII
/// market key.
pub open spec fn encodable(st: FilterState) -> bool {
    &&& st.state_vector@.len() < 1000
    &&& st.covariance_matrix@.len() < 1000
    &&& vstd::utf8::is_ascii_chars(st.market_id@)
}

/// The encoded bytes of a snapshot.
pub open spec fn encode_spec(st: FilterState) -> Seq<u8> {
    dfx(st.pattern_id as int, 20)
        + seq![regime_digit(st.current_regime)]
        + dfx(st.last_update_ns as int, 20)
        + dfx(st.state_vector@.len() as int, 3)
        + entries_bytes(st.state_vector@)
        + dfx(st.covariance_matrix@.len() as int, 3)
        + entries_bytes(st.covariance_matrix@)
        + vstd::utf8::encode_utf8(st.market_id@)
}

/// Relies on `String::from_utf8`: ASCII bytes are valid UTF-8, and the
/// resulting string's UTF-8 representation is exactly the input bytes.
#[verifier::external_body]
pub(crate) fn string_from_ascii(v: Vec<u8>) -> (r: Option<String>)
    ensures
        (forall|i: int| 0 <= i < v@.len() ==> #[trigger] v@[i] < 128)
            ==> r is Some && vstd::utf8::encode_utf8((r->0)@) == v@
                && vstd::utf8::is_ascii_chars((r->0)@),
{
    String::from_utf8(v).ok()
}

/// Everything the byte head determines: the numeric fields and the
/// offset where the market key's bytes begin.
pub open spec fn decode_head(b: Seq<u8>) -> Option<(u16, Regime, u64, Seq<i64>, Seq<i64>, int)> {
    if b.len() < 47 {
        None
    } else {
        match read_fixed_spec(b, 0, 20) {
            None => None,
            Some(pattern) => {
                if pattern > u16::MAX {
                    None
                } else {
                    let rg = if b[20] == 48 {
                        Some(Regime::Quiet)
                    } else if b[20] == 49 {
                        Some(Regime::Steam)
                    } else if b[20] == 50 {
                        Some(Regime::Suspended)
                    } else {
                        None
                    };
                    match rg {
                        None => None,
                        Some(regime) => match read_fixed_spec(b, 21, 20) {
                            None => None,
                            Some(ts) => match read_fixed_spec(b, 41, 3) {
                                None => None,
                                Some(n) => {
                                    if b.len() < 47 + 21 * n {
                                        None
                                    } else {
                                        match read_entries_spec(b, 44, n as int) {
                                            None => None,
                                            Some(xs) => match read_fixed_spec(
                                                b, 44 + 21 * n, 3) {
                                                None => None,
                                                Some(m) => {
                                                    if b.len() < 47 + 21 * n + 21 * m {
                                                        None
                                                    } else {
                                                        match read_entries_spec(
                                                            b, 47 + 21 * n, m as int) {
                                                            None => None,
                                                            Some(cs) => Some((
                                                                pattern as u16,
                                                                regime,
                                                                ts,
                                                                xs,
                                                                cs,
                                                                47 + 21 * n + 21 * m,
                                                            )),
                                                        }
                                                    }
                                                },
                                            },
                                        }
                                    }
                                },
                            },
                        },
                    }
                }
            },
        }
    }
}

/// Encode a snapshot as an ASCII string; refused when the snapshot is
/// not encodable.
pub fn encode_filter_state(st: &FilterState) -> (r: Option<String>)
    ensures
        r is Some <==> encodable(*st),
        r is Some ==> vstd::utf8::encode_utf8((r->0)@) == encode_spec(*st)
            && vstd::utf8::is_ascii_chars((r->0)@),
{
    if st.state_vector.len() >= 1000 || st.covariance_matrix.len() >= 1000 {
        return None;
    }
    if !st.market_id.as_str().is_ascii() {
        return None;
    }
    proof {
        assert(pow10(20) > 0x1_0000_0000_0000_0000 && pow10(3) == 1000) by {
            reveal_with_fuel(pow10, 21);
        }
    }
    let mut out: Vec<u8> = Vec::new();
    push_fixed(&mut out, st.pattern_id as u64, 20);
    let rd: u8 = match st.current_regime {
        Regime::Quiet => 48,
        Regime::Steam => 49,
        Regime::Suspended => 50,
    };
    out.push(rd);
    push_fixed(&mut out, st.last_update_ns, 20);
    push_fixed(&mut out, st.state_vector.len() as u64, 3);
    push_entries(&mut out, &st.state_vector);
    push_fixed(&mut out, st.covariance_matrix.len() as u64, 3);
    push_entries(&mut out, &st.covariance_matrix);
    let mb = st.market_id.as_str().as_bytes();
    let mut k: usize = 0;
    proof {
        vstd::utf8::is_ascii_chars_encode_utf8(st.market_id@);
    }
    while k < mb.len()
        invariant
            mb@ == vstd::utf8::encode_utf8(st.market_id@),
            k <= mb.len(),
            out@ == old_bytes_plus(st, k as int),
            forall|i: int| 0 <= i < mb@.len() ==> #[trigger] mb@[i] < 128,
            vstd::utf8::is_ascii_chars(st.market_id@),
        decreases mb.len() - k,
    {
        out.push(mb[k]);
        proof {
            assert(out@ =~= old_bytes_plus(st, k as int + 1));
        }
        k = k + 1;
    }
    proof {
        assert(mb@.subrange(0, mb@.len() as int) =~= mb@);
        assert(out@ =~= encode_spec(*st));
        assert forall|i: int| 0 <= i < out@.len() implies #[trigger] out@[i] < 128 by {
            lemma_encode_ascii(*st, i);
        }
    }
    string_from_ascii(out)
}

/// The encoded head plus a prefix of the market bytes, used as the
/// loop invariant of `encode_filter_state`.
pub open spec fn old_bytes_plus(st: &FilterState, k: int) -> Seq<u8> {
    dfx(st.pattern_id as int, 20)
        + seq![regime_digit(st.current_regime)]
        + dfx(st.last_update_ns as int, 20)
        + dfx(st.state_vector@.len() as int, 3)
        + entries_bytes(st.state_vector@)
        + dfx(st.covariance_matrix@.len() as int, 3)
        + entries_bytes(st.covariance_matrix@)
        + vstd::utf8::encode_utf8(st.market_id@).subrange(0, k)
}

/// Every byte an encodable snapshot produces is ASCII.
proof fn lemma_encode_ascii(st: FilterState, i: int)
    requires
        encodable(st),
        0 <= i < encode_spec(st).len(),
    ensures
        encode_spec(st)[i] < 128,
{
    let b = encode_spec(st);
    assert(pow10(20) > 0x1_0000_0000_0000_0000 && pow10(3) == 1000) by {
        reveal_with_fuel(pow10, 21);
    }
    lemma_fx_roundtrip(st.pattern_id as int, 20);
    lemma_fx_roundtrip(st.last_update_ns as int, 20);
    lemma_fx_roundtrip(st.state_vector@.len() as int, 3);
    lemma_fx_roundtrip(st.covariance_matrix@.len() as int, 3);
    lemma_entries_bytes_len(st.state_vector@);
    lemma_entries_bytes_len(st.covariance_matrix@);
    lemma_entries_ascii(st.state_vector@);
    lemma_entries_ascii(st.covariance_matrix@);
    vstd::utf8::is_ascii_chars_encode_utf8(st.market_id@);
    let chars = st.market_id@;
    let mbytes = vstd::utf8::encode_utf8(chars);
    assert forall|j: int| 0 <= j < mbytes.len()
        implies #[trigger] mbytes[j] < 128 by {
        assert(mbytes[j] == chars[j] as u8);
        assert(chars[j] <= '\u{7f}');
    }
}

/// Every byte of a packed entry list is ASCII.
proof fn lemma_entries_ascii(vs: Seq<i64>)
    ensures
        forall|i: int| 0 <= i < entries_bytes(vs).len()
            ==> #[trigger] entries_bytes(vs)[i] < 128,
    decreases vs.len(),
{
    if vs.len() > 0 {
        lemma_entry_bytes_len(vs[0]);
        let rest = vs.subrange(1, vs.len() as int);
        lemma_entries_ascii(rest);
        let e = entry_bytes(vs[0]);
        assert forall|i: int| 0 <= i < e.len() implies #[trigger] e[i] < 128 by {
            if i == 0 {
            } else {
                assert(e[i] == e.subrange(1, 21)[i - 1]);
            }
        }
        assert forall|i: int| 0 <= i < entries_bytes(vs).len()
            implies #[trigger] entries_bytes(vs)[i] < 128 by {
            if i < 21 {
                assert(entries_bytes(vs)[i] == e[i]);
            } else {
                assert(entries_bytes(vs)[i] == entries_bytes(rest)[i - 21]);
            }
        }
    }
}

/// Whether a byte string is a well-formed snapshot: the head parses
/// and the trailing market bytes are ASCII.
pub open spec fn decode_ok(b: Seq<u8>) -> bool {
    match decode_head(b) {
        None => false,
        Some((pattern, regime, ts, xs, cs, off)) => ascii_bytes(
            b.subrange(off, b.len() as int)),
    }
}

/// The snapshot a well-formed byte string decodes to: every field is
/// the head's, and the market key carries exactly the trailing bytes.
pub open spec fn decodes_to(b: Seq<u8>, st: FilterState) -> bool {
    match decode_head(b) {
        None => false,
        Some((pattern, regime, ts, xs, cs, off)) => {
            &&& st.pattern_id == pattern
            &&& st.current_regime == regime
            &&& st.last_update_ns == ts
            &&& st.state_vector@ == xs
            &&& st.covariance_matrix@ == cs
            &&& vstd::utf8::encode_utf8(st.market_id@) == b.subrange(off, b.len() as int)
        },
    }
}

/// Decode a snapshot. Succeeds exactly on well-formed byte strings,
/// and then returns exactly what the bytes describe.
pub fn decode_filter_state(s: &str) -> (r: Option<FilterState>)
    ensures
        (r is Some) == decode_ok(s.spec_bytes()),
        r is Some ==> decodes_to(s.spec_bytes(), r->0),
{
    let b = s.as_bytes();
    if b.len() < 47 {
        return None;
    }
    let pattern64 = match read_fixed(b, 0, 20) {
        None => {
            return None;
        },
        Some(v) => v,
    };
    if pattern64 > u16::MAX as u64 {
        return None;
    }
    let rb = b[20];
    let regime = if rb == 48 {
        Regime::Quiet
    } else if rb == 49 {
        Regime::Steam
    } else if rb == 50 {
        Regime::Suspended
    } else {
        return None;
    };
    let ts = match read_fixed(b, 21, 20) {
        None => {
            return None;
        },
        Some(v) => v,
    };
    let n64 = match read_fixed(b, 41, 3) {
        None => {
            return None;
        },
        Some(v) => v,
    };
    proof {
        lemma_read_fixed_bound(b@, 41, 3);
    }
    let n = n64 as usize;
    if b.len() < 47 + 21 * n {
        return None;
    }
    let xs = match read_entries(b, 44, n) {
        None => {
            return None;
        },
        Some(v) => v,
    };
    let m64 = match read_fixed(b, 44 + 21 * n, 3) {
        None => {
            return None;
        },
        Some(v) => v,
    };
    proof {
        lemma_read_fixed_bound(b@, 44 + 21 * n as int, 3);
    }
    let m = m64 as usize;
    if b.len() < 47 + 21 * n + 21 * m {
        return None;
    }
    let cs = match read_entries(b, 47 + 21 * n, m) {
        None => {
            return None;
        },
        Some(v) => v,
    };
    let off = 47 + 21 * n + 21 * m;
    proof {
        assert(decode_head(b@) == Some((
            pattern64 as u16, regime, ts, xs@, cs@, off as int)));
    }
    let mut suffix: Vec<u8> = Vec::new();
    let mut k: usize = off;
    while k < b.len()
        invariant
            off <= k <= b.len(),
            b@ == s.spec_bytes(),
            decode_head(b@) == Some((
                pattern64 as u16, regime, ts, xs@, cs@, off as int)),
            pattern64 <= u16::MAX,
            suffix@ == b@.subrange(off as int, k as int),
            forall|i: int| 0 <= i < suffix@.len() ==> #[trigger] suffix@[i] < 128,
        decreases b.len() - k,
    {
        let byte = b[k];
        if byte >= 128 {
            proof {
                let full = b@.subrange(off as int, b@.len() as int);
                assert(full[k as int - off as int] == byte);
                assert(!ascii_bytes(full));
            }
            return None;
        }
        suffix.push(byte);
        proof {
            assert(suffix@ =~= b@.subrange(off as int, k as int + 1));
        }
        k = k + 1;
    }
    proof {
        assert(suffix@ =~= b@.subrange(off as int, b@.len() as int));
    }
    let market = match string_from_ascii(suffix) {
        None => {
            proof {
                assert(false);
            }
            return None;
        },
        Some(sm) => sm,
    };
    Some(FilterState {
        pattern_id: pattern64 as u16,
        market_id: market,
        state_vector: xs,
        covariance_matrix: cs,
        current_regime: regime,
        last_update_ns: ts,
    })
}

/// A three-digit field is under 1000.
proof fn lemma_read_fixed_bound(b: Seq<u8>, pos: int, k: int)
    requires
        0 <= pos,
        pos + k <= b.len(),
        0 <= k <= 3,
        read_fixed_spec(b, pos, k) is Some,
    ensures
        (read_fixed_spec(b, pos, k)->0) < 1000,
{
    let s = b.subrange(pos, pos + k);
    lemma_vfx_small(s);
}

proof fn lemma_vfx_small(s: Seq<u8>)
    requires
        digits_ok(s),
        s.len() <= 3,
    ensures
        vfx(s) < 1000,
        vfx(s) >= 0,
{
    lemma_vfx_prefix(s, s.len() as int);
    if s.len() > 0 {
        let d = s.drop_last();
        assert forall|i: int| 0 <= i < d.len() implies 48 <= #[trigger] d[i] <= 57 by {
            assert(d[i] == s[i]);
        }
        lemma_vfx_tiny(d);
        assert(vfx(d) * 10 + (s.last() - 48) < 1000) by (nonlinear_arith)
            requires
                vfx(d) < 100,
                vfx(d) >= 0,
                48 <= s.last() <= 57,
        ;
        lemma_vfx_prefix(s, s.len() as int);
    }
}

proof fn lemma_vfx_tiny(s: Seq<u8>)
    requires
        digits_ok(s),
        s.len() <= 2,
    ensures
        vfx(s) < 100,
        vfx(s) >= 0,
{
    lemma_vfx_prefix(s, s.len() as int);
    if s.len() > 0 {
        let d = s.drop_last();
        assert forall|i: int| 0 <= i < d.len() implies 48 <= #[trigger] d[i] <= 57 by {
            assert(d[i] == s[i]);
        }
        lemma_vfx_unit(d);
        assert(vfx(d) * 10 + (s.last() - 48) < 100) by (nonlinear_arith)
            requires
                vfx(d) < 10,
                vfx(d) >= 0,
                48 <= s.last() <= 57,
        ;
    }
}

proof fn lemma_vfx_unit(s: Seq<u8>)
    requires
        digits_ok(s),
        s.len() <= 1,
    ensures
        vfx(s) < 10,
        vfx(s) >= 0,
{
    if s.len() > 0 {
        assert(s.drop_last().len() == 0);
        assert(vfx(s.drop_last()) == 0);
    }
}

/// Decoding inverts encoding: the head of an encodable snapshot's
/// bytes carries back every field, and the trailing bytes are the
/// market key's. Together with the contracts of
/// `encode_filter_state` and `decode_filter_state`, a serialized
/// filter deserializes to a filter with bit-identical numeric state,
/// so its next prediction is bit-identical too.
pub proof fn lemma_checkpoint_roundtrip(st: FilterState)
    requires
        encodable(st),
    ensures
        ({
            let b = encode_spec(st);
            let n = st.state_vector@.len() as int;
            let m = st.covariance_matrix@.len() as int;
            &&& decode_head(b) == Some((
                st.pattern_id,
                st.current_regime,
                st.last_update_ns,
                st.state_vector@,
                st.covariance_matrix@,
                47 + 21 * n + 21 * m,
            ))
            &&& b.subrange(47 + 21 * n + 21 * m, b.len() as int)
                == vstd::utf8::encode_utf8(st.market_id@)
        }),
{
    let b = encode_spec(st);
    let n = st.state_vector@.len() as int;
    let m = st.covariance_matrix@.len() as int;
    assert(pow10(20) > 0x1_0000_0000_0000_0000 && pow10(3) == 1000) by {
        reveal_with_fuel(pow10, 21);
    }
    lemma_fx_roundtrip(st.pattern_id as int, 20);
    lemma_fx_roundtrip(st.last_update_ns as int, 20);
    lemma_fx_roundtrip(n, 3);
    lemma_fx_roundtrip(m, 3);
    lemma_entries_bytes_len(st.state_vector@);
    lemma_entries_bytes_len(st.covariance_matrix@);
    vstd::utf8::is_ascii_chars_encode_utf8(st.market_id@);
    let mbytes = vstd::utf8::encode_utf8(st.market_id@);
    assert(b.len() == 47 + 21 * n + 21 * m + mbytes.len());

    assert(b.subrange(0, 20) =~= dfx(st.pattern_id as int, 20));
    assert(b[20] == regime_digit(st.current_regime));
    assert(b.subrange(21, 41) =~= dfx(st.last_update_ns as int, 20));
    assert(b.subrange(41, 44) =~= dfx(n, 3));
    assert(b.subrange(44, 44 + 21 * n) =~= entries_bytes(st.state_vector@));
    assert(b.subrange(44 + 21 * n, 47 + 21 * n) =~= dfx(m, 3));
    assert(b.subrange(47 + 21 * n, 47 + 21 * n + 21 * m)
        =~= entries_bytes(st.covariance_matrix@));
    assert(b.subrange(47 + 21 * n + 21 * m, b.len() as int) =~= mbytes);

    lemma_entries_roundtrip(st.state_vector@, b, 44);
    lemma_entries_roundtrip(st.covariance_matrix@, b, 47 + 21 * n);

    assert(read_fixed_spec(b, 0, 20) == Some(st.pattern_id as u64));
    assert(read_fixed_spec(b, 21, 20) == Some(st.last_update_ns));
    assert(read_fixed_spec(b, 41, 3) == Some(n as u64));
    assert(read_fixed_spec(b, 44 + 21 * n, 3) == Some(m as u64));
}

} // verus!
