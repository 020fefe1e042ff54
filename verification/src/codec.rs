//! Telemetry record codec: the compact structured text payload that one
//! publish cycle sends for one record, and the parser that recovers the
//! record from the payload. Encoding a record and parsing the bytes back
//! yields the same node id, timestamp and metric value.

use vstd::prelude::*;

verus! {

/// Which quantity a record reports.
#[derive(Clone, Copy, Debug, PartialEq, Eq, Structural)]
pub enum RecordKind {
    /// Normalized link quality of the node itself.
    LinkQuality,
    /// A sampled sensor measurement.
    Temperature,
}

/// A node identifier: the six octets of the hardware address.
#[derive(Clone, Copy, Debug)]
pub struct MacAddr {
    /// The hardware address octets.
    pub octets: [u8; 6],
}

/// One telemetry record, built per publish cycle and discarded after the
/// publish attempt.
#[derive(Clone, Copy, Debug)]
pub struct TelemetryRecord {
    /// Which quantity this record reports.
    pub kind: RecordKind,
    /// The reporting node.
    pub node_id: MacAddr,
    /// Monotonic uptime when the record was built, in milliseconds.
    pub timestamp_ms: u64,
    /// The metric value, in thousandths of its unit.
    pub value_milli: i64,
}

/// Mathematical model of a record.
pub ghost struct RecordModel {
    /// Which quantity the record reports.
    pub kind: RecordKind,
    /// The six octets of the node's hardware address.
    pub mac: Seq<u8>,
    /// Uptime timestamp in milliseconds.
    pub timestamp_ms: int,
    /// Metric value in thousandths.
    pub value_milli: int,
}

impl RecordModel {
    /// The model of a representable record.
    pub open spec fn wf(self) -> bool {
        self.mac.len() == 6 && 0 <= self.timestamp_ms <= u64::MAX && i64::MIN
            <= self.value_milli <= i64::MAX
    }
}

impl View for TelemetryRecord {
    type V = RecordModel;

    open spec fn view(&self) -> RecordModel {
        RecordModel {
            kind: self.kind,
            mac: self.node_id.octets@,
            timestamp_ms: self.timestamp_ms as int,
            value_milli: self.value_milli as int,
        }
    }
}

/// The byte of a decimal digit.
pub open spec fn dec_byte(d: int) -> u8 {
    (48 + d) as u8
}

/// Whether a byte is a decimal digit.
pub open spec fn is_digit(b: u8) -> bool {
    48 <= b <= 57
}

/// The decimal digit bytes of a nonnegative number, most significant first,
/// without leading zeros.
pub open spec fn dec_bytes(n: int) -> Seq<u8>
    recommends
        n >= 0,
    decreases n,
{
    if n < 10 {
        seq![dec_byte(n)]
    } else {
        dec_bytes(n / 10) + seq![dec_byte(n % 10)]
    }
}

/// The byte of a hexadecimal digit, upper case.
pub open spec fn hex_digit(d: int) -> u8 {
    if d < 10 {
        (48 + d) as u8
    } else {
        (55 + d) as u8
    }
}

/// Whether a byte is an upper-case hexadecimal digit.
pub open spec fn is_hex(b: u8) -> bool {
    (48 <= b <= 57) || (65 <= b <= 70)
}

/// The value of an upper-case hexadecimal digit byte.
pub open spec fn hex_nibble(b: u8) -> int {
    if 48 <= b <= 57 {
        b - 48
    } else {
        b - 55
    }
}

/// The canonical 17-byte rendering of a hardware address: hexadecimal octet
/// pairs, upper case, separated by colons.
pub open spec fn spec_mac_bytes(mac: Seq<u8>) -> Seq<u8>
    recommends
        mac.len() == 6,
{
    Seq::new(
        17,
        |j: int|
            if j % 3 == 0 {
                hex_digit(mac[j / 3] as int / 16)
            } else if j % 3 == 1 {
                hex_digit(mac[j / 3] as int % 16)
            } else {
                58u8
            },
    )
}

/// The magnitude of a metric value.
pub open spec fn abs_int(v: int) -> int {
    if v < 0 {
        -v
    } else {
        v
    }
}

/// The fixed-point rendering of a metric value in thousandths: an optional
/// minus sign, the integer part, a dot, and exactly three fractional digits.
pub open spec fn spec_value_bytes(v: int) -> Seq<u8> {
    let mag = abs_int(v);
    let sign: Seq<u8> = if v < 0 {
        seq![45u8]
    } else {
        Seq::empty()
    };
    sign + dec_bytes(mag / 1000) + seq![46u8] + seq![
        dec_byte((mag % 1000) / 100),
        dec_byte((mag % 100) / 10),
        dec_byte(mag % 10),
    ]
}

/// The payload field name of a record kind, with the closing quote and the
/// colon.
pub open spec fn key_bytes(kind: RecordKind) -> Seq<u8> {
    match kind {
        RecordKind::LinkQuality => seq![114u8, 115u8, 115u8, 105u8, 34u8, 58u8],
        RecordKind::Temperature => seq![
            116u8,
            101u8,
            109u8,
            112u8,
            101u8,
            114u8,
            97u8,
            116u8,
            117u8,
            114u8,
            101u8,
            34u8,
            58u8,
        ],
    }
}

/// The opening of the payload, through the quote that starts the address.
pub open spec fn lit_prefix() -> Seq<u8> {
    seq![
        123u8,
        34u8,
        109u8,
        97u8,
        99u8,
        65u8,
        100u8,
        100u8,
        114u8,
        101u8,
        115u8,
        115u8,
        34u8,
        58u8,
        34u8,
    ]
}

/// The bytes between the address and the timestamp value.
pub open spec fn lit_ts() -> Seq<u8> {
    seq![
        34u8,
        44u8,
        32u8,
        34u8,
        116u8,
        105u8,
        109u8,
        101u8,
        115u8,
        116u8,
        97u8,
        109u8,
        112u8,
        34u8,
        58u8,
    ]
}

/// The bytes between the timestamp and the metric field name.
pub open spec fn lit_sep() -> Seq<u8> {
    seq![44u8, 32u8, 34u8]
}

/// The whole payload of a record: the address, the timestamp, and the metric
/// value under its kind's field name.
pub open spec fn spec_encode(m: RecordModel) -> Seq<u8> {
    lit_prefix() + spec_mac_bytes(m.mac) + lit_ts() + dec_bytes(m.timestamp_ms) + lit_sep()
        + key_bytes(m.kind) + spec_value_bytes(m.value_milli) + seq![125u8]
}

/// Append the decimal digit bytes of `n`.
fn append_dec_bytes(out: &mut Vec<u8>, n: u64)
    ensures
        final(out)@ == old(out)@ + dec_bytes(n as int),
    decreases n,
{
    if n >= 10 {
        append_dec_bytes(out, n / 10);
    }
    out.push(48 + (n % 10) as u8);
    assert(out@ =~= old(out)@ + dec_bytes(n as int));
}

/// The byte of the hexadecimal digit `d`, upper case.
fn hex_digit_byte(d: u8) -> (r: u8)
    requires
        d < 16,
    ensures
        r == hex_digit(d as int),
{
    if d < 10 {
        48 + d
    } else {
        55 + d
    }
}

/// Append the canonical colon-separated rendering of the address.
fn append_mac_bytes(out: &mut Vec<u8>, mac: &MacAddr)
    ensures
        final(out)@ == old(out)@ + spec_mac_bytes(mac.octets@),
{
    let mut k: usize = 0;
    while k < 6
        invariant
            k <= 6,
            out@ == old(out)@ + spec_mac_bytes(mac.octets@).subrange(
                0,
                if k < 6 {
                    3 * k as int
                } else {
                    17
                },
            ),
        decreases 6 - k,
    {
        let b = mac.octets[k];
        out.push(hex_digit_byte(b / 16));
        out.push(hex_digit_byte(b % 16));
        if k < 5 {
            out.push(58);
        }
        k = k + 1;
        proof {
            let s = spec_mac_bytes(mac.octets@);
            let upto = if k < 6 {
                3 * k as int
            } else {
                17
            };
            assert(out@ =~= old(out)@ + s.subrange(0, upto));
        }
    }
    assert(spec_mac_bytes(mac.octets@).subrange(0, 17) =~= spec_mac_bytes(mac.octets@));
}

/// Append the fixed-point rendering of the metric value.
fn append_value_bytes(out: &mut Vec<u8>, v: i64)
    ensures
        final(out)@ == old(out)@ + spec_value_bytes(v as int),
{
    let mag: u64 = if v == i64::MIN {
        9223372036854775808u64
    } else if v < 0 {
        out.push(45);
        (-v) as u64
    } else {
        v as u64
    };
    if v == i64::MIN {
        out.push(45);
    }
    append_dec_bytes(out, mag / 1000);
    out.push(46);
    out.push(48 + ((mag % 1000) / 100) as u8);
    out.push(48 + ((mag % 100) / 10) as u8);
    out.push(48 + (mag % 10) as u8);
    assert(out@ =~= old(out)@ + spec_value_bytes(v as int));
}

/// Encode one record as its payload bytes.
#[verifier::rlimit(60)]
pub fn encode_record(rec: &TelemetryRecord) -> (out: Vec<u8>)
    ensures
        out@ == spec_encode(rec@),
{
    let mut out: Vec<u8> = Vec::new();
    // `{"macAddress":"`
    out.push(123);
    out.push(34);
    out.push(109);
    out.push(97);
    out.push(99);
    out.push(65);
    out.push(100);
    out.push(100);
    out.push(114);
    out.push(101);
    out.push(115);
    out.push(115);
    out.push(34);
    out.push(58);
    out.push(34);
    assert(out@ =~= lit_prefix());
    append_mac_bytes(&mut out, &rec.node_id);
    // `", "timestamp":`
    out.push(34);
    out.push(44);
    out.push(32);
    out.push(34);
    out.push(116);
    out.push(105);
    out.push(109);
    out.push(101);
    out.push(115);
    out.push(116);
    out.push(97);
    out.push(109);
    out.push(112);
    out.push(34);
    out.push(58);
    append_dec_bytes(&mut out, rec.timestamp_ms);
    // `, "`
    out.push(44);
    out.push(32);
    out.push(34);
    match rec.kind {
        RecordKind::LinkQuality => {
            // `rssi":`
            out.push(114);
            out.push(115);
            out.push(115);
            out.push(105);
            out.push(34);
            out.push(58);
        },
        RecordKind::Temperature => {
            // `temperature":`
            out.push(116);
            out.push(101);
            out.push(109);
            out.push(112);
            out.push(101);
            out.push(114);
            out.push(97);
            out.push(116);
            out.push(117);
            out.push(114);
            out.push(101);
            out.push(34);
            out.push(58);
        },
    }
    append_value_bytes(&mut out, rec.value_milli);
    out.push(125);
    assert(out@ =~= spec_encode(rec@));
    out
}

/// Whether the bytes of `lit` stand in `s` at position `i`.
pub open spec fn has_lit(s: Seq<u8>, i: int, lit: Seq<u8>) -> bool {
    0 <= i && i + lit.len() <= s.len() && s.subrange(i, i + lit.len()) == lit
}

/// The position right after the run of decimal digit bytes starting at `i`.
pub open spec fn digits_run_end(s: Seq<u8>, i: int) -> int
    recommends
        0 <= i <= s.len(),
    decreases s.len() - i,
{
    if i < s.len() && is_digit(s[i]) {
        digits_run_end(s, i + 1)
    } else {
        i
    }
}

/// The number the digit bytes `s[i..j)` denote.
pub open spec fn digits_value(s: Seq<u8>, i: int, j: int) -> int
    decreases j - i,
{
    if j <= i {
        0
    } else {
        digits_value(s, i, j - 1) * 10 + (s[j - 1] - 48)
    }
}

/// The digit run ends inside the byte sequence, everything in it is a digit,
/// and the byte after it (if any) is not a digit.
pub proof fn lemma_digits_run_end_range(s: Seq<u8>, i: int)
    requires
        0 <= i <= s.len(),
    ensures
        i <= digits_run_end(s, i) <= s.len(),
        forall|k: int| i <= k < digits_run_end(s, i) ==> is_digit(#[trigger] s[k]),
        digits_run_end(s, i) == s.len() || !is_digit(s[digits_run_end(s, i)]),
    decreases s.len() - i,
{
    if i < s.len() && is_digit(s[i]) {
        lemma_digits_run_end_range(s, i + 1);
    }
}

/// A stretch of digits followed by a non-digit (or the end) is exactly the
/// digit run.
pub proof fn lemma_digits_run_end_of(s: Seq<u8>, i: int, j: int)
    requires
        0 <= i <= j <= s.len(),
        forall|k: int| i <= k < j ==> is_digit(#[trigger] s[k]),
        j == s.len() || !is_digit(s[j]),
    ensures
        digits_run_end(s, i) == j,
    decreases j - i,
{
    if i < j {
        lemma_digits_run_end_of(s, i + 1, j);
    }
}

/// A number below `10^k` prints in at most `k` digit bytes.
pub proof fn lemma_dec_bytes_len_le(n: int, k: nat)
    requires
        0 <= n < crate::text::spec_pow10(k),
        k >= 1,
    ensures
        dec_bytes(n).len() <= k,
    decreases k,
{
    if n < 10 {
    } else {
        let p = crate::text::spec_pow10((k - 1) as nat);
        assert(crate::text::spec_pow10(k) == 10 * p);
        if k == 1 {
            assert(crate::text::spec_pow10(1nat) == 10);
        }
        assert(n / 10 < p) by (nonlinear_arith)
            requires
                10 <= n < 10 * p && 0 < p,
        ;
        lemma_dec_bytes_len_le(n / 10, (k - 1) as nat);
    }
}

/// Every byte of a decimal rendering is a digit, and there is at least one.
pub proof fn lemma_dec_bytes_digits(n: int)
    requires
        n >= 0,
    ensures
        dec_bytes(n).len() >= 1,
        forall|k: int| 0 <= k < dec_bytes(n).len() ==> is_digit(#[trigger] dec_bytes(n)[k]),
    decreases n,
{
    if n >= 10 {
        lemma_dec_bytes_digits(n / 10);
        assert forall|k: int| 0 <= k < dec_bytes(n).len() implies is_digit(
            #[trigger] dec_bytes(n)[k],
        ) by {
            if k < dec_bytes(n / 10).len() {
                assert(dec_bytes(n)[k] == dec_bytes(n / 10)[k]);
            } else {
                assert(dec_bytes(n)[k] == dec_byte(n % 10));
            }
        }
    }
}

/// The digit bytes of `n`, read back as a number, give `n` again.
pub proof fn lemma_digits_value_of_dec_bytes(s: Seq<u8>, i: int, n: int)
    requires
        n >= 0,
        0 <= i,
        i + dec_bytes(n).len() <= s.len(),
        s.subrange(i, i + dec_bytes(n).len()) == dec_bytes(n),
    ensures
        digits_value(s, i, i + dec_bytes(n).len()) == n,
    decreases n,
{
    let l = dec_bytes(n).len() as int;
    if n < 10 {
        assert(s[i] == dec_bytes(n)[0]);
        assert(digits_value(s, i, i) == 0);
        assert(digits_value(s, i, i + 1) == s[i] - 48);
    } else {
        let l0 = dec_bytes(n / 10).len() as int;
        assert(s.subrange(i, i + l0) =~= dec_bytes(n / 10)) by {
            assert forall|k: int| 0 <= k < l0 implies #[trigger] s.subrange(i, i + l0)[k]
                == dec_bytes(n / 10)[k] by {
                assert(s.subrange(i, i + l)[k] == dec_bytes(n)[k]);
            }
        }
        lemma_digits_value_of_dec_bytes(s, i, n / 10);
        assert(dec_bytes(n) == dec_bytes(n / 10) + seq![dec_byte(n % 10)]);
        assert(l == l0 + 1);
        assert(digits_value(s, i, i + l0) == n / 10);
        assert(s[i + l - 1] == dec_bytes(n)[l - 1]);
        assert(dec_bytes(n)[l - 1] == dec_byte(n % 10));
        assert(s[i + l - 1] - 48 == n % 10);
        assert(digits_value(s, i, i + l) == digits_value(s, i, i + l - 1) * 10 + (s[i + l - 1]
            - 48));
        assert((n / 10) * 10 + n % 10 == n);
    }
}

/// Reading more digits never makes the number smaller.
pub proof fn lemma_digits_value_mono(s: Seq<u8>, i: int, j1: int, j2: int)
    requires
        i <= j1 <= j2,
        forall|k: int| i <= k < j2 ==> is_digit(#[trigger] s[k]),
    ensures
        0 <= digits_value(s, i, j1) <= digits_value(s, i, j2),
    decreases j2 - j1,
{
    if j1 == j2 {
        lemma_digits_value_nonneg(s, i, j1);
    } else {
        lemma_digits_value_mono(s, i, j1, j2 - 1);
        lemma_digits_value_nonneg(s, i, j2 - 1);
    }
}

/// A run of digits denotes a nonnegative number.
pub proof fn lemma_digits_value_nonneg(s: Seq<u8>, i: int, j: int)
    requires
        forall|k: int| i <= k < j ==> is_digit(#[trigger] s[k]),
    ensures
        digits_value(s, i, j) >= 0,
    decreases j - i,
{
    if j > i {
        lemma_digits_value_nonneg(s, i, j - 1);
    }
}

/// Both bytes of the `k`-th octet pair of an address rendering are
/// hexadecimal digits.
pub open spec fn mac_pair_ok(s: Seq<u8>, i: int, k: int) -> bool {
    is_hex(s[i + 3 * k]) && is_hex(s[i + 3 * k + 1])
}

/// The `k`-th separator of an address rendering is a colon.
pub open spec fn mac_colon_ok(s: Seq<u8>, i: int, k: int) -> bool {
    s[i + 3 * k + 2] == 58u8
}

/// The octet the `k`-th pair of an address rendering denotes.
pub open spec fn mac_byte_at(s: Seq<u8>, i: int, k: int) -> u8 {
    (hex_nibble(s[i + 3 * k]) * 16 + hex_nibble(s[i + 3 * k + 1])) as u8
}

/// The six octets denoted by a canonical address rendering standing at `i`,
/// if one does.
pub open spec fn spec_parse_mac(s: Seq<u8>, i: int) -> Option<Seq<u8>> {
    if 0 <= i && i + 17 <= s.len() && (forall|k: int| 0 <= k < 6 ==> #[trigger] mac_pair_ok(s, i, k))
        && (forall|k: int| 0 <= k < 5 ==> #[trigger] mac_colon_ok(s, i, k)) {
        Option::Some(Seq::new(6, |k: int| mac_byte_at(s, i, k)))
    } else {
        Option::None
    }
}

/// The metric value denoted by a fixed-point rendering standing at `i`, and
/// the position after it, if the rendering is well-formed and the value
/// representable.
pub open spec fn spec_parse_value(s: Seq<u8>, i: int) -> Option<(int, int)>
    recommends
        0 <= i <= s.len(),
{
    let neg = i < s.len() && s[i] == 45u8;
    let i0 = if neg {
        i + 1
    } else {
        i
    };
    let j = digits_run_end(s, i0);
    if j == i0 {
        Option::None
    } else if j + 4 <= s.len() && s[j] == 46u8 && is_digit(s[j + 1]) && is_digit(s[j + 2])
        && is_digit(s[j + 3]) {
        let ip = digits_value(s, i0, j);
        let frac = (s[j + 1] - 48) * 100 + (s[j + 2] - 48) * 10 + (s[j + 3] - 48);
        let mag = ip * 1000 + frac;
        let limit: int = if neg {
            9223372036854775808
        } else {
            9223372036854775807
        };
        if mag > limit {
            Option::None
        } else {
            Option::Some(
                (
                    if neg {
                        -mag
                    } else {
                        mag
                    },
                    j + 4,
                ),
            )
        }
    } else {
        Option::None
    }
}

/// A canonical address rendering parses back to the octets it was made from.
pub proof fn lemma_parse_mac_of(s: Seq<u8>, i: int, mac: Seq<u8>)
    requires
        mac.len() == 6,
        0 <= i,
        i + 17 <= s.len(),
        s.subrange(i, i + 17) == spec_mac_bytes(mac),
    ensures
        spec_parse_mac(s, i) == Option::Some(mac),
{
    let t = spec_mac_bytes(mac);
    assert forall|k: int| 0 <= k < 6 implies #[trigger] mac_pair_ok(s, i, k) by {
        assert((3 * k) % 3 == 0 && (3 * k) / 3 == k && (3 * k + 1) % 3 == 1 && (3 * k + 1) / 3
            == k) by (nonlinear_arith);
        assert(s[i + 3 * k] == s.subrange(i, i + 17)[3 * k]);
        assert(s[i + 3 * k + 1] == s.subrange(i, i + 17)[3 * k + 1]);
        assert(s[i + 3 * k] == hex_digit(mac[k] as int / 16));
        assert(s[i + 3 * k + 1] == hex_digit(mac[k] as int % 16));
    }
    assert forall|k: int| 0 <= k < 5 implies #[trigger] mac_colon_ok(s, i, k) by {
        assert((3 * k + 2) % 3 == 2) by (nonlinear_arith);
        assert(s[i + 3 * k + 2] == s.subrange(i, i + 17)[3 * k + 2]);
    }
    assert(spec_parse_mac(s, i) is Some);
    let got = spec_parse_mac(s, i).unwrap();
    assert(got =~= mac) by {
        assert forall|k: int| 0 <= k < 6 implies got[k] == mac[k] by {
            assert((3 * k) % 3 == 0 && (3 * k) / 3 == k && (3 * k + 1) % 3 == 1 && (3 * k + 1)
                / 3 == k) by (nonlinear_arith);
            assert(s[i + 3 * k] == s.subrange(i, i + 17)[3 * k]);
            assert(s[i + 3 * k + 1] == s.subrange(i, i + 17)[3 * k + 1]);
            assert(s[i + 3 * k] == hex_digit(mac[k] as int / 16));
            assert(s[i + 3 * k + 1] == hex_digit(mac[k] as int % 16));
            assert(hex_nibble(hex_digit(mac[k] as int / 16)) == mac[k] as int / 16);
            assert(hex_nibble(hex_digit(mac[k] as int % 16)) == mac[k] as int % 16);
            assert(mac_byte_at(s, i, k) == mac[k]);
        }
    }
}

/// A fixed-point value rendering parses back to the value it was made from.
pub proof fn lemma_parse_value_of(s: Seq<u8>, i: int, v: int)
    requires
        i64::MIN <= v <= i64::MAX,
        0 <= i,
        i + spec_value_bytes(v).len() <= s.len(),
        s.subrange(i, i + spec_value_bytes(v).len()) == spec_value_bytes(v),
    ensures
        spec_parse_value(s, i) == Option::Some((v, i + spec_value_bytes(v).len())),
{
    let t = spec_value_bytes(v);
    let l = t.len() as int;
    let mag = abs_int(v);
    let ipart = mag / 1000;
    let db = dec_bytes(ipart);
    let dl = db.len() as int;
    lemma_dec_bytes_digits(ipart);
    let i0 = if v < 0 {
        i + 1
    } else {
        i
    };
    assert(l == (if v < 0 { 1int } else { 0int }) + dl + 4);
    // every byte of the rendering, seen from `s`
    assert forall|k: int| 0 <= k < l implies #[trigger] s[i + k] == t[k] by {
        assert(s.subrange(i, i + l)[k] == s[i + k]);
    }
    if v < 0 {
        assert(t[0] == 45u8);
        assert(s[i] == 45u8);
    } else {
        assert(t[0] == db[0]);
        assert(is_digit(db[0]));
        assert(s[i] != 45u8);
    }
    // the integer-part digits
    assert(s.subrange(i0, i0 + dl) =~= db) by {
        assert forall|k: int| 0 <= k < dl implies #[trigger] s.subrange(i0, i0 + dl)[k]
            == db[k] by {
            assert(s[i + (i0 - i + k)] == t[i0 - i + k]);
            assert(t[i0 - i + k] == db[k]);
        }
    }
    let j = i0 + dl;
    assert(s[j] == t[j - i]);
    assert(t[j - i] == 46u8);
    assert forall|k: int| i0 <= k < j implies is_digit(#[trigger] s[k]) by {
        assert(s.subrange(i0, i0 + dl)[k - i0] == s[k]);
        assert(db[k - i0] == s[k]);
    }
    lemma_digits_run_end_of(s, i0, j);
    lemma_digits_value_of_dec_bytes(s, i0, ipart);
    // the three fraction digits
    assert(s[j + 1] == t[j + 1 - i] && t[j + 1 - i] == dec_byte((mag % 1000) / 100));
    assert(s[j + 2] == t[j + 2 - i] && t[j + 2 - i] == dec_byte((mag % 100) / 10));
    assert(s[j + 3] == t[j + 3 - i] && t[j + 3 - i] == dec_byte(mag % 10));
    let frac = (s[j + 1] - 48) * 100 + (s[j + 2] - 48) * 10 + (s[j + 3] - 48);
    assert(mag % 100 == (mag % 1000) % 100) by (nonlinear_arith)
        requires
            mag >= 0,
    ;
    assert(mag % 10 == (mag % 100) % 10) by (nonlinear_arith)
        requires
            mag >= 0,
    ;
    assert(frac == mag % 1000);
    assert(ipart * 1000 + frac == mag);
}

/// The record a payload denotes, if it is exactly one well-formed record
/// encoding and nothing more.
pub open spec fn spec_parse(s: Seq<u8>) -> Option<RecordModel> {
    if !has_lit(s, 0, lit_prefix()) {
        Option::None
    } else {
        match spec_parse_mac(s, 15) {
            Option::None => Option::None,
            Option::Some(mac) => {
                if !has_lit(s, 32, lit_ts()) {
                    Option::None
                } else {
                    let j = digits_run_end(s, 47);
                    if j == 47 {
                        Option::None
                    } else {
                        let ts = digits_value(s, 47, j);
                        if ts > u64::MAX as int {
                            Option::None
                        } else if !has_lit(s, j, lit_sep()) {
                            Option::None
                        } else {
                            let p4 = j + 3;
                            let kind_parsed: Option<(RecordKind, int)> = if has_lit(
                                s,
                                p4,
                                key_bytes(RecordKind::LinkQuality),
                            ) {
                                Option::Some((RecordKind::LinkQuality, p4 + 6))
                            } else if has_lit(s, p4, key_bytes(RecordKind::Temperature)) {
                                Option::Some((RecordKind::Temperature, p4 + 13))
                            } else {
                                Option::None
                            };
                            match kind_parsed {
                                Option::None => Option::None,
                                Option::Some((kind, p5)) => match spec_parse_value(s, p5) {
                                    Option::None => Option::None,
                                    Option::Some((v, p6)) => if p6 + 1 == s.len() && s[p6]
                                        == 125u8 {
                                        Option::Some(
                                            RecordModel {
                                                kind,
                                                mac,
                                                timestamp_ms: ts,
                                                value_milli: v,
                                            },
                                        )
                                    } else {
                                        Option::None
                                    },
                                },
                            }
                        }
                    }
                }
            },
        }
    }
}

/// Whether the bytes of `lit` stand in `payload` at position `i`.
fn match_at(payload: &Vec<u8>, i: usize, lit: &Vec<u8>) -> (r: bool)
    ensures
        r == has_lit(payload@, i as int, lit@),
{
    let n = payload.len();
    let l = lit.len();
    if n < l || i > n - l {
        return false;
    }
    let mut j: usize = 0;
    while j < l
        invariant
            j <= l,
            i + l <= n,
            n == payload@.len(),
            l == lit@.len(),
            forall|k: int| 0 <= k < j ==> payload@[i + k] == #[trigger] lit@[k],
        decreases l - j,
    {
        if payload[i + j] != lit[j] {
            proof {
                if has_lit(payload@, i as int, lit@) {
                    assert(payload@.subrange(i as int, i + l as int)[j as int] == lit@[j as int]);
                }
            }
            return false;
        }
        j = j + 1;
    }
    proof {
        assert(payload@.subrange(i as int, i + l as int) =~= lit@);
    }
    true
}

/// The opening of the payload, as bytes.
fn lit_prefix_vec() -> (v: Vec<u8>)
    ensures
        v@ == lit_prefix(),
{
    let mut v: Vec<u8> = Vec::new();
    v.push(123);
    v.push(34);
    v.push(109);
    v.push(97);
    v.push(99);
    v.push(65);
    v.push(100);
    v.push(100);
    v.push(114);
    v.push(101);
    v.push(115);
    v.push(115);
    v.push(34);
    v.push(58);
    v.push(34);
    assert(v@ =~= lit_prefix());
    v
}

/// The bytes between the address and the timestamp value.
fn lit_ts_vec() -> (v: Vec<u8>)
    ensures
        v@ == lit_ts(),
{
    let mut v: Vec<u8> = Vec::new();
    v.push(34);
    v.push(44);
    v.push(32);
    v.push(34);
    v.push(116);
    v.push(105);
    v.push(109);
    v.push(101);
    v.push(115);
    v.push(116);
    v.push(97);
    v.push(109);
    v.push(112);
    v.push(34);
    v.push(58);
    assert(v@ =~= lit_ts());
    v
}

/// The bytes between the timestamp and the metric field name.
fn lit_sep_vec() -> (v: Vec<u8>)
    ensures
        v@ == lit_sep(),
{
    let mut v: Vec<u8> = Vec::new();
    v.push(44);
    v.push(32);
    v.push(34);
    assert(v@ =~= lit_sep());
    v
}

/// The link-quality field name with its closing quote and colon, as bytes.
fn key_rssi_vec() -> (v: Vec<u8>)
    ensures
        v@ == key_bytes(RecordKind::LinkQuality),
{
    let mut v: Vec<u8> = Vec::new();
    v.push(114);
    v.push(115);
    v.push(115);
    v.push(105);
    v.push(34);
    v.push(58);
    assert(v@ =~= key_bytes(RecordKind::LinkQuality));
    v
}

/// The measurement field name with its closing quote and colon, as bytes.
fn key_temp_vec() -> (v: Vec<u8>)
    ensures
        v@ == key_bytes(RecordKind::Temperature),
{
    let mut v: Vec<u8> = Vec::new();
    v.push(116);
    v.push(101);
    v.push(109);
    v.push(112);
    v.push(101);
    v.push(114);
    v.push(97);
    v.push(116);
    v.push(117);
    v.push(114);
    v.push(101);
    v.push(34);
    v.push(58);
    assert(v@ =~= key_bytes(RecordKind::Temperature));
    v
}

/// Read one hexadecimal octet pair.
fn read_hex_pair(payload: &Vec<u8>, pos: usize) -> (r: Option<u8>)
    requires
        pos + 2 <= payload@.len(),
    ensures
        match r {
            Option::Some(b) => is_hex(payload@[pos as int]) && is_hex(payload@[pos as int + 1])
                && b as int == hex_nibble(payload@[pos as int]) * 16 + hex_nibble(
                payload@[pos as int + 1],
            ),
            Option::None => !(is_hex(payload@[pos as int]) && is_hex(payload@[pos as int + 1])),
        },
{
    let _len = payload.len();
    let hi = payload[pos];
    let lo = payload[pos + 1];
    let hv: u8 = if 48 <= hi && hi <= 57 {
        hi - 48
    } else if 65 <= hi && hi <= 70 {
        hi - 55
    } else {
        return Option::None;
    };
    let lv: u8 = if 48 <= lo && lo <= 57 {
        lo - 48
    } else if 65 <= lo && lo <= 70 {
        lo - 55
    } else {
        return Option::None;
    };
    Option::Some(hv * 16 + lv)
}

/// Parse a canonical address rendering at `i`.
fn parse_mac_exec(payload: &Vec<u8>, i: usize) -> (r: Option<MacAddr>)
    ensures
        match r {
            Option::Some(m) => spec_parse_mac(payload@, i as int) == Option::Some(m.octets@),
            Option::None => spec_parse_mac(payload@, i as int) is None,
        },
{
    let n = payload.len();
    if n < 17 || i > n - 17 {
        return Option::None;
    }
    if payload[i + 2] != 58 || payload[i + 5] != 58 || payload[i + 8] != 58 || payload[i + 11]
        != 58 || payload[i + 14] != 58 {
        proof {
            let s = payload@;
            let ii = i as int;
            assert(!(mac_colon_ok(s, ii, 0) && mac_colon_ok(s, ii, 1) && mac_colon_ok(s, ii, 2)
                && mac_colon_ok(s, ii, 3) && mac_colon_ok(s, ii, 4)));
        }
        return Option::None;
    }
    let b0 = match read_hex_pair(payload, i) {
        Option::Some(b) => b,
        Option::None => {
            proof {
                assert(!mac_pair_ok(payload@, i as int, 0));
            }
            return Option::None;
        },
    };
    let b1 = match read_hex_pair(payload, i + 3) {
        Option::Some(b) => b,
        Option::None => {
            proof {
                assert(!mac_pair_ok(payload@, i as int, 1));
            }
            return Option::None;
        },
    };
    let b2 = match read_hex_pair(payload, i + 6) {
        Option::Some(b) => b,
        Option::None => {
            proof {
                assert(!mac_pair_ok(payload@, i as int, 2));
            }
            return Option::None;
        },
    };
    let b3 = match read_hex_pair(payload, i + 9) {
        Option::Some(b) => b,
        Option::None => {
            proof {
                assert(!mac_pair_ok(payload@, i as int, 3));
            }
            return Option::None;
        },
    };
    let b4 = match read_hex_pair(payload, i + 12) {
        Option::Some(b) => b,
        Option::None => {
            proof {
                assert(!mac_pair_ok(payload@, i as int, 4));
            }
            return Option::None;
        },
    };
    let b5 = match read_hex_pair(payload, i + 15) {
        Option::Some(b) => b,
        Option::None => {
            proof {
                assert(!mac_pair_ok(payload@, i as int, 5));
            }
            return Option::None;
        },
    };
    let m = MacAddr { octets: [b0, b1, b2, b3, b4, b5] };
    proof {
        let s = payload@;
        let ii = i as int;
        assert forall|k: int| 0 <= k < 6 implies #[trigger] mac_pair_ok(s, ii, k) by {
            assert(k == 0 || k == 1 || k == 2 || k == 3 || k == 4 || k == 5);
            assert(mac_pair_ok(s, ii, 0) && mac_pair_ok(s, ii, 1) && mac_pair_ok(s, ii, 2)
                && mac_pair_ok(s, ii, 3) && mac_pair_ok(s, ii, 4) && mac_pair_ok(s, ii, 5));
        }
        assert forall|k: int| 0 <= k < 5 implies #[trigger] mac_colon_ok(s, ii, k) by {
            assert(k == 0 || k == 1 || k == 2 || k == 3 || k == 4);
            assert(mac_colon_ok(s, ii, 0) && mac_colon_ok(s, ii, 1) && mac_colon_ok(s, ii, 2)
                && mac_colon_ok(s, ii, 3) && mac_colon_ok(s, ii, 4));
        }
        assert(spec_parse_mac(s, ii) is Some);
        let got = spec_parse_mac(s, ii).unwrap();
        assert(got =~= m.octets@) by {
            assert(m.octets@[0] == b0 && m.octets@[1] == b1 && m.octets@[2] == b2 && m.octets@[3]
                == b3 && m.octets@[4] == b4 && m.octets@[5] == b5);
            assert(got[0] == mac_byte_at(s, ii, 0) && got[1] == mac_byte_at(s, ii, 1) && got[2]
                == mac_byte_at(s, ii, 2) && got[3] == mac_byte_at(s, ii, 3) && got[4]
                == mac_byte_at(s, ii, 4) && got[5] == mac_byte_at(s, ii, 5));
        }
    }
    Option::Some(m)
}

/// Read a run of decimal digits at `start` as a number, refusing a value
/// over `limit`.
fn scan_uint(payload: &Vec<u8>, start: usize, limit: u64) -> (r: Option<(u64, usize)>)
    requires
        start <= payload@.len(),
        limit >= 9,
    ensures
        ({
            let jend = digits_run_end(payload@, start as int);
            match r {
                Option::Some(p) => p.1 == jend && jend > start && p.0 == digits_value(
                    payload@,
                    start as int,
                    jend,
                ) && p.0 <= limit,
                Option::None => jend == start as int || digits_value(
                    payload@,
                    start as int,
                    jend,
                ) > limit,
            }
        }),
{
    let n = payload.len();
    proof {
        lemma_digits_run_end_range(payload@, start as int);
    }
    let ghost jend: int = digits_run_end(payload@, start as int);
    let mut j: usize = start;
    let mut val: u64 = 0;
    while j < n && 48 <= payload[j] && payload[j] <= 57
        invariant
            start <= j,
            (j as int) <= jend,
            jend <= n,
            n == payload@.len(),
            jend == digits_run_end(payload@, start as int),
            limit >= 9,
            forall|k: int| start <= k < jend ==> is_digit(#[trigger] payload@[k]),
            jend == n || !is_digit(payload@[jend]),
            val == digits_value(payload@, start as int, j as int),
            val <= limit,
        decreases n - j,
    {
        let d = (payload[j] - 48) as u64;
        if val > (limit - d) / 10 {
            proof {
                let s = payload@;
                let q: int = (limit - d) / 10;
                assert(val * 10 + d > limit) by (nonlinear_arith)
                    requires
                        val > q,
                        q == (limit - d) / 10,
                        0 <= d,
                        d <= 9,
                        d <= limit,
                ;
                assert((j as int) < jend);
                assert(digits_value(s, start as int, j as int + 1) == val * 10 + d);
                lemma_digits_value_mono(s, start as int, j as int + 1, jend);
            }
            return Option::None;
        }
        proof {
            assert(val * 10 + d <= limit) by (nonlinear_arith)
                requires
                    val <= (limit - d) / 10,
                    0 <= d,
                    d <= 9,
                    d <= limit,
            ;
            assert((j as int) < jend);
        }
        val = val * 10 + d;
        j = j + 1;
    }
    proof {
        assert(j as int == jend);
    }
    if j == start {
        return Option::None;
    }
    Option::Some((val, j))
}

/// Parse a fixed-point metric value rendering at `i`.
fn parse_value_exec(payload: &Vec<u8>, i: usize) -> (r: Option<(i64, usize)>)
    requires
        i <= payload@.len(),
    ensures
        match r {
            Option::Some(p) => spec_parse_value(payload@, i as int) == Option::Some(
                (p.0 as int, p.1 as int),
            ),
            Option::None => spec_parse_value(payload@, i as int) is None,
        },
{
    let n = payload.len();
    let neg = i < n && payload[i] == 45;
    let i0 = if neg {
        i + 1
    } else {
        i
    };
    let ip_limit: u64 = 9223372036854775;
    let scanned = match scan_uint(payload, i0, ip_limit) {
        Option::Some(p) => p,
        Option::None => {
            proof {
                let s = payload@;
                let jend = digits_run_end(s, i0 as int);
                if jend != i0 as int {
                    lemma_digits_run_end_range(s, i0 as int);
                    let ip = digits_value(s, i0 as int, jend);
                    assert(ip > ip_limit);
                    if spec_parse_value(s, i as int) is Some {
                        assert(ip * 1000 >= (ip_limit + 1) * 1000) by (nonlinear_arith)
                            requires
                                ip >= ip_limit + 1,
                        ;
                    }
                }
            }
            return Option::None;
        },
    };
    let ip = scanned.0;
    let j = scanned.1;
    proof {
        lemma_digits_run_end_range(payload@, i0 as int);
    }
    // the dot and exactly three fraction digits
    if n < 4 || j > n - 4 {
        return Option::None;
    }
    if payload[j] != 46 {
        return Option::None;
    }
    let f1 = payload[j + 1];
    let f2 = payload[j + 2];
    let f3 = payload[j + 3];
    if f1 < 48 || f1 > 57 || f2 < 48 || f2 > 57 || f3 < 48 || f3 > 57 {
        return Option::None;
    }
    let frac: u64 = ((f1 - 48) as u64) * 100 + ((f2 - 48) as u64) * 10 + ((f3 - 48) as u64);
    proof {
        assert(ip * 1000 + frac <= ip_limit * 1000 + 999) by (nonlinear_arith)
            requires
                ip <= ip_limit,
                frac <= 999,
        ;
    }
    let mag: u64 = ip * 1000 + frac;
    let limit: u64 = if neg {
        9223372036854775808
    } else {
        9223372036854775807
    };
    if mag > limit {
        return Option::None;
    }
    let value: i64 = if neg {
        if mag == 9223372036854775808 {
            i64::MIN
        } else {
            -(mag as i64)
        }
    } else {
        mag as i64
    };
    Option::Some((value, j + 4))
}

/// Parse a payload back into the record it encodes, if it is exactly one
/// well-formed record encoding.
pub fn parse_record(payload: &Vec<u8>) -> (r: Option<TelemetryRecord>)
    ensures
        match r {
            Option::Some(rec) => spec_parse(payload@) == Option::Some(rec@),
            Option::None => spec_parse(payload@) is None,
        },
{
    let n = payload.len();
    let lp = lit_prefix_vec();
    if !match_at(payload, 0, &lp) {
        return Option::None;
    }
    let mac = match parse_mac_exec(payload, 15) {
        Option::Some(m) => m,
        Option::None => {
            return Option::None;
        },
    };
    let lt = lit_ts_vec();
    if !match_at(payload, 32, &lt) {
        return Option::None;
    }
    let scanned = match scan_uint(payload, 47, u64::MAX) {
        Option::Some(p) => p,
        Option::None => {
            return Option::None;
        },
    };
    let ts = scanned.0;
    let j = scanned.1;
    let ls = lit_sep_vec();
    if !match_at(payload, j, &ls) {
        return Option::None;
    }
    let p4 = j + 3;
    let kr = key_rssi_vec();
    let kind: RecordKind;
    let p5: usize;
    if match_at(payload, p4, &kr) {
        kind = RecordKind::LinkQuality;
        p5 = p4 + 6;
    } else {
        let kt = key_temp_vec();
        if match_at(payload, p4, &kt) {
            kind = RecordKind::Temperature;
            p5 = p4 + 13;
        } else {
            return Option::None;
        }
    }
    let parsed = match parse_value_exec(payload, p5) {
        Option::Some(p) => p,
        Option::None => {
            return Option::None;
        },
    };
    let value = parsed.0;
    let p6 = parsed.1;
    if p6 < payload.len() && p6 + 1 == payload.len() && payload[p6] == 125 {
        Option::Some(TelemetryRecord { kind, node_id: mac, timestamp_ms: ts, value_milli: value })
    } else {
        Option::None
    }
}

/// Law: parsing the encoding of any well-formed record recovers exactly that
/// record — the payload format loses nothing of the node id, the timestamp,
/// or the metric value.
#[verifier::rlimit(100)]
pub proof fn lemma_parse_encode(m: RecordModel)
    requires
        m.wf(),
    ensures
        spec_parse(spec_encode(m)) == Option::Some(m),
{
    let s = spec_encode(m);
    let macb = spec_mac_bytes(m.mac);
    let tsb = dec_bytes(m.timestamp_ms);
    let keyb = key_bytes(m.kind);
    let valb = spec_value_bytes(m.value_milli);
    let dl = tsb.len() as int;
    let kl = keyb.len() as int;
    let vl = valb.len() as int;
    assert(macb.len() == 17);
    assert(s.len() == 15 + 17 + 15 + dl + 3 + kl + vl + 1);

    assert(s.subrange(0, 15) =~= lit_prefix());
    assert(has_lit(s, 0, lit_prefix()));

    assert(s.subrange(15, 32) =~= macb);
    lemma_parse_mac_of(s, 15, m.mac);

    assert(s.subrange(32, 47) =~= lit_ts());
    assert(has_lit(s, 32, lit_ts()));

    assert(s.subrange(47, 47 + dl) =~= tsb);
    lemma_dec_bytes_digits(m.timestamp_ms);
    assert forall|k: int| 47 <= k < 47 + dl implies is_digit(#[trigger] s[k]) by {
        assert(s.subrange(47, 47 + dl)[k - 47] == s[k]);
        assert(tsb[k - 47] == s[k]);
    }
    let p4t = 47 + dl;
    assert(s.subrange(p4t, p4t + 3) =~= lit_sep());
    assert(s[p4t] == s.subrange(p4t, p4t + 3)[0]);
    assert(s[p4t] == 44u8);
    lemma_digits_run_end_of(s, 47, p4t);
    lemma_digits_value_of_dec_bytes(s, 47, m.timestamp_ms);
    assert(has_lit(s, p4t, lit_sep()));

    let p4 = p4t + 3;
    assert(s.subrange(p4, p4 + kl) =~= keyb);
    assert(has_lit(s, p4, keyb));
    let p5 = p4 + kl;
    match m.kind {
        RecordKind::LinkQuality => {
            assert(kl == 6);
        },
        RecordKind::Temperature => {
            assert(kl == 13);
            assert(!has_lit(s, p4, key_bytes(RecordKind::LinkQuality))) by {
                if has_lit(s, p4, key_bytes(RecordKind::LinkQuality)) {
                    assert(s.subrange(p4, p4 + 6)[0] == s[p4]);
                    assert(s[p4] == key_bytes(RecordKind::LinkQuality)[0]);
                    assert(s.subrange(p4, p4 + kl)[0] == s[p4]);
                    assert(s[p4] == keyb[0]);
                }
            }
        },
    }

    assert(s.subrange(p5, p5 + vl) =~= valb);
    lemma_parse_value_of(s, p5, m.value_milli);

    let p6 = p5 + vl;
    assert(s[p6] == 125u8);
    assert(p6 + 1 == s.len());

    assert(spec_parse(s) is Some);
    assert(spec_parse(s).unwrap() == m);
}

/// Law: no two well-formed records share an encoding — the payload format is
/// unambiguous.
pub proof fn lemma_encode_injective(m1: RecordModel, m2: RecordModel)
    requires
        m1.wf(),
        m2.wf(),
        spec_encode(m1) == spec_encode(m2),
    ensures
        m1 == m2,
{
    lemma_parse_encode(m1);
    lemma_parse_encode(m2);
}

} // verus!
