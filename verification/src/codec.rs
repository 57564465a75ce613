//! The frame codec: the one-byte-tag + binary-payload wire format.
//!
//! Every wire value is built from a handful of primitives: little-endian
//! unsigned integers of a fixed byte width, single flag bytes, and
//! length-prefixed byte strings. Encoders append to a byte vector; parsers
//! read at an index and tolerate trailing bytes, because datagrams arrive in
//! a reusable zero-filled buffer that is usually longer than the frame.

use vstd::prelude::*;

use crate::{LARGE_TAG, SMALL_TAG};
use crate::net::{ConnectionEnd, Identifier, IpAddress, SubscriberInfo, ConnectionInfo};
use crate::net::{ConnectionInfoView, SubscriberInfoView, identifier_wf, MAX_IDENTIFIER_LEN};
use crate::protocol::{
    BeatStatus, Configuration, ControlAction, CueData, CueDataView, Heartbeat, JackStatus,
    JumpModeChange, LargeMessage, LargeMessageView, Message, MessageView, NetworkStatus, Request,
    RequestView, RoutingChange, ShowData, ShowDataView, SmallMessage, Timecode, TransportStatus,
    MAX_CHANNELS, MAX_SUBSCRIBERS,
};

verus! {

/// The two recognized payload categories.
#[derive(Debug, Clone, Copy, PartialEq, Eq, Structural)]
pub enum Category {
    Large,
    Small,
}

/// Why a datagram failed to decode.
#[derive(Debug, Clone, Copy, PartialEq, Eq, Structural)]
pub enum DecodeError {
    /// The datagram held no bytes at all.
    Empty,
    /// The leading byte selects no recognized category; carries that byte.
    UnknownTag(u8),
    /// The tag was recognized but the payload did not parse; carries the
    /// category and the raw frame length.
    Malformed { category: Category, raw_len: usize },
}

/// 256 raised to `n`: the number of values a little-endian encoding of
/// `n` bytes can hold.
pub open spec fn pow256(n: nat) -> int
    decreases n,
{
    if n == 0 {
        1
    } else {
        256 * pow256((n - 1) as nat)
    }
}

/// The `n`-byte little-endian encoding of `x` (of `x`'s low bytes, if `x`
/// does not fit).
pub open spec fn spec_enc_le(x: int, n: nat) -> Seq<u8>
    decreases n,
{
    if n == 0 {
        Seq::empty()
    } else {
        seq![(x % 256) as u8] + spec_enc_le(x / 256, (n - 1) as nat)
    }
}

/// The value of a little-endian byte string.
pub open spec fn spec_dec_le(s: Seq<u8>) -> int
    decreases s.len(),
{
    if s.len() == 0 {
        0
    } else {
        s[0] + 256 * spec_dec_le(s.drop_first())
    }
}

pub proof fn lemma_enc_le_len(x: int, n: nat)
    ensures
        spec_enc_le(x, n).len() == n,
    decreases n,
{
    if n > 0 {
        lemma_enc_le_len(x / 256, (n - 1) as nat);
    }
}

pub proof fn lemma_pow256_bounds(n: nat)
    ensures
        pow256(n) >= 1,
        n <= 8 ==> pow256(n) <= 0x1_0000_0000_0000_0000,
    decreases n,
{
    reveal_with_fuel(pow256, 9);
    if n > 0 {
        lemma_pow256_bounds((n - 1) as nat);
    }
}

pub proof fn lemma_dec_le_bound(s: Seq<u8>)
    ensures
        0 <= spec_dec_le(s) < pow256(s.len()),
    decreases s.len(),
{
    if s.len() > 0 {
        lemma_dec_le_bound(s.drop_first());
    }
}

/// Decoding inverts encoding for every value that fits in `n` bytes.
pub proof fn lemma_le_round_trip(x: int, n: nat)
    requires
        0 <= x < pow256(n),
    ensures
        spec_dec_le(spec_enc_le(x, n)) == x,
    decreases n,
{
    if n == 0 {
        assert(x == 0);
    } else {
        let b = (x % 256) as u8;
        let rest = spec_enc_le(x / 256, (n - 1) as nat);
        vstd::arithmetic::div_mod::lemma_fundamental_div_mod(x, 256);
        assert(x / 256 < pow256((n - 1) as nat));
        lemma_le_round_trip(x / 256, (n - 1) as nat);
        lemma_enc_le_len(x / 256, (n - 1) as nat);
        assert((seq![b] + rest).drop_first() =~= rest);
        assert(spec_dec_le(seq![b] + rest) == b + 256 * spec_dec_le(rest));
    }
}

/// Reads the `n`-byte little-endian unsigned integer at `i`, if `n` bytes
/// are there.
pub open spec fn spec_parse_uint(s: Seq<u8>, i: int, n: nat) -> Option<(int, int)> {
    if 0 <= i && i + n <= s.len() {
        Some((spec_dec_le(s.subrange(i, i + n)), i + n))
    } else {
        None
    }
}

/// Appends the `n`-byte little-endian encoding of `x`.
fn push_le(out: &mut Vec<u8>, x: u64, n: usize)
    ensures
        final(out)@ == old(out)@ + spec_enc_le(x as int, n as nat),
{
    let mut v = x;
    let mut k: usize = 0;
    while k < n
        invariant
            k <= n,
            out@ + spec_enc_le(v as int, (n - k) as nat) == old(out)@ + spec_enc_le(
                x as int,
                n as nat,
            ),
        decreases n - k,
    {
        let ghost pre = out@;
        let ghost rem = (n - k) as nat;
        let b: u8 = (v % 256) as u8;
        out.push(b);
        proof {
            assert(spec_enc_le(v as int, rem) == seq![b] + spec_enc_le(
                v as int / 256,
                (rem - 1) as nat,
            ));
            assert(out@ + spec_enc_le(v as int / 256, (rem - 1) as nat) =~= pre + spec_enc_le(
                v as int,
                rem,
            ));
        }
        v = v / 256;
        k = k + 1;
    }
    proof {
        assert(out@ + spec_enc_le(v as int, 0) =~= out@);
    }
}

/// Reads the `n`-byte little-endian unsigned integer at `i`.
fn parse_le(b: &[u8], i: usize, n: usize) -> (r: Option<(u64, usize)>)
    requires
        n <= 8,
        i <= b@.len(),
    ensures
        match r {
            Some((v, j)) => spec_parse_uint(b@, i as int, n as nat) == Some((v as int, j as int))
                && j <= b@.len(),
            None => spec_parse_uint(b@, i as int, n as nat) is None,
        },
{
    if n > b.len() - i {
        return None;
    }
    let end: usize = i + n;
    let ghost whole = b@.subrange(i as int, i + n as int);
    proof {
        lemma_dec_le_bound(whole);
        lemma_pow256_bounds(n as nat);
    }
    let mut acc: u64 = 0;
    let mut k: usize = n;
    while k > 0
        invariant
            k <= n,
            n <= 8,
            end == i + n,
            i + n <= b@.len(),
            whole == b@.subrange(i as int, i + n as int),
            acc as int == spec_dec_le(b@.subrange(i + k as int, i + n as int)),
            acc < pow256((n - k) as nat),
        decreases k,
    {
        let ghost tail = b@.subrange(i + k as int, i + n as int);
        let byte = b[i + k - 1];
        proof {
            let longer = b@.subrange(i + k - 1 as int, i + n as int);
            assert(longer.drop_first() =~= tail);
            assert(spec_dec_le(longer) == byte + 256 * spec_dec_le(tail));
            lemma_pow256_bounds((n - k + 1) as nat);
            assert(pow256((n - k + 1) as nat) == 256 * pow256((n - k) as nat));
        }
        acc = acc * 256 + (byte as u64);
        k = k - 1;
    }
    proof {
        assert(b@.subrange(i as int, i + n as int) == whole);
    }
    Some((acc, i + n))
}

/// A parse at `i` yields exactly the value whose encoding sits at `i`.
pub proof fn lemma_parse_uint_of_enc(s: Seq<u8>, i: int, x: int, n: nat)
    requires
        0 <= x < pow256(n),
        0 <= i,
        i + n <= s.len(),
        s.subrange(i, i + n) == spec_enc_le(x, n),
    ensures
        spec_parse_uint(s, i, n) == Some((x, i + n)),
{
    lemma_le_round_trip(x, n);
}

pub open spec fn spec_enc_u8(x: u8) -> Seq<u8> {
    seq![x]
}

pub open spec fn spec_enc_u16(x: u16) -> Seq<u8> {
    spec_enc_le(x as int, 2)
}

pub open spec fn spec_enc_u32(x: u32) -> Seq<u8> {
    spec_enc_le(x as int, 4)
}

pub open spec fn spec_enc_u64(x: u64) -> Seq<u8> {
    spec_enc_le(x as int, 8)
}

pub open spec fn spec_enc_bool(x: bool) -> Seq<u8> {
    seq![if x { 1u8 } else { 0u8 }]
}

pub open spec fn spec_parse_u8(s: Seq<u8>, i: int) -> Option<(u8, int)> {
    if 0 <= i && i + 1 <= s.len() {
        Some((s[i], i + 1))
    } else {
        None
    }
}

pub open spec fn spec_parse_u16(s: Seq<u8>, i: int) -> Option<(u16, int)> {
    match spec_parse_uint(s, i, 2) {
        Some((v, j)) => Some((v as u16, j)),
        None => None,
    }
}

pub open spec fn spec_parse_u32(s: Seq<u8>, i: int) -> Option<(u32, int)> {
    match spec_parse_uint(s, i, 4) {
        Some((v, j)) => Some((v as u32, j)),
        None => None,
    }
}

pub open spec fn spec_parse_u64(s: Seq<u8>, i: int) -> Option<(u64, int)> {
    match spec_parse_uint(s, i, 8) {
        Some((v, j)) => Some((v as u64, j)),
        None => None,
    }
}

/// A flag byte: zero is false, one is true, anything else is malformed.
pub open spec fn spec_parse_bool(s: Seq<u8>, i: int) -> Option<(bool, int)> {
    if 0 <= i && i + 1 <= s.len() {
        if s[i] == 0u8 {
            Some((false, i + 1))
        } else if s[i] == 1u8 {
            Some((true, i + 1))
        } else {
            None
        }
    } else {
        None
    }
}

fn push_u8(out: &mut Vec<u8>, x: u8)
    ensures
        final(out)@ == old(out)@ + spec_enc_u8(x),
{
    out.push(x);
    proof {
        assert(out@ =~= old(out)@ + spec_enc_u8(x));
    }
}

fn push_u16(out: &mut Vec<u8>, x: u16)
    ensures
        final(out)@ == old(out)@ + spec_enc_u16(x),
{
    push_le(out, x as u64, 2);
}

fn push_u32(out: &mut Vec<u8>, x: u32)
    ensures
        final(out)@ == old(out)@ + spec_enc_u32(x),
{
    push_le(out, x as u64, 4);
}

fn push_u64(out: &mut Vec<u8>, x: u64)
    ensures
        final(out)@ == old(out)@ + spec_enc_u64(x),
{
    push_le(out, x, 8);
}

fn push_bool(out: &mut Vec<u8>, x: bool)
    ensures
        final(out)@ == old(out)@ + spec_enc_bool(x),
{
    out.push(if x { 1 } else { 0 });
    proof {
        assert(out@ =~= old(out)@ + spec_enc_bool(x));
    }
}

fn parse_u8(b: &[u8], i: usize) -> (r: Option<(u8, usize)>)
    requires
        i <= b@.len(),
    ensures
        match r {
            Some((v, j)) => spec_parse_u8(b@, i as int) == Some((v, j as int)) && j <= b@.len(),
            None => spec_parse_u8(b@, i as int) is None,
        },
{
    if i < b.len() {
        Some((b[i], i + 1))
    } else {
        None
    }
}

fn parse_u16(b: &[u8], i: usize) -> (r: Option<(u16, usize)>)
    requires
        i <= b@.len(),
    ensures
        match r {
            Some((v, j)) => spec_parse_u16(b@, i as int) == Some((v, j as int)) && j <= b@.len(),
            None => spec_parse_u16(b@, i as int) is None,
        },
{
    match parse_le(b, i, 2) {
        None => None,
        Some((v, j)) => {
            proof {
                lemma_dec_le_bound(b@.subrange(i as int, i + 2));
                lemma_pow256_bounds(2);
                reveal_with_fuel(pow256, 3);
            }
            Some((v as u16, j))
        },
    }
}

fn parse_u32(b: &[u8], i: usize) -> (r: Option<(u32, usize)>)
    requires
        i <= b@.len(),
    ensures
        match r {
            Some((v, j)) => spec_parse_u32(b@, i as int) == Some((v, j as int)) && j <= b@.len(),
            None => spec_parse_u32(b@, i as int) is None,
        },
{
    match parse_le(b, i, 4) {
        None => None,
        Some((v, j)) => {
            proof {
                lemma_dec_le_bound(b@.subrange(i as int, i + 4));
                reveal_with_fuel(pow256, 5);
            }
            Some((v as u32, j))
        },
    }
}

fn parse_u64(b: &[u8], i: usize) -> (r: Option<(u64, usize)>)
    requires
        i <= b@.len(),
    ensures
        match r {
            Some((v, j)) => spec_parse_u64(b@, i as int) == Some((v, j as int)) && j <= b@.len(),
            None => spec_parse_u64(b@, i as int) is None,
        },
{
    match parse_le(b, i, 8) {
        None => None,
        Some((v, j)) => Some((v, j)),
    }
}

fn parse_bool(b: &[u8], i: usize) -> (r: Option<(bool, usize)>)
    requires
        i <= b@.len(),
    ensures
        match r {
            Some((v, j)) => spec_parse_bool(b@, i as int) == Some((v, j as int)) && j <= b@.len(),
            None => spec_parse_bool(b@, i as int) is None,
        },
{
    if i < b.len() {
        if b[i] == 0 {
            Some((false, i + 1))
        } else if b[i] == 1 {
            Some((true, i + 1))
        } else {
            None
        }
    } else {
        None
    }
}

/// A length-prefixed identifier: one length byte, then that many bytes.
pub open spec fn spec_enc_identifier(id: Seq<u8>) -> Seq<u8> {
    seq![id.len() as u8] + id
}

pub open spec fn spec_parse_identifier(s: Seq<u8>, i: int) -> Option<(Seq<u8>, int)> {
    match spec_parse_u8(s, i) {
        None => None,
        Some((len, j)) => if len <= MAX_IDENTIFIER_LEN as u8 && j + len <= s.len() {
            Some((s.subrange(j, j + len), j + len))
        } else {
            None
        },
    }
}

fn enc_identifier(id: &Identifier, out: &mut Vec<u8>)
    ensures
        final(out)@ == old(out)@ + spec_enc_identifier(id@),
{
    proof {
        use_type_invariant(id);
    }
    let bytes = id.as_bytes();
    push_u8(out, bytes.len() as u8);
    let ghost mid = out@;
    let mut k: usize = 0;
    while k < bytes.len()
        invariant
            k <= bytes@.len(),
            bytes@ == id@,
            out@ == mid + id@.take(k as int),
            mid == old(out)@ + spec_enc_u8(id@.len() as u8),
        decreases bytes@.len() - k,
    {
        out.push(bytes[k]);
        proof {
            assert(out@ =~= mid + id@.take(k + 1));
        }
        k = k + 1;
    }
    proof {
        assert(id@.take(id@.len() as int) =~= id@);
        assert(out@ =~= old(out)@ + spec_enc_identifier(id@));
    }
}

fn parse_identifier(b: &[u8], i: usize) -> (r: Option<(Identifier, usize)>)
    requires
        i <= b@.len(),
    ensures
        match r {
            Some((v, j)) => spec_parse_identifier(b@, i as int) == Some((v@, j as int)) && j
                <= b@.len(),
            None => spec_parse_identifier(b@, i as int) is None,
        },
{
    match parse_u8(b, i) {
        None => None,
        Some((len, j)) => {
            if len <= MAX_IDENTIFIER_LEN as u8 && (len as usize) <= b.len() - j {
                let end: usize = j + len as usize;
                let bytes = vstd::slice::slice_to_vec(vstd::slice::slice_subrange(b, j, end));
                let id = Identifier::new(bytes);
                Some((id, end))
            } else {
                None
            }
        },
    }
}

/// A parse at `i` yields exactly the identifier whose encoding sits at `i`.
pub proof fn lemma_parse_identifier_of_enc(s: Seq<u8>, i: int, id: Seq<u8>)
    requires
        identifier_wf(id),
        0 <= i,
        i + 1 + id.len() <= s.len(),
        s.subrange(i, i + 1 + id.len()) == spec_enc_identifier(id),
    ensures
        spec_parse_identifier(s, i) == Some((id, i + 1 + id.len())),
{
    let w = s.subrange(i, i + 1 + id.len());
    assert(s[i] == w[0]);
    assert(w[0] == (seq![id.len() as u8] + id)[0]);
    assert(s[i] == id.len() as u8);
    assert(s.subrange(i + 1, i + 1 + id.len()) =~= id) by {
        assert forall|t: int| 0 <= t < id.len() implies s[i + 1 + t] == id[t] by {
            assert(s[i + 1 + t] == w[1 + t]);
            assert(w[1 + t] == (seq![id.len() as u8] + id)[1 + t]);
        }
    }
}

/// Splits a window that holds two encodings in a row into the two windows
/// that hold one encoding each.
pub proof fn lemma_window_split(s: Seq<u8>, i: int, a: Seq<u8>, b: Seq<u8>)
    requires
        0 <= i,
        i + a.len() + b.len() <= s.len(),
        s.subrange(i, i + a.len() + b.len()) == a + b,
    ensures
        s.subrange(i, i + a.len()) == a,
        s.subrange(i + a.len(), i + a.len() + b.len()) == b,
{
    let w = s.subrange(i, i + a.len() + b.len());
    assert(s.subrange(i, i + a.len()) =~= a) by {
        assert forall|t: int| 0 <= t < a.len() implies s[i + t] == a[t] by {
            assert(s[i + t] == w[t]);
            assert(w[t] == (a + b)[t]);
        }
    }
    assert(s.subrange(i + a.len(), i + a.len() + b.len()) =~= b) by {
        assert forall|t: int| 0 <= t < b.len() implies s[i + a.len() + t] == b[t] by {
            assert(s[i + a.len() + t] == w[a.len() + t]);
            assert(w[a.len() + t] == (a + b)[a.len() + t]);
        }
    }
}

pub proof fn lemma_parse_u8_of_enc(s: Seq<u8>, i: int, x: u8)
    requires
        0 <= i,
        i + 1 <= s.len(),
        s.subrange(i, i + 1) == spec_enc_u8(x),
    ensures
        spec_parse_u8(s, i) == Some((x, i + 1)),
{
    assert(s[i] == s.subrange(i, i + 1)[0]);
}

pub proof fn lemma_parse_bool_of_enc(s: Seq<u8>, i: int, x: bool)
    requires
        0 <= i,
        i + 1 <= s.len(),
        s.subrange(i, i + 1) == spec_enc_bool(x),
    ensures
        spec_parse_bool(s, i) == Some((x, i + 1)),
{
    assert(s[i] == s.subrange(i, i + 1)[0]);
}

pub proof fn lemma_parse_u16_of_enc(s: Seq<u8>, i: int, x: u16)
    requires
        0 <= i,
        i + 2 <= s.len(),
        s.subrange(i, i + 2) == spec_enc_u16(x),
    ensures
        spec_parse_u16(s, i) == Some((x, i + 2)),
{
    reveal_with_fuel(pow256, 3);
    lemma_parse_uint_of_enc(s, i, x as int, 2);
}

pub proof fn lemma_parse_u32_of_enc(s: Seq<u8>, i: int, x: u32)
    requires
        0 <= i,
        i + 4 <= s.len(),
        s.subrange(i, i + 4) == spec_enc_u32(x),
    ensures
        spec_parse_u32(s, i) == Some((x, i + 4)),
{
    reveal_with_fuel(pow256, 5);
    lemma_parse_uint_of_enc(s, i, x as int, 4);
}

pub proof fn lemma_parse_u64_of_enc(s: Seq<u8>, i: int, x: u64)
    requires
        0 <= i,
        i + 8 <= s.len(),
        s.subrange(i, i + 8) == spec_enc_u64(x),
    ensures
        spec_parse_u64(s, i) == Some((x, i + 8)),
{
    reveal_with_fuel(pow256, 9);
    lemma_parse_uint_of_enc(s, i, x as int, 8);
}

/// A network address on the wire: the four octets, then the port.
pub open spec fn spec_enc_ip(ip: IpAddress) -> Seq<u8> {
    seq![ip.addr[0], ip.addr[1], ip.addr[2], ip.addr[3]] + spec_enc_u16(ip.port)
}

pub open spec fn spec_parse_ip(s: Seq<u8>, i: int) -> Option<(IpAddress, int)> {
    match spec_parse_u8(s, i) {
        None => None,
        Some((a0, i1)) => match spec_parse_u8(s, i1) {
            None => None,
            Some((a1, i2)) => match spec_parse_u8(s, i2) {
                None => None,
                Some((a2, i3)) => match spec_parse_u8(s, i3) {
                    None => None,
                    Some((a3, i4)) => match spec_parse_u16(s, i4) {
                        None => None,
                        Some((port, i5)) => Some(
                            (IpAddress { addr: [a0, a1, a2, a3], port }, i5),
                        ),
                    },
                },
            },
        },
    }
}

fn enc_ip(ip: &IpAddress, out: &mut Vec<u8>)
    ensures
        final(out)@ == old(out)@ + spec_enc_ip(*ip),
{
    push_u8(out, ip.addr[0]);
    push_u8(out, ip.addr[1]);
    push_u8(out, ip.addr[2]);
    push_u8(out, ip.addr[3]);
    push_u16(out, ip.port);
    proof {
        assert(out@ =~= old(out)@ + spec_enc_ip(*ip));
    }
}

fn parse_ip(b: &[u8], i: usize) -> (r: Option<(IpAddress, usize)>)
    requires
        i <= b@.len(),
    ensures
        match r {
            Some((v, j)) => spec_parse_ip(b@, i as int) == Some((v, j as int)) && j <= b@.len(),
            None => spec_parse_ip(b@, i as int) is None,
        },
{
    let (a0, i1) = match parse_u8(b, i) {
        None => return None,
        Some(x) => x,
    };
    let (a1, i2) = match parse_u8(b, i1) {
        None => return None,
        Some(x) => x,
    };
    let (a2, i3) = match parse_u8(b, i2) {
        None => return None,
        Some(x) => x,
    };
    let (a3, i4) = match parse_u8(b, i3) {
        None => return None,
        Some(x) => x,
    };
    let (port, i5) = match parse_u16(b, i4) {
        None => return None,
        Some(x) => x,
    };
    Some((IpAddress { addr: [a0, a1, a2, a3], port }, i5))
}

pub proof fn lemma_parse_ip_of_enc(s: Seq<u8>, i: int, ip: IpAddress)
    requires
        0 <= i,
        i + 6 <= s.len(),
        s.subrange(i, i + 6) == spec_enc_ip(ip),
    ensures
        spec_parse_ip(s, i) == Some((ip, i + 6)),
{
    let head = seq![ip.addr[0], ip.addr[1], ip.addr[2], ip.addr[3]];
    lemma_enc_le_len(ip.port as int, 2);
    lemma_window_split(s, i, head, spec_enc_u16(ip.port));
    lemma_parse_u16_of_enc(s, i + 4, ip.port);
    let w = s.subrange(i, i + 4);
    assert(s[i] == w[0] && s[i + 1] == w[1] && s[i + 2] == w[2] && s[i + 3] == w[3]);
    assert(w[0] == head[0] && w[1] == head[1] && w[2] == head[2] && w[3] == head[3]);
    assert([s[i], s[i + 1], s[i + 2], s[i + 3]] == ip.addr);
}

pub open spec fn spec_enc_timecode(t: Timecode) -> Seq<u8> {
    seq![t.hours, t.minutes, t.seconds, t.frames]
}

pub open spec fn spec_parse_timecode(s: Seq<u8>, i: int) -> Option<(Timecode, int)> {
    if 0 <= i && i + 4 <= s.len() {
        Some((Timecode { hours: s[i], minutes: s[i + 1], seconds: s[i + 2], frames: s[i + 3] }, i + 4))
    } else {
        None
    }
}

fn enc_timecode(t: &Timecode, out: &mut Vec<u8>)
    ensures
        final(out)@ == old(out)@ + spec_enc_timecode(*t),
{
    push_u8(out, t.hours);
    push_u8(out, t.minutes);
    push_u8(out, t.seconds);
    push_u8(out, t.frames);
    proof {
        assert(out@ =~= old(out)@ + spec_enc_timecode(*t));
    }
}

fn parse_timecode(b: &[u8], i: usize) -> (r: Option<(Timecode, usize)>)
    requires
        i <= b@.len(),
    ensures
        match r {
            Some((v, j)) => spec_parse_timecode(b@, i as int) == Some((v, j as int)) && j
                <= b@.len(),
            None => spec_parse_timecode(b@, i as int) is None,
        },
{
    if b.len() - i >= 4 {
        Some((
            Timecode { hours: b[i], minutes: b[i + 1], seconds: b[i + 2], frames: b[i + 3] },
            i + 4,
        ))
    } else {
        None
    }
}

pub proof fn lemma_parse_timecode_of_enc(s: Seq<u8>, i: int, t: Timecode)
    requires
        0 <= i,
        i + 4 <= s.len(),
        s.subrange(i, i + 4) == spec_enc_timecode(t),
    ensures
        spec_parse_timecode(s, i) == Some((t, i + 4)),
{
    let w = s.subrange(i, i + 4);
    assert(s[i] == w[0] && s[i + 1] == w[1] && s[i + 2] == w[2] && s[i + 3] == w[3]);
}

/// Transport status on the wire: the two flags, the playrate, the timecode.
pub open spec fn spec_enc_transport(t: TransportStatus) -> Seq<u8> {
    spec_enc_bool(t.running) + spec_enc_bool(t.vlt) + seq![t.playrate_percent]
        + spec_enc_timecode(t.ltc)
}

pub open spec fn spec_parse_transport(s: Seq<u8>, i: int) -> Option<(TransportStatus, int)> {
    match spec_parse_bool(s, i) {
        None => None,
        Some((running, i1)) => match spec_parse_bool(s, i1) {
            None => None,
            Some((vlt, i2)) => match spec_parse_u8(s, i2) {
                None => None,
                Some((playrate_percent, i3)) => match spec_parse_timecode(s, i3) {
                    None => None,
                    Some((ltc, i4)) => Some(
                        (TransportStatus { running, vlt, playrate_percent, ltc }, i4),
                    ),
                },
            },
        },
    }
}

fn enc_transport(t: &TransportStatus, out: &mut Vec<u8>)
    ensures
        final(out)@ == old(out)@ + spec_enc_transport(*t),
{
    push_bool(out, t.running);
    push_bool(out, t.vlt);
    push_u8(out, t.playrate_percent);
    enc_timecode(&t.ltc, out);
    proof {
        assert(out@ =~= old(out)@ + spec_enc_transport(*t));
    }
}

fn parse_transport(b: &[u8], i: usize) -> (r: Option<(TransportStatus, usize)>)
    requires
        i <= b@.len(),
    ensures
        match r {
            Some((v, j)) => spec_parse_transport(b@, i as int) == Some((v, j as int)) && j
                <= b@.len(),
            None => spec_parse_transport(b@, i as int) is None,
        },
{
    let (running, i1) = match parse_bool(b, i) {
        None => return None,
        Some(x) => x,
    };
    let (vlt, i2) = match parse_bool(b, i1) {
        None => return None,
        Some(x) => x,
    };
    let (playrate_percent, i3) = match parse_u8(b, i2) {
        None => return None,
        Some(x) => x,
    };
    let (ltc, i4) = match parse_timecode(b, i3) {
        None => return None,
        Some(x) => x,
    };
    Some((TransportStatus { running, vlt, playrate_percent, ltc }, i4))
}

pub proof fn lemma_parse_transport_of_enc(s: Seq<u8>, i: int, t: TransportStatus)
    requires
        0 <= i,
        i + 7 <= s.len(),
        s.subrange(i, i + 7) == spec_enc_transport(t),
    ensures
        spec_parse_transport(s, i) == Some((t, i + 7)),
{
    let tail = seq![t.playrate_percent] + spec_enc_timecode(t.ltc);
    assert(spec_enc_transport(t) =~= spec_enc_bool(t.running) + (spec_enc_bool(t.vlt) + tail));
    lemma_window_split(s, i, spec_enc_bool(t.running), spec_enc_bool(t.vlt) + tail);
    lemma_parse_bool_of_enc(s, i, t.running);
    lemma_window_split(s, i + 1, spec_enc_bool(t.vlt), tail);
    lemma_parse_bool_of_enc(s, i + 1, t.vlt);
    lemma_window_split(s, i + 2, seq![t.playrate_percent], spec_enc_timecode(t.ltc));
    lemma_parse_u8_of_enc(s, i + 2, t.playrate_percent);
    lemma_parse_timecode_of_enc(s, i + 3, t.ltc);
}

/// Beat position on the wire: the bar, then the beat in the bar.
pub open spec fn spec_enc_beat(v: BeatStatus) -> Seq<u8> {
    spec_enc_u32(v.bar) + seq![v.beat]
}

pub open spec fn spec_parse_beat(s: Seq<u8>, i: int) -> Option<(BeatStatus, int)> {
    match spec_parse_u32(s, i) {
        None => None,
        Some((bar, i1)) => match spec_parse_u8(s, i1) {
            None => None,
            Some((beat, i2)) => Some((BeatStatus { bar, beat }, i2)),
        },
    }
}

fn enc_beat(v: &BeatStatus, out: &mut Vec<u8>)
    ensures
        final(out)@ == old(out)@ + spec_enc_beat(*v),
{
    push_u32(out, v.bar);
    push_u8(out, v.beat);
    proof {
        assert(out@ =~= old(out)@ + spec_enc_beat(*v));
    }
}

fn parse_beat(b: &[u8], i: usize) -> (r: Option<(BeatStatus, usize)>)
    requires
        i <= b@.len(),
    ensures
        match r {
            Some((v, j)) => spec_parse_beat(b@, i as int) == Some((v, j as int)) && j <= b@.len(),
            None => spec_parse_beat(b@, i as int) is None,
        },
{
    let (bar, i1) = match parse_u32(b, i) {
        None => return None,
        Some(x) => x,
    };
    let (beat, i2) = match parse_u8(b, i1) {
        None => return None,
        Some(x) => x,
    };
    Some((BeatStatus { bar, beat }, i2))
}

pub proof fn lemma_parse_beat_of_enc(s: Seq<u8>, i: int, v: BeatStatus)
    requires
        0 <= i,
        i + 5 <= s.len(),
        s.subrange(i, i + 5) == spec_enc_beat(v),
    ensures
        spec_parse_beat(s, i) == Some((v, i + 5)),
{
    lemma_enc_le_len(v.bar as int, 4);
    lemma_window_split(s, i, spec_enc_u32(v.bar), seq![v.beat]);
    lemma_parse_u32_of_enc(s, i, v.bar);
    lemma_parse_u8_of_enc(s, i + 4, v.beat);
}

/// A heartbeat on the wire: the sender's clock.
pub open spec fn spec_enc_heartbeat(v: Heartbeat) -> Seq<u8> {
    spec_enc_u64(v.timestamp)
}

pub open spec fn spec_parse_heartbeat(s: Seq<u8>, i: int) -> Option<(Heartbeat, int)> {
    match spec_parse_u64(s, i) {
        None => None,
        Some((timestamp, i1)) => Some((Heartbeat { timestamp }, i1)),
    }
}

fn enc_heartbeat(v: &Heartbeat, out: &mut Vec<u8>)
    ensures
        final(out)@ == old(out)@ + spec_enc_heartbeat(*v),
{
    push_u64(out, v.timestamp);
}

fn parse_heartbeat(b: &[u8], i: usize) -> (r: Option<(Heartbeat, usize)>)
    requires
        i <= b@.len(),
    ensures
        match r {
            Some((v, j)) => spec_parse_heartbeat(b@, i as int) == Some((v, j as int)) && j
                <= b@.len(),
            None => spec_parse_heartbeat(b@, i as int) is None,
        },
{
    let (timestamp, i1) = match parse_u64(b, i) {
        None => return None,
        Some(x) => x,
    };
    Some((Heartbeat { timestamp }, i1))
}

pub proof fn lemma_parse_heartbeat_of_enc(s: Seq<u8>, i: int, v: Heartbeat)
    requires
        0 <= i,
        i + 8 <= s.len(),
        s.subrange(i, i + 8) == spec_enc_heartbeat(v),
    ensures
        spec_parse_heartbeat(s, i) == Some((v, i + 8)),
{
    lemma_parse_u64_of_enc(s, i, v.timestamp);
}

/// Audio-engine state on the wire: the running flag, the sample rate, the
/// dropout count.
pub open spec fn spec_enc_jack(v: JackStatus) -> Seq<u8> {
    spec_enc_bool(v.running) + spec_enc_u32(v.sample_rate) + spec_enc_u32(v.xruns)
}

pub open spec fn spec_parse_jack(s: Seq<u8>, i: int) -> Option<(JackStatus, int)> {
    match spec_parse_bool(s, i) {
        None => None,
        Some((running, i1)) => match spec_parse_u32(s, i1) {
            None => None,
            Some((sample_rate, i2)) => match spec_parse_u32(s, i2) {
                None => None,
                Some((xruns, i3)) => Some((JackStatus { running, sample_rate, xruns }, i3)),
            },
        },
    }
}

fn enc_jack(v: &JackStatus, out: &mut Vec<u8>)
    ensures
        final(out)@ == old(out)@ + spec_enc_jack(*v),
{
    push_bool(out, v.running);
    push_u32(out, v.sample_rate);
    push_u32(out, v.xruns);
    proof {
        assert(out@ =~= old(out)@ + spec_enc_jack(*v));
    }
}

fn parse_jack(b: &[u8], i: usize) -> (r: Option<(JackStatus, usize)>)
    requires
        i <= b@.len(),
    ensures
        match r {
            Some((v, j)) => spec_parse_jack(b@, i as int) == Some((v, j as int)) && j <= b@.len(),
            None => spec_parse_jack(b@, i as int) is None,
        },
{
    let (running, i1) = match parse_bool(b, i) {
        None => return None,
        Some(x) => x,
    };
    let (sample_rate, i2) = match parse_u32(b, i1) {
        None => return None,
        Some(x) => x,
    };
    let (xruns, i3) = match parse_u32(b, i2) {
        None => return None,
        Some(x) => x,
    };
    Some((JackStatus { running, sample_rate, xruns }, i3))
}

pub proof fn lemma_parse_jack_of_enc(s: Seq<u8>, i: int, v: JackStatus)
    requires
        0 <= i,
        i + 9 <= s.len(),
        s.subrange(i, i + 9) == spec_enc_jack(v),
    ensures
        spec_parse_jack(s, i) == Some((v, i + 9)),
{
    lemma_enc_le_len(v.sample_rate as int, 4);
    lemma_enc_le_len(v.xruns as int, 4);
    let tail = spec_enc_u32(v.sample_rate) + spec_enc_u32(v.xruns);
    assert(spec_enc_jack(v) =~= spec_enc_bool(v.running) + tail);
    lemma_window_split(s, i, spec_enc_bool(v.running), tail);
    lemma_parse_bool_of_enc(s, i, v.running);
    lemma_window_split(s, i + 1, spec_enc_u32(v.sample_rate), spec_enc_u32(v.xruns));
    lemma_parse_u32_of_enc(s, i + 1, v.sample_rate);
    lemma_parse_u32_of_enc(s, i + 5, v.xruns);
}

/// A routing edit on the wire: source, destination, connected flag.
pub open spec fn spec_enc_routing(v: RoutingChange) -> Seq<u8> {
    seq![v.source, v.destination] + spec_enc_bool(v.connected)
}

pub open spec fn spec_parse_routing(s: Seq<u8>, i: int) -> Option<(RoutingChange, int)> {
    match spec_parse_u8(s, i) {
        None => None,
        Some((source, i1)) => match spec_parse_u8(s, i1) {
            None => None,
            Some((destination, i2)) => match spec_parse_bool(s, i2) {
                None => None,
                Some((connected, i3)) => Some(
                    (RoutingChange { source, destination, connected }, i3),
                ),
            },
        },
    }
}

fn enc_routing(v: &RoutingChange, out: &mut Vec<u8>)
    ensures
        final(out)@ == old(out)@ + spec_enc_routing(*v),
{
    push_u8(out, v.source);
    push_u8(out, v.destination);
    push_bool(out, v.connected);
    proof {
        assert(out@ =~= old(out)@ + spec_enc_routing(*v));
    }
}

fn parse_routing(b: &[u8], i: usize) -> (r: Option<(RoutingChange, usize)>)
    requires
        i <= b@.len(),
    ensures
        match r {
            Some((v, j)) => spec_parse_routing(b@, i as int) == Some((v, j as int)) && j
                <= b@.len(),
            None => spec_parse_routing(b@, i as int) is None,
        },
{
    let (source, i1) = match parse_u8(b, i) {
        None => return None,
        Some(x) => x,
    };
    let (destination, i2) = match parse_u8(b, i1) {
        None => return None,
        Some(x) => x,
    };
    let (connected, i3) = match parse_bool(b, i2) {
        None => return None,
        Some(x) => x,
    };
    Some((RoutingChange { source, destination, connected }, i3))
}

pub proof fn lemma_parse_routing_of_enc(s: Seq<u8>, i: int, v: RoutingChange)
    requires
        0 <= i,
        i + 3 <= s.len(),
        s.subrange(i, i + 3) == spec_enc_routing(v),
    ensures
        spec_parse_routing(s, i) == Some((v, i + 3)),
{
    let w = s.subrange(i, i + 3);
    assert(s[i] == w[0] && s[i + 1] == w[1] && s[i + 2] == w[2]);
}

/// A connection end on the wire: zero for local, one for remote.
pub open spec fn spec_enc_end(e: ConnectionEnd) -> Seq<u8> {
    seq![
        match e {
            ConnectionEnd::Local => 0u8,
            ConnectionEnd::Remote => 1u8,
        },
    ]
}

pub open spec fn spec_parse_end(s: Seq<u8>, i: int) -> Option<(ConnectionEnd, int)> {
    if 0 <= i && i + 1 <= s.len() {
        if s[i] == 0u8 {
            Some((ConnectionEnd::Local, i + 1))
        } else if s[i] == 1u8 {
            Some((ConnectionEnd::Remote, i + 1))
        } else {
            None
        }
    } else {
        None
    }
}

fn enc_end(e: &ConnectionEnd, out: &mut Vec<u8>)
    ensures
        final(out)@ == old(out)@ + spec_enc_end(*e),
{
    let byte: u8 = match e {
        ConnectionEnd::Local => 0,
        ConnectionEnd::Remote => 1,
    };
    push_u8(out, byte);
}

fn parse_end(b: &[u8], i: usize) -> (r: Option<(ConnectionEnd, usize)>)
    requires
        i <= b@.len(),
    ensures
        match r {
            Some((v, j)) => spec_parse_end(b@, i as int) == Some((v, j as int)) && j <= b@.len(),
            None => spec_parse_end(b@, i as int) is None,
        },
{
    if i < b.len() {
        if b[i] == 0 {
            Some((ConnectionEnd::Local, i + 1))
        } else if b[i] == 1 {
            Some((ConnectionEnd::Remote, i + 1))
        } else {
            None
        }
    } else {
        None
    }
}

pub proof fn lemma_parse_end_of_enc(s: Seq<u8>, i: int, e: ConnectionEnd)
    requires
        0 <= i,
        i + 1 <= s.len(),
        s.subrange(i, i + 1) == spec_enc_end(e),
    ensures
        spec_parse_end(s, i) == Some((e, i + 1)),
{
    assert(s[i] == s.subrange(i, i + 1)[0]);
}

/// A cue on the wire: the cue index, then the cue name.
pub open spec fn spec_enc_cue(v: CueDataView) -> Seq<u8> {
    spec_enc_u32(v.index) + spec_enc_identifier(v.name)
}

pub open spec fn spec_parse_cue(s: Seq<u8>, i: int) -> Option<(CueDataView, int)> {
    match spec_parse_u32(s, i) {
        None => None,
        Some((index, i1)) => match spec_parse_identifier(s, i1) {
            None => None,
            Some((name, i2)) => Some((CueDataView { index, name }, i2)),
        },
    }
}

fn enc_cue(v: &CueData, out: &mut Vec<u8>)
    ensures
        final(out)@ == old(out)@ + spec_enc_cue(v@),
{
    push_u32(out, v.index);
    enc_identifier(&v.name, out);
    proof {
        assert(out@ =~= old(out)@ + spec_enc_cue(v@));
    }
}

fn parse_cue(b: &[u8], i: usize) -> (r: Option<(CueData, usize)>)
    requires
        i <= b@.len(),
    ensures
        match r {
            Some((v, j)) => spec_parse_cue(b@, i as int) == Some((v@, j as int)) && j <= b@.len(),
            None => spec_parse_cue(b@, i as int) is None,
        },
{
    let (index, i1) = match parse_u32(b, i) {
        None => return None,
        Some(x) => x,
    };
    let (name, i2) = match parse_identifier(b, i1) {
        None => return None,
        Some(x) => x,
    };
    Some((CueData { index, name }, i2))
}

pub proof fn lemma_parse_cue_of_enc(s: Seq<u8>, i: int, v: CueDataView)
    requires
        identifier_wf(v.name),
        0 <= i,
        i + spec_enc_cue(v).len() <= s.len(),
        s.subrange(i, i + spec_enc_cue(v).len()) == spec_enc_cue(v),
    ensures
        spec_parse_cue(s, i) == Some((v, i + spec_enc_cue(v).len())),
{
    lemma_enc_le_len(v.index as int, 4);
    lemma_window_split(s, i, spec_enc_u32(v.index), spec_enc_identifier(v.name));
    lemma_parse_u32_of_enc(s, i, v.index);
    lemma_parse_identifier_of_enc(s, i + 4, v.name);
}

/// A show on the wire: the show name, then how many cues it holds.
pub open spec fn spec_enc_show(v: ShowDataView) -> Seq<u8> {
    spec_enc_identifier(v.name) + spec_enc_u32(v.cue_count)
}

pub open spec fn spec_parse_show(s: Seq<u8>, i: int) -> Option<(ShowDataView, int)> {
    match spec_parse_identifier(s, i) {
        None => None,
        Some((name, i1)) => match spec_parse_u32(s, i1) {
            None => None,
            Some((cue_count, i2)) => Some((ShowDataView { name, cue_count }, i2)),
        },
    }
}

fn enc_show(v: &ShowData, out: &mut Vec<u8>)
    ensures
        final(out)@ == old(out)@ + spec_enc_show(v@),
{
    enc_identifier(&v.name, out);
    push_u32(out, v.cue_count);
    proof {
        assert(out@ =~= old(out)@ + spec_enc_show(v@));
    }
}

fn parse_show(b: &[u8], i: usize) -> (r: Option<(ShowData, usize)>)
    requires
        i <= b@.len(),
    ensures
        match r {
            Some((v, j)) => spec_parse_show(b@, i as int) == Some((v@, j as int)) && j <= b@.len(),
            None => spec_parse_show(b@, i as int) is None,
        },
{
    let (name, i1) = match parse_identifier(b, i) {
        None => return None,
        Some(x) => x,
    };
    let (cue_count, i2) = match parse_u32(b, i1) {
        None => return None,
        Some(x) => x,
    };
    Some((ShowData { name, cue_count }, i2))
}

pub proof fn lemma_parse_show_of_enc(s: Seq<u8>, i: int, v: ShowDataView)
    requires
        identifier_wf(v.name),
        0 <= i,
        i + spec_enc_show(v).len() <= s.len(),
        s.subrange(i, i + spec_enc_show(v).len()) == spec_enc_show(v),
    ensures
        spec_parse_show(s, i) == Some((v, i + spec_enc_show(v).len())),
{
    lemma_enc_le_len(v.cue_count as int, 4);
    lemma_window_split(s, i, spec_enc_identifier(v.name), spec_enc_u32(v.cue_count));
    lemma_parse_identifier_of_enc(s, i, v.name);
    lemma_parse_u32_of_enc(s, i + 1 + v.name.len(), v.cue_count);
}

/// A subscription record on the wire: identifier, reply address, wanted
/// message kinds, last contact.
pub open spec fn spec_enc_subscriber(v: SubscriberInfoView) -> Seq<u8> {
    spec_enc_identifier(v.identifier) + spec_enc_ip(v.address) + spec_enc_u16(v.message_kinds)
        + spec_enc_u64(v.last_contact)
}

pub open spec fn spec_parse_subscriber(s: Seq<u8>, i: int) -> Option<(SubscriberInfoView, int)> {
    match spec_parse_identifier(s, i) {
        None => None,
        Some((identifier, i1)) => match spec_parse_ip(s, i1) {
            None => None,
            Some((address, i2)) => match spec_parse_u16(s, i2) {
                None => None,
                Some((message_kinds, i3)) => match spec_parse_u64(s, i3) {
                    None => None,
                    Some((last_contact, i4)) => Some(
                        (SubscriberInfoView { identifier, address, message_kinds, last_contact }, i4),
                    ),
                },
            },
        },
    }
}

fn enc_subscriber(v: &SubscriberInfo, out: &mut Vec<u8>)
    ensures
        final(out)@ == old(out)@ + spec_enc_subscriber(v@),
{
    enc_identifier(&v.identifier, out);
    enc_ip(&v.address, out);
    push_u16(out, v.message_kinds);
    push_u64(out, v.last_contact);
    proof {
        assert(out@ =~= old(out)@ + spec_enc_subscriber(v@));
    }
}

fn parse_subscriber(b: &[u8], i: usize) -> (r: Option<(SubscriberInfo, usize)>)
    requires
        i <= b@.len(),
    ensures
        match r {
            Some((v, j)) => spec_parse_subscriber(b@, i as int) == Some((v@, j as int)) && j
                <= b@.len(),
            None => spec_parse_subscriber(b@, i as int) is None,
        },
{
    let (identifier, i1) = match parse_identifier(b, i) {
        None => return None,
        Some(x) => x,
    };
    let (address, i2) = match parse_ip(b, i1) {
        None => return None,
        Some(x) => x,
    };
    let (message_kinds, i3) = match parse_u16(b, i2) {
        None => return None,
        Some(x) => x,
    };
    let (last_contact, i4) = match parse_u64(b, i3) {
        None => return None,
        Some(x) => x,
    };
    Some((SubscriberInfo { identifier, address, message_kinds, last_contact }, i4))
}

pub proof fn lemma_parse_subscriber_of_enc(s: Seq<u8>, i: int, v: SubscriberInfoView)
    requires
        v.wf(),
        0 <= i,
        i + spec_enc_subscriber(v).len() <= s.len(),
        s.subrange(i, i + spec_enc_subscriber(v).len()) == spec_enc_subscriber(v),
    ensures
        spec_parse_subscriber(s, i) == Some((v, i + spec_enc_subscriber(v).len())),
        spec_enc_subscriber(v).len() == 17 + v.identifier.len(),
{
    lemma_enc_le_len(v.address.port as int, 2);
    lemma_enc_le_len(v.message_kinds as int, 2);
    lemma_enc_le_len(v.last_contact as int, 8);
    let ea = spec_enc_identifier(v.identifier);
    let eb = spec_enc_ip(v.address);
    let ec = spec_enc_u16(v.message_kinds);
    let ed = spec_enc_u64(v.last_contact);
    assert(spec_enc_subscriber(v) =~= ea + (eb + (ec + ed)));
    lemma_window_split(s, i, ea, eb + (ec + ed));
    lemma_parse_identifier_of_enc(s, i, v.identifier);
    let j1 = i + ea.len();
    lemma_window_split(s, j1, eb, ec + ed);
    lemma_parse_ip_of_enc(s, j1, v.address);
    let j2 = j1 + 6;
    lemma_window_split(s, j2, ec, ed);
    lemma_parse_u16_of_enc(s, j2, v.message_kinds);
    lemma_parse_u64_of_enc(s, j2 + 2, v.last_contact);
}

/// A connection record on the wire: which end, its address, its identifier.
pub open spec fn spec_enc_conninfo(v: ConnectionInfoView) -> Seq<u8> {
    spec_enc_end(v.end) + spec_enc_ip(v.address) + spec_enc_identifier(v.identifier)
}

pub open spec fn spec_parse_conninfo(s: Seq<u8>, i: int) -> Option<(ConnectionInfoView, int)> {
    match spec_parse_end(s, i) {
        None => None,
        Some((end, i1)) => match spec_parse_ip(s, i1) {
            None => None,
            Some((address, i2)) => match spec_parse_identifier(s, i2) {
                None => None,
                Some((identifier, i3)) => Some(
                    (ConnectionInfoView { end, address, identifier }, i3),
                ),
            },
        },
    }
}

fn enc_conninfo(v: &ConnectionInfo, out: &mut Vec<u8>)
    ensures
        final(out)@ == old(out)@ + spec_enc_conninfo(v@),
{
    enc_end(&v.end, out);
    enc_ip(&v.address, out);
    enc_identifier(&v.identifier, out);
    proof {
        assert(out@ =~= old(out)@ + spec_enc_conninfo(v@));
    }
}

fn parse_conninfo(b: &[u8], i: usize) -> (r: Option<(ConnectionInfo, usize)>)
    requires
        i <= b@.len(),
    ensures
        match r {
            Some((v, j)) => spec_parse_conninfo(b@, i as int) == Some((v@, j as int)) && j
                <= b@.len(),
            None => spec_parse_conninfo(b@, i as int) is None,
        },
{
    let (end, i1) = match parse_end(b, i) {
        None => return None,
        Some(x) => x,
    };
    let (address, i2) = match parse_ip(b, i1) {
        None => return None,
        Some(x) => x,
    };
    let (identifier, i3) = match parse_identifier(b, i2) {
        None => return None,
        Some(x) => x,
    };
    Some((ConnectionInfo { end, address, identifier }, i3))
}

pub proof fn lemma_parse_conninfo_of_enc(s: Seq<u8>, i: int, v: ConnectionInfoView)
    requires
        v.wf(),
        0 <= i,
        i + spec_enc_conninfo(v).len() <= s.len(),
        s.subrange(i, i + spec_enc_conninfo(v).len()) == spec_enc_conninfo(v),
    ensures
        spec_parse_conninfo(s, i) == Some((v, i + spec_enc_conninfo(v).len())),
        spec_enc_conninfo(v).len() == 8 + v.identifier.len(),
{
    lemma_enc_le_len(v.address.port as int, 2);
    let ea = spec_enc_end(v.end);
    let eb = spec_enc_ip(v.address);
    let ec = spec_enc_identifier(v.identifier);
    assert(spec_enc_conninfo(v) =~= ea + (eb + ec));
    lemma_window_split(s, i, ea, eb + ec);
    lemma_parse_end_of_enc(s, i, v.end);
    lemma_window_split(s, i + 1, eb, ec);
    lemma_parse_ip_of_enc(s, i + 1, v.address);
    lemma_parse_identifier_of_enc(s, i + 7, v.identifier);
}

/// The gains of a configuration, one after the other.
pub open spec fn spec_enc_u16_list(g: Seq<u16>) -> Seq<u8>
    decreases g.len(),
{
    if g.len() == 0 {
        Seq::empty()
    } else {
        spec_enc_u16(g[0]) + spec_enc_u16_list(g.drop_first())
    }
}

pub proof fn lemma_enc_u16_list_len(g: Seq<u16>)
    ensures
        spec_enc_u16_list(g).len() == 2 * g.len(),
    decreases g.len(),
{
    if g.len() > 0 {
        lemma_enc_le_len(g[0] as int, 2);
        lemma_enc_u16_list_len(g.drop_first());
    }
}

/// Exactly `n` gains read one after the other.
pub open spec fn spec_parse_u16_list(s: Seq<u8>, i: int, n: nat) -> Option<(Seq<u16>, int)>
    decreases n,
{
    if n == 0 {
        Some((Seq::empty(), i))
    } else {
        match spec_parse_u16(s, i) {
            None => None,
            Some((v, j)) => match spec_parse_u16_list(s, j, (n - 1) as nat) {
                None => None,
                Some((rest, k)) => Some((seq![v] + rest, k)),
            },
        }
    }
}

/// A configuration on the wire: a count byte, then that many gains.
pub open spec fn spec_enc_gains(g: Seq<u16>) -> Seq<u8> {
    seq![g.len() as u8] + spec_enc_u16_list(g)
}

pub open spec fn spec_parse_gains(s: Seq<u8>, i: int) -> Option<(Seq<u16>, int)> {
    match spec_parse_u8(s, i) {
        None => None,
        Some((count, j)) => if count <= MAX_CHANNELS as u8 {
            spec_parse_u16_list(s, j, count as nat)
        } else {
            None
        },
    }
}

fn enc_gains(cfg: &Configuration, out: &mut Vec<u8>)
    ensures
        final(out)@ == old(out)@ + spec_enc_gains(cfg@),
{
    proof {
        use_type_invariant(cfg);
    }
    let gains = cfg.channel_gains();
    push_u8(out, gains.len() as u8);
    let ghost mid = out@;
    proof {
        assert(cfg@.skip(0) =~= cfg@);
    }
    let mut k: usize = 0;
    while k < gains.len()
        invariant
            k <= gains@.len(),
            gains@ == cfg@,
            out@ + spec_enc_u16_list(cfg@.skip(k as int)) == mid + spec_enc_u16_list(cfg@),
            mid == old(out)@ + seq![cfg@.len() as u8],
        decreases gains@.len() - k,
    {
        let ghost pre = out@;
        let ghost rem = cfg@.skip(k as int);
        push_u16(out, gains[k]);
        proof {
            assert(rem.drop_first() =~= cfg@.skip(k + 1));
            assert(spec_enc_u16_list(rem) == spec_enc_u16(cfg@[k as int]) + spec_enc_u16_list(
                cfg@.skip(k + 1),
            ));
            assert(out@ + spec_enc_u16_list(cfg@.skip(k + 1)) =~= pre + spec_enc_u16_list(rem));
        }
        k = k + 1;
    }
    proof {
        assert(cfg@.skip(cfg@.len() as int) =~= Seq::<u16>::empty());
        assert(out@ + spec_enc_u16_list(cfg@.skip(cfg@.len() as int)) =~= out@);
        assert(out@ =~= old(out)@ + spec_enc_gains(cfg@));
    }
}

fn parse_gains(b: &[u8], i: usize) -> (r: Option<(Configuration, usize)>)
    requires
        i <= b@.len(),
    ensures
        match r {
            Some((v, j)) => spec_parse_gains(b@, i as int) == Some((v@, j as int)) && j
                <= b@.len(),
            None => spec_parse_gains(b@, i as int) is None,
        },
{
    let (count, j0) = match parse_u8(b, i) {
        None => return None,
        Some(x) => x,
    };
    if count > MAX_CHANNELS as u8 {
        return None;
    }
    let n = count as usize;
    let mut acc: Vec<u16> = Vec::new();
    let mut j = j0;
    let mut t: usize = 0;
    while t < n
        invariant
            t <= n,
            n <= MAX_CHANNELS,
            i <= b@.len(),
            j <= b@.len(),
            acc@.len() == t,
            spec_parse_u8(b@, i as int) == Some((count, j0 as int)),
            count <= MAX_CHANNELS as u8,
            n == count as usize,
            spec_parse_u16_list(b@, j0 as int, n as nat) == (match spec_parse_u16_list(
                b@,
                j as int,
                (n - t) as nat,
            ) {
                None => None::<(Seq<u16>, int)>,
                Some((rest, k)) => Some((acc@ + rest, k)),
            }),
        decreases n - t,
    {
        let ghost rem = (n - t) as nat;
        match parse_u16(b, j) {
            None => {
                proof {
                    assert(spec_parse_u16_list(b@, j as int, rem) is None);
                }
                return None;
            },
            Some((v, j1)) => {
                proof {
                    let sub = spec_parse_u16_list(b@, j1 as int, (rem - 1) as nat);
                    assert(spec_parse_u16_list(b@, j as int, rem) == (match sub {
                        None => None::<(Seq<u16>, int)>,
                        Some((rest2, k2)) => Some((seq![v] + rest2, k2)),
                    }));
                    if sub is Some {
                        let (rest2, k2) = sub.unwrap();
                        assert(acc@.push(v) + rest2 =~= acc@ + (seq![v] + rest2));
                    }
                }
                acc.push(v);
                j = j1;
            },
        }
        t = t + 1;
    }
    proof {
        assert(spec_parse_u16_list(b@, j as int, 0) == Some((Seq::<u16>::empty(), j as int)));
        assert(acc@ + Seq::<u16>::empty() =~= acc@);
    }
    let cfg = Configuration::new(acc);
    Some((cfg, j))
}

/// A parse at `i` yields exactly the gain list whose encoding sits at `i`.
pub proof fn lemma_parse_u16_list_of_enc(s: Seq<u8>, i: int, g: Seq<u16>)
    requires
        0 <= i,
        i + spec_enc_u16_list(g).len() <= s.len(),
        s.subrange(i, i + spec_enc_u16_list(g).len()) == spec_enc_u16_list(g),
    ensures
        spec_parse_u16_list(s, i, g.len()) == Some((g, i + 2 * g.len())),
    decreases g.len(),
{
    lemma_enc_u16_list_len(g);
    if g.len() == 0 {
        assert(g =~= Seq::<u16>::empty());
    } else {
        lemma_enc_le_len(g[0] as int, 2);
        lemma_enc_u16_list_len(g.drop_first());
        lemma_window_split(s, i, spec_enc_u16(g[0]), spec_enc_u16_list(g.drop_first()));
        lemma_parse_u16_of_enc(s, i, g[0]);
        lemma_parse_u16_list_of_enc(s, i + 2, g.drop_first());
        assert(seq![g[0]] + g.drop_first() =~= g);
    }
}

/// The views of a subscriber list.
pub open spec fn sub_views(v: Seq<SubscriberInfo>) -> Seq<SubscriberInfoView> {
    Seq::new(v.len(), |i: int| v[i]@)
}

/// The subscribers of a network report, one after the other.
pub open spec fn spec_enc_sub_list(subs: Seq<SubscriberInfoView>) -> Seq<u8>
    decreases subs.len(),
{
    if subs.len() == 0 {
        Seq::empty()
    } else {
        spec_enc_subscriber(subs[0]) + spec_enc_sub_list(subs.drop_first())
    }
}

/// Exactly `n` subscribers read one after the other.
pub open spec fn spec_parse_sub_list(s: Seq<u8>, i: int, n: nat) -> Option<
    (Seq<SubscriberInfoView>, int),
>
    decreases n,
{
    if n == 0 {
        Some((Seq::empty(), i))
    } else {
        match spec_parse_subscriber(s, i) {
            None => None,
            Some((v, j)) => match spec_parse_sub_list(s, j, (n - 1) as nat) {
                None => None,
                Some((rest, k)) => Some((seq![v] + rest, k)),
            },
        }
    }
}

/// A network report on the wire: a count byte, then that many subscribers.
pub open spec fn spec_enc_network(subs: Seq<SubscriberInfoView>) -> Seq<u8> {
    seq![subs.len() as u8] + spec_enc_sub_list(subs)
}

pub open spec fn spec_parse_network(s: Seq<u8>, i: int) -> Option<(Seq<SubscriberInfoView>, int)> {
    match spec_parse_u8(s, i) {
        None => None,
        Some((count, j)) => spec_parse_sub_list(s, j, count as nat),
    }
}

fn enc_network(ns: &NetworkStatus, out: &mut Vec<u8>)
    ensures
        final(out)@ == old(out)@ + spec_enc_network(ns@),
{
    proof {
        use_type_invariant(ns);
    }
    let subs = ns.subscribers();
    push_u8(out, subs.len() as u8);
    let ghost mid = out@;
    proof {
        assert(ns@.skip(0) =~= ns@);
    }
    let mut k: usize = 0;
    while k < subs.len()
        invariant
            k <= subs@.len(),
            subs@.len() == ns@.len(),
            forall|t: int| 0 <= t < subs@.len() ==> subs@[t]@ == ns@[t],
            out@ + spec_enc_sub_list(ns@.skip(k as int)) == mid + spec_enc_sub_list(ns@),
            mid == old(out)@ + seq![ns@.len() as u8],
        decreases subs@.len() - k,
    {
        let ghost pre = out@;
        let ghost rem = ns@.skip(k as int);
        enc_subscriber(&subs[k], out);
        proof {
            assert(rem.drop_first() =~= ns@.skip(k + 1));
            assert(rem[0] == ns@[k as int]);
            assert(spec_enc_sub_list(rem) == spec_enc_subscriber(ns@[k as int])
                + spec_enc_sub_list(ns@.skip(k + 1)));
            assert(out@ + spec_enc_sub_list(ns@.skip(k + 1)) =~= pre + spec_enc_sub_list(rem));
        }
        k = k + 1;
    }
    proof {
        assert(ns@.skip(ns@.len() as int) =~= Seq::<SubscriberInfoView>::empty());
        assert(out@ + spec_enc_sub_list(ns@.skip(ns@.len() as int)) =~= out@);
        assert(out@ =~= old(out)@ + spec_enc_network(ns@));
    }
}

fn parse_network(b: &[u8], i: usize) -> (r: Option<(NetworkStatus, usize)>)
    requires
        i <= b@.len(),
    ensures
        match r {
            Some((v, j)) => spec_parse_network(b@, i as int) == Some((v@, j as int)) && j
                <= b@.len(),
            None => spec_parse_network(b@, i as int) is None,
        },
{
    let (count, j0) = match parse_u8(b, i) {
        None => return None,
        Some(x) => x,
    };
    let n = count as usize;
    let mut acc: Vec<SubscriberInfo> = Vec::new();
    let mut j = j0;
    let mut t: usize = 0;
    while t < n
        invariant
            t <= n,
            n <= MAX_SUBSCRIBERS,
            i <= b@.len(),
            j <= b@.len(),
            acc@.len() == t,
            spec_parse_u8(b@, i as int) == Some((count, j0 as int)),
            n == count as usize,
            spec_parse_sub_list(b@, j0 as int, n as nat) == (match spec_parse_sub_list(
                b@,
                j as int,
                (n - t) as nat,
            ) {
                None => None::<(Seq<SubscriberInfoView>, int)>,
                Some((rest, k)) => Some((sub_views(acc@) + rest, k)),
            }),
        decreases n - t,
    {
        let ghost rem = (n - t) as nat;
        match parse_subscriber(b, j) {
            None => {
                proof {
                    assert(spec_parse_sub_list(b@, j as int, rem) is None);
                }
                return None;
            },
            Some((v, j1)) => {
                proof {
                    let sub = spec_parse_sub_list(b@, j1 as int, (rem - 1) as nat);
                    assert(spec_parse_sub_list(b@, j as int, rem) == (match sub {
                        None => None::<(Seq<SubscriberInfoView>, int)>,
                        Some((rest2, k2)) => Some((seq![v@] + rest2, k2)),
                    }));
                    if sub is Some {
                        let (rest2, k2) = sub.unwrap();
                        assert(sub_views(acc@.push(v)) + rest2 =~= sub_views(acc@) + (seq![v@]
                            + rest2));
                    }
                }
                acc.push(v);
                j = j1;
            },
        }
        t = t + 1;
    }
    proof {
        assert(spec_parse_sub_list(b@, j as int, 0) == Some(
            (Seq::<SubscriberInfoView>::empty(), j as int),
        ));
        assert(sub_views(acc@) + Seq::<SubscriberInfoView>::empty() =~= sub_views(acc@));
    }
    let ns = NetworkStatus::new(acc);
    proof {
        assert(ns@ =~= sub_views(acc@));
    }
    Some((ns, j))
}

/// A parse at `i` yields exactly the subscriber list whose encoding sits
/// at `i`.
pub proof fn lemma_parse_sub_list_of_enc(s: Seq<u8>, i: int, subs: Seq<SubscriberInfoView>)
    requires
        forall|t: int| 0 <= t < subs.len() ==> (#[trigger] subs[t]).wf(),
        0 <= i,
        i + spec_enc_sub_list(subs).len() <= s.len(),
        s.subrange(i, i + spec_enc_sub_list(subs).len()) == spec_enc_sub_list(subs),
    ensures
        spec_parse_sub_list(s, i, subs.len()) == Some((subs, i + spec_enc_sub_list(subs).len())),
    decreases subs.len(),
{
    if subs.len() == 0 {
        assert(subs =~= Seq::<SubscriberInfoView>::empty());
    } else {
        let head = spec_enc_subscriber(subs[0]);
        let tail = spec_enc_sub_list(subs.drop_first());
        lemma_window_split(s, i, head, tail);
        lemma_parse_subscriber_of_enc(s, i, subs[0]);
        lemma_parse_sub_list_of_enc(s, i + head.len(), subs.drop_first());
        assert(seq![subs[0]] + subs.drop_first() =~= subs);
    }
}

pub proof fn lemma_parse_network_of_enc(s: Seq<u8>, i: int, subs: Seq<SubscriberInfoView>)
    requires
        subs.len() <= MAX_SUBSCRIBERS,
        forall|t: int| 0 <= t < subs.len() ==> (#[trigger] subs[t]).wf(),
        0 <= i,
        i + spec_enc_network(subs).len() <= s.len(),
        s.subrange(i, i + spec_enc_network(subs).len()) == spec_enc_network(subs),
    ensures
        spec_parse_network(s, i) == Some((subs, i + spec_enc_network(subs).len())),
{
    lemma_window_split(s, i, seq![subs.len() as u8], spec_enc_sub_list(subs));
    lemma_parse_u8_of_enc(s, i, subs.len() as u8);
    lemma_parse_sub_list_of_enc(s, i + 1, subs);
}

pub proof fn lemma_parse_gains_of_enc(s: Seq<u8>, i: int, g: Seq<u16>)
    requires
        g.len() <= MAX_CHANNELS,
        0 <= i,
        i + spec_enc_gains(g).len() <= s.len(),
        s.subrange(i, i + spec_enc_gains(g).len()) == spec_enc_gains(g),
    ensures
        spec_parse_gains(s, i) == Some((g, i + 1 + 2 * g.len())),
        spec_enc_gains(g).len() == 1 + 2 * g.len(),
{
    lemma_enc_u16_list_len(g);
    lemma_window_split(s, i, seq![g.len() as u8], spec_enc_u16_list(g));
    lemma_parse_u8_of_enc(s, i, g.len() as u8);
    lemma_parse_u16_list_of_enc(s, i + 1, g);
}

/// A small payload on the wire: a variant byte, then the variant's fields.
pub open spec fn spec_enc_small(m: SmallMessage) -> Seq<u8> {
    match m {
        SmallMessage::TransportData(t) => seq![0u8] + spec_enc_transport(t),
        SmallMessage::TimecodeData(t) => seq![1u8] + spec_enc_timecode(t),
        SmallMessage::BeatData(v) => seq![2u8] + spec_enc_beat(v),
        SmallMessage::ShutdownOccured => seq![3u8],
        SmallMessage::Heartbeat(h) => seq![4u8] + spec_enc_heartbeat(h),
    }
}

pub open spec fn spec_parse_small(s: Seq<u8>, i: int) -> Option<(SmallMessage, int)> {
    match spec_parse_u8(s, i) {
        None => None,
        Some((variant, j)) => if variant == 0u8 {
            match spec_parse_transport(s, j) {
                None => None,
                Some((t, k)) => Some((SmallMessage::TransportData(t), k)),
            }
        } else if variant == 1u8 {
            match spec_parse_timecode(s, j) {
                None => None,
                Some((t, k)) => Some((SmallMessage::TimecodeData(t), k)),
            }
        } else if variant == 2u8 {
            match spec_parse_beat(s, j) {
                None => None,
                Some((v, k)) => Some((SmallMessage::BeatData(v), k)),
            }
        } else if variant == 3u8 {
            Some((SmallMessage::ShutdownOccured, j))
        } else if variant == 4u8 {
            match spec_parse_heartbeat(s, j) {
                None => None,
                Some((h, k)) => Some((SmallMessage::Heartbeat(h), k)),
            }
        } else {
            None
        },
    }
}

fn enc_small(m: &SmallMessage, out: &mut Vec<u8>)
    ensures
        final(out)@ == old(out)@ + spec_enc_small(*m),
{
    match m {
        SmallMessage::TransportData(t) => {
            push_u8(out, 0);
            enc_transport(t, out);
        },
        SmallMessage::TimecodeData(t) => {
            push_u8(out, 1);
            enc_timecode(t, out);
        },
        SmallMessage::BeatData(v) => {
            push_u8(out, 2);
            enc_beat(v, out);
        },
        SmallMessage::ShutdownOccured => {
            push_u8(out, 3);
        },
        SmallMessage::Heartbeat(h) => {
            push_u8(out, 4);
            enc_heartbeat(h, out);
        },
    }
    proof {
        assert(out@ =~= old(out)@ + spec_enc_small(*m));
    }
}

fn parse_small(b: &[u8], i: usize) -> (r: Option<(SmallMessage, usize)>)
    requires
        i <= b@.len(),
    ensures
        match r {
            Some((v, j)) => spec_parse_small(b@, i as int) == Some((v, j as int)) && j
                <= b@.len(),
            None => spec_parse_small(b@, i as int) is None,
        },
{
    let (variant, j) = match parse_u8(b, i) {
        None => return None,
        Some(x) => x,
    };
    if variant == 0 {
        match parse_transport(b, j) {
            None => None,
            Some((t, k)) => Some((SmallMessage::TransportData(t), k)),
        }
    } else if variant == 1 {
        match parse_timecode(b, j) {
            None => None,
            Some((t, k)) => Some((SmallMessage::TimecodeData(t), k)),
        }
    } else if variant == 2 {
        match parse_beat(b, j) {
            None => None,
            Some((v, k)) => Some((SmallMessage::BeatData(v), k)),
        }
    } else if variant == 3 {
        Some((SmallMessage::ShutdownOccured, j))
    } else if variant == 4 {
        match parse_heartbeat(b, j) {
            None => None,
            Some((h, k)) => Some((SmallMessage::Heartbeat(h), k)),
        }
    } else {
        None
    }
}

pub proof fn lemma_parse_small_of_enc(s: Seq<u8>, i: int, m: SmallMessage)
    requires
        0 <= i,
        i + spec_enc_small(m).len() <= s.len(),
        s.subrange(i, i + spec_enc_small(m).len()) == spec_enc_small(m),
    ensures
        spec_parse_small(s, i) == Some((m, i + spec_enc_small(m).len())),
{
    match m {
        SmallMessage::TransportData(t) => {
            lemma_window_split(s, i, seq![0u8], spec_enc_transport(t));
            lemma_parse_u8_of_enc(s, i, 0u8);
            lemma_parse_transport_of_enc(s, i + 1, t);
        },
        SmallMessage::TimecodeData(t) => {
            lemma_window_split(s, i, seq![1u8], spec_enc_timecode(t));
            lemma_parse_u8_of_enc(s, i, 1u8);
            lemma_parse_timecode_of_enc(s, i + 1, t);
        },
        SmallMessage::BeatData(v) => {
            lemma_enc_le_len(v.bar as int, 4);
            lemma_window_split(s, i, seq![2u8], spec_enc_beat(v));
            lemma_parse_u8_of_enc(s, i, 2u8);
            lemma_parse_beat_of_enc(s, i + 1, v);
        },
        SmallMessage::ShutdownOccured => {
            lemma_parse_u8_of_enc(s, i, 3u8);
        },
        SmallMessage::Heartbeat(h) => {
            lemma_enc_le_len(h.timestamp as int, 8);
            lemma_window_split(s, i, seq![4u8], spec_enc_heartbeat(h));
            lemma_parse_u8_of_enc(s, i, 4u8);
            lemma_parse_heartbeat_of_enc(s, i + 1, h);
        },
    }
}

/// A large payload on the wire: a variant byte, then the variant's fields.
pub open spec fn spec_enc_large(m: LargeMessageView) -> Seq<u8> {
    match m {
        LargeMessageView::CueData(c) => seq![0u8] + spec_enc_cue(c),
        LargeMessageView::ShowData(v) => seq![1u8] + spec_enc_show(v),
        LargeMessageView::NetworkChanged(subs) => seq![2u8] + spec_enc_network(subs),
        LargeMessageView::JACKStateChanged(j) => seq![3u8] + spec_enc_jack(j),
        LargeMessageView::ConfigurationChanged(g) => seq![4u8] + spec_enc_gains(g),
    }
}

pub open spec fn spec_parse_large(s: Seq<u8>, i: int) -> Option<(LargeMessageView, int)> {
    match spec_parse_u8(s, i) {
        None => None,
        Some((variant, j)) => if variant == 0u8 {
            match spec_parse_cue(s, j) {
                None => None,
                Some((c, k)) => Some((LargeMessageView::CueData(c), k)),
            }
        } else if variant == 1u8 {
            match spec_parse_show(s, j) {
                None => None,
                Some((v, k)) => Some((LargeMessageView::ShowData(v), k)),
            }
        } else if variant == 2u8 {
            match spec_parse_network(s, j) {
                None => None,
                Some((subs, k)) => Some((LargeMessageView::NetworkChanged(subs), k)),
            }
        } else if variant == 3u8 {
            match spec_parse_jack(s, j) {
                None => None,
                Some((v, k)) => Some((LargeMessageView::JACKStateChanged(v), k)),
            }
        } else if variant == 4u8 {
            match spec_parse_gains(s, j) {
                None => None,
                Some((g, k)) => Some((LargeMessageView::ConfigurationChanged(g), k)),
            }
        } else {
            None
        },
    }
}

fn enc_large(m: &LargeMessage, out: &mut Vec<u8>)
    ensures
        final(out)@ == old(out)@ + spec_enc_large(m@),
{
    match m {
        LargeMessage::CueData(c) => {
            push_u8(out, 0);
            enc_cue(c, out);
        },
        LargeMessage::ShowData(v) => {
            push_u8(out, 1);
            enc_show(v, out);
        },
        LargeMessage::NetworkChanged(subs) => {
            push_u8(out, 2);
            enc_network(subs, out);
        },
        LargeMessage::JACKStateChanged(j) => {
            push_u8(out, 3);
            enc_jack(j, out);
        },
        LargeMessage::ConfigurationChanged(g) => {
            push_u8(out, 4);
            enc_gains(g, out);
        },
    }
    proof {
        assert(out@ =~= old(out)@ + spec_enc_large(m@));
    }
}

fn parse_large(b: &[u8], i: usize) -> (r: Option<(LargeMessage, usize)>)
    requires
        i <= b@.len(),
    ensures
        match r {
            Some((v, j)) => spec_parse_large(b@, i as int) == Some((v@, j as int)) && j
                <= b@.len(),
            None => spec_parse_large(b@, i as int) is None,
        },
{
    let (variant, j) = match parse_u8(b, i) {
        None => return None,
        Some(x) => x,
    };
    if variant == 0 {
        match parse_cue(b, j) {
            None => None,
            Some((c, k)) => Some((LargeMessage::CueData(c), k)),
        }
    } else if variant == 1 {
        match parse_show(b, j) {
            None => None,
            Some((v, k)) => Some((LargeMessage::ShowData(v), k)),
        }
    } else if variant == 2 {
        match parse_network(b, j) {
            None => None,
            Some((subs, k)) => Some((LargeMessage::NetworkChanged(subs), k)),
        }
    } else if variant == 3 {
        match parse_jack(b, j) {
            None => None,
            Some((v, k)) => Some((LargeMessage::JACKStateChanged(v), k)),
        }
    } else if variant == 4 {
        match parse_gains(b, j) {
            None => None,
            Some((g, k)) => Some((LargeMessage::ConfigurationChanged(g), k)),
        }
    } else {
        None
    }
}

pub proof fn lemma_parse_large_of_enc(s: Seq<u8>, i: int, m: LargeMessageView)
    requires
        m.wf(),
        0 <= i,
        i + spec_enc_large(m).len() <= s.len(),
        s.subrange(i, i + spec_enc_large(m).len()) == spec_enc_large(m),
    ensures
        spec_parse_large(s, i) == Some((m, i + spec_enc_large(m).len())),
{
    match m {
        LargeMessageView::CueData(c) => {
            lemma_window_split(s, i, seq![0u8], spec_enc_cue(c));
            lemma_parse_u8_of_enc(s, i, 0u8);
            lemma_parse_cue_of_enc(s, i + 1, c);
        },
        LargeMessageView::ShowData(v) => {
            lemma_window_split(s, i, seq![1u8], spec_enc_show(v));
            lemma_parse_u8_of_enc(s, i, 1u8);
            lemma_parse_show_of_enc(s, i + 1, v);
        },
        LargeMessageView::NetworkChanged(subs) => {
            lemma_window_split(s, i, seq![2u8], spec_enc_network(subs));
            lemma_parse_u8_of_enc(s, i, 2u8);
            lemma_parse_network_of_enc(s, i + 1, subs);
        },
        LargeMessageView::JACKStateChanged(j) => {
            lemma_enc_le_len(j.sample_rate as int, 4);
            lemma_enc_le_len(j.xruns as int, 4);
            lemma_window_split(s, i, seq![3u8], spec_enc_jack(j));
            lemma_parse_u8_of_enc(s, i, 3u8);
            lemma_parse_jack_of_enc(s, i + 1, j);
        },
        LargeMessageView::ConfigurationChanged(g) => {
            lemma_window_split(s, i, seq![4u8], spec_enc_gains(g));
            lemma_parse_u8_of_enc(s, i, 4u8);
            lemma_parse_gains_of_enc(s, i + 1, g);
        },
    }
}

/// A jump-mode change on the wire: one byte.
pub open spec fn spec_enc_jump(j: JumpModeChange) -> Seq<u8> {
    match j {
        JumpModeChange::Toggle => seq![0u8],
        JumpModeChange::On => seq![1u8],
        JumpModeChange::Off => seq![2u8],
    }
}

pub open spec fn spec_parse_jump(s: Seq<u8>, i: int) -> Option<(JumpModeChange, int)> {
    if 0 <= i && i + 1 <= s.len() {
        if s[i] == 0u8 {
            Some((JumpModeChange::Toggle, i + 1))
        } else if s[i] == 1u8 {
            Some((JumpModeChange::On, i + 1))
        } else if s[i] == 2u8 {
            Some((JumpModeChange::Off, i + 1))
        } else {
            None
        }
    } else {
        None
    }
}

/// A control command on the wire: a variant byte, then the variant's fields.
pub open spec fn spec_enc_action(a: ControlAction) -> Seq<u8> {
    match a {
        ControlAction::TransportStart => seq![0u8],
        ControlAction::TransportStop => seq![1u8],
        ControlAction::TransportZero => seq![2u8],
        ControlAction::LoadNextCue => seq![3u8],
        ControlAction::LoadPreviousCue => seq![4u8],
        ControlAction::ChangeJumpMode(j) => seq![5u8] + spec_enc_jump(j),
        ControlAction::ChangePlayrate(p) => seq![6u8, p],
    }
}

pub open spec fn spec_parse_action(s: Seq<u8>, i: int) -> Option<(ControlAction, int)> {
    match spec_parse_u8(s, i) {
        None => None,
        Some((variant, j)) => if variant == 0u8 {
            Some((ControlAction::TransportStart, j))
        } else if variant == 1u8 {
            Some((ControlAction::TransportStop, j))
        } else if variant == 2u8 {
            Some((ControlAction::TransportZero, j))
        } else if variant == 3u8 {
            Some((ControlAction::LoadNextCue, j))
        } else if variant == 4u8 {
            Some((ControlAction::LoadPreviousCue, j))
        } else if variant == 5u8 {
            match spec_parse_jump(s, j) {
                None => None,
                Some((m, k)) => Some((ControlAction::ChangeJumpMode(m), k)),
            }
        } else if variant == 6u8 {
            match spec_parse_u8(s, j) {
                None => None,
                Some((p, k)) => Some((ControlAction::ChangePlayrate(p), k)),
            }
        } else {
            None
        },
    }
}

fn enc_action(a: &ControlAction, out: &mut Vec<u8>)
    ensures
        final(out)@ == old(out)@ + spec_enc_action(*a),
{
    match a {
        ControlAction::TransportStart => push_u8(out, 0),
        ControlAction::TransportStop => push_u8(out, 1),
        ControlAction::TransportZero => push_u8(out, 2),
        ControlAction::LoadNextCue => push_u8(out, 3),
        ControlAction::LoadPreviousCue => push_u8(out, 4),
        ControlAction::ChangeJumpMode(j) => {
            push_u8(out, 5);
            let byte: u8 = match j {
                JumpModeChange::Toggle => 0,
                JumpModeChange::On => 1,
                JumpModeChange::Off => 2,
            };
            push_u8(out, byte);
        },
        ControlAction::ChangePlayrate(p) => {
            push_u8(out, 6);
            push_u8(out, *p);
        },
    }
    proof {
        assert(out@ =~= old(out)@ + spec_enc_action(*a));
    }
}

fn parse_action(b: &[u8], i: usize) -> (r: Option<(ControlAction, usize)>)
    requires
        i <= b@.len(),
    ensures
        match r {
            Some((v, j)) => spec_parse_action(b@, i as int) == Some((v, j as int)) && j
                <= b@.len(),
            None => spec_parse_action(b@, i as int) is None,
        },
{
    let (variant, j) = match parse_u8(b, i) {
        None => return None,
        Some(x) => x,
    };
    if variant == 0 {
        Some((ControlAction::TransportStart, j))
    } else if variant == 1 {
        Some((ControlAction::TransportStop, j))
    } else if variant == 2 {
        Some((ControlAction::TransportZero, j))
    } else if variant == 3 {
        Some((ControlAction::LoadNextCue, j))
    } else if variant == 4 {
        Some((ControlAction::LoadPreviousCue, j))
    } else if variant == 5 {
        if j < b.len() {
            let m = if b[j] == 0 {
                JumpModeChange::Toggle
            } else if b[j] == 1 {
                JumpModeChange::On
            } else if b[j] == 2 {
                JumpModeChange::Off
            } else {
                return None;
            };
            Some((ControlAction::ChangeJumpMode(m), j + 1))
        } else {
            None
        }
    } else if variant == 6 {
        match parse_u8(b, j) {
            None => None,
            Some((p, k)) => Some((ControlAction::ChangePlayrate(p), k)),
        }
    } else {
        None
    }
}

pub proof fn lemma_parse_action_of_enc(s: Seq<u8>, i: int, a: ControlAction)
    requires
        0 <= i,
        i + spec_enc_action(a).len() <= s.len(),
        s.subrange(i, i + spec_enc_action(a).len()) == spec_enc_action(a),
    ensures
        spec_parse_action(s, i) == Some((a, i + spec_enc_action(a).len())),
{
    match a {
        ControlAction::ChangeJumpMode(j) => {
            lemma_window_split(s, i, seq![5u8], spec_enc_jump(j));
            lemma_parse_u8_of_enc(s, i, 5u8);
            assert(s[i + 1] == s.subrange(i + 1, i + 2)[0]);
        },
        ControlAction::ChangePlayrate(p) => {
            let w = s.subrange(i, i + 2);
            assert(s[i] == w[0] && s[i + 1] == w[1]);
        },
        _ => {
            assert(s[i] == s.subrange(i, i + 1)[0]);
        },
    }
}

/// A request on the wire: a variant byte, then the variant's fields.
/// Requests carry no category tag: each datagram holds exactly one request.
pub open spec fn spec_enc_request(r: RequestView) -> Seq<u8> {
    match r {
        RequestView::Subscribe(v) => seq![0u8] + spec_enc_subscriber(v),
        RequestView::Unsubscribe(v) => seq![1u8] + spec_enc_conninfo(v),
        RequestView::Ping => seq![2u8],
        RequestView::Shutdown => seq![3u8],
        RequestView::Initialize => seq![4u8],
        RequestView::ControlAction(a) => seq![5u8] + spec_enc_action(a),
        RequestView::ChangeConfiguration(g) => seq![6u8] + spec_enc_gains(g),
        RequestView::ChangeRouting(v) => seq![7u8] + spec_enc_routing(v),
    }
}

pub open spec fn spec_parse_request(s: Seq<u8>, i: int) -> Option<(RequestView, int)> {
    match spec_parse_u8(s, i) {
        None => None,
        Some((variant, j)) => if variant == 0u8 {
            match spec_parse_subscriber(s, j) {
                None => None,
                Some((v, k)) => Some((RequestView::Subscribe(v), k)),
            }
        } else if variant == 1u8 {
            match spec_parse_conninfo(s, j) {
                None => None,
                Some((v, k)) => Some((RequestView::Unsubscribe(v), k)),
            }
        } else if variant == 2u8 {
            Some((RequestView::Ping, j))
        } else if variant == 3u8 {
            Some((RequestView::Shutdown, j))
        } else if variant == 4u8 {
            Some((RequestView::Initialize, j))
        } else if variant == 5u8 {
            match spec_parse_action(s, j) {
                None => None,
                Some((a, k)) => Some((RequestView::ControlAction(a), k)),
            }
        } else if variant == 6u8 {
            match spec_parse_gains(s, j) {
                None => None,
                Some((g, k)) => Some((RequestView::ChangeConfiguration(g), k)),
            }
        } else if variant == 7u8 {
            match spec_parse_routing(s, j) {
                None => None,
                Some((v, k)) => Some((RequestView::ChangeRouting(v), k)),
            }
        } else {
            None
        },
    }
}

/// Encodes an outbound request as one datagram's bytes.
pub fn encode_request(r: &Request) -> (out: Vec<u8>)
    ensures
        out@ == spec_enc_request(r@),
{
    let mut out: Vec<u8> = Vec::new();
    encode_request_into(r, &mut out);
    out
}

/// Encodes an outbound request into a caller-owned buffer, replacing what
/// it held. With a buffer of capacity `REQUEST_BUF_LEN` the hot send path
/// reuses one allocation for every request
/// (`lemma_request_encoding_bounded`).
pub fn encode_request_into(r: &Request, out: &mut Vec<u8>)
    ensures
        final(out)@ == spec_enc_request(r@),
{
    out.clear();
    match r {
        Request::Subscribe(v) => {
            push_u8(out, 0);
            enc_subscriber(v, out);
        },
        Request::Unsubscribe(v) => {
            push_u8(out, 1);
            enc_conninfo(v, out);
        },
        Request::Ping => push_u8(out, 2),
        Request::Shutdown => push_u8(out, 3),
        Request::Initialize => push_u8(out, 4),
        Request::ControlAction(a) => {
            push_u8(out, 5);
            enc_action(a, out);
        },
        Request::ChangeConfiguration(g) => {
            push_u8(out, 6);
            enc_gains(g, out);
        },
        Request::ChangeRouting(v) => {
            push_u8(out, 7);
            enc_routing(v, out);
        },
    }
    proof {
        assert(out@ =~= spec_enc_request(r@));
    }
}

/// Reads a request back from a datagram's bytes, as the remote host would.
/// Trailing bytes beyond the request are tolerated.
pub fn decode_request(b: &[u8]) -> (r: Option<Request>)
    ensures
        match r {
            Some(v) => spec_parse_request(b@, 0) matches Some((sv, _)) && v@ == sv,
            None => spec_parse_request(b@, 0) is None,
        },
{
    let (variant, j) = match parse_u8(b, 0) {
        None => return None,
        Some(x) => x,
    };
    if variant == 0 {
        match parse_subscriber(b, j) {
            None => None,
            Some((v, _)) => Some(Request::Subscribe(v)),
        }
    } else if variant == 1 {
        match parse_conninfo(b, j) {
            None => None,
            Some((v, _)) => Some(Request::Unsubscribe(v)),
        }
    } else if variant == 2 {
        Some(Request::Ping)
    } else if variant == 3 {
        Some(Request::Shutdown)
    } else if variant == 4 {
        Some(Request::Initialize)
    } else if variant == 5 {
        match parse_action(b, j) {
            None => None,
            Some((a, _)) => Some(Request::ControlAction(a)),
        }
    } else if variant == 6 {
        match parse_gains(b, j) {
            None => None,
            Some((g, _)) => Some(Request::ChangeConfiguration(g)),
        }
    } else if variant == 7 {
        match parse_routing(b, j) {
            None => None,
            Some((v, _)) => Some(Request::ChangeRouting(v)),
        }
    } else {
        None
    }
}

/// A parse at `i` yields exactly the request whose encoding sits at `i`:
/// a peer that decodes the bytes of `encode_request` reads back the
/// request that was encoded.
pub proof fn lemma_parse_request_of_enc(s: Seq<u8>, i: int, r: RequestView)
    requires
        r.wf(),
        0 <= i,
        i + spec_enc_request(r).len() <= s.len(),
        s.subrange(i, i + spec_enc_request(r).len()) == spec_enc_request(r),
    ensures
        spec_parse_request(s, i) == Some((r, i + spec_enc_request(r).len())),
{
    match r {
        RequestView::Subscribe(v) => {
            lemma_window_split(s, i, seq![0u8], spec_enc_subscriber(v));
            lemma_parse_u8_of_enc(s, i, 0u8);
            lemma_parse_subscriber_of_enc(s, i + 1, v);
        },
        RequestView::Unsubscribe(v) => {
            lemma_window_split(s, i, seq![1u8], spec_enc_conninfo(v));
            lemma_parse_u8_of_enc(s, i, 1u8);
            lemma_parse_conninfo_of_enc(s, i + 1, v);
        },
        RequestView::Ping => {
            lemma_parse_u8_of_enc(s, i, 2u8);
        },
        RequestView::Shutdown => {
            lemma_parse_u8_of_enc(s, i, 3u8);
        },
        RequestView::Initialize => {
            lemma_parse_u8_of_enc(s, i, 4u8);
        },
        RequestView::ControlAction(a) => {
            lemma_window_split(s, i, seq![5u8], spec_enc_action(a));
            lemma_parse_u8_of_enc(s, i, 5u8);
            lemma_parse_action_of_enc(s, i + 1, a);
        },
        RequestView::ChangeConfiguration(g) => {
            lemma_window_split(s, i, seq![6u8], spec_enc_gains(g));
            lemma_parse_u8_of_enc(s, i, 6u8);
            lemma_parse_gains_of_enc(s, i + 1, g);
        },
        RequestView::ChangeRouting(v) => {
            lemma_window_split(s, i, seq![7u8], spec_enc_routing(v));
            lemma_parse_u8_of_enc(s, i, 7u8);
            lemma_parse_routing_of_enc(s, i + 1, v);
        },
    }
}

/// A re-encoding of the round-trip law over whole datagrams: a request's
/// encoding, with anything at all appended, reads back as that request.
pub proof fn lemma_request_round_trip(r: RequestView, rest: Seq<u8>)
    requires
        r.wf(),
    ensures
        spec_parse_request(spec_enc_request(r) + rest, 0) matches Some((v, _)) && v == r,
{
    let s = spec_enc_request(r) + rest;
    assert(s.subrange(0, spec_enc_request(r).len() as int) =~= spec_enc_request(r));
    lemma_parse_request_of_enc(s, 0, r);
}

/// What a whole datagram decodes to.
pub open spec fn spec_decode(s: Seq<u8>) -> Result<MessageView, DecodeError> {
    if s.len() == 0 {
        Err(DecodeError::Empty)
    } else if s[0] == LARGE_TAG {
        match spec_parse_large(s, 1) {
            Some((m, _)) => Ok(MessageView::Large(m)),
            None => Err(DecodeError::Malformed { category: Category::Large, raw_len: s.len() as usize }),
        }
    } else if s[0] == SMALL_TAG {
        match spec_parse_small(s, 1) {
            Some((m, _)) => Ok(MessageView::Small(m)),
            None => Err(DecodeError::Malformed { category: Category::Small, raw_len: s.len() as usize }),
        }
    } else {
        Err(DecodeError::UnknownTag(s[0]))
    }
}

/// Classifies and decodes one datagram: the leading byte selects the
/// category, the rest is that category's payload. Trailing bytes beyond
/// the payload (a longer, zero-padded receive buffer) are tolerated.
///
/// An empty datagram, an unrecognized leading byte, and a recognized tag
/// over a payload that does not parse are each reported as their own error;
/// no input can make this function panic.
pub fn decode(bytes: &[u8]) -> (r: Result<Message, DecodeError>)
    ensures
        (match (r, spec_decode(bytes@)) {
            (Ok(m), Ok(mv)) => m@ == mv,
            (Err(e), Err(se)) => e == se,
            _ => false,
        }),
        bytes@.len() == 0 <==> r == Err::<Message, _>(DecodeError::Empty),
        bytes@.len() > 0 && bytes@[0] != LARGE_TAG && bytes@[0] != SMALL_TAG <==> r
            == Err::<Message, _>(DecodeError::UnknownTag(bytes@[0])),
{
    if bytes.len() == 0 {
        return Err(DecodeError::Empty);
    }
    let tag = bytes[0];
    if tag == LARGE_TAG {
        match parse_large(bytes, 1) {
            Some((m, _)) => Ok(Message::Large(m)),
            None => Err(DecodeError::Malformed { category: Category::Large, raw_len: bytes.len() }),
        }
    } else if tag == SMALL_TAG {
        match parse_small(bytes, 1) {
            Some((m, _)) => Ok(Message::Small(m)),
            None => Err(DecodeError::Malformed { category: Category::Small, raw_len: bytes.len() }),
        }
    } else {
        Err(DecodeError::UnknownTag(tag))
    }
}

/// Encodes a message as one datagram's bytes: the category tag, then the
/// payload. This is the mirror of `decode`, the form in which the remote
/// host frames the traffic this client receives.
pub fn encode_message(m: &Message) -> (out: Vec<u8>)
    ensures
        out@ == spec_enc_message(m@),
{
    let mut out: Vec<u8> = Vec::new();
    match m {
        Message::Large(l) => {
            push_u8(&mut out, LARGE_TAG);
            enc_large(l, &mut out);
        },
        Message::Small(s) => {
            push_u8(&mut out, SMALL_TAG);
            enc_small(s, &mut out);
        },
    }
    proof {
        assert(out@ =~= spec_enc_message(m@));
    }
    out
}

/// A whole frame: the category tag, then the category's payload.
pub open spec fn spec_enc_message(m: MessageView) -> Seq<u8> {
    match m {
        MessageView::Large(l) => seq![LARGE_TAG] + spec_enc_large(l),
        MessageView::Small(s) => seq![SMALL_TAG] + spec_enc_small(s),
    }
}

/// The round-trip law for large frames: a large tag followed by a validly
/// encoded large payload decodes to exactly that payload, whatever bytes
/// trail it.
pub proof fn lemma_decode_of_encoded_large(m: LargeMessageView, rest: Seq<u8>)
    requires
        m.wf(),
    ensures
        spec_decode(seq![LARGE_TAG] + spec_enc_large(m) + rest) == Ok::<_, DecodeError>(
            MessageView::Large(m),
        ),
{
    let s = seq![LARGE_TAG] + spec_enc_large(m) + rest;
    assert(s[0] == LARGE_TAG);
    assert(s.subrange(1, 1 + spec_enc_large(m).len() as int) =~= spec_enc_large(m));
    lemma_parse_large_of_enc(s, 1, m);
}

/// The round-trip law for small frames.
pub proof fn lemma_decode_of_encoded_small(m: SmallMessage, rest: Seq<u8>)
    ensures
        spec_decode(seq![SMALL_TAG] + spec_enc_small(m) + rest) == Ok::<_, DecodeError>(
            MessageView::Small(m),
        ),
{
    let s = seq![SMALL_TAG] + spec_enc_small(m) + rest;
    assert(s[0] == SMALL_TAG);
    assert(SMALL_TAG != LARGE_TAG);
    assert(s.subrange(1, 1 + spec_enc_small(m).len() as int) =~= spec_enc_small(m));
    lemma_parse_small_of_enc(s, 1, m);
}

/// The round-trip law for whole frames: what `encode_message` produces,
/// `decode` reads back, whatever bytes trail it.
pub proof fn lemma_decode_of_encoded_message(m: MessageView, rest: Seq<u8>)
    requires
        m.wf(),
    ensures
        spec_decode(spec_enc_message(m) + rest) == Ok::<_, DecodeError>(m),
{
    match m {
        MessageView::Large(l) => {
            assert(spec_enc_message(m) + rest =~= seq![LARGE_TAG] + spec_enc_large(l) + rest);
            lemma_decode_of_encoded_large(l, rest);
        },
        MessageView::Small(s) => {
            assert(spec_enc_message(m) + rest =~= seq![SMALL_TAG] + spec_enc_small(s) + rest);
            lemma_decode_of_encoded_small(s, rest);
        },
    }
}

/// An unrecognized leading byte always decodes to the unknown-tag outcome.
pub proof fn lemma_decode_unknown_tag(s: Seq<u8>)
    requires
        s.len() > 0,
        s[0] != LARGE_TAG,
        s[0] != SMALL_TAG,
    ensures
        spec_decode(s) == Err::<MessageView, _>(DecodeError::UnknownTag(s[0])),
{
}

/// A recognized tag over a payload that does not parse always decodes to
/// the malformed outcome for that category, carrying the frame length —
/// never to a message and never to a different error.
pub proof fn lemma_decode_malformed(s: Seq<u8>)
    requires
        s.len() > 0,
        s[0] == LARGE_TAG ==> spec_parse_large(s, 1) is None,
        s[0] == SMALL_TAG ==> spec_parse_small(s, 1) is None,
        s[0] == LARGE_TAG || s[0] == SMALL_TAG,
    ensures
        spec_decode(s) == Err::<MessageView, _>(
            DecodeError::Malformed {
                category: if s[0] == LARGE_TAG {
                    Category::Large
                } else {
                    Category::Small
                },
                raw_len: s.len() as usize,
            },
        ),
{
}

pub proof fn lemma_parse_u16_list_len(s: Seq<u8>, i: int, n: nat)
    ensures
        spec_parse_u16_list(s, i, n) matches Some((g, _)) ==> g.len() == n,
    decreases n,
{
    if n > 0 {
        match spec_parse_u16(s, i) {
            None => {
            },
            Some((_, j)) => {
                lemma_parse_u16_list_len(s, j, (n - 1) as nat);
            },
        }
    }
}

pub proof fn lemma_parse_sub_list_wf(s: Seq<u8>, i: int, n: nat)
    ensures
        spec_parse_sub_list(s, i, n) matches Some((subs, _)) ==> {
            &&& subs.len() == n
            &&& forall|t: int| 0 <= t < subs.len() ==> (#[trigger] subs[t]).wf()
        },
    decreases n,
{
    if n > 0 {
        match spec_parse_subscriber(s, i) {
            None => {
            },
            Some((_, j)) => {
                lemma_parse_sub_list_wf(s, j, (n - 1) as nat);
            },
        }
    }
}

/// Everything the codec accepts respects the wire bounds: a decoded message
/// carries identifiers within the identifier bound, at most
/// `MAX_SUBSCRIBERS` subscribers, and at most `MAX_CHANNELS` gains.
pub proof fn lemma_decode_wf(s: Seq<u8>)
    ensures
        spec_decode(s) matches Ok(mv) ==> mv.wf(),
{
    if s.len() > 0 && s[0] == LARGE_TAG {
        match spec_parse_u8(s, 1) {
            None => {
            },
            Some((variant, j)) => {
                if variant == 2u8 {
                    match spec_parse_u8(s, j) {
                        None => {
                        },
                        Some((count, j1)) => {
                            lemma_parse_sub_list_wf(s, j1, count as nat);
                        },
                    }
                } else if variant == 4u8 {
                    match spec_parse_u8(s, j) {
                        None => {
                        },
                        Some((count, j1)) => {
                            if count <= MAX_CHANNELS as u8 {
                                lemma_parse_u16_list_len(s, j1, count as nat);
                            }
                        },
                    }
                }
            },
        }
    }
}

/// A send buffer of this many bytes holds any encoded request: the hot send
/// path can reuse one fixed-capacity buffer and never grow it.
pub const REQUEST_BUF_LEN: usize = 128;

pub proof fn lemma_enc_subscriber_len(v: SubscriberInfoView)
    ensures
        spec_enc_subscriber(v).len() == 17 + v.identifier.len(),
{
    lemma_enc_le_len(v.address.port as int, 2);
    lemma_enc_le_len(v.message_kinds as int, 2);
    lemma_enc_le_len(v.last_contact as int, 8);
}

pub proof fn lemma_enc_conninfo_len(v: ConnectionInfoView)
    ensures
        spec_enc_conninfo(v).len() == 8 + v.identifier.len(),
{
    lemma_enc_le_len(v.address.port as int, 2);
}

/// Every well-formed request encodes into at most `REQUEST_BUF_LEN` bytes.
pub proof fn lemma_request_encoding_bounded(r: RequestView)
    requires
        r.wf(),
    ensures
        spec_enc_request(r).len() <= REQUEST_BUF_LEN,
{
    match r {
        RequestView::Subscribe(v) => {
            lemma_enc_subscriber_len(v);
        },
        RequestView::Unsubscribe(v) => {
            lemma_enc_conninfo_len(v);
        },
        RequestView::ChangeConfiguration(g) => {
            lemma_enc_u16_list_len(g);
        },
        _ => {
        },
    }
}

} // verus!
