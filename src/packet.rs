use vstd::prelude::*;
use vstd::slice::slice_subrange;
use vstd::utf8::{encode_utf8, encode_utf8_decode_utf8};
use crate::address::{Address, is_valid_address};

verus! {

/// Destination of every address-provisioning query.
pub const ILDCP_DESTINATION: &'static str = "peer.config";

/// Execution condition of peer-protocol requests: the SHA-256 digest of the
/// peer-protocol fulfillment (32 zero bytes).
pub open spec fn spec_peer_protocol_condition() -> Seq<u8> {
    seq![
        102u8, 104, 122, 173, 248, 98, 189, 119, 108, 143, 193, 139, 142, 159, 142, 32, 8, 151, 20,
        133, 110, 226, 51, 179, 144, 42, 89, 29, 13, 95, 41, 37,
    ]
}

/// The condition shared by both ends of a provisioning exchange.
pub fn peer_protocol_condition() -> (r: [u8; 32])
    ensures
        r@ == spec_peer_protocol_condition(),
{
    let r: [u8; 32] = [
        102u8, 104, 122, 173, 248, 98, 189, 119, 108, 143, 193, 139, 142, 159, 142, 32, 8, 151, 20,
        133, 110, 226, 51, 179, 144, 42, 89, 29, 13, 95, 41, 37,
    ];
    assert(r@ =~= spec_peer_protocol_condition());
    r
}

/// Fulfillment of peer-protocol requests: 32 zero bytes.
pub open spec fn spec_peer_protocol_fulfillment() -> Seq<u8> {
    Seq::new(32, |i: int| 0u8)
}

/// Reject codes that this node produces.
#[derive(Debug, Clone, Copy, PartialEq, Eq, Structural)]
pub enum ErrorCode {
    /// `F02`: no stage would take the request.
    F02Unreachable,
    /// `T00`: the node could not build its answer.
    T00InternalError,
}

/// A request to pay: amount, destination, condition, expiry and data.
#[derive(Debug)]
pub struct Prepare {
    pub amount: u64,
    pub destination: Address,
    pub execution_condition: [u8; 32],
    /// Expiry, in milliseconds since the Unix epoch.
    pub expires_at: u64,
    pub data: Vec<u8>,
}

/// A successful answer: the fulfillment and opaque data.
#[derive(Debug)]
pub struct Fulfill {
    pub fulfillment: [u8; 32],
    pub data: Vec<u8>,
}

/// A failed answer: a code, a readable message, the node that produced it,
/// and opaque data.
#[derive(Debug)]
pub struct Reject {
    pub code: ErrorCode,
    pub message: String,
    pub triggered_by: Option<Address>,
    pub data: Vec<u8>,
}

/// Whether `p` is an address-provisioning query.
pub open spec fn is_ildcp_request(p: &Prepare) -> bool {
    &&& p.destination@ == ILDCP_DESTINATION@
    &&& p.execution_condition@ == spec_peer_protocol_condition()
}

/// Tells whether `p` is an address-provisioning query.
pub fn check_ildcp_request(p: &Prepare) -> (r: bool)
    ensures
        r == is_ildcp_request(p),
{
    if !p.destination.has_text(ILDCP_DESTINATION) {
        return false;
    }
    let expected = peer_protocol_condition();
    let mut i: usize = 0;
    while i < 32
        invariant
            i <= 32,
            expected@ == spec_peer_protocol_condition(),
            forall|j: int| 0 <= j < i ==> p.execution_condition@[j] == expected@[j],
        decreases 32 - i,
    {
        if p.execution_condition[i] != expected[i] {
            return false;
        }
        i = i + 1;
    }
    assert(p.execution_condition@ =~= spec_peer_protocol_condition());
    true
}

/// Big-endian bytes of `n`, without leading zero bytes (one byte for zero).
pub open spec fn be_bytes(n: nat) -> Seq<u8>
    decreases n,
{
    if n < 256 {
        seq![n as u8]
    } else {
        be_bytes(n / 256) + seq![(n % 256) as u8]
    }
}

/// `256` to the power `k`.
pub open spec fn pow256(k: nat) -> nat
    decreases k,
{
    if k == 0 {
        1
    } else {
        256 * pow256((k - 1) as nat)
    }
}

proof fn lemma_be_bytes_len(n: nat, k: nat)
    requires
        k >= 1,
        n < pow256(k),
    ensures
        be_bytes(n).len() <= k,
    decreases n,
{
    if n >= 256 {
        let p = pow256((k - 1) as nat);
        assert(n < 256 * p);
        assert(k >= 2) by {
            if k == 1 {
                assert(pow256(0) == 1);
            }
        }
        assert(n / 256 < p) by (nonlinear_arith)
            requires
                n < 256 * p,
        ;
        lemma_be_bytes_len(n / 256, (k - 1) as nat);
    }
}

proof fn lemma_usize_be_bytes_len(n: usize)
    ensures
        be_bytes(n as nat).len() <= 8,
{
    reveal_with_fuel(pow256, 9);
    assert(pow256(8) == 0x1_0000_0000_0000_0000);
    lemma_be_bytes_len(n as nat, 8);
}

/// The OER length prefix of a run of `n` bytes: one byte below 128, else a
/// byte `0x80 + k` followed by `n` in `k` big-endian bytes.
pub open spec fn length_prefix(n: nat) -> Seq<u8> {
    if n < 128 {
        seq![n as u8]
    } else {
        seq![(128 + be_bytes(n).len()) as u8] + be_bytes(n)
    }
}

/// An OER variable-length octet string: the length prefix, then the bytes.
pub open spec fn var_octet_string(b: Seq<u8>) -> Seq<u8> {
    length_prefix(b.len()) + b
}

/// The encoding of a provisioning response: client address, asset scale,
/// asset code.
pub open spec fn ildcp_response_bytes(client_address: Seq<char>, asset_scale: u8, asset_code: Seq<
    char,
>) -> Seq<u8> {
    var_octet_string(encode_utf8(client_address)) + seq![asset_scale] + var_octet_string(
        encode_utf8(asset_code),
    )
}

fn push_be_bytes(buf: &mut Vec<u8>, n: usize)
    ensures
        final(buf)@ == old(buf)@ + be_bytes(n as nat),
    decreases n,
{
    if n >= 256 {
        push_be_bytes(buf, n / 256);
    }
    buf.push((n % 256) as u8);
    assert(final(buf)@ =~= old(buf)@ + be_bytes(n as nat));
}

fn be_len(n: usize) -> (r: u8)
    ensures
        r == be_bytes(n as nat).len(),
    decreases n,
{
    proof {
        lemma_usize_be_bytes_len(n);
    }
    if n < 256 {
        1
    } else {
        be_len(n / 256) + 1
    }
}

fn push_bytes(buf: &mut Vec<u8>, b: &[u8])
    ensures
        final(buf)@ == old(buf)@ + b@,
{
    let mut i: usize = 0;
    while i < b.len()
        invariant
            i <= b@.len(),
            buf@ == old(buf)@ + b@.subrange(0, i as int),
        decreases b@.len() - i,
    {
        buf.push(b[i]);
        i = i + 1;
        assert(buf@ =~= old(buf)@ + b@.subrange(0, i as int));
    }
    assert(b@.subrange(0, i as int) =~= b@);
}

fn push_var_octet_string(buf: &mut Vec<u8>, b: &[u8])
    ensures
        final(buf)@ == old(buf)@ + var_octet_string(b@),
{
    let n = b.len();
    if n < 128 {
        buf.push(n as u8);
    } else {
        let k = be_len(n);
        proof {
            lemma_usize_be_bytes_len(n);
        }
        buf.push(128 + k);
        push_be_bytes(buf, n);
    }
    push_bytes(buf, b);
    assert(final(buf)@ =~= old(buf)@ + var_octet_string(b@));
}

/// The content of a provisioning response.
#[derive(Debug)]
pub struct IldcpResponse {
    pub client_address: Address,
    pub asset_scale: u8,
    pub asset_code: String,
}

impl IldcpResponse {
    /// The encoding of this response, as carried in a Fulfill's data.
    pub fn to_bytes(&self) -> (r: Vec<u8>)
        ensures
            r@ == ildcp_response_bytes(self.client_address@, self.asset_scale, self.asset_code@),
    {
        let mut buf: Vec<u8> = Vec::new();
        push_var_octet_string(&mut buf, self.client_address.as_str().as_bytes());
        buf.push(self.asset_scale);
        push_var_octet_string(&mut buf, self.asset_code.as_str().as_bytes());
        assert(buf@ =~= ildcp_response_bytes(
            self.client_address@,
            self.asset_scale,
            self.asset_code@,
        ));
        buf
    }

    /// The Fulfill that answers a provisioning query with this response.
    pub fn to_fulfill(&self) -> (r: Fulfill)
        ensures
            r.fulfillment@ == spec_peer_protocol_fulfillment(),
            r.data@ == ildcp_response_bytes(
                self.client_address@,
                self.asset_scale,
                self.asset_code@,
            ),
    {
        let fulfillment: [u8; 32] = [0u8; 32];
        assert(fulfillment@ =~= spec_peer_protocol_fulfillment());
        Fulfill { fulfillment, data: self.to_bytes() }
    }
}

} // verus!

verus! {

/// Big-endian value of the bytes `b`.
pub open spec fn be_value(b: Seq<u8>) -> nat
    decreases b.len(),
{
    if b.len() == 0 {
        0
    } else {
        be_value(b.drop_last()) * 256 + b.last() as nat
    }
}

/// Whether `data` holds `p` from position `pos` on.
pub open spec fn starts_with(data: Seq<u8>, pos: int, p: Seq<u8>) -> bool {
    0 <= pos && pos + p.len() <= data.len() && data.subrange(pos, pos + p.len()) == p
}

proof fn lemma_pow256_monotone(i: nat, j: nat)
    requires
        i <= j,
    ensures
        pow256(i) <= pow256(j),
    decreases j,
{
    if i < j {
        lemma_pow256_monotone(i, (j - 1) as nat);
    }
}

proof fn lemma_be_value_of_be_bytes(n: nat)
    ensures
        be_value(be_bytes(n)) == n,
        be_bytes(n).len() >= 1,
        n > 0 ==> be_bytes(n)[0] != 0,
    decreases n,
{
    let b = be_bytes(n);
    if n >= 256 {
        lemma_be_value_of_be_bytes(n / 256);
        assert(b.drop_last() =~= be_bytes(n / 256));
        assert(b[0] == be_bytes(n / 256)[0]);
    } else {
        assert(b.drop_last() =~= Seq::<u8>::empty());
        assert(be_value(Seq::<u8>::empty()) == 0);
    }
}

proof fn lemma_be_value_positive(b: Seq<u8>)
    requires
        b.len() >= 1,
        b[0] != 0,
    ensures
        be_value(b) >= 1,
        b.len() >= 2 ==> be_value(b) >= 256,
    decreases b.len(),
{
    let p = b.drop_last();
    if b.len() == 1 {
        assert(p =~= Seq::<u8>::empty());
        assert(be_value(p) == 0);
    } else {
        assert(p[0] == b[0]);
        lemma_be_value_positive(p);
    }
}

proof fn lemma_be_bytes_of_value(b: Seq<u8>)
    requires
        b.len() >= 1,
        b[0] != 0,
    ensures
        be_bytes(be_value(b)) == b,
    decreases b.len(),
{
    let v = be_value(b);
    let p = b.drop_last();
    if b.len() == 1 {
        assert(p =~= Seq::<u8>::empty());
        assert(be_value(p) == 0);
        assert(be_bytes(v) =~= b);
    } else {
        assert(p[0] == b[0]);
        lemma_be_value_positive(p);
        lemma_be_bytes_of_value(p);
        let last = b.last() as nat;
        let pv = be_value(p);
        assert(v / 256 == pv && v % 256 == last) by (nonlinear_arith)
            requires
                v == pv * 256 + last,
                last < 256,
        ;
        assert(be_bytes(v) =~= b);
    }
}

proof fn lemma_be_value_bound(b: Seq<u8>)
    ensures
        be_value(b) < pow256(b.len()),
    decreases b.len(),
{
    if b.len() > 0 {
        let p = b.drop_last();
        lemma_be_value_bound(p);
        let pv = be_value(p);
        let last = b.last() as nat;
        let q = pow256(p.len());
        assert(pv * 256 + last < q * 256) by (nonlinear_arith)
            requires
                pv < q,
                last < 256,
        ;
    }
}

proof fn lemma_long_prefix_digits(data: Seq<u8>, pos: int, n: usize)
    requires
        n >= 128,
        starts_with(data, pos, length_prefix(n as nat)),
    ensures
        data[pos] == 128 + be_bytes(n as nat).len(),
        data.subrange(pos + 1, pos + 1 + be_bytes(n as nat).len()) == be_bytes(n as nat),
{
    let lp = length_prefix(n as nat);
    let bb = be_bytes(n as nat);
    lemma_usize_be_bytes_len(n);
    lemma_be_value_of_be_bytes(n as nat);
    let window = data.subrange(pos, pos + lp.len());
    assert(lp[0] == window[0]);
    assert forall|j: int| 0 <= j < bb.len() implies #[trigger] data.subrange(
        pos + 1,
        pos + 1 + bb.len(),
    )[j] == bb[j] by {
        assert(window[1 + j] == lp[1 + j]);
    }
    assert(data.subrange(pos + 1, pos + 1 + bb.len()) =~= bb);
}

/// Reads an OER length prefix at `pos`: the length, and the position after
/// the prefix. Only the shortest form of a length is read.
fn read_length_prefix(data: &[u8], pos: usize) -> (r: Option<(usize, usize)>)
    ensures
        r matches Some((n, next)) ==> next == pos + length_prefix(n as nat).len() && starts_with(
            data@,
            pos as int,
            length_prefix(n as nat),
        ),
        forall|n: usize|
            #[trigger] starts_with(data@, pos as int, length_prefix(n as nat)) ==> r == Some(
                (n, (pos + length_prefix(n as nat).len()) as usize),
            ),
{
    if pos >= data.len() {
        return None;
    }
    let b0 = data[pos];
    if b0 < 128 {
        proof {
            assert(data@.subrange(pos as int, pos + 1) =~= length_prefix(b0 as nat));
            assert forall|n: usize| #[trigger]
                starts_with(data@, pos as int, length_prefix(n as nat)) implies n == b0 by {
                let lp = length_prefix(n as nat);
                assert(lp[0] == data@.subrange(pos as int, pos + lp.len())[0]);
                if n >= 128 {
                    lemma_usize_be_bytes_len(n);
                }
            }
        }
        return Some((b0 as usize, pos + 1));
    }
    let k = (b0 - 128) as usize;
    if k == 0 || k > 8 || data.len() - pos - 1 < k || data[pos + 1] == 0 {
        proof {
            assert forall|n: usize| !#[trigger]
                starts_with(data@, pos as int, length_prefix(n as nat)) by {
                let lp = length_prefix(n as nat);
                if starts_with(data@, pos as int, lp) {
                    assert(lp[0] == data@[pos as int]);
                    lemma_usize_be_bytes_len(n);
                    lemma_be_value_of_be_bytes(n as nat);
                    assert(lp[1] == data@[pos + 1]);
                }
            }
        }
        return None;
    }
    let len = data.len();
    let start = pos + 1;
    let mut v: u64 = 0;
    let mut i: usize = 0;
    while i < k
        invariant
            1 <= k <= 8,
            start == pos + 1,
            len == data@.len(),
            start + k <= len,
            i <= k,
            v as nat == be_value(data@.subrange(start as int, start + i)),
        decreases k - i,
    {
        proof {
            lemma_be_value_bound(data@.subrange(start as int, start + i));
            lemma_pow256_monotone(i as nat, 7);
            reveal_with_fuel(pow256, 8);
            assert(pow256(7) == 0x100_0000_0000_0000);
            assert(data@.subrange(start as int, start + i + 1).drop_last() =~= data@.subrange(
                start as int,
                start + i,
            ));
        }
        let byte = data[start + i];
        assert(v * 256 + byte < 0x1_0000_0000_0000_0000) by (nonlinear_arith)
            requires
                v < 0x100_0000_0000_0000,
                byte < 256,
        ;
        v = v * 256 + byte as u64;
        i = i + 1;
    }
    let ghost digits = data@.subrange(start as int, start + k);
    proof {
        assert(digits[0] == data@[start as int]);
        lemma_be_bytes_of_value(digits);
        lemma_be_value_positive(digits);
    }
    if v < 128 || v > usize::MAX as u64 {
        proof {
            assert forall|n: usize| !#[trigger]
                starts_with(data@, pos as int, length_prefix(n as nat)) by {
                let lp = length_prefix(n as nat);
                if starts_with(data@, pos as int, lp) {
                    assert(lp[0] == data@[pos as int]);
                    lemma_usize_be_bytes_len(n);
                    lemma_be_value_of_be_bytes(n as nat);
                    if n >= 128 {
                        lemma_long_prefix_digits(data@, pos as int, n);
                    }
                }
            }
        }
        return None;
    }
    let n = v as usize;
    proof {
        assert(data@.subrange(pos as int, start + k) =~= length_prefix(n as nat));
        assert forall|m: usize| #[trigger]
            starts_with(data@, pos as int, length_prefix(m as nat)) implies m == n by {
            let lp = length_prefix(m as nat);
            assert(lp[0] == data@[pos as int]);
            lemma_usize_be_bytes_len(m);
            lemma_be_value_of_be_bytes(m as nat);
            if m >= 128 {
                lemma_long_prefix_digits(data@, pos as int, m);
            }
        }
    }
    Some((n, start + k))
}

} // verus!

verus! {

proof fn lemma_starts_with_concat(data: Seq<u8>, pos: int, p: Seq<u8>, q: Seq<u8>)
    requires
        starts_with(data, pos, p + q),
    ensures
        starts_with(data, pos, p),
        starts_with(data, pos + p.len(), q),
{
    let w = data.subrange(pos, pos + p.len() + q.len());
    assert(data.subrange(pos, pos + p.len()) =~= w.subrange(0, p.len() as int));
    assert((p + q).subrange(0, p.len() as int) =~= p);
    assert(data.subrange(pos + p.len(), pos + p.len() + q.len()) =~= w.subrange(
        p.len() as int,
        w.len() as int,
    ));
    assert((p + q).subrange(p.len() as int, (p + q).len() as int) =~= q);
}

/// Reads an OER variable-length octet string at `pos`: where its bytes start
/// and where the string ends.
fn read_var_octet_string(data: &[u8], pos: usize) -> (r: Option<(usize, usize)>)
    ensures
        r matches Some((start, end)) ==> start <= end <= data@.len() && starts_with(
            data@,
            pos as int,
            var_octet_string(data@.subrange(start as int, end as int)),
        ) && end == pos + var_octet_string(data@.subrange(start as int, end as int)).len(),
        forall|b: Seq<u8>|
            #[trigger] starts_with(data@, pos as int, var_octet_string(b)) ==> (r matches Some(
                (start, end),
            ) && data@.subrange(start as int, end as int) == b && end == pos
                + var_octet_string(b).len()),
{
    let len = data.len();
    proof {
        assert forall|b: Seq<u8>| #[trigger]
            starts_with(data@, pos as int, var_octet_string(b)) implies starts_with(
            data@,
            pos as int,
            length_prefix((b.len() as usize) as nat),
        ) && starts_with(data@, pos + length_prefix(b.len()).len(), b) by {
            lemma_starts_with_concat(data@, pos as int, length_prefix(b.len()), b);
        }
    }
    match read_length_prefix(data, pos) {
        None => None,
        Some((n, start)) => {
            if len - start < n {
                return None;
            }
            let end = start + n;
            proof {
                let b = data@.subrange(start as int, end as int);
                assert(data@.subrange(pos as int, end as int) =~= data@.subrange(
                    pos as int,
                    start as int,
                ) + b);
            }
            Some((start, end))
        },
    }
}

/// Relies on `std::str::from_utf8`: it accepts the UTF-8 encoding of any
/// sequence of characters, and what it returns is text whose encoding is
/// the given bytes.
#[verifier::external_body]
fn utf8_text(b: &[u8]) -> (r: Option<String>)
    ensures
        r matches Some(s) ==> encode_utf8(s@) == b@,
        forall|c: Seq<char>| b@ == #[trigger] encode_utf8(c) ==> r is Some,
{
    std::str::from_utf8(b).ok().map(|s| s.to_string())
}

proof fn lemma_response_layout(data: Seq<u8>, a: Seq<char>, s: u8, c: Seq<char>)
    requires
        data == ildcp_response_bytes(a, s, c),
    ensures
        starts_with(data, 0, var_octet_string(encode_utf8(a))),
        data[var_octet_string(encode_utf8(a)).len() as int] == s,
        starts_with(
            data,
            var_octet_string(encode_utf8(a)).len() + 1 as int,
            var_octet_string(encode_utf8(c)),
        ),
        data.len() == var_octet_string(encode_utf8(a)).len() + 1 + var_octet_string(
            encode_utf8(c),
        ).len(),
{
    let va = var_octet_string(encode_utf8(a));
    let vc = var_octet_string(encode_utf8(c));
    assert(data.subrange(0, va.len() as int) =~= va);
    assert(data.subrange(va.len() + 1 as int, data.len() as int) =~= vc);
}

impl IldcpResponse {
    /// Reads a provisioning response from a Fulfill's data; `None` where the
    /// bytes are no such encoding.
    pub fn from_bytes(data: &[u8]) -> (r: Option<IldcpResponse>)
        ensures
            r matches Some(x) ==> data@ == ildcp_response_bytes(
                x.client_address@,
                x.asset_scale,
                x.asset_code@,
            ),
            forall|a: Seq<char>, s: u8, c: Seq<char>|
                is_valid_address(a) && data@ == #[trigger] ildcp_response_bytes(a, s, c) ==> (
                r matches Some(x) && x.client_address@ == a && x.asset_scale == s
                    && x.asset_code@ == c),
    {
        let r = Self::decode(data);
        proof {
            assert forall|a: Seq<char>, s: u8, c: Seq<char>|
                is_valid_address(a) && data@ == #[trigger] ildcp_response_bytes(
                    a,
                    s,
                    c,
                ) implies (r matches Some(x) && x.client_address@ == a && x.asset_scale == s
                && x.asset_code@ == c) by {
                lemma_response_layout(data@, a, s, c);
                let x = r->Some_0;
                broadcast use encode_utf8_decode_utf8;

                assert(x.client_address@ == vstd::utf8::decode_utf8(encode_utf8(x.client_address@)));
                assert(x.asset_code@ == vstd::utf8::decode_utf8(encode_utf8(x.asset_code@)));
            }
        }
        r
    }

    fn decode(data: &[u8]) -> (r: Option<IldcpResponse>)
        ensures
            r matches Some(x) ==> data@ == ildcp_response_bytes(
                x.client_address@,
                x.asset_scale,
                x.asset_code@,
            ),
            forall|a: Seq<char>, s: u8, c: Seq<char>|
                is_valid_address(a) && data@ == #[trigger] ildcp_response_bytes(a, s, c) ==> (
                r matches Some(x) && encode_utf8(x.client_address@) == encode_utf8(a)
                    && x.asset_scale == s && encode_utf8(x.asset_code@) == encode_utf8(c)),
    {
        proof {
            broadcast use encode_utf8_decode_utf8;
        }
        let len = data.len();
        let (a0, a1) = match read_var_octet_string(data, 0) {
            Some(p) => p,
            None => {
                proof {
                    assert forall|a: Seq<char>, s: u8, c: Seq<char>|
                        is_valid_address(a) && data@ == #[trigger] ildcp_response_bytes(
                            a,
                            s,
                            c,
                        ) implies false by {
                        lemma_response_layout(data@, a, s, c);
                    }
                }
                return None;
            },
        };
        if a1 >= len {
            proof {
                assert forall|a: Seq<char>, s: u8, c: Seq<char>|
                    is_valid_address(a) && data@ == #[trigger] ildcp_response_bytes(
                        a,
                        s,
                        c,
                    ) implies false by {
                    lemma_response_layout(data@, a, s, c);
                }
            }
            return None;
        }
        let asset_scale = data[a1];
        let (c0, c1) = match read_var_octet_string(data, a1 + 1) {
            Some(p) => p,
            None => {
                proof {
                    assert forall|a: Seq<char>, s: u8, c: Seq<char>|
                        is_valid_address(a) && data@ == #[trigger] ildcp_response_bytes(
                            a,
                            s,
                            c,
                        ) implies false by {
                        lemma_response_layout(data@, a, s, c);
                    }
                }
                return None;
            },
        };
        if c1 != len {
            proof {
                assert forall|a: Seq<char>, s: u8, c: Seq<char>|
                    is_valid_address(a) && data@ == #[trigger] ildcp_response_bytes(
                        a,
                        s,
                        c,
                    ) implies false by {
                    lemma_response_layout(data@, a, s, c);
                }
            }
            return None;
        }
        let address_bytes = slice_subrange(data, a0, a1);
        let code_bytes = slice_subrange(data, c0, c1);
        let (text, asset_code) = match (utf8_text(address_bytes), utf8_text(code_bytes)) {
            (Some(t), Some(c)) => (t, c),
            _ => {
                proof {
                    assert forall|a: Seq<char>, s: u8, c: Seq<char>|
                        is_valid_address(a) && data@ == #[trigger] ildcp_response_bytes(
                            a,
                            s,
                            c,
                        ) implies false by {
                        lemma_response_layout(data@, a, s, c);
                    }
                }
                return None;
            },
        };
        let client_address = match Address::parse(text.as_str()) {
            Ok(address) => address,
            Err(_) => {
                proof {
                    assert forall|a: Seq<char>, s: u8, c: Seq<char>|
                        is_valid_address(a) && data@ == #[trigger] ildcp_response_bytes(
                            a,
                            s,
                            c,
                        ) implies false by {
                        lemma_response_layout(data@, a, s, c);
                        assert(text@ == vstd::utf8::decode_utf8(encode_utf8(text@)));
                    }
                }
                return None;
            },
        };
        let r = IldcpResponse { client_address, asset_scale, asset_code };
        proof {
            assert forall|a: Seq<char>, s: u8, c: Seq<char>|
                is_valid_address(a) && data@ == #[trigger] ildcp_response_bytes(
                    a,
                    s,
                    c,
                ) implies encode_utf8(r.client_address@) == encode_utf8(a) && r.asset_scale == s
                && encode_utf8(r.asset_code@) == encode_utf8(c) by {
                lemma_response_layout(data@, a, s, c);
                let ea = encode_utf8(a);
                let ec = encode_utf8(c);
                assert(starts_with(data@, 0, var_octet_string(ea)));
                assert(data@.subrange(a0 as int, a1 as int) == ea);
                assert(a1 == var_octet_string(ea).len());
                assert(starts_with(data@, (a1 + 1) as int, var_octet_string(ec)));
                assert(data@.subrange(c0 as int, c1 as int) == ec);
            }
            assert(data@ =~= data@.subrange(0, a1 as int) + seq![asset_scale] + data@.subrange(
                a1 + 1,
                len as int,
            ));
        }
        Some(r)
    }
}

} // verus!
