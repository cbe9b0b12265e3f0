//! Canonical RLP encoding.
//!
//! RLP knows two item shapes: byte strings and ordered lists of items.
//! Every scalar is first canonicalized to a byte string; lists carry the
//! concatenation of their members' encodings. The spec functions below are
//! the mathematical form of the codec; every executable encoder is proved
//! to append exactly the bytes the spec functions describe.

use vstd::prelude::*;

verus! {

use vstd::string::StringSliceAdditionalSpecFns;
use vstd::utf8::encode_utf8;

/// Minimal big-endian byte representation of `n`: empty for zero, and no
/// leading zero byte otherwise.
pub open spec fn be_bytes(n: nat) -> Seq<u8>
    decreases n,
{
    if n == 0 {
        Seq::empty()
    } else {
        be_bytes(n / 256).push((n % 256) as u8)
    }
}

/// RLP encoding of the byte string whose contents are `p`.
///
/// A single byte below `0x80` stands for itself; up to 55 bytes take a
/// one-byte `0x80 + len` prefix; longer strings take `0xb7 + len_of_len`
/// followed by the minimal big-endian length.
pub open spec fn rlp_str(p: Seq<u8>) -> Seq<u8> {
    if p.len() == 1 && p[0] < 0x80 {
        p
    } else if p.len() < 56 {
        seq![(0x80 + p.len()) as u8] + p
    } else {
        seq![(0xb7 + be_bytes(p.len()).len()) as u8] + be_bytes(p.len()) + p
    }
}

/// RLP encoding of the list whose payload (the concatenation of the
/// members' encodings) is `p`. Mirrors the byte-string prefixes, offset to
/// `0xc0` (short form) and `0xf7 + len_of_len` (long form).
pub open spec fn rlp_list(p: Seq<u8>) -> Seq<u8> {
    if p.len() < 56 {
        seq![(0xc0 + p.len()) as u8] + p
    } else {
        seq![(0xf7 + be_bytes(p.len()).len()) as u8] + be_bytes(p.len()) + p
    }
}

/// RLP encoding of the unsigned integer `n`: its minimal big-endian bytes,
/// encoded as a byte string (zero becomes the empty string, hence `0x80`).
pub open spec fn rlp_uint(n: nat) -> Seq<u8> {
    rlp_str(be_bytes(n))
}

/// 256 to the power `k`: the number of `k`-byte big-endian values.
pub open spec fn pow256(k: nat) -> nat
    decreases k,
{
    if k == 0 {
        1
    } else {
        256 * pow256((k - 1) as nat)
    }
}

/// `n` fits in `k` big-endian bytes exactly when `n < 256^k`.
pub proof fn lemma_be_bytes_len(n: nat, k: nat)
    requires
        n < pow256(k),
    ensures
        be_bytes(n).len() <= k,
    decreases k,
{
    if n == 0 {
    } else {
        assert(k > 0);
        assert(n / 256 < pow256((k - 1) as nat)) by {
            assert(pow256(k) == 256 * pow256((k - 1) as nat));
        };
        lemma_be_bytes_len(n / 256, (k - 1) as nat);
    }
}

/// Any `u64` value has at most 8 big-endian bytes.
pub proof fn lemma_be_bytes_len_u64(n: nat)
    requires
        n <= u64::MAX,
    ensures
        be_bytes(n).len() <= 8,
{
    assert(pow256(8) == 0x1_0000_0000_0000_0000) by {
        reveal_with_fuel(pow256, 9);
    };
    lemma_be_bytes_len(n, 8);
}

/// The minimal big-endian form of a positive number never starts with a
/// zero byte.
pub proof fn lemma_be_bytes_no_leading_zero(n: nat)
    requires
        n > 0,
    ensures
        be_bytes(n).len() > 0,
        be_bytes(n)[0] != 0,
    decreases n,
{
    if n < 256 {
        assert(be_bytes(n) == be_bytes(0).push(n as u8));
    } else {
        lemma_be_bytes_no_leading_zero(n / 256);
        assert(be_bytes(n)[0] == be_bytes(n / 256)[0]);
    }
}

/// Appends every byte of `src` to `dst`, in order.
pub fn push_bytes(dst: &mut Vec<u8>, src: &[u8])
    ensures
        final(dst)@ == old(dst)@ + src@,
{
    let n = src.len();
    let mut i: usize = 0;
    while i < n
        invariant
            n == src@.len(),
            i <= n,
            dst@ == old(dst)@ + src@.take(i as int),
        decreases n - i,
    {
        dst.push(src[i]);
        assert(src@.take(i + 1 as int) == src@.take(i as int).push(src@[i as int]));
        i = i + 1;
    }
    assert(src@.take(n as int) == src@);
}

/// The minimal big-endian bytes of `n`, as a vector.
pub fn u64_to_min_be(n: u64) -> (r: Vec<u8>)
    ensures
        r@ == be_bytes(n as nat),
    decreases n,
{
    if n == 0 {
        Vec::new()
    } else {
        assert(n / 256 < n);
        let mut r = u64_to_min_be(n / 256);
        r.push((n % 256) as u8);
        r
    }
}

/// Appends the RLP encoding of the byte string `payload` to `buf`.
pub fn encode_bytes(payload: &[u8], buf: &mut Vec<u8>)
    ensures
        final(buf)@ == old(buf)@ + rlp_str(payload@),
{
    let len = payload.len();
    if len == 1 && payload[0] < 0x80 {
        buf.push(payload[0]);
        assert(buf@ =~= old(buf)@ + rlp_str(payload@));
    } else if len < 56 {
        buf.push(0x80 + len as u8);
        push_bytes(buf, payload);
        assert(buf@ =~= old(buf)@ + rlp_str(payload@));
    } else {
        let be = u64_to_min_be(len as u64);
        proof {
            lemma_be_bytes_len_u64(len as nat);
        }
        buf.push(0xb7 + be.len() as u8);
        push_bytes(buf, be.as_slice());
        push_bytes(buf, payload);
        assert(buf@ =~= old(buf)@ + rlp_str(payload@));
    }
}

/// How `rlp_uint` resolves for each range of `n`: the zero shortcut, the
/// single-byte shortcut, and the short length-prefixed form (a `u64` never
/// needs the long form: its magnitude takes at most 8 bytes).
pub proof fn lemma_rlp_uint_form(n: nat)
    requires
        n <= u64::MAX,
    ensures
        n == 0 ==> rlp_uint(n) == seq![0x80u8],
        0 < n < 0x80 ==> rlp_uint(n) == seq![n as u8],
        n >= 0x80 ==> rlp_uint(n) == seq![(0x80 + be_bytes(n).len()) as u8] + be_bytes(n),
        n >= 0x80 ==> 2 <= rlp_uint(n).len() <= 9,
{
    lemma_be_bytes_len_u64(n);
    if n == 0 {
        assert(be_bytes(0) == Seq::<u8>::empty());
        assert(rlp_uint(0) =~= seq![0x80u8]);
    } else if n < 0x80 {
        assert(be_bytes(n) == be_bytes(0).push(n as u8));
        assert(be_bytes(n) =~= seq![n as u8]);
    } else {
        lemma_be_bytes_no_leading_zero(n);
        if n < 256 {
            assert(be_bytes(n) == be_bytes(0).push(n as u8));
            assert(be_bytes(n) =~= seq![n as u8]);
            assert(be_bytes(n)[0] >= 0x80);
        } else {
            lemma_be_bytes_no_leading_zero(n / 256);
            assert(be_bytes(n).len() >= 2);
        }
    }
}

/// Appends the RLP encoding of the unsigned integer `n` to `buf`.
pub fn encode_uint(n: u64, buf: &mut Vec<u8>)
    ensures
        final(buf)@ == old(buf)@ + rlp_uint(n as nat),
{
    proof {
        lemma_rlp_uint_form(n as nat);
    }
    if n == 0 {
        buf.push(0x80);
    } else if n < 0x80 {
        buf.push(n as u8);
    } else {
        let be = u64_to_min_be(n);
        buf.push(0x80 + be.len() as u8);
        push_bytes(buf, be.as_slice());
    }
}

/// The number of bytes the RLP encoding of the integer `n` takes, computed
/// without materializing the encoding.
pub fn uint_length(n: u64) -> (r: usize)
    ensures
        r == rlp_uint(n as nat).len(),
{
    proof {
        lemma_rlp_uint_form(n as nat);
    }
    if n < 0x80 {
        1
    } else {
        let mut m: u64 = n;
        let mut count: usize = 0;
        proof {
            lemma_be_bytes_len_u64(n as nat);
        }
        while m > 0
            invariant
                be_bytes(n as nat).len() == count + be_bytes(m as nat).len(),
                be_bytes(n as nat).len() <= 8,
                count <= 8,
            decreases m,
        {
            m = m / 256;
            count = count + 1;
        }
        1 + count
    }
}

/// Every supported value maps to its canonical RLP byte representation.
///
/// `rlp` is the mathematical encoding; `encode` appends exactly those
/// bytes to the caller's buffer, and `length` reports how many there are.
pub trait RLPEncode {
    /// The canonical RLP encoding of this value.
    spec fn rlp(&self) -> Seq<u8>;

    /// Appends the canonical RLP encoding of `self` to `buf`.
    fn encode(&self, buf: &mut Vec<u8>)
        requires
            self.rlp().len() <= usize::MAX,
        ensures
            final(buf)@ == old(buf)@ + self.rlp(),
    ;

    /// The exact number of bytes `encode` appends, with no other effect.
    fn length(&self) -> (n: usize)
        requires
            self.rlp().len() <= usize::MAX,
        ensures
            n == self.rlp().len(),
    {
        let mut scratch: Vec<u8> = Vec::new();
        self.encode(&mut scratch);
        scratch.len()
    }
}

impl RLPEncode for bool {
    /// `true` is the one-byte string `0x01`; `false` reuses the canonical
    /// empty-string encoding `0x80`.
    open spec fn rlp(&self) -> Seq<u8> {
        if *self {
            seq![0x01u8]
        } else {
            seq![0x80u8]
        }
    }

    fn encode(&self, buf: &mut Vec<u8>) {
        if *self {
            buf.push(0x01);
        } else {
            buf.push(0x80);
        }
    }

    fn length(&self) -> (n: usize) {
        1
    }
}

impl RLPEncode for u8 {
    open spec fn rlp(&self) -> Seq<u8> {
        rlp_uint(*self as nat)
    }

    fn encode(&self, buf: &mut Vec<u8>) {
        encode_uint(*self as u64, buf);
    }

    fn length(&self) -> (n: usize) {
        uint_length(*self as u64)
    }
}

impl RLPEncode for u16 {
    open spec fn rlp(&self) -> Seq<u8> {
        rlp_uint(*self as nat)
    }

    fn encode(&self, buf: &mut Vec<u8>) {
        encode_uint(*self as u64, buf);
    }

    fn length(&self) -> (n: usize) {
        uint_length(*self as u64)
    }
}

impl RLPEncode for u32 {
    open spec fn rlp(&self) -> Seq<u8> {
        rlp_uint(*self as nat)
    }

    fn encode(&self, buf: &mut Vec<u8>) {
        encode_uint(*self as u64, buf);
    }

    fn length(&self) -> (n: usize) {
        uint_length(*self as u64)
    }
}

impl RLPEncode for u64 {
    open spec fn rlp(&self) -> Seq<u8> {
        rlp_uint(*self as nat)
    }

    fn encode(&self, buf: &mut Vec<u8>) {
        encode_uint(*self, buf);
    }

    fn length(&self) -> (n: usize) {
        uint_length(*self)
    }
}

impl RLPEncode for usize {
    open spec fn rlp(&self) -> Seq<u8> {
        rlp_uint(*self as nat)
    }

    fn encode(&self, buf: &mut Vec<u8>) {
        encode_uint(*self as u64, buf);
    }

    fn length(&self) -> (n: usize) {
        uint_length(*self as u64)
    }
}

impl RLPEncode for () {
    /// The unit marker encodes like zero: the empty byte string.
    open spec fn rlp(&self) -> Seq<u8> {
        seq![0x80u8]
    }

    fn encode(&self, buf: &mut Vec<u8>) {
        buf.push(0x80);
    }

    fn length(&self) -> (n: usize) {
        1
    }
}

impl RLPEncode for [u8] {
    /// A raw byte sequence: only the length prefix is canonicalized,
    /// never the contents.
    open spec fn rlp(&self) -> Seq<u8> {
        rlp_str(self@)
    }

    fn encode(&self, buf: &mut Vec<u8>) {
        encode_bytes(self, buf);
    }
}

impl<const N: usize> RLPEncode for [u8; N] {
    /// A fixed-size byte array keeps its full width: only the length
    /// prefix is canonicalized, never the contents.
    open spec fn rlp(&self) -> Seq<u8> {
        rlp_str(self@)
    }

    fn encode(&self, buf: &mut Vec<u8>) {
        encode_bytes(self.as_slice(), buf);
    }
}

impl RLPEncode for str {
    /// Text is its underlying UTF-8 byte sequence.
    open spec fn rlp(&self) -> Seq<u8> {
        rlp_str(self.spec_bytes())
    }

    fn encode(&self, buf: &mut Vec<u8>) {
        encode_bytes(self.as_bytes(), buf);
    }
}

impl RLPEncode for &str {
    open spec fn rlp(&self) -> Seq<u8> {
        rlp_str((*self).spec_bytes())
    }

    fn encode(&self, buf: &mut Vec<u8>) {
        encode_bytes(self.as_bytes(), buf);
    }
}

impl RLPEncode for String {
    open spec fn rlp(&self) -> Seq<u8> {
        rlp_str(encode_utf8(self@))
    }

    fn encode(&self, buf: &mut Vec<u8>) {
        encode_bytes(self.as_str().as_bytes(), buf);
    }
}

/// The concatenation of the RLP encodings of the members of `s`, in
/// order: the payload of the list that holds them.
pub open spec fn payload_rlp<T: RLPEncode>(s: Seq<T>) -> Seq<u8>
    decreases s.len(),
{
    if s.len() == 0 {
        Seq::empty()
    } else {
        payload_rlp(s.drop_last()) + s.last().rlp()
    }
}

/// Extending the encoded prefix by one member appends that member's
/// encoding to the payload.
pub proof fn lemma_payload_rlp_take_succ<T: RLPEncode>(s: Seq<T>, i: int)
    requires
        0 <= i < s.len(),
    ensures
        payload_rlp(s.take(i + 1)) == payload_rlp(s.take(i)) + s[i].rlp(),
{
    assert(s.take(i + 1).drop_last() =~= s.take(i));
    assert(s.take(i + 1).last() == s[i]);
}

/// A prefix of the members contributes at most the whole payload.
pub proof fn lemma_payload_rlp_prefix_len<T: RLPEncode>(s: Seq<T>, i: int)
    requires
        0 <= i <= s.len(),
    ensures
        payload_rlp(s.take(i)).len() <= payload_rlp(s).len(),
    decreases s.len() - i,
{
    if i == s.len() {
        assert(s.take(i) =~= s);
    } else {
        lemma_payload_rlp_take_succ(s, i);
        lemma_payload_rlp_prefix_len(s, i + 1);
    }
}

impl<T: RLPEncode> RLPEncode for Vec<T> {
    /// A vector encodes as the list of its members, in their original
    /// order; the prefix counts payload bytes, not members.
    open spec fn rlp(&self) -> Seq<u8> {
        rlp_list(payload_rlp(self@))
    }

    fn encode(&self, buf: &mut Vec<u8>) {
        let ghost payload = payload_rlp(self@);
        assert(self.rlp().len() >= payload.len() + 1);

        let mut total: usize = 0;
        let mut i: usize = 0;
        while i < self.len()
            invariant
                i <= self@.len(),
                total == payload_rlp(self@.take(i as int)).len(),
                payload == payload_rlp(self@),
                payload.len() < usize::MAX,
            decreases self@.len() - i,
        {
            proof {
                lemma_payload_rlp_take_succ(self@, i as int);
                lemma_payload_rlp_prefix_len(self@, i as int + 1);
            }
            total = total + self[i].length();
            i = i + 1;
        }
        proof {
            assert(self@.take(self@.len() as int) =~= self@);
        }

        let ghost header: Seq<u8>;
        if total < 56 {
            buf.push(0xc0 + total as u8);
            proof {
                header = seq![(0xc0 + payload.len()) as u8];
            }
        } else {
            let be = u64_to_min_be(total as u64);
            proof {
                lemma_be_bytes_len_u64(total as nat);
            }
            buf.push(0xf7 + be.len() as u8);
            push_bytes(buf, be.as_slice());
            proof {
                header = seq![(0xf7 + be_bytes(payload.len()).len()) as u8] + be_bytes(
                    payload.len(),
                );
            }
        }
        assert(buf@ == old(buf)@ + header);
        assert(rlp_list(payload) == header + payload);

        let ghost stem = buf@;
        let mut i: usize = 0;
        while i < self.len()
            invariant
                i <= self@.len(),
                buf@ == stem + payload_rlp(self@.take(i as int)),
                payload == payload_rlp(self@),
                payload.len() < usize::MAX,
            decreases self@.len() - i,
        {
            proof {
                lemma_payload_rlp_take_succ(self@, i as int);
                lemma_payload_rlp_prefix_len(self@, i as int + 1);
            }
            self[i].encode(buf);
            i = i + 1;
        }
        proof {
            assert(self@.take(self@.len() as int) =~= self@);
        }
        assert(buf@ =~= old(buf)@ + rlp_list(payload));
    }
}

} // verus!
