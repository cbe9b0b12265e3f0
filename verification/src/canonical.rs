//! Canonical-form laws of the RLP codec.
//!
//! No two distinct logical values share an encoding, and no value has more
//! than one: these proofs pin down the minimality of the integer form, the
//! single-byte shortcut, the 56-byte short/long threshold, the injectivity
//! of the byte-string encoding, and the significance of list order.

use vstd::prelude::*;

verus! {

use crate::rlp::RLPEncode;
use crate::rlp::be_bytes;
use crate::rlp::payload_rlp;
use crate::rlp::rlp_str;
use crate::rlp::rlp_list;
use crate::rlp::rlp_uint;
use crate::rlp::lemma_be_bytes_no_leading_zero;
use crate::rlp::lemma_be_bytes_len_u64;
use vstd::utf8::encode_utf8;

/// Canonical minimality: the magnitude portion of an integer encoding
/// never starts with a zero byte, and zero itself encodes as exactly
/// `0x80`, the empty byte string.
pub proof fn lemma_uint_canonical(n: nat)
    ensures
        rlp_uint(0) == seq![0x80u8],
        n > 0 ==> be_bytes(n).len() > 0 && be_bytes(n)[0] != 0,
{
    assert(be_bytes(0) == Seq::<u8>::empty());
    assert(rlp_uint(0) =~= seq![0x80u8]);
    if n > 0 {
        lemma_be_bytes_no_leading_zero(n);
    }
}

/// Single-byte shortcut for integers: a positive value below `0x80`
/// encodes as that very byte, with no prefix. (Zero is the one value the
/// shortcut does not cover: it encodes as `0x80`.)
pub proof fn lemma_single_byte_uint(n: nat)
    requires
        1 <= n < 0x80,
    ensures
        rlp_uint(n) == seq![n as u8],
{
    assert(be_bytes(n) == be_bytes(0).push(n as u8));
    assert(be_bytes(n) =~= seq![n as u8]);
}

/// Single-byte shortcut for byte strings: one byte below `0x80` stands
/// for itself.
pub proof fn lemma_single_byte_str(p: Seq<u8>)
    requires
        p.len() == 1,
        p[0] < 0x80,
    ensures
        rlp_str(p) == p,
{
}

/// Threshold boundary for byte strings: 55 payload bytes still take the
/// short form (prefix `0x80 + 55 == 0xb7`), 56 take the long form
/// (`0xb7 + 1` then the length byte).
pub proof fn lemma_str_threshold(p: Seq<u8>)
    ensures
        p.len() == 55 ==> rlp_str(p) == seq![0xb7u8] + p,
        p.len() == 56 ==> rlp_str(p) == seq![0xb8u8, 56u8] + p,
{
    if p.len() == 56 {
        assert(be_bytes(56) == be_bytes(0).push(56u8));
        assert(be_bytes(56) =~= seq![56u8]);
        assert(rlp_str(p) =~= seq![0xb8u8, 56u8] + p);
    }
}

/// Threshold boundary for lists: the same 55/56 split on total payload
/// length, with prefixes `0xc0 + 55 == 0xf7` and `0xf7 + 1`.
pub proof fn lemma_list_threshold(p: Seq<u8>)
    ensures
        p.len() == 55 ==> rlp_list(p) == seq![0xf7u8] + p,
        p.len() == 56 ==> rlp_list(p) == seq![0xf8u8, 56u8] + p,
{
    if p.len() == 56 {
        assert(be_bytes(56) == be_bytes(0).push(56u8));
        assert(be_bytes(56) =~= seq![56u8]);
        assert(rlp_list(p) =~= seq![0xf8u8, 56u8] + p);
    }
}

/// The minimal big-endian form determines the number: two numbers with
/// the same bytes are equal.
pub proof fn lemma_be_bytes_injective(m: nat, n: nat)
    requires
        be_bytes(m) == be_bytes(n),
    ensures
        m == n,
    decreases m,
{
    if m == 0 || n == 0 {
        if m > 0 {
            lemma_be_bytes_no_leading_zero(m);
        }
        if n > 0 {
            lemma_be_bytes_no_leading_zero(n);
        }
    } else {
        let pm = be_bytes(m / 256);
        let pn = be_bytes(n / 256);
        assert(be_bytes(m) == pm.push((m % 256) as u8));
        assert(be_bytes(n) == pn.push((n % 256) as u8));
        assert(pm.len() == pn.len());
        assert(pm.push((m % 256) as u8)[pm.len() as int] == (m % 256) as u8);
        assert(pn.push((n % 256) as u8)[pn.len() as int] == (n % 256) as u8);
        assert((m % 256) as u8 == (n % 256) as u8);
        assert(m % 256 == n % 256);
        assert forall|i: int| 0 <= i < pm.len() implies pm[i] == pn[i] by {
            assert(pm[i] == pm.push((m % 256) as u8)[i]);
            assert(pn[i] == pn.push((n % 256) as u8)[i]);
        }
        assert(pm =~= pn);
        lemma_be_bytes_injective(m / 256, n / 256);
        assert(m == 256 * (m / 256) + m % 256);
        assert(n == 256 * (n / 256) + n % 256);
    }
}

/// Two unequal sequences of the same length differ at some index.
proof fn lemma_diff_index(x: Seq<u8>, y: Seq<u8>) -> (k: int)
    requires
        x.len() == y.len(),
        x != y,
    ensures
        0 <= k < x.len(),
        x[k] != y[k],
{
    assert(exists|i: int| 0 <= i < x.len() && x[i] != y[i]) by {
        if forall|i: int| 0 <= i < x.len() ==> x[i] == #[trigger] y[i] {
            assert(x =~= y);
        }
    };
    choose|i: int| 0 <= i < x.len() && x[i] != y[i]
}

/// The byte-string encoding is injective: a shared encoding forces the
/// payloads to be the same. This is the uniqueness half of canonical form.
pub proof fn lemma_rlp_str_injective(p: Seq<u8>, q: Seq<u8>)
    requires
        rlp_str(p) == rlp_str(q),
        p.len() <= u64::MAX,
        q.len() <= u64::MAX,
    ensures
        p == q,
{
    let ep = rlp_str(p);
    let eq = rlp_str(q);
    lemma_rlp_str_header(p);
    lemma_rlp_str_header(q);
    if p.len() == 1 && p[0] < 0x80 {
        if q.len() == 1 && q[0] < 0x80 {
        } else {
            // `eq` starts with a prefix byte of 0x80 or more, `ep` with a
            // payload byte below 0x80.
            assert(ep[0] == p[0]);
            assert(false);
        }
    } else if q.len() == 1 && q[0] < 0x80 {
        assert(eq[0] == q[0]);
        assert(false);
    } else if p.len() < 56 {
        if q.len() < 56 {
            assert(ep[0] == (0x80 + p.len()) as u8);
            assert(eq[0] == (0x80 + q.len()) as u8);
            assert(p.len() == q.len());
            assert forall|i: int| 0 <= i < p.len() implies p[i] == q[i] by {
                assert(ep[i + 1] == p[i]);
                assert(eq[i + 1] == q[i]);
            }
            assert(p =~= q);
        } else {
            assert(ep[0] < 0xb8 && eq[0] >= 0xb8);
            assert(false);
        }
    } else {
        if q.len() < 56 {
            assert(eq[0] < 0xb8 && ep[0] >= 0xb8);
            assert(false);
        } else {
            let lp = be_bytes(p.len()).len();
            let lq = be_bytes(q.len()).len();
            assert(ep[0] == (0xb7 + lp) as u8);
            assert(eq[0] == (0xb7 + lq) as u8);
            assert(lp == lq);
            assert forall|i: int|
                0 <= i < lp implies be_bytes(p.len())[i] == be_bytes(q.len())[i] by {
                assert(ep[i + 1] == be_bytes(p.len())[i]);
                assert(eq[i + 1] == be_bytes(q.len())[i]);
            }
            assert(be_bytes(p.len()) =~= be_bytes(q.len()));
            lemma_be_bytes_injective(p.len(), q.len());
            assert forall|i: int| 0 <= i < p.len() implies p[i] == q[i] by {
                assert(ep[i + 1 + lp] == p[i]);
                assert(eq[i + 1 + lq] == q[i]);
            }
            assert(p =~= q);
        }
    }
}

/// Shape facts about a byte-string encoding, read off its first byte:
/// which of the three forms applies, how long the whole encoding is, and
/// where each region sits.
proof fn lemma_rlp_str_header(p: Seq<u8>)
    requires
        p.len() <= u64::MAX,
    ensures
        p.len() == 1 && p[0] < 0x80 ==> rlp_str(p) == p,
        !(p.len() == 1 && p[0] < 0x80) && p.len() < 56 ==> {
            &&& rlp_str(p).len() == 1 + p.len()
            &&& rlp_str(p)[0] == (0x80 + p.len()) as u8
            &&& 0x80 <= rlp_str(p)[0] < 0xb8
            &&& forall|i: int| 0 <= i < p.len() ==> #[trigger] rlp_str(p)[i + 1] == p[i]
        },
        p.len() >= 56 ==> {
            &&& 1 <= be_bytes(p.len()).len() <= 8
            &&& rlp_str(p).len() == 1 + be_bytes(p.len()).len() + p.len()
            &&& rlp_str(p)[0] == (0xb7 + be_bytes(p.len()).len()) as u8
            &&& 0xb8 <= rlp_str(p)[0] < 0xc0
            &&& forall|i: int|
                0 <= i < be_bytes(p.len()).len() ==> #[trigger] rlp_str(p)[i + 1] == be_bytes(
                    p.len(),
                )[i]
            &&& forall|i: int|
                0 <= i < p.len() ==> #[trigger] rlp_str(p)[i + 1 + be_bytes(p.len()).len()]
                    == p[i]
        },
{
    if p.len() >= 56 {
        lemma_be_bytes_no_leading_zero(p.len());
        lemma_be_bytes_len_u64(p.len());
    }
}

/// Unequal payloads whose encodings differ in length still differ at a
/// byte position that both encodings share.
proof fn lemma_rlp_str_diff_index(p: Seq<u8>, q: Seq<u8>) -> (k: int)
    requires
        p != q,
        p.len() <= u64::MAX,
        q.len() <= u64::MAX,
        rlp_str(p).len() != rlp_str(q).len(),
    ensures
        0 <= k < rlp_str(p).len(),
        k < rlp_str(q).len(),
        rlp_str(p)[k] != rlp_str(q)[k],
{
    let ep = rlp_str(p);
    let eq = rlp_str(q);
    lemma_rlp_str_header(p);
    lemma_rlp_str_header(q);
    if ep[0] != eq[0] {
        0
    } else {
        // Equal first bytes force equal forms; equal single or short
        // forms force equal encoded lengths, so both must be long, with
        // the same length-of-length but different payload lengths.
        assert(p.len() >= 56 && q.len() >= 56);
        let l = be_bytes(p.len()).len();
        assert(be_bytes(q.len()).len() == l);
        assert(p.len() != q.len());
        assert(be_bytes(p.len()) != be_bytes(q.len())) by {
            if be_bytes(p.len()) == be_bytes(q.len()) {
                lemma_be_bytes_injective(p.len(), q.len());
            }
        };
        let j = lemma_diff_index(be_bytes(p.len()), be_bytes(q.len()));
        assert(ep[j + 1] == be_bytes(p.len())[j]);
        assert(eq[j + 1] == be_bytes(q.len())[j]);
        j + 1
    }
}

/// List order is significant: two lists of the same two distinct byte
/// strings, taken in opposite orders, never share an encoding.
pub proof fn lemma_list_order_strs(a: Seq<u8>, b: Seq<u8>)
    requires
        a != b,
        a.len() <= u64::MAX,
        b.len() <= u64::MAX,
    ensures
        rlp_list(rlp_str(a) + rlp_str(b)) != rlp_list(rlp_str(b) + rlp_str(a)),
{
    let ea = rlp_str(a);
    let eb = rlp_str(b);
    let k: int;
    if ea.len() == eb.len() {
        assert(ea != eb) by {
            if ea == eb {
                lemma_rlp_str_injective(a, b);
            }
        };
        k = lemma_diff_index(ea, eb);
    } else {
        k = lemma_rlp_str_diff_index(a, b);
    }
    assert((ea + eb)[k] == ea[k]);
    assert((eb + ea)[k] == eb[k]);
    lemma_rlp_list_neq_same_len(ea + eb, eb + ea);
}

/// Two different payloads of the same length give different lists.
proof fn lemma_rlp_list_neq_same_len(x: Seq<u8>, y: Seq<u8>)
    requires
        x.len() == y.len(),
        x != y,
    ensures
        rlp_list(x) != rlp_list(y),
{
    let j = lemma_diff_index(x, y);
    if x.len() < 56 {
        assert(rlp_list(x)[j + 1] == x[j]);
        assert(rlp_list(y)[j + 1] == y[j]);
    } else {
        let l = be_bytes(x.len()).len();
        assert(rlp_list(x)[j + 1 + l] == x[j]);
        assert(rlp_list(y)[j + 1 + l] == y[j]);
    }
}

/// Shape facts about a list encoding, read off its first byte.
proof fn lemma_rlp_list_header(p: Seq<u8>)
    requires
        p.len() <= u64::MAX,
    ensures
        p.len() < 56 ==> {
            &&& rlp_list(p).len() == 1 + p.len()
            &&& rlp_list(p)[0] == (0xc0 + p.len()) as u8
            &&& 0xc0 <= rlp_list(p)[0] <= 0xf7
            &&& forall|i: int| 0 <= i < p.len() ==> #[trigger] rlp_list(p)[i + 1] == p[i]
        },
        p.len() >= 56 ==> {
            &&& 1 <= be_bytes(p.len()).len() <= 8
            &&& rlp_list(p).len() == 1 + be_bytes(p.len()).len() + p.len()
            &&& rlp_list(p)[0] == (0xf7 + be_bytes(p.len()).len()) as u8
            &&& 0xf8 <= rlp_list(p)[0]
            &&& forall|i: int|
                0 <= i < be_bytes(p.len()).len() ==> #[trigger] rlp_list(p)[i + 1] == be_bytes(
                    p.len(),
                )[i]
            &&& forall|i: int|
                0 <= i < p.len() ==> #[trigger] rlp_list(p)[i + 1 + be_bytes(p.len()).len()]
                    == p[i]
        },
{
    if p.len() >= 56 {
        lemma_be_bytes_no_leading_zero(p.len());
        lemma_be_bytes_len_u64(p.len());
    }
}

/// The list encoding is injective in its payload: a shared encoding
/// forces the payloads to be the same.
pub proof fn lemma_rlp_list_injective(p: Seq<u8>, q: Seq<u8>)
    requires
        rlp_list(p) == rlp_list(q),
        p.len() <= u64::MAX,
        q.len() <= u64::MAX,
    ensures
        p == q,
{
    let ep = rlp_list(p);
    let eq = rlp_list(q);
    lemma_rlp_list_header(p);
    lemma_rlp_list_header(q);
    if p.len() < 56 {
        if q.len() < 56 {
            assert(p.len() == q.len());
            assert forall|i: int| 0 <= i < p.len() implies p[i] == q[i] by {
                assert(ep[i + 1] == p[i]);
                assert(eq[i + 1] == q[i]);
            }
            assert(p =~= q);
        } else {
            assert(ep[0] <= 0xf7 && eq[0] >= 0xf8);
            assert(false);
        }
    } else {
        if q.len() < 56 {
            assert(eq[0] <= 0xf7 && ep[0] >= 0xf8);
            assert(false);
        } else {
            let lp = be_bytes(p.len()).len();
            let lq = be_bytes(q.len()).len();
            assert(lp == lq);
            assert forall|i: int|
                0 <= i < lp implies be_bytes(p.len())[i] == be_bytes(q.len())[i] by {
                assert(ep[i + 1] == be_bytes(p.len())[i]);
                assert(eq[i + 1] == be_bytes(q.len())[i]);
            }
            assert(be_bytes(p.len()) =~= be_bytes(q.len()));
            lemma_be_bytes_injective(p.len(), q.len());
            assert forall|i: int| 0 <= i < p.len() implies p[i] == q[i] by {
                assert(ep[i + 1 + lp] == p[i]);
                assert(eq[i + 1 + lq] == q[i]);
            }
            assert(p =~= q);
        }
    }
}

/// A byte string and a list never share an encoding: every string
/// encoding opens below `0xc0`, every list encoding at `0xc0` or above.
pub proof fn lemma_str_list_disjoint(p: Seq<u8>, q: Seq<u8>)
    requires
        p.len() <= u64::MAX,
        q.len() <= u64::MAX,
    ensures
        rlp_str(p) != rlp_list(q),
{
    lemma_rlp_str_header(p);
    lemma_rlp_list_header(q);
    assert(rlp_str(p)[0] < 0xc0);
    assert(rlp_list(q)[0] >= 0xc0);
}

/// The integer encoding is injective: equal encodings mean equal values.
pub proof fn lemma_rlp_uint_injective(m: nat, n: nat)
    requires
        rlp_uint(m) == rlp_uint(n),
        m <= u64::MAX,
        n <= u64::MAX,
    ensures
        m == n,
{
    lemma_be_bytes_len_u64(m);
    lemma_be_bytes_len_u64(n);
    lemma_rlp_str_injective(be_bytes(m), be_bytes(n));
    lemma_be_bytes_injective(m, n);
}

/// List order preservation at the vector encoder itself: two-member
/// integer vectors holding the same distinct values in opposite orders
/// never share an encoding.
pub proof fn lemma_vec_order_uints(x: Seq<u64>, y: Seq<u64>)
    requires
        x.len() == 2,
        y.len() == 2,
        x[0] == y[1],
        x[1] == y[0],
        x[0] != x[1],
    ensures
        rlp_list(payload_rlp(x)) != rlp_list(payload_rlp(y)),
{
    lemma_payload_rlp_pair(x);
    lemma_payload_rlp_pair(y);
    lemma_list_order_uints(x[0] as nat, x[1] as nat);
}

/// The payload of a two-member vector is the concatenation of the two
/// members' encodings.
proof fn lemma_payload_rlp_pair(x: Seq<u64>)
    requires
        x.len() == 2,
    ensures
        payload_rlp(x) == rlp_uint(x[0] as nat) + rlp_uint(x[1] as nat),
{
    let x1 = x.drop_last();
    assert(x1.len() == 1);
    assert(x1.drop_last().len() == 0);
    assert(payload_rlp(x1.drop_last()) == Seq::<u8>::empty());
    assert(x1.last() == x[0]);
    assert(x.last() == x[1]);
    assert(payload_rlp(x) == payload_rlp(x1) + x.last().rlp());
    assert(payload_rlp(x1) == payload_rlp(x1.drop_last()) + x1.last().rlp());
    assert(x1.last().rlp() == rlp_uint(x[0] as nat));
    assert(x.last().rlp() == rlp_uint(x[1] as nat));
    assert(payload_rlp(x1) =~= rlp_uint(x[0] as nat));
    assert(payload_rlp(x) =~= rlp_uint(x[0] as nat) + rlp_uint(x[1] as nat));
}

/// List order is significant for text members: two distinct strings have
/// distinct UTF-8 bytes, so the two orders of the pair encode apart.
pub proof fn lemma_list_order_texts(a: Seq<char>, b: Seq<char>)
    requires
        a != b,
        encode_utf8(a).len() <= u64::MAX,
        encode_utf8(b).len() <= u64::MAX,
    ensures
        rlp_list(rlp_str(encode_utf8(a)) + rlp_str(encode_utf8(b))) != rlp_list(
            rlp_str(encode_utf8(b)) + rlp_str(encode_utf8(a)),
        ),
{
    assert(encode_utf8(a) != encode_utf8(b)) by {
        if encode_utf8(a) == encode_utf8(b) {
            vstd::utf8::encode_utf8_decode_utf8(a);
            vstd::utf8::encode_utf8_decode_utf8(b);
        }
    };
    lemma_list_order_strs(encode_utf8(a), encode_utf8(b));
}

/// List order is significant for integer members too.
pub proof fn lemma_list_order_uints(m: nat, n: nat)
    requires
        m != n,
        m <= u64::MAX,
        n <= u64::MAX,
    ensures
        rlp_list(rlp_uint(m) + rlp_uint(n)) != rlp_list(rlp_uint(n) + rlp_uint(m)),
{
    lemma_be_bytes_len_u64(m);
    lemma_be_bytes_len_u64(n);
    assert(be_bytes(m) != be_bytes(n)) by {
        if be_bytes(m) == be_bytes(n) {
            lemma_be_bytes_injective(m, n);
        }
    };
    lemma_list_order_strs(be_bytes(m), be_bytes(n));
}

} // verus!
