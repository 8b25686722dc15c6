//! The canonical variable-length integer codec: 7 data bits per byte,
//! least-significant group first, with the high bit of every byte except
//! the last set as a continuation marker.
use crate::convert::{DecodeEncodeLaw, EncodeInto, TryDecodeFrom};
use crate::error::Error;
use vstd::prelude::*;

verus! {

use vstd::arithmetic::div_mod::lemma_fundamental_div_mod;

/// The canonical (shortest) varint encoding of a non-negative integer:
/// little-endian 7-bit groups, every byte but the last carrying the
/// continuation bit. Zero encodes as a single zero byte.
pub open spec fn varint_encoding(n: nat) -> Seq<u8>
    decreases n,
{
    if n < 128 {
        seq![n as u8]
    } else {
        seq![(128 + (n % 128)) as u8] + varint_encoding(n / 128)
    }
}

/// The 7 data bits of a varint byte.
pub open spec fn group_of(byte: u8) -> nat {
    if byte >= 128 {
        (byte - 128) as nat
    } else {
        byte as nat
    }
}

/// What reading a varint from the front of `b` yields: the decoded
/// magnitude and the number of bytes consumed, or `None` when the input
/// ends before a byte without the continuation bit.
pub open spec fn varint_value(b: Seq<u8>) -> Option<(nat, int)>
    decreases b.len(),
{
    if b.len() == 0 {
        None
    } else if b[0] < 128 {
        Some((b[0] as nat, 1))
    } else {
        match varint_value(b.drop_first()) {
            Some(p) => Some((group_of(b[0]) + 128 * p.0, p.1 + 1)),
            None => None,
        }
    }
}

/// 128 raised to a power.
pub open spec fn p128(i: nat) -> nat
    decreases i,
{
    if i == 0 {
        1
    } else {
        128 * p128((i - 1) as nat)
    }
}

/// The magnitude contributed by the first `i` bytes of a varint.
pub open spec fn prefix_acc(b: Seq<u8>, i: int) -> nat
    decreases i,
{
    if i <= 0 || b.len() == 0 {
        0
    } else {
        group_of(b[0]) + 128 * prefix_acc(b.drop_first(), i - 1)
    }
}

/// Every byte before position `i` carries the continuation bit.
pub open spec fn all_continuation(b: Seq<u8>, i: int) -> bool {
    forall|j: int| 0 <= j < i ==> b[j] >= 128
}

proof fn lemma_p128_values()
    ensures
        p128(17) == 0x800000000000000000000000000000,
        p128(18) == 0x40000000000000000000000000000000,
        p128(19) == 0x2000000000000000000000000000000000nat,
{
    reveal_with_fuel(p128, 21);
}

proof fn lemma_p128_pos(i: nat)
    ensures
        p128(i) >= 1,
    decreases i,
{
    if i > 0 {
        lemma_p128_pos((i - 1) as nat);
    }
}

proof fn lemma_p128_mono(i: nat, j: nat)
    requires
        i <= j,
    ensures
        p128(i) <= p128(j),
    decreases j,
{
    if i < j {
        lemma_p128_mono(i, (j - 1) as nat);
        lemma_p128_pos(i);
    }
}

proof fn lemma_prefix_acc_bound(b: Seq<u8>, i: int)
    requires
        0 <= i <= b.len(),
    ensures
        prefix_acc(b, i) < p128(i as nat),
    decreases i,
{
    if i > 0 {
        lemma_prefix_acc_bound(b.drop_first(), i - 1);
    }
}

proof fn lemma_prefix_acc_snoc(b: Seq<u8>, i: int)
    requires
        0 <= i < b.len(),
    ensures
        prefix_acc(b, i + 1) == prefix_acc(b, i) + group_of(b[i]) * p128(i as nat),
    decreases i,
{
    if i == 0 {
        assert(prefix_acc(b, 1) == group_of(b[0]) + 128 * prefix_acc(b.drop_first(), 0));
        assert(prefix_acc(b.drop_first(), 0) == 0);
        assert(prefix_acc(b, 0) == 0);
        assert(p128(0nat) == 1);
        assert(i as nat == 0nat);
        assert(p128(i as nat) == 1);
        assert(group_of(b[i]) * p128(i as nat) == group_of(b[0]));
        assert(prefix_acc(b, i + 1) == prefix_acc(b, i) + group_of(b[i]) * p128(i as nat));
    } else {
        let bd = b.drop_first();
        lemma_prefix_acc_snoc(bd, i - 1);
        assert(bd[i - 1] == b[i]);
        let g = group_of(b[i]);
        let q = p128((i - 1) as nat);
        assert(prefix_acc(b, i + 1) == group_of(b[0]) + 128 * prefix_acc(bd, i));
        assert(prefix_acc(b, i) == group_of(b[0]) + 128 * prefix_acc(bd, i - 1));
        assert(128 * (prefix_acc(bd, i - 1) + g * q) == 128 * prefix_acc(bd, i - 1) + 128 * (g
            * q)) by (nonlinear_arith);
        assert(128 * (g * q) == g * (128 * q)) by (nonlinear_arith);
        assert(128 * q == p128(i as nat));
        assert(prefix_acc(bd, i) == prefix_acc(bd, i - 1) + g * q);
        assert(128 * prefix_acc(bd, i) == 128 * (prefix_acc(bd, i - 1) + g * q));
        assert(prefix_acc(b, i + 1) == group_of(b[0]) + 128 * prefix_acc(bd, i - 1) + g * (128
            * q));
        assert(prefix_acc(b, i + 1) == prefix_acc(b, i) + g * p128(i as nat));
    }
}

/// Reading a varint factors through any continuation-only prefix: the first
/// `i` groups contribute `prefix_acc`, and what follows is scaled by
/// `128^i`.
proof fn lemma_varint_split(b: Seq<u8>, i: int)
    requires
        0 <= i <= b.len(),
        all_continuation(b, i),
    ensures
        match varint_value(b.skip(i)) {
            None => varint_value(b) is None,
            Some(p) => varint_value(b) == Some::<(nat, int)>(
                (prefix_acc(b, i) + p128(i as nat) * p.0, p.1 + i),
            ),
        },
    decreases i,
{
    if i == 0 {
        assert(b.skip(0) =~= b);
        assert(prefix_acc(b, 0) == 0);
        assert(p128(0nat) == 1);
        match varint_value(b) {
            Some(p) => {
                assert(i as nat == 0nat);
                assert(p128(i as nat) == 1);
                assert(p128(i as nat) * p.0 == p.0);
                assert(varint_value(b) == Some::<(nat, int)>(
                    (prefix_acc(b, i) + p128(i as nat) * p.0, p.1 + i),
                ));
            },
            None => {
            },
        }
    } else {
        assert(b[0] >= 128);
        let bd = b.drop_first();
        assert(all_continuation(bd, i - 1)) by {
            assert(forall|j: int| 0 <= j < i - 1 ==> bd[j] == b[j + 1] && b[j + 1] >= 128);
        }
        lemma_varint_split(bd, i - 1);
        assert(bd.skip(i - 1) =~= b.skip(i));
        match varint_value(b.skip(i)) {
            None => {
                assert(varint_value(bd) is None);
            },
            Some(p) => {
                assert(varint_value(bd) == Some::<(nat, int)>(
                    (prefix_acc(bd, i - 1) + p128((i - 1) as nat) * p.0, p.1 + i - 1),
                ));
                assert(varint_value(b) == Some::<(nat, int)>(
                    (
                        group_of(b[0]) + 128 * (prefix_acc(bd, i - 1) + p128((i - 1) as nat) * p.0),
                        p.1 + i,
                    ),
                ));
                assert(128 * (prefix_acc(bd, i - 1) + p128((i - 1) as nat) * p.0) == 128
                    * prefix_acc(bd, i - 1) + 128 * (p128((i - 1) as nat) * p.0))
                    by (nonlinear_arith);
                assert(128 * (p128((i - 1) as nat) * p.0) == (128 * p128((i - 1) as nat)) * p.0)
                    by (nonlinear_arith);
                assert(128 * p128((i - 1) as nat) == p128(i as nat));
                assert(prefix_acc(b, i) == group_of(b[0]) + 128 * prefix_acc(bd, i - 1));
            },
        }
    }
}

/// Law: reading a varint from a sequence that starts with the canonical
/// encoding of `n` yields `n` and consumes exactly that encoding, whatever
/// follows it.
pub proof fn lemma_varint_value_of_encoding(n: nat, rest: Seq<u8>)
    ensures
        varint_value(varint_encoding(n) + rest) == Some::<(nat, int)>(
            (n, varint_encoding(n).len() as int),
        ),
    decreases n,
{
    if n < 128 {
        let s = varint_encoding(n) + rest;
        assert(s[0] == n as u8);
        assert(varint_encoding(n).len() == 1);
    } else {
        let b0: u8 = (128 + (n % 128)) as u8;
        let s = varint_encoding(n) + rest;
        assert(s[0] == b0);
        assert(b0 >= 128);
        assert(group_of(b0) == n % 128);
        lemma_varint_value_of_encoding(n / 128, rest);
        assert(s.drop_first() =~= varint_encoding(n / 128) + rest);
        lemma_fundamental_div_mod(n as int, 128);
    }
}

/// Encode a non-negative integer as a canonical varint.
pub fn varint_encode_u128(n: u128) -> (r: Vec<u8>)
    ensures
        r@ == varint_encoding(n as nat),
{
    let mut v: Vec<u8> = Vec::new();
    let mut x: u128 = n;
    loop
        invariant
            varint_encoding(n as nat) == v@ + varint_encoding(x as nat),
        decreases x,
    {
        if x < 128 {
            v.push(x as u8);
            proof {
                assert(varint_encoding(x as nat) =~= seq![x as u8]);
                assert(v@ =~= varint_encoding(n as nat));
            }
            return v;
        }
        let byte: u8 = (128 + (x % 128)) as u8;
        let ghost old_x = x as nat;
        let ghost old_v = v@;
        v.push(byte);
        x = x / 128;
        proof {
            assert(x < old_x) by (nonlinear_arith)
                requires
                    old_x == x * 128 + (old_x % 128),
                    old_x >= 128,
                    x == old_x / 128,
            ;
            assert(varint_encoding(old_x) == seq![byte] + varint_encoding(x as nat));
            assert(old_v + varint_encoding(old_x) =~= v@ + varint_encoding(x as nat));
        }
    }
}

/// The magnitude bound that a decoded varint must stay under to fit the
/// widest supported integer.
pub open spec fn width_bound_u128() -> nat {
    0x100000000000000000000000000000000nat
}

/// Read a varint from the front of `b`. Returns the magnitude and the
/// number of bytes consumed; fails with `Truncated` when the input ends
/// before a terminating byte, and with `IntegerOverflow` when the
/// magnitude does not fit in the widest supported integer.
pub fn varint_decode_u128(b: &[u8]) -> (r: Result<(u128, usize), Error>)
    ensures
        match varint_value(b@) {
            None => r == Err::<(u128, usize), Error>(Error::Truncated),
            Some(p) => if p.0 < width_bound_u128() {
                r matches Ok(q) && q.0 as nat == p.0 && q.1 as int == p.1 && q.1 <= b@.len()
            } else {
                r == Err::<(u128, usize), Error>(Error::IntegerOverflow)
            },
        },
{
    let mut acc: u128 = 0;
    let mut mult: u128 = 1;
    let mut of: bool = false;
    let mut i: usize = 0;
    loop
        invariant
            i <= b@.len(),
            all_continuation(b@, i as int),
            i <= 18 ==> mult as nat == p128(i as nat),
            !of ==> acc as nat == prefix_acc(b@, i as int),
            of ==> prefix_acc(b@, i as int) >= width_bound_u128(),
        decreases b@.len() - i,
    {
        proof {
            lemma_prefix_acc_bound(b@, i as int);
        }
        if i >= b.len() {
            proof {
                lemma_varint_split(b@, i as int);
                assert(b@.skip(i as int).len() == 0);
            }
            return Err(Error::Truncated);
        }
        let byte: u8 = b[i];
        proof {
            lemma_varint_split(b@, i as int);
            assert(b@.skip(i as int)[0] == b@[i as int]);
            lemma_prefix_acc_snoc(b@, i as int);
        }
        if byte < 128 {
            // terminating byte: the total is prefix_acc + 128^i * byte
            proof {
                assert(varint_value(b@.skip(i as int)) == Some::<(nat, int)>((byte as nat, 1)));
            }
            if of {
                proof {
                    lemma_p128_pos(i as nat);
                    assert(p128(i as nat) * (byte as nat) >= 0) by (nonlinear_arith);
                }
                return Err(Error::IntegerOverflow);
            }
            if i <= 17 {
                proof {
                    lemma_p128_values();
                    lemma_p128_mono(i as nat, 17);
                    assert(mult as nat * (byte as nat) <= p128(17) * 127) by (nonlinear_arith)
                        requires
                            mult as nat <= p128(17),
                            byte as nat <= 127,
                    ;
                    assert(p128(i as nat) * (byte as nat) == mult as nat * (byte as nat));
                }
                return Ok((acc + mult * (byte as u128), i + 1));
            } else if i == 18 {
                proof {
                    lemma_p128_values();
                }
                if byte <= 3 {
                    proof {
                        assert(mult as nat * (byte as nat) <= p128(18) * 3) by (nonlinear_arith)
                            requires
                                mult as nat == p128(18),
                                byte as nat <= 3,
                        ;
                        assert(p128(i as nat) * (byte as nat) == mult as nat * (byte as nat));
                    }
                    return Ok((acc + mult * (byte as u128), i + 1));
                } else {
                    proof {
                        assert(p128(18) * (byte as nat) >= p128(18) * 4) by (nonlinear_arith)
                            requires
                                byte as nat >= 4,
                        ;
                    }
                    return Err(Error::IntegerOverflow);
                }
            } else {
                if byte == 0 {
                    proof {
                        assert(p128(i as nat) * 0 == 0) by (nonlinear_arith);
                    }
                    return Ok((acc, i + 1));
                } else {
                    proof {
                        lemma_p128_values();
                        lemma_p128_mono(19, i as nat);
                        assert(p128(i as nat) * (byte as nat) >= p128(i as nat) * 1)
                            by (nonlinear_arith)
                            requires
                                byte as nat >= 1,
                        ;
                    }
                    return Err(Error::IntegerOverflow);
                }
            }
        } else {
            // continuation byte: fold its group into the accumulator
            let g: u128 = (byte - 128) as u128;
            let ghost pa_i = prefix_acc(b@, i as int);
            let ghost pa_i1 = prefix_acc(b@, i as int + 1);
            proof {
                assert(group_of(byte) == g as nat);
                assert(pa_i1 == pa_i + (g as nat) * p128(i as nat));
            }
            if !of {
                if i <= 17 {
                    proof {
                        lemma_p128_values();
                        lemma_p128_mono(i as nat, 17);
                        assert((g as nat) * p128(i as nat) == (mult as nat) * (g as nat))
                            by (nonlinear_arith)
                            requires
                                mult as nat == p128(i as nat),
                        ;
                        assert(mult as nat * (g as nat) <= p128(17) * 127) by (nonlinear_arith)
                            requires
                                mult as nat <= p128(17),
                                g as nat <= 127,
                        ;
                        assert(pa_i1 == acc as nat + mult as nat * (g as nat));
                        assert(128 * (mult as nat) == p128((i + 1) as nat));
                    }
                    acc = acc + mult * g;
                    mult = mult * 128;
                    proof {
                        assert(mult as nat == p128((i + 1) as nat));
                        assert(acc as nat == pa_i1);
                    }
                } else if i == 18 {
                    proof {
                        lemma_p128_values();
                    }
                    if g <= 3 {
                        proof {
                            assert((g as nat) * p128(i as nat) == (mult as nat) * (g as nat))
                                by (nonlinear_arith)
                                requires
                                    mult as nat == p128(i as nat),
                            ;
                            assert(mult as nat * (g as nat) <= p128(18) * 3) by (nonlinear_arith)
                                requires
                                    mult as nat == p128(18),
                                    g as nat <= 3,
                            ;
                            assert(pa_i1 == acc as nat + mult as nat * (g as nat));
                        }
                        acc = acc + mult * g;
                        proof {
                            assert(acc as nat == pa_i1);
                        }
                    } else {
                        proof {
                            assert((g as nat) * p128(18) >= 4 * p128(18)) by (nonlinear_arith)
                                requires
                                    g as nat >= 4,
                            ;
                            assert(pa_i1 >= width_bound_u128());
                        }
                        of = true;
                    }
                } else {
                    if g == 0 {
                        proof {
                            assert((g as nat) * p128(i as nat) == 0) by (nonlinear_arith)
                                requires
                                    g as nat == 0,
                            ;
                            assert(acc as nat == pa_i1);
                        }
                    } else {
                        proof {
                            lemma_p128_values();
                            lemma_p128_mono(19, i as nat);
                            assert((g as nat) * p128(i as nat) >= p128(i as nat))
                                by (nonlinear_arith)
                                requires
                                    g as nat >= 1,
                            ;
                            assert(pa_i1 >= width_bound_u128());
                        }
                        of = true;
                    }
                }
            } else {
                proof {
                    lemma_p128_pos(i as nat);
                    assert((g as nat) * p128(i as nat) >= 0);
                    assert(pa_i1 >= width_bound_u128());
                }
            }
            i = i + 1;
            proof {
                assert(!of ==> acc as nat == prefix_acc(b@, i as int));
                assert(of ==> prefix_acc(b@, i as int) >= width_bound_u128());
            }
        }
    }
}

impl EncodeInto for u8 {
    open spec fn encode_spec(&self) -> Seq<u8> {
        varint_encoding(*self as nat)
    }

    fn encode_into(&self) -> (r: Vec<u8>) {
        varint_encode_u128(*self as u128)
    }
}

impl TryDecodeFrom for u8 {
    open spec fn decode_spec(b: Seq<u8>) -> Result<(u8, int), Error> {
        match varint_value(b) {
            None => Err(Error::Truncated),
            Some(p) => if p.0 < 0x100 {
                Ok((p.0 as u8, p.1))
            } else {
                Err(Error::IntegerOverflow)
            },
        }
    }

    fn try_decode_from(b: &[u8]) -> (r: Result<(u8, usize), Error>) {
        match varint_decode_u128(b) {
            Ok(p) => if p.0 < 0x100 {
                Ok((p.0 as u8, p.1))
            } else {
                Err(Error::IntegerOverflow)
            },
            Err(e) => Err(e),
        }
    }
}

impl DecodeEncodeLaw for u8 {
    open spec fn round_trip_wf(&self) -> bool {
        true
    }

    proof fn lemma_decode_encode(&self, rest: Seq<u8>) {
        lemma_varint_value_of_encoding(*self as nat, rest);
    }
}

impl EncodeInto for u16 {
    open spec fn encode_spec(&self) -> Seq<u8> {
        varint_encoding(*self as nat)
    }

    fn encode_into(&self) -> (r: Vec<u8>) {
        varint_encode_u128(*self as u128)
    }
}

impl TryDecodeFrom for u16 {
    open spec fn decode_spec(b: Seq<u8>) -> Result<(u16, int), Error> {
        match varint_value(b) {
            None => Err(Error::Truncated),
            Some(p) => if p.0 < 0x10000 {
                Ok((p.0 as u16, p.1))
            } else {
                Err(Error::IntegerOverflow)
            },
        }
    }

    fn try_decode_from(b: &[u8]) -> (r: Result<(u16, usize), Error>) {
        match varint_decode_u128(b) {
            Ok(p) => if p.0 < 0x10000 {
                Ok((p.0 as u16, p.1))
            } else {
                Err(Error::IntegerOverflow)
            },
            Err(e) => Err(e),
        }
    }
}

impl DecodeEncodeLaw for u16 {
    open spec fn round_trip_wf(&self) -> bool {
        true
    }

    proof fn lemma_decode_encode(&self, rest: Seq<u8>) {
        lemma_varint_value_of_encoding(*self as nat, rest);
    }
}

impl EncodeInto for u32 {
    open spec fn encode_spec(&self) -> Seq<u8> {
        varint_encoding(*self as nat)
    }

    fn encode_into(&self) -> (r: Vec<u8>) {
        varint_encode_u128(*self as u128)
    }
}

impl TryDecodeFrom for u32 {
    open spec fn decode_spec(b: Seq<u8>) -> Result<(u32, int), Error> {
        match varint_value(b) {
            None => Err(Error::Truncated),
            Some(p) => if p.0 < 0x100000000 {
                Ok((p.0 as u32, p.1))
            } else {
                Err(Error::IntegerOverflow)
            },
        }
    }

    fn try_decode_from(b: &[u8]) -> (r: Result<(u32, usize), Error>) {
        match varint_decode_u128(b) {
            Ok(p) => if p.0 < 0x100000000 {
                Ok((p.0 as u32, p.1))
            } else {
                Err(Error::IntegerOverflow)
            },
            Err(e) => Err(e),
        }
    }
}

impl DecodeEncodeLaw for u32 {
    open spec fn round_trip_wf(&self) -> bool {
        true
    }

    proof fn lemma_decode_encode(&self, rest: Seq<u8>) {
        lemma_varint_value_of_encoding(*self as nat, rest);
    }
}

impl EncodeInto for u64 {
    open spec fn encode_spec(&self) -> Seq<u8> {
        varint_encoding(*self as nat)
    }

    fn encode_into(&self) -> (r: Vec<u8>) {
        varint_encode_u128(*self as u128)
    }
}

impl TryDecodeFrom for u64 {
    open spec fn decode_spec(b: Seq<u8>) -> Result<(u64, int), Error> {
        match varint_value(b) {
            None => Err(Error::Truncated),
            Some(p) => if p.0 < 0x10000000000000000 {
                Ok((p.0 as u64, p.1))
            } else {
                Err(Error::IntegerOverflow)
            },
        }
    }

    fn try_decode_from(b: &[u8]) -> (r: Result<(u64, usize), Error>) {
        match varint_decode_u128(b) {
            Ok(p) => if p.0 < 0x10000000000000000 {
                Ok((p.0 as u64, p.1))
            } else {
                Err(Error::IntegerOverflow)
            },
            Err(e) => Err(e),
        }
    }
}

impl DecodeEncodeLaw for u64 {
    open spec fn round_trip_wf(&self) -> bool {
        true
    }

    proof fn lemma_decode_encode(&self, rest: Seq<u8>) {
        lemma_varint_value_of_encoding(*self as nat, rest);
    }
}

impl EncodeInto for u128 {
    open spec fn encode_spec(&self) -> Seq<u8> {
        varint_encoding(*self as nat)
    }

    fn encode_into(&self) -> (r: Vec<u8>) {
        varint_encode_u128(*self)
    }
}

impl TryDecodeFrom for u128 {
    open spec fn decode_spec(b: Seq<u8>) -> Result<(u128, int), Error> {
        match varint_value(b) {
            None => Err(Error::Truncated),
            Some(p) => if p.0 < width_bound_u128() {
                Ok((p.0 as u128, p.1))
            } else {
                Err(Error::IntegerOverflow)
            },
        }
    }

    fn try_decode_from(b: &[u8]) -> (r: Result<(u128, usize), Error>) {
        varint_decode_u128(b)
    }

}

impl DecodeEncodeLaw for u128 {
    open spec fn round_trip_wf(&self) -> bool {
        true
    }

    proof fn lemma_decode_encode(&self, rest: Seq<u8>) {
        lemma_varint_value_of_encoding(*self as nat, rest);
    }
}

impl EncodeInto for usize {
    open spec fn encode_spec(&self) -> Seq<u8> {
        varint_encoding(*self as nat)
    }

    fn encode_into(&self) -> (r: Vec<u8>) {
        varint_encode_u128(*self as u128)
    }
}

impl TryDecodeFrom for usize {
    open spec fn decode_spec(b: Seq<u8>) -> Result<(usize, int), Error> {
        match varint_value(b) {
            None => Err(Error::Truncated),
            Some(p) => if p.0 <= usize::MAX as nat {
                Ok((p.0 as usize, p.1))
            } else {
                Err(Error::IntegerOverflow)
            },
        }
    }

    fn try_decode_from(b: &[u8]) -> (r: Result<(usize, usize), Error>) {
        match varint_decode_u128(b) {
            Ok(p) => if p.0 <= usize::MAX as u128 {
                Ok((p.0 as usize, p.1))
            } else {
                Err(Error::IntegerOverflow)
            },
            Err(e) => Err(e),
        }
    }

}

impl DecodeEncodeLaw for usize {
    open spec fn round_trip_wf(&self) -> bool {
        true
    }

    proof fn lemma_decode_encode(&self, rest: Seq<u8>) {
        lemma_varint_value_of_encoding(*self as nat, rest);
    }
}

/// Law: decoding the canonical varint encoding of any unsigned 64-bit
/// integer yields that integer back and consumes the whole sequence.
pub proof fn lemma_varint_round_trip_u64(n: u64)
    ensures
        <u64 as TryDecodeFrom>::decode_spec(varint_encoding(n as nat)) == Ok::<(u64, int), Error>(
            (n, varint_encoding(n as nat).len() as int),
        ),
{
    lemma_varint_value_of_encoding(n as nat, Seq::empty());
    assert(varint_encoding(n as nat) + Seq::empty() =~= varint_encoding(n as nat));
}

} // verus!
