//! Byte encoding of proofs and keys: a lossless round trip of
//! exactly the fields of the data model.
//!
//! A group element takes three bytes: a leading tag that marks the
//! identity (the point at infinity) distinctly from every valid
//! point, then the exponent in two little-endian bytes.  A vector is
//! its two-byte little-endian length followed by its elements; a
//! density bit is one byte.
//!
//! The encoders are proved to produce exactly the specification
//! encoding of their argument, and every decoder carries the full
//! round-trip contract: it is sound — whatever it returns encodes
//! back to the very bytes it read — and complete — on the encoding
//! of any well-formed (and, for keys, length-bounded) value it
//! returns exactly that value.  For the key types, which hold
//! vectors, the "exactly" is stated field by field over the vectors'
//! views: a `Vec`'s only observable is its view.

use vstd::prelude::*;
use vstd::arithmetic::div_mod::{lemma_fundamental_div_mod, lemma_small_mod};
use crate::field::MODULUS;
use crate::group::{G1, G2};
use crate::keys::{Proof, ProverKey, VerifierKey};

verus! {

/// Two little-endian bytes of a value below `65536`.
pub open spec fn enc_u16(v: int) -> Seq<u8> {
    seq![(v % 256) as u8, ((v / 256) % 256) as u8]
}

/// A first-group element: identity tag or tagged exponent.
pub open spec fn enc_g1(g: G1) -> Seq<u8> {
    if g.v.v == 0 {
        seq![0u8, 0u8, 0u8]
    } else {
        seq![1u8] + enc_u16(g.v.v as int)
    }
}

/// A second-group element.
pub open spec fn enc_g2(g: G2) -> Seq<u8> {
    if g.v.v == 0 {
        seq![0u8, 0u8, 0u8]
    } else {
        seq![1u8] + enc_u16(g.v.v as int)
    }
}

/// The first `i` elements of a vector of first-group elements.
pub open spec fn enc_g1_upto(s: Seq<G1>, i: int) -> Seq<u8>
    decreases i,
{
    if i <= 0 {
        Seq::<u8>::empty()
    } else {
        enc_g1_upto(s, i - 1) + enc_g1(s[i - 1])
    }
}

pub open spec fn enc_g2_upto(s: Seq<G2>, i: int) -> Seq<u8>
    decreases i,
{
    if i <= 0 {
        Seq::<u8>::empty()
    } else {
        enc_g2_upto(s, i - 1) + enc_g2(s[i - 1])
    }
}

/// A length-prefixed vector of first-group elements.
pub open spec fn enc_g1_vec(s: Seq<G1>) -> Seq<u8> {
    enc_u16(s.len() as int) + enc_g1_upto(s, s.len() as int)
}

pub open spec fn enc_g2_vec(s: Seq<G2>) -> Seq<u8> {
    enc_u16(s.len() as int) + enc_g2_upto(s, s.len() as int)
}

/// The first `i` density bits, one byte each.
pub open spec fn enc_bits_upto(s: Seq<bool>, i: int) -> Seq<u8>
    decreases i,
{
    if i <= 0 {
        Seq::<u8>::empty()
    } else {
        enc_bits_upto(s, i - 1) + seq![
            if s[i - 1] {
                1u8
            } else {
                0u8
            },
        ]
    }
}

/// A length-prefixed density tracker.
pub open spec fn enc_bits_vec(s: Seq<bool>) -> Seq<u8> {
    enc_u16(s.len() as int) + enc_bits_upto(s, s.len() as int)
}

/// A proof: its three group elements, nine bytes.
pub open spec fn enc_proof(p: Proof) -> Seq<u8> {
    enc_g1(p.a) + enc_g2(p.b) + enc_g1(p.c)
}

/// A verifier key: the four pairing elements and the `ic` basis.
pub open spec fn enc_vk(vk: VerifierKey) -> Seq<u8> {
    enc_g1(vk.alpha_g1) + enc_g2(vk.beta_g2) + enc_g2(vk.gamma_g2) + enc_g2(vk.delta_g2)
        + enc_g1_vec(vk.ic@)
}

/// A prover key: the verifier key, the two first-group blinding
/// bases, the five basis vectors, and the two density trackers.
pub open spec fn enc_pk(pk: ProverKey) -> Seq<u8> {
    enc_vk(pk.vk) + enc_g1(pk.beta_g1) + enc_g1(pk.delta_g1) + enc_g1_vec(pk.h@)
        + enc_g1_vec(pk.l@) + enc_g1_vec(pk.a@) + enc_g1_vec(pk.b_g1@) + enc_g2_vec(pk.b_g2@)
        + enc_bits_vec(pk.a_density@) + enc_bits_vec(pk.b_density@)
}

/// The encoding determines the element: two well-formed group
/// elements with one encoding are equal.
pub proof fn lemma_enc_g1_inj(x: G1, y: G1)
    requires
        x.wf(),
        y.wf(),
        enc_g1(x) == enc_g1(y),
    ensures
        x == y,
{
    if x.v.v == 0 || y.v.v == 0 {
        assert(enc_g1(x)[0] == enc_g1(y)[0]);
    } else {
        assert(enc_u16(x.v.v as int) =~= enc_u16(y.v.v as int)) by {
            assert((seq![1u8] + enc_u16(x.v.v as int))[1] == enc_u16(x.v.v as int)[0]);
            assert((seq![1u8] + enc_u16(x.v.v as int))[2] == enc_u16(x.v.v as int)[1]);
            assert((seq![1u8] + enc_u16(y.v.v as int))[1] == enc_u16(y.v.v as int)[0]);
            assert((seq![1u8] + enc_u16(y.v.v as int))[2] == enc_u16(y.v.v as int)[1]);
            assert(enc_g1(x)[1] == enc_g1(y)[1]);
            assert(enc_g1(x)[2] == enc_g1(y)[2]);
        }
    }
    lemma_u16_bytes_determine(x.v.v as int, y.v.v as int);
}

pub proof fn lemma_enc_g2_inj(x: G2, y: G2)
    requires
        x.wf(),
        y.wf(),
        enc_g2(x) == enc_g2(y),
    ensures
        x == y,
{
    if x.v.v == 0 || y.v.v == 0 {
        assert(enc_g2(x)[0] == enc_g2(y)[0]);
    } else {
        assert(enc_u16(x.v.v as int) =~= enc_u16(y.v.v as int)) by {
            assert((seq![1u8] + enc_u16(x.v.v as int))[1] == enc_u16(x.v.v as int)[0]);
            assert((seq![1u8] + enc_u16(x.v.v as int))[2] == enc_u16(x.v.v as int)[1]);
            assert((seq![1u8] + enc_u16(y.v.v as int))[1] == enc_u16(y.v.v as int)[0]);
            assert((seq![1u8] + enc_u16(y.v.v as int))[2] == enc_u16(y.v.v as int)[1]);
            assert(enc_g2(x)[1] == enc_g2(y)[1]);
            assert(enc_g2(x)[2] == enc_g2(y)[2]);
        }
    }
    lemma_u16_bytes_determine(x.v.v as int, y.v.v as int);
}

/// Two values below `65536` with the same two little-endian bytes
/// are equal.
proof fn lemma_u16_bytes_determine(a: int, b: int)
    requires
        0 <= a < 65536,
        0 <= b < 65536,
        a == 0 <==> b == 0,
        a != 0 ==> enc_u16(a) == enc_u16(b),
    ensures
        a == b,
{
    if a != 0 {
        assert(enc_u16(a)[0] == enc_u16(b)[0]);
        assert(enc_u16(a)[1] == enc_u16(b)[1]);
        assert(a % 256 < 256);
        assert(b % 256 < 256);
        assert(a % 256 == b % 256);
        lemma_small_mod((a / 256) as nat, 256);
        lemma_small_mod((b / 256) as nat, 256);
        assert(a / 256 == b / 256);
        lemma_fundamental_div_mod(a, 256);
        lemma_fundamental_div_mod(b, 256);
    }
}

/// Appends one encoded first-group element.
fn push_g1(out: &mut Vec<u8>, g: G1)
    requires
        g.wf(),
    ensures
        final(out)@ == old(out)@ + enc_g1(g),
{
    if g.v.v == 0 {
        out.push(0u8);
        out.push(0u8);
        out.push(0u8);
    } else {
        out.push(1u8);
        out.push((g.v.v % 256) as u8);
        out.push((g.v.v / 256) as u8);
        proof {
            lemma_small_mod((g.v.v / 256) as nat, 256);
        }
    }
    proof {
        assert(final(out)@ =~= old(out)@ + enc_g1(g));
    }
}

/// Appends one encoded second-group element.
fn push_g2(out: &mut Vec<u8>, g: G2)
    requires
        g.wf(),
    ensures
        final(out)@ == old(out)@ + enc_g2(g),
{
    if g.v.v == 0 {
        out.push(0u8);
        out.push(0u8);
        out.push(0u8);
    } else {
        out.push(1u8);
        out.push((g.v.v % 256) as u8);
        out.push((g.v.v / 256) as u8);
        proof {
            lemma_small_mod((g.v.v / 256) as nat, 256);
        }
    }
    proof {
        assert(final(out)@ =~= old(out)@ + enc_g2(g));
    }
}

/// Appends a two-byte length.
fn push_u16(out: &mut Vec<u8>, n: usize)
    requires
        n < 65536,
    ensures
        final(out)@ == old(out)@ + enc_u16(n as int),
{
    out.push((n % 256) as u8);
    out.push((n / 256) as u8);
    proof {
        lemma_small_mod((n / 256) as nat, 256);
        assert(final(out)@ =~= old(out)@ + enc_u16(n as int));
    }
}

/// Appends a length-prefixed vector of first-group elements.
fn push_g1_vec(out: &mut Vec<u8>, s: &Vec<G1>)
    requires
        s@.len() < 65536,
        forall|i: int| 0 <= i < s@.len() ==> (#[trigger] s@[i]).wf(),
    ensures
        final(out)@ == old(out)@ + enc_g1_vec(s@),
{
    push_u16(out, s.len());
    let mut i: usize = 0;
    while i < s.len()
        invariant
            i <= s@.len(),
            forall|k: int| 0 <= k < s@.len() ==> (#[trigger] s@[k]).wf(),
            out@ == old(out)@ + enc_u16(s@.len() as int) + enc_g1_upto(s@, i as int),
        decreases s@.len() - i,
    {
        push_g1(out, s[i]);
        proof {
            assert(out@ =~= old(out)@ + enc_u16(s@.len() as int) + enc_g1_upto(s@, i + 1));
        }
        i = i + 1;
    }
    proof {
        assert(final(out)@ =~= old(out)@ + enc_g1_vec(s@));
    }
}

/// Appends a length-prefixed vector of second-group elements.
fn push_g2_vec(out: &mut Vec<u8>, s: &Vec<G2>)
    requires
        s@.len() < 65536,
        forall|i: int| 0 <= i < s@.len() ==> (#[trigger] s@[i]).wf(),
    ensures
        final(out)@ == old(out)@ + enc_g2_vec(s@),
{
    push_u16(out, s.len());
    let mut i: usize = 0;
    while i < s.len()
        invariant
            i <= s@.len(),
            forall|k: int| 0 <= k < s@.len() ==> (#[trigger] s@[k]).wf(),
            out@ == old(out)@ + enc_u16(s@.len() as int) + enc_g2_upto(s@, i as int),
        decreases s@.len() - i,
    {
        push_g2(out, s[i]);
        proof {
            assert(out@ =~= old(out)@ + enc_u16(s@.len() as int) + enc_g2_upto(s@, i + 1));
        }
        i = i + 1;
    }
    proof {
        assert(final(out)@ =~= old(out)@ + enc_g2_vec(s@));
    }
}

/// Appends a length-prefixed density tracker.
fn push_bits_vec(out: &mut Vec<u8>, s: &Vec<bool>)
    requires
        s@.len() < 65536,
    ensures
        final(out)@ == old(out)@ + enc_bits_vec(s@),
{
    push_u16(out, s.len());
    let mut i: usize = 0;
    while i < s.len()
        invariant
            i <= s@.len(),
            out@ == old(out)@ + enc_u16(s@.len() as int) + enc_bits_upto(s@, i as int),
        decreases s@.len() - i,
    {
        if s[i] {
            out.push(1u8);
        } else {
            out.push(0u8);
        }
        proof {
            assert(out@ =~= old(out)@ + enc_u16(s@.len() as int) + enc_bits_upto(
                s@, i + 1));
        }
        i = i + 1;
    }
    proof {
        assert(final(out)@ =~= old(out)@ + enc_bits_vec(s@));
    }
}

/// Encodes a proof to its nine bytes.
pub fn encode_proof(p: &Proof) -> (bytes: Vec<u8>)
    requires
        p.wf(),
    ensures
        bytes@ == enc_proof(*p),
{
    let mut out: Vec<u8> = Vec::new();
    push_g1(&mut out, p.a);
    push_g2(&mut out, p.b);
    push_g1(&mut out, p.c);
    proof {
        assert(out@ =~= enc_proof(*p));
    }
    out
}

/// Encodes a verifier key.
pub fn encode_vk(vk: &VerifierKey) -> (bytes: Vec<u8>)
    requires
        vk.wf(),
        vk.ic@.len() < 65536,
    ensures
        bytes@ == enc_vk(*vk),
{
    let mut out: Vec<u8> = Vec::new();
    push_g1(&mut out, vk.alpha_g1);
    push_g2(&mut out, vk.beta_g2);
    push_g2(&mut out, vk.gamma_g2);
    push_g2(&mut out, vk.delta_g2);
    push_g1_vec(&mut out, &vk.ic);
    proof {
        assert(out@ =~= enc_vk(*vk));
    }
    out
}

/// Encodes a prover key.
pub fn encode_pk(pk: &ProverKey) -> (bytes: Vec<u8>)
    requires
        pk.wf(),
        pk.vk.ic@.len() < 65536,
        pk.h@.len() < 65536,
        pk.l@.len() < 65536,
        pk.a@.len() < 65536,
        pk.b_g1@.len() < 65536,
        pk.b_g2@.len() < 65536,
        pk.a_density@.len() < 65536,
        pk.b_density@.len() < 65536,
    ensures
        bytes@ == enc_pk(*pk),
{
    let mut out: Vec<u8> = Vec::new();
    push_g1(&mut out, pk.vk.alpha_g1);
    push_g2(&mut out, pk.vk.beta_g2);
    push_g2(&mut out, pk.vk.gamma_g2);
    push_g2(&mut out, pk.vk.delta_g2);
    push_g1_vec(&mut out, &pk.vk.ic);
    proof {
        assert(out@ =~= enc_vk(pk.vk));
    }
    push_g1(&mut out, pk.beta_g1);
    push_g1(&mut out, pk.delta_g1);
    push_g1_vec(&mut out, &pk.h);
    push_g1_vec(&mut out, &pk.l);
    push_g1_vec(&mut out, &pk.a);
    push_g1_vec(&mut out, &pk.b_g1);
    push_g2_vec(&mut out, &pk.b_g2);
    push_bits_vec(&mut out, &pk.a_density);
    push_bits_vec(&mut out, &pk.b_density);
    proof {
        assert(out@ =~= enc_pk(*pk));
    }
    out
}

/// A group element's encoding is always three bytes.
pub proof fn lemma_enc_g1_len(g: G1)
    ensures
        enc_g1(g).len() == 3,
{
}

pub proof fn lemma_enc_g2_len(g: G2)
    ensures
        enc_g2(g).len() == 3,
{
}

/// The encoding of the first `i` elements ignores a pushed element.
proof fn lemma_enc_g1_upto_push(s: Seq<G1>, x: G1, i: int)
    requires
        i <= s.len(),
    ensures
        enc_g1_upto(s.push(x), i) == enc_g1_upto(s, i),
    decreases i,
{
    if i > 0 {
        lemma_enc_g1_upto_push(s, x, i - 1);
    }
}

proof fn lemma_enc_g2_upto_push(s: Seq<G2>, x: G2, i: int)
    requires
        i <= s.len(),
    ensures
        enc_g2_upto(s.push(x), i) == enc_g2_upto(s, i),
    decreases i,
{
    if i > 0 {
        lemma_enc_g2_upto_push(s, x, i - 1);
    }
}

proof fn lemma_enc_bits_upto_push(s: Seq<bool>, x: bool, i: int)
    requires
        i <= s.len(),
    ensures
        enc_bits_upto(s.push(x), i) == enc_bits_upto(s, i),
    decreases i,
{
    if i > 0 {
        lemma_enc_bits_upto_push(s, x, i - 1);
    }
}

/// Parses the three bytes of a first-group element at `pos`: returns
/// exactly the well-formed element that encodes to them, if any.
fn dec_g1_at(bytes: &Vec<u8>, pos: usize) -> (r: Option<G1>)
    requires
        pos + 3 <= bytes@.len(),
        bytes@.len() <= usize::MAX,
    ensures
        r is Some ==> r->0.wf() && enc_g1(r->0) == bytes@.subrange(pos as int, pos + 3),
        forall|g: G1| g.wf() && enc_g1(g) == bytes@.subrange(pos as int, pos + 3)
            ==> r == Some(g),
{
    let ghost sl = bytes@.subrange(pos as int, pos + 3);
    let tag = bytes[pos];
    let lo = bytes[pos + 1];
    let hi = bytes[pos + 2];
    proof {
        assert(sl[0] == tag && sl[1] == lo && sl[2] == hi);
    }
    if tag == 0 {
        if lo == 0 && hi == 0 {
            let g = G1::identity();
            proof {
                assert(enc_g1(g) =~= sl);
                assert forall|g2: G1| g2.wf() && enc_g1(g2) == sl implies g2 == g by {
                    assert(enc_g1(g2)[0] == 0u8);
                }
            }
            Option::Some(g)
        } else {
            proof {
                assert forall|g2: G1| g2.wf() implies enc_g1(g2) != sl by {
                    if g2.v.v != 0 {
                        assert(enc_g1(g2)[0] == 1u8);
                    } else {
                        assert(enc_g1(g2)[1] == 0u8 && enc_g1(g2)[2] == 0u8);
                    }
                }
            }
            Option::None
        }
    } else if tag == 1 {
        let v: u64 = lo as u64 + 256 * (hi as u64);
        proof {
            vstd::arithmetic::div_mod::lemma_mod_multiples_vanish(
                hi as int, lo as int, 256);
            lemma_small_mod(lo as nat, 256);
            vstd::arithmetic::div_mod::lemma_div_multiples_vanish_fancy(
                hi as int, lo as int, 256);
            assert(v as int % 256 == lo as int);
            assert(v as int / 256 == hi as int);
            lemma_small_mod((v as int / 256) as nat, 256);
        }
        if v >= 1 && v < MODULUS {
            let g = G1 { v: crate::field::Fp { v } };
            proof {
                assert(enc_g1(g) =~= sl);
                assert forall|g2: G1| g2.wf() && enc_g1(g2) == sl implies g2 == g by {
                    lemma_enc_g1_inj(g2, g);
                }
            }
            Option::Some(g)
        } else {
            proof {
                assert forall|g2: G1| g2.wf() implies enc_g1(g2) != sl by {
                    if g2.v.v == 0 {
                        assert(enc_g1(g2)[0] == 0u8);
                    } else if enc_g1(g2) == sl {
                        assert(enc_u16(g2.v.v as int)[0] == lo);
                        assert(enc_u16(g2.v.v as int)[1] == hi);
                        assert(g2.v.v as int % 256 == lo as int);
                        lemma_small_mod((g2.v.v as int / 256) as nat, 256);
                        assert(g2.v.v as int / 256 == hi as int);
                        lemma_fundamental_div_mod(g2.v.v as int, 256);
                        assert(g2.v.v == v);
                    }
                }
            }
            Option::None
        }
    } else {
        proof {
            assert forall|g2: G1| g2.wf() implies enc_g1(g2) != sl by {
                if g2.v.v == 0 {
                    assert(enc_g1(g2)[0] == 0u8);
                } else {
                    assert(enc_g1(g2)[0] == 1u8);
                }
            }
        }
        Option::None
    }
}

/// Parses the three bytes of a second-group element at `pos`.
fn dec_g2_at(bytes: &Vec<u8>, pos: usize) -> (r: Option<G2>)
    requires
        pos + 3 <= bytes@.len(),
        bytes@.len() <= usize::MAX,
    ensures
        r is Some ==> r->0.wf() && enc_g2(r->0) == bytes@.subrange(pos as int, pos + 3),
        forall|g: G2| g.wf() && enc_g2(g) == bytes@.subrange(pos as int, pos + 3)
            ==> r == Some(g),
{
    let ghost sl = bytes@.subrange(pos as int, pos + 3);
    let tag = bytes[pos];
    let lo = bytes[pos + 1];
    let hi = bytes[pos + 2];
    proof {
        assert(sl[0] == tag && sl[1] == lo && sl[2] == hi);
    }
    if tag == 0 {
        if lo == 0 && hi == 0 {
            let g = G2::identity();
            proof {
                assert(enc_g2(g) =~= sl);
                assert forall|g2: G2| g2.wf() && enc_g2(g2) == sl implies g2 == g by {
                    assert(enc_g2(g2)[0] == 0u8);
                }
            }
            Option::Some(g)
        } else {
            proof {
                assert forall|g2: G2| g2.wf() implies enc_g2(g2) != sl by {
                    if g2.v.v != 0 {
                        assert(enc_g2(g2)[0] == 1u8);
                    } else {
                        assert(enc_g2(g2)[1] == 0u8 && enc_g2(g2)[2] == 0u8);
                    }
                }
            }
            Option::None
        }
    } else if tag == 1 {
        let v: u64 = lo as u64 + 256 * (hi as u64);
        proof {
            vstd::arithmetic::div_mod::lemma_mod_multiples_vanish(
                hi as int, lo as int, 256);
            lemma_small_mod(lo as nat, 256);
            vstd::arithmetic::div_mod::lemma_div_multiples_vanish_fancy(
                hi as int, lo as int, 256);
            assert(v as int % 256 == lo as int);
            assert(v as int / 256 == hi as int);
            lemma_small_mod((v as int / 256) as nat, 256);
        }
        if v >= 1 && v < MODULUS {
            let g = G2 { v: crate::field::Fp { v } };
            proof {
                assert(enc_g2(g) =~= sl);
                assert forall|g2: G2| g2.wf() && enc_g2(g2) == sl implies g2 == g by {
                    lemma_enc_g2_inj(g2, g);
                }
            }
            Option::Some(g)
        } else {
            proof {
                assert forall|g2: G2| g2.wf() implies enc_g2(g2) != sl by {
                    if g2.v.v == 0 {
                        assert(enc_g2(g2)[0] == 0u8);
                    } else if enc_g2(g2) == sl {
                        assert(enc_u16(g2.v.v as int)[0] == lo);
                        assert(enc_u16(g2.v.v as int)[1] == hi);
                        assert(g2.v.v as int % 256 == lo as int);
                        lemma_small_mod((g2.v.v as int / 256) as nat, 256);
                        assert(g2.v.v as int / 256 == hi as int);
                        lemma_fundamental_div_mod(g2.v.v as int, 256);
                        assert(g2.v.v == v);
                    }
                }
            }
            Option::None
        }
    } else {
        proof {
            assert forall|g2: G2| g2.wf() implies enc_g2(g2) != sl by {
                if g2.v.v == 0 {
                    assert(enc_g2(g2)[0] == 0u8);
                } else {
                    assert(enc_g2(g2)[0] == 1u8);
                }
            }
        }
        Option::None
    }
}

/// Decodes a proof: the exact inverse of `encode_proof`.  Returns
/// `Some(p)` exactly when the bytes are the encoding of a well-formed
/// proof `p` — so decoding an encoding reproduces the proof, bit for
/// bit.
pub fn decode_proof(bytes: &Vec<u8>) -> (r: Option<Proof>)
    ensures
        r is Some ==> r->0.wf() && enc_proof(r->0) == bytes@,
        forall|p: Proof| p.wf() && enc_proof(p) == bytes@ ==> r == Some(p),
{
    if bytes.len() != 9 {
        proof {
            assert forall|p: Proof| p.wf() implies enc_proof(p) != bytes@ by {
                lemma_enc_g1_len(p.a);
                lemma_enc_g2_len(p.b);
                lemma_enc_g1_len(p.c);
            }
        }
        return Option::None;
    }
    proof {
        assert forall|p: Proof| p.wf() && enc_proof(p) == bytes@ implies enc_g1(p.a)
            == bytes@.subrange(0, 3) && enc_g2(p.b) == bytes@.subrange(3, 6) && enc_g1(p.c)
            == bytes@.subrange(6, 9) by {
            lemma_enc_g1_len(p.a);
            lemma_enc_g2_len(p.b);
            lemma_enc_g1_len(p.c);
            assert(enc_g1(p.a) =~= bytes@.subrange(0, 3));
            assert(enc_g2(p.b) =~= bytes@.subrange(3, 6));
            assert(enc_g1(p.c) =~= bytes@.subrange(6, 9));
        }
    }
    let a = match dec_g1_at(bytes, 0) {
        Option::Some(g) => g,
        Option::None => {
            return Option::None;
        },
    };
    let b = match dec_g2_at(bytes, 3) {
        Option::Some(g) => g,
        Option::None => {
            return Option::None;
        },
    };
    let c = match dec_g1_at(bytes, 6) {
        Option::Some(g) => g,
        Option::None => {
            return Option::None;
        },
    };
    let p = Proof { a, b, c };
    proof {
        assert(enc_proof(p) =~= bytes@);
    }
    Option::Some(p)
}

/// The per-element encodings have fixed lengths.
proof fn lemma_enc_g1_upto_len(s: Seq<G1>, i: int)
    requires
        0 <= i <= s.len(),
    ensures
        enc_g1_upto(s, i).len() == 3 * i,
    decreases i,
{
    if i > 0 {
        lemma_enc_g1_upto_len(s, i - 1);
        lemma_enc_g1_len(s[i - 1]);
    }
}

proof fn lemma_enc_g2_upto_len(s: Seq<G2>, i: int)
    requires
        0 <= i <= s.len(),
    ensures
        enc_g2_upto(s, i).len() == 3 * i,
    decreases i,
{
    if i > 0 {
        lemma_enc_g2_upto_len(s, i - 1);
        lemma_enc_g2_len(s[i - 1]);
    }
}

proof fn lemma_enc_bits_upto_len(s: Seq<bool>, i: int)
    requires
        0 <= i <= s.len(),
    ensures
        enc_bits_upto(s, i).len() == i,
    decreases i,
{
    if i > 0 {
        lemma_enc_bits_upto_len(s, i - 1);
    }
}

/// A length-prefixed vector encodes to a determined number of bytes.
pub proof fn lemma_enc_g1_vec_len(s: Seq<G1>)
    ensures
        enc_g1_vec(s).len() == 2 + 3 * s.len(),
{
    lemma_enc_g1_upto_len(s, s.len() as int);
}

pub proof fn lemma_enc_g2_vec_len(s: Seq<G2>)
    ensures
        enc_g2_vec(s).len() == 2 + 3 * s.len(),
{
    lemma_enc_g2_upto_len(s, s.len() as int);
}

pub proof fn lemma_enc_bits_vec_len(s: Seq<bool>)
    ensures
        enc_bits_vec(s).len() == 2 + s.len(),
{
    lemma_enc_bits_upto_len(s, s.len() as int);
}

/// Element `i`'s encoding sits at its fixed slice of the element run.
proof fn lemma_enc_g1_elem_slice(s: Seq<G1>, i: int, m: int)
    requires
        0 <= i < m <= s.len(),
    ensures
        enc_g1_upto(s, m).subrange(3 * i, 3 * i + 3) == enc_g1(s[i]),
    decreases m,
{
    lemma_enc_g1_upto_len(s, i);
    lemma_enc_g1_len(s[i]);
    if m == i + 1 {
        assert(enc_g1_upto(s, m) == enc_g1_upto(s, i) + enc_g1(s[i]));
        assert(enc_g1_upto(s, m).subrange(3 * i, 3 * i + 3) =~= enc_g1(s[i]));
    } else {
        lemma_enc_g1_elem_slice(s, i, m - 1);
        lemma_enc_g1_upto_len(s, m - 1);
        lemma_enc_g1_len(s[m - 1]);
        assert(enc_g1_upto(s, m) == enc_g1_upto(s, m - 1) + enc_g1(s[m - 1]));
        assert(enc_g1_upto(s, m).subrange(3 * i, 3 * i + 3) =~= enc_g1_upto(s, m - 1)
            .subrange(3 * i, 3 * i + 3));
    }
}

proof fn lemma_enc_g2_elem_slice(s: Seq<G2>, i: int, m: int)
    requires
        0 <= i < m <= s.len(),
    ensures
        enc_g2_upto(s, m).subrange(3 * i, 3 * i + 3) == enc_g2(s[i]),
    decreases m,
{
    lemma_enc_g2_upto_len(s, i);
    lemma_enc_g2_len(s[i]);
    if m == i + 1 {
        assert(enc_g2_upto(s, m) == enc_g2_upto(s, i) + enc_g2(s[i]));
        assert(enc_g2_upto(s, m).subrange(3 * i, 3 * i + 3) =~= enc_g2(s[i]));
    } else {
        lemma_enc_g2_elem_slice(s, i, m - 1);
        lemma_enc_g2_upto_len(s, m - 1);
        lemma_enc_g2_len(s[m - 1]);
        assert(enc_g2_upto(s, m) == enc_g2_upto(s, m - 1) + enc_g2(s[m - 1]));
        assert(enc_g2_upto(s, m).subrange(3 * i, 3 * i + 3) =~= enc_g2_upto(s, m - 1)
            .subrange(3 * i, 3 * i + 3));
    }
}

proof fn lemma_enc_bits_elem_slice(s: Seq<bool>, i: int, m: int)
    requires
        0 <= i < m <= s.len(),
    ensures
        enc_bits_upto(s, m)[i] == if s[i] {
            1u8
        } else {
            0u8
        },
    decreases m,
{
    lemma_enc_bits_upto_len(s, i);
    if m == i + 1 {
        lemma_enc_bits_upto_len(s, m);
    } else {
        lemma_enc_bits_elem_slice(s, i, m - 1);
        lemma_enc_bits_upto_len(s, m - 1);
    }
}

/// Splits a slice known to hold a concatenation into its two parts.
proof fn lemma_peel(all: Seq<u8>, x: Seq<u8>, y: Seq<u8>, off: int)
    requires
        0 <= off,
        off + x.len() + y.len() <= all.len(),
        all.subrange(off, off + x.len() + y.len()) == x + y,
    ensures
        all.subrange(off, off + x.len() as int) == x,
        all.subrange(off + x.len() as int, off + x.len() + y.len()) == y,
{
    let xy = all.subrange(off, off + x.len() + y.len());
    assert(all.subrange(off, off + x.len() as int) =~= x) by {
        assert forall|j: int| 0 <= j < x.len() implies all.subrange(
            off,
            off + x.len() as int,
        )[j] == x[j] by {
            assert(xy[j] == (x + y)[j]);
        }
    }
    assert(all.subrange(off + x.len() as int, off + x.len() + y.len()) =~= y) by {
        assert forall|j: int| 0 <= j < y.len() implies all.subrange(
            off + x.len() as int,
            off + x.len() + y.len(),
        )[j] == y[j] by {
            assert(xy[x.len() + j] == (x + y)[x.len() + j]);
        }
    }
}

/// A well-formed, bounded vector of first-group elements whose
/// encoding sits at `pos` of the byte string.
pub open spec fn g1_vec_fits(s: Seq<G1>, bytes: Seq<u8>, pos: int) -> bool {
    &&& forall|k: int| 0 <= k < s.len() ==> (#[trigger] s[k]).wf()
    &&& s.len() < 65536
    &&& 0 <= pos
    &&& pos + 2 + 3 * s.len() <= bytes.len()
    &&& enc_g1_vec(s) == bytes.subrange(pos, pos + 2 + 3 * s.len())
}

pub open spec fn g2_vec_fits(s: Seq<G2>, bytes: Seq<u8>, pos: int) -> bool {
    &&& forall|k: int| 0 <= k < s.len() ==> (#[trigger] s[k]).wf()
    &&& s.len() < 65536
    &&& 0 <= pos
    &&& pos + 2 + 3 * s.len() <= bytes.len()
    &&& enc_g2_vec(s) == bytes.subrange(pos, pos + 2 + 3 * s.len())
}

pub open spec fn bits_vec_fits(s: Seq<bool>, bytes: Seq<u8>, pos: int) -> bool {
    &&& s.len() < 65536
    &&& 0 <= pos
    &&& pos + 2 + s.len() <= bytes.len()
    &&& enc_bits_vec(s) == bytes.subrange(pos, pos + 2 + s.len())
}

/// Parses a length-prefixed vector of first-group elements starting
/// at `pos`; returns the vector and the next position.  Sound —
/// whatever comes back encodes to exactly the bytes consumed — and
/// complete: a fitting vector's encoding is parsed back element for
/// element.
fn dec_g1_vec_at(bytes: &Vec<u8>, pos: usize) -> (r: Option<(Vec<G1>, usize)>)
    ensures
        r is Some ==> {
            let (v, end) = r->0;
            &&& pos + 2 <= end <= bytes@.len()
            &&& forall|i: int| 0 <= i < v@.len() ==> (#[trigger] v@[i]).wf()
            &&& v@.len() < 65536
            &&& enc_g1_vec(v@) == bytes@.subrange(pos as int, end as int)
        },
        forall|s: Seq<G1>| g1_vec_fits(s, bytes@, pos as int) ==> r is Some && (r->0).0@ == s
            && (r->0).1 == pos + 2 + 3 * s.len(),
{
    if bytes.len() < 2 || pos > bytes.len() - 2 {
        proof {
            assert forall|s: Seq<G1>| g1_vec_fits(s, bytes@, pos as int) implies false by {}
        }
        return Option::None;
    }
    let n: usize = bytes[pos] as usize + 256 * (bytes[pos + 1] as usize);
    proof {
        vstd::arithmetic::div_mod::lemma_mod_multiples_vanish(
            bytes@[pos + 1] as int, bytes@[pos as int] as int, 256);
        lemma_small_mod(bytes@[pos as int] as nat, 256);
        vstd::arithmetic::div_mod::lemma_div_multiples_vanish_fancy(
            bytes@[pos + 1] as int, bytes@[pos as int] as int, 256);
        lemma_small_mod((n as int / 256) as nat, 256);
        assert(enc_u16(n as int) =~= bytes@.subrange(pos as int, pos + 2));
        assert forall|s: Seq<G1>| g1_vec_fits(s, bytes@, pos as int) implies s.len()
            == n by {
            let ll = s.len() as int;
            lemma_enc_g1_upto_len(s, ll);
            assert(enc_g1_vec(s)[0] == enc_u16(ll)[0]);
            assert(enc_g1_vec(s)[1] == enc_u16(ll)[1]);
            assert(bytes@.subrange(pos as int, pos + 2 + 3 * ll)[0] == bytes@[pos as int]);
            assert(bytes@.subrange(pos as int, pos + 2 + 3 * ll)[1] == bytes@[pos + 1]);
            assert(ll % 256 == bytes@[pos as int] as int);
            lemma_small_mod((ll / 256) as nat, 256);
            assert(ll / 256 == bytes@[pos + 1] as int);
            vstd::arithmetic::div_mod::lemma_fundamental_div_mod(ll, 256);
        }
    }
    let mut out: Vec<G1> = Vec::new();
    let mut p: usize = pos + 2;
    let mut i: usize = 0;
    proof {
        assert forall|s: Seq<G1>| g1_vec_fits(s, bytes@, pos as int) implies out@
            == s.subrange(0, 0) by {
            assert(out@ =~= s.subrange(0, 0));
        }
    }
    while i < n
        invariant
            i <= n,
            n < 65536,
            pos + 2 <= p <= bytes@.len(),
            p == pos + 2 + 3 * i,
            out@.len() == i,
            forall|k: int| 0 <= k < i ==> (#[trigger] out@[k]).wf(),
            enc_u16(n as int) + enc_g1_upto(out@, i as int) == bytes@.subrange(
                pos as int, p as int),
            forall|s: Seq<G1>| g1_vec_fits(s, bytes@, pos as int) ==> s.len() == n && out@
                == s.subrange(0, i as int),
        decreases n - i,
    {
        if bytes.len() < 3 || p > bytes.len() - 3 {
            proof {
                assert forall|s: Seq<G1>| g1_vec_fits(s, bytes@, pos as int)
                    implies false by {}
            }
            return Option::None;
        }
        proof {
            assert forall|s: Seq<G1>| g1_vec_fits(s, bytes@, pos as int) implies enc_g1(
                s[i as int],
            ) == bytes@.subrange(p as int, p + 3) by {
                let ll = s.len() as int;
                lemma_enc_g1_elem_slice(s, i as int, ll);
                lemma_enc_g1_upto_len(s, ll);
                lemma_enc_g1_len(s[i as int]);
                assert(enc_g1(s[i as int]) =~= bytes@.subrange(p as int, p + 3)) by {
                    assert forall|j: int| 0 <= j < 3 implies enc_g1(s[i as int])[j]
                        == bytes@[p + j] by {
                        assert(enc_g1(s[i as int])[j] == enc_g1_upto(s, ll).subrange(
                            3 * i, 3 * i + 3)[j]);
                        assert(enc_g1_upto(s, ll)[3 * i + j] == enc_g1_vec(s)[2 + 3 * i
                            + j]);
                        assert(enc_g1_vec(s)[2 + 3 * i + j] == bytes@.subrange(
                            pos as int, pos + 2 + 3 * ll)[2 + 3 * i + j]);
                    }
                }
            }
        }
        let g = match dec_g1_at(bytes, p) {
            Option::Some(g) => g,
            Option::None => {
                proof {
                    assert forall|s: Seq<G1>| g1_vec_fits(s, bytes@, pos as int)
                        implies false by {
                        assert(s[i as int].wf());
                    }
                }
                return Option::None;
            },
        };
        let ghost out0 = out@;
        out.push(g);
        proof {
            lemma_enc_g1_upto_push(out0, g, i as int);
            lemma_enc_g1_len(g);
            assert(out@ == out0.push(g));
            assert(enc_g1_upto(out@, i as int) == enc_g1_upto(out0, i as int));
            assert(out@[i as int] == g);
            assert(enc_g1_upto(out@, i + 1) == enc_g1_upto(out0, i as int) + enc_g1(g));
            assert((enc_u16(n as int) + enc_g1_upto(out0, i as int)).len() == p - pos);
            assert(enc_u16(n as int) + enc_g1_upto(out@, i + 1) =~= bytes@.subrange(
                pos as int, p + 3));
            assert forall|s: Seq<G1>| g1_vec_fits(s, bytes@, pos as int) implies out@
                == s.subrange(0, i + 1) by {
                assert(s[i as int].wf());
                assert(g == s[i as int]);
                assert(out@ =~= s.subrange(0, i + 1));
            }
        }
        p = p + 3;
        i = i + 1;
    }
    proof {
        assert(enc_g1_vec(out@) == enc_u16(n as int) + enc_g1_upto(out@, n as int));
        assert forall|s: Seq<G1>| g1_vec_fits(s, bytes@, pos as int) implies out@ == s by {
            assert(out@ == s.subrange(0, s.len() as int));
            assert(s.subrange(0, s.len() as int) =~= s);
        }
    }
    Option::Some((out, p))
}

/// Parses a length-prefixed vector of second-group elements starting
/// at `pos`; returns the vector and the next position.  Sound —
/// whatever comes back encodes to exactly the bytes consumed — and
/// complete: a fitting vector's encoding is parsed back element for
/// element.
fn dec_g2_vec_at(bytes: &Vec<u8>, pos: usize) -> (r: Option<(Vec<G2>, usize)>)
    ensures
        r is Some ==> {
            let (v, end) = r->0;
            &&& pos + 2 <= end <= bytes@.len()
            &&& forall|i: int| 0 <= i < v@.len() ==> (#[trigger] v@[i]).wf()
            &&& v@.len() < 65536
            &&& enc_g2_vec(v@) == bytes@.subrange(pos as int, end as int)
        },
        forall|s: Seq<G2>| g2_vec_fits(s, bytes@, pos as int) ==> r is Some && (r->0).0@ == s
            && (r->0).1 == pos + 2 + 3 * s.len(),
{
    if bytes.len() < 2 || pos > bytes.len() - 2 {
        proof {
            assert forall|s: Seq<G2>| g2_vec_fits(s, bytes@, pos as int) implies false by {}
        }
        return Option::None;
    }
    let n: usize = bytes[pos] as usize + 256 * (bytes[pos + 1] as usize);
    proof {
        vstd::arithmetic::div_mod::lemma_mod_multiples_vanish(
            bytes@[pos + 1] as int, bytes@[pos as int] as int, 256);
        lemma_small_mod(bytes@[pos as int] as nat, 256);
        vstd::arithmetic::div_mod::lemma_div_multiples_vanish_fancy(
            bytes@[pos + 1] as int, bytes@[pos as int] as int, 256);
        lemma_small_mod((n as int / 256) as nat, 256);
        assert(enc_u16(n as int) =~= bytes@.subrange(pos as int, pos + 2));
        assert forall|s: Seq<G2>| g2_vec_fits(s, bytes@, pos as int) implies s.len()
            == n by {
            let ll = s.len() as int;
            lemma_enc_g2_upto_len(s, ll);
            assert(enc_g2_vec(s)[0] == enc_u16(ll)[0]);
            assert(enc_g2_vec(s)[1] == enc_u16(ll)[1]);
            assert(bytes@.subrange(pos as int, pos + 2 + 3 * ll)[0] == bytes@[pos as int]);
            assert(bytes@.subrange(pos as int, pos + 2 + 3 * ll)[1] == bytes@[pos + 1]);
            assert(ll % 256 == bytes@[pos as int] as int);
            lemma_small_mod((ll / 256) as nat, 256);
            assert(ll / 256 == bytes@[pos + 1] as int);
            vstd::arithmetic::div_mod::lemma_fundamental_div_mod(ll, 256);
        }
    }
    let mut out: Vec<G2> = Vec::new();
    let mut p: usize = pos + 2;
    let mut i: usize = 0;
    proof {
        assert forall|s: Seq<G2>| g2_vec_fits(s, bytes@, pos as int) implies out@
            == s.subrange(0, 0) by {
            assert(out@ =~= s.subrange(0, 0));
        }
    }
    while i < n
        invariant
            i <= n,
            n < 65536,
            pos + 2 <= p <= bytes@.len(),
            p == pos + 2 + 3 * i,
            out@.len() == i,
            forall|k: int| 0 <= k < i ==> (#[trigger] out@[k]).wf(),
            enc_u16(n as int) + enc_g2_upto(out@, i as int) == bytes@.subrange(
                pos as int, p as int),
            forall|s: Seq<G2>| g2_vec_fits(s, bytes@, pos as int) ==> s.len() == n && out@
                == s.subrange(0, i as int),
        decreases n - i,
    {
        if bytes.len() < 3 || p > bytes.len() - 3 {
            proof {
                assert forall|s: Seq<G2>| g2_vec_fits(s, bytes@, pos as int)
                    implies false by {}
            }
            return Option::None;
        }
        proof {
            assert forall|s: Seq<G2>| g2_vec_fits(s, bytes@, pos as int) implies enc_g2(
                s[i as int],
            ) == bytes@.subrange(p as int, p + 3) by {
                let ll = s.len() as int;
                lemma_enc_g2_elem_slice(s, i as int, ll);
                lemma_enc_g2_upto_len(s, ll);
                lemma_enc_g2_len(s[i as int]);
                assert(enc_g2(s[i as int]) =~= bytes@.subrange(p as int, p + 3)) by {
                    assert forall|j: int| 0 <= j < 3 implies enc_g2(s[i as int])[j]
                        == bytes@[p + j] by {
                        assert(enc_g2(s[i as int])[j] == enc_g2_upto(s, ll).subrange(
                            3 * i, 3 * i + 3)[j]);
                        assert(enc_g2_upto(s, ll)[3 * i + j] == enc_g2_vec(s)[2 + 3 * i
                            + j]);
                        assert(enc_g2_vec(s)[2 + 3 * i + j] == bytes@.subrange(
                            pos as int, pos + 2 + 3 * ll)[2 + 3 * i + j]);
                    }
                }
            }
        }
        let g = match dec_g2_at(bytes, p) {
            Option::Some(g) => g,
            Option::None => {
                proof {
                    assert forall|s: Seq<G2>| g2_vec_fits(s, bytes@, pos as int)
                        implies false by {
                        assert(s[i as int].wf());
                    }
                }
                return Option::None;
            },
        };
        let ghost out0 = out@;
        out.push(g);
        proof {
            lemma_enc_g2_upto_push(out0, g, i as int);
            lemma_enc_g2_len(g);
            assert(out@ == out0.push(g));
            assert(enc_g2_upto(out@, i as int) == enc_g2_upto(out0, i as int));
            assert(out@[i as int] == g);
            assert(enc_g2_upto(out@, i + 1) == enc_g2_upto(out0, i as int) + enc_g2(g));
            assert((enc_u16(n as int) + enc_g2_upto(out0, i as int)).len() == p - pos);
            assert(enc_u16(n as int) + enc_g2_upto(out@, i + 1) =~= bytes@.subrange(
                pos as int, p + 3));
            assert forall|s: Seq<G2>| g2_vec_fits(s, bytes@, pos as int) implies out@
                == s.subrange(0, i + 1) by {
                assert(s[i as int].wf());
                assert(g == s[i as int]);
                assert(out@ =~= s.subrange(0, i + 1));
            }
        }
        p = p + 3;
        i = i + 1;
    }
    proof {
        assert(enc_g2_vec(out@) == enc_u16(n as int) + enc_g2_upto(out@, n as int));
        assert forall|s: Seq<G2>| g2_vec_fits(s, bytes@, pos as int) implies out@ == s by {
            assert(out@ == s.subrange(0, s.len() as int));
            assert(s.subrange(0, s.len() as int) =~= s);
        }
    }
    Option::Some((out, p))
}

/// Parses a length-prefixed density tracker, sound and complete in
/// the same way.
fn dec_bits_vec_at(bytes: &Vec<u8>, pos: usize) -> (r: Option<(Vec<bool>, usize)>)
    ensures
        r is Some ==> {
            let (v, end) = r->0;
            &&& pos + 2 <= end <= bytes@.len()
            &&& v@.len() < 65536
            &&& enc_bits_vec(v@) == bytes@.subrange(pos as int, end as int)
        },
        forall|s: Seq<bool>| bits_vec_fits(s, bytes@, pos as int) ==> r is Some
            && (r->0).0@ == s && (r->0).1 == pos + 2 + s.len(),
{
    if bytes.len() < 2 || pos > bytes.len() - 2 {
        proof {
            assert forall|s: Seq<bool>| bits_vec_fits(s, bytes@, pos as int)
                implies false by {}
        }
        return Option::None;
    }
    let n: usize = bytes[pos] as usize + 256 * (bytes[pos + 1] as usize);
    proof {
        vstd::arithmetic::div_mod::lemma_mod_multiples_vanish(
            bytes@[pos + 1] as int, bytes@[pos as int] as int, 256);
        lemma_small_mod(bytes@[pos as int] as nat, 256);
        vstd::arithmetic::div_mod::lemma_div_multiples_vanish_fancy(
            bytes@[pos + 1] as int, bytes@[pos as int] as int, 256);
        lemma_small_mod((n as int / 256) as nat, 256);
        assert(enc_u16(n as int) =~= bytes@.subrange(pos as int, pos + 2));
        assert forall|s: Seq<bool>| bits_vec_fits(s, bytes@, pos as int) implies s.len()
            == n by {
            let ll = s.len() as int;
            lemma_enc_bits_upto_len(s, ll);
            assert(enc_bits_vec(s)[0] == enc_u16(ll)[0]);
            assert(enc_bits_vec(s)[1] == enc_u16(ll)[1]);
            assert(bytes@.subrange(pos as int, pos + 2 + ll)[0] == bytes@[pos as int]);
            assert(bytes@.subrange(pos as int, pos + 2 + ll)[1] == bytes@[pos + 1]);
            assert(ll % 256 == bytes@[pos as int] as int);
            lemma_small_mod((ll / 256) as nat, 256);
            assert(ll / 256 == bytes@[pos + 1] as int);
            vstd::arithmetic::div_mod::lemma_fundamental_div_mod(ll, 256);
        }
    }
    let mut out: Vec<bool> = Vec::new();
    let mut p: usize = pos + 2;
    let mut i: usize = 0;
    proof {
        assert forall|s: Seq<bool>| bits_vec_fits(s, bytes@, pos as int) implies out@
            == s.subrange(0, 0) by {
            assert(out@ =~= s.subrange(0, 0));
        }
    }
    while i < n
        invariant
            i <= n,
            n < 65536,
            pos + 2 <= p <= bytes@.len(),
            p == pos + 2 + i,
            out@.len() == i,
            enc_u16(n as int) + enc_bits_upto(out@, i as int) == bytes@.subrange(
                pos as int, p as int),
            forall|s: Seq<bool>| bits_vec_fits(s, bytes@, pos as int) ==> s.len() == n
                && out@ == s.subrange(0, i as int),
        decreases n - i,
    {
        if p >= bytes.len() {
            proof {
                assert forall|s: Seq<bool>| bits_vec_fits(s, bytes@, pos as int)
                    implies false by {}
            }
            return Option::None;
        }
        proof {
            assert forall|s: Seq<bool>| bits_vec_fits(s, bytes@, pos as int)
                implies bytes@[p as int] == (if s[i as int] {
                1u8
            } else {
                0u8
            }) by {
                let ll = s.len() as int;
                lemma_enc_bits_elem_slice(s, i as int, ll);
                lemma_enc_bits_upto_len(s, ll);
                assert(enc_bits_vec(s)[2 + i] == enc_bits_upto(s, ll)[i as int]);
                assert(enc_bits_vec(s)[2 + i] == bytes@.subrange(pos as int, pos + 2
                    + ll)[2 + i]);
            }
        }
        let byte = bytes[p];
        let b = if byte == 1u8 {
            true
        } else if byte == 0u8 {
            false
        } else {
            proof {
                assert forall|s: Seq<bool>| bits_vec_fits(s, bytes@, pos as int)
                    implies false by {}
            }
            return Option::None;
        };
        let ghost out0 = out@;
        out.push(b);
        proof {
            lemma_enc_bits_upto_push(out0, b, i as int);
            assert(out@ == out0.push(b));
            assert(enc_bits_upto(out@, i as int) == enc_bits_upto(out0, i as int));
            assert(out@[i as int] == b);
            assert(enc_bits_upto(out@, i + 1) == enc_bits_upto(out0, i as int) + seq![
                if b {
                    1u8
                } else {
                    0u8
                },
            ]);
            assert((enc_u16(n as int) + enc_bits_upto(out0, i as int)).len() == p - pos);
            assert(enc_u16(n as int) + enc_bits_upto(out@, i + 1) =~= bytes@.subrange(
                pos as int, p + 1));
            assert forall|s: Seq<bool>| bits_vec_fits(s, bytes@, pos as int) implies out@
                == s.subrange(0, i + 1) by {
                assert(b == s[i as int]);
                assert(out@ =~= s.subrange(0, i + 1));
            }
        }
        p = p + 1;
        i = i + 1;
    }
    proof {
        assert(enc_bits_vec(out@) == enc_u16(n as int) + enc_bits_upto(out@, n as int));
        assert forall|s: Seq<bool>| bits_vec_fits(s, bytes@, pos as int) implies out@
            == s by {
            assert(out@ == s.subrange(0, s.len() as int));
            assert(s.subrange(0, s.len() as int) =~= s);
        }
    }
    Option::Some((out, p))
}

/// Field-wise sameness of verifier keys.  (A `Vec`'s only observable
/// is its view, so sameness of the `ic` basis is stated over views.)
pub open spec fn vk_same(a: VerifierKey, b: VerifierKey) -> bool {
    &&& a.alpha_g1 == b.alpha_g1
    &&& a.beta_g2 == b.beta_g2
    &&& a.gamma_g2 == b.gamma_g2
    &&& a.delta_g2 == b.delta_g2
    &&& a.ic@ == b.ic@
}

/// Field-wise sameness of prover keys, over views.
pub open spec fn pk_same(a: ProverKey, b: ProverKey) -> bool {
    &&& vk_same(a.vk, b.vk)
    &&& a.beta_g1 == b.beta_g1
    &&& a.delta_g1 == b.delta_g1
    &&& a.h@ == b.h@
    &&& a.l@ == b.l@
    &&& a.a@ == b.a@
    &&& a.b_g1@ == b.b_g1@
    &&& a.b_g2@ == b.b_g2@
    &&& a.a_density@ == b.a_density@
    &&& a.b_density@ == b.b_density@
}

/// Every vector of a prover key fits a two-byte length.
pub open spec fn pk_enc_bounds(k: ProverKey) -> bool {
    &&& k.vk.ic@.len() < 65536
    &&& k.h@.len() < 65536
    &&& k.l@.len() < 65536
    &&& k.a@.len() < 65536
    &&& k.b_g1@.len() < 65536
    &&& k.b_g2@.len() < 65536
    &&& k.a_density@.len() < 65536
    &&& k.b_density@.len() < 65536
}

/// A verifier key's byte length.
pub proof fn lemma_enc_vk_len(k: VerifierKey)
    ensures
        enc_vk(k).len() == 14 + 3 * k.ic@.len(),
{
    lemma_enc_g1_len(k.alpha_g1);
    lemma_enc_g2_len(k.beta_g2);
    lemma_enc_g2_len(k.gamma_g2);
    lemma_enc_g2_len(k.delta_g2);
    lemma_enc_g1_vec_len(k.ic@);
}

/// Where each piece of a verifier key's encoding sits, at offset
/// `off` of a byte string that holds it.
proof fn lemma_vk_slices(k: VerifierKey, bytes: Seq<u8>, off: int)
    requires
        k.wf(),
        k.ic@.len() < 65536,
        0 <= off,
        off + 14 + 3 * k.ic@.len() <= bytes.len(),
        bytes.subrange(off, off + 14 + 3 * k.ic@.len()) == enc_vk(k),
    ensures
        enc_g1(k.alpha_g1) == bytes.subrange(off, off + 3),
        enc_g2(k.beta_g2) == bytes.subrange(off + 3, off + 6),
        enc_g2(k.gamma_g2) == bytes.subrange(off + 6, off + 9),
        enc_g2(k.delta_g2) == bytes.subrange(off + 9, off + 12),
        g1_vec_fits(k.ic@, bytes, off + 12),
{
    let a = enc_g1(k.alpha_g1);
    let b = enc_g2(k.beta_g2);
    let c = enc_g2(k.gamma_g2);
    let d = enc_g2(k.delta_g2);
    let e = enc_g1_vec(k.ic@);
    lemma_enc_g1_len(k.alpha_g1);
    lemma_enc_g2_len(k.beta_g2);
    lemma_enc_g2_len(k.gamma_g2);
    lemma_enc_g2_len(k.delta_g2);
    lemma_enc_g1_vec_len(k.ic@);
    lemma_peel(bytes, ((a + b) + c) + d, e, off);
    lemma_peel(bytes, (a + b) + c, d, off);
    lemma_peel(bytes, a + b, c, off);
    lemma_peel(bytes, a, b, off);
}

/// Decodes a verifier key: sound — any result is well formed and
/// encodes back to exactly the input — and complete — the encoding
/// of any well-formed, bounded key decodes to that key, field for
/// field.
pub fn decode_vk(bytes: &Vec<u8>) -> (r: Option<VerifierKey>)
    ensures
        r is Some ==> r->0.wf() && enc_vk(r->0) == bytes@,
        forall|k: VerifierKey| #![trigger enc_vk(k)] k.wf() && k.ic@.len() < 65536
            && enc_vk(k) == bytes@ ==> r is Some && vk_same(r->0, k),
{
    proof {
        assert forall|k: VerifierKey| #![trigger enc_vk(k)] k.wf() && k.ic@.len() < 65536
            && enc_vk(k) == bytes@ implies bytes@.len() == 14 + 3 * k.ic@.len()
            && g1_vec_fits(k.ic@, bytes@, 12) && enc_g1(k.alpha_g1) == bytes@.subrange(0, 3)
            && enc_g2(k.beta_g2) == bytes@.subrange(3, 6) && enc_g2(k.gamma_g2)
            == bytes@.subrange(6, 9) && enc_g2(k.delta_g2) == bytes@.subrange(9, 12) by {
            lemma_enc_vk_len(k);
            assert(bytes@.subrange(0, 14 + 3 * k.ic@.len() as int) =~= bytes@);
            lemma_vk_slices(k, bytes@, 0);
        }
    }
    if bytes.len() < 12 {
        return Option::None;
    }
    let alpha_g1 = match dec_g1_at(bytes, 0) {
        Option::Some(g) => g,
        Option::None => {
            return Option::None;
        },
    };
    let beta_g2 = match dec_g2_at(bytes, 3) {
        Option::Some(g) => g,
        Option::None => {
            return Option::None;
        },
    };
    let gamma_g2 = match dec_g2_at(bytes, 6) {
        Option::Some(g) => g,
        Option::None => {
            return Option::None;
        },
    };
    let delta_g2 = match dec_g2_at(bytes, 9) {
        Option::Some(g) => g,
        Option::None => {
            return Option::None;
        },
    };
    let (ic, end) = match dec_g1_vec_at(bytes, 12) {
        Option::Some(x) => x,
        Option::None => {
            return Option::None;
        },
    };
    if end != bytes.len() {
        return Option::None;
    }
    let vk = VerifierKey { alpha_g1, beta_g2, gamma_g2, delta_g2, ic };
    proof {
        assert(enc_vk(vk) =~= bytes@);
        assert forall|k: VerifierKey| #![trigger enc_vk(k)] k.wf() && k.ic@.len() < 65536
            && enc_vk(k) == bytes@ implies vk_same(vk, k) by {
            assert(vk.ic@ == k.ic@);
        }
    }
    Option::Some(vk)
}

/// Where each piece of a prover key's encoding sits in a byte string
/// that holds it, with the running offsets determined by the vector
/// lengths.
pub open spec fn pk_slices_ok(k: ProverKey, bytes: Seq<u8>) -> bool {
    let o1 = 14 + 3 * k.vk.ic@.len() as int;
    let o2 = o1 + 8 + 3 * k.h@.len() as int;
    let o3 = o2 + 2 + 3 * k.l@.len() as int;
    let o4 = o3 + 2 + 3 * k.a@.len() as int;
    let o5 = o4 + 2 + 3 * k.b_g1@.len() as int;
    let o6 = o5 + 2 + 3 * k.b_g2@.len() as int;
    let o7 = o6 + 2 + k.a_density@.len() as int;
    &&& bytes.len() == o7 + 2 + k.b_density@.len() as int
    &&& enc_g1(k.vk.alpha_g1) == bytes.subrange(0, 3)
    &&& enc_g2(k.vk.beta_g2) == bytes.subrange(3, 6)
    &&& enc_g2(k.vk.gamma_g2) == bytes.subrange(6, 9)
    &&& enc_g2(k.vk.delta_g2) == bytes.subrange(9, 12)
    &&& g1_vec_fits(k.vk.ic@, bytes, 12)
    &&& enc_g1(k.beta_g1) == bytes.subrange(o1, o1 + 3)
    &&& enc_g1(k.delta_g1) == bytes.subrange(o1 + 3, o1 + 6)
    &&& g1_vec_fits(k.h@, bytes, o1 + 6)
    &&& g1_vec_fits(k.l@, bytes, o2)
    &&& g1_vec_fits(k.a@, bytes, o3)
    &&& g1_vec_fits(k.b_g1@, bytes, o4)
    &&& g2_vec_fits(k.b_g2@, bytes, o5)
    &&& bits_vec_fits(k.a_density@, bytes, o6)
    &&& bits_vec_fits(k.b_density@, bytes, o7)
}

/// Proves the slice layout from the whole-key encoding equality.
#[verifier::rlimit(100)]
proof fn lemma_pk_slices(k: ProverKey, bytes: Seq<u8>)
    requires
        k.wf(),
        pk_enc_bounds(k),
        enc_pk(k) == bytes,
    ensures
        pk_slices_ok(k, bytes),
{
    let vkx = enc_vk(k.vk);
    let f = enc_g1(k.beta_g1);
    let g = enc_g1(k.delta_g1);
    let hx = enc_g1_vec(k.h@);
    let lx = enc_g1_vec(k.l@);
    let ax = enc_g1_vec(k.a@);
    let b1x = enc_g1_vec(k.b_g1@);
    let b2x = enc_g2_vec(k.b_g2@);
    let adx = enc_bits_vec(k.a_density@);
    let bdx = enc_bits_vec(k.b_density@);
    lemma_enc_vk_len(k.vk);
    lemma_enc_g1_len(k.beta_g1);
    lemma_enc_g1_len(k.delta_g1);
    lemma_enc_g1_vec_len(k.h@);
    lemma_enc_g1_vec_len(k.l@);
    lemma_enc_g1_vec_len(k.a@);
    lemma_enc_g1_vec_len(k.b_g1@);
    lemma_enc_g2_vec_len(k.b_g2@);
    lemma_enc_bits_vec_len(k.a_density@);
    lemma_enc_bits_vec_len(k.b_density@);
    assert(bytes.subrange(0, bytes.len() as int) =~= bytes);
    lemma_peel(bytes, ((((((((vkx + f) + g) + hx) + lx) + ax) + b1x) + b2x) + adx), bdx, 0);
    lemma_peel(bytes, (((((((vkx + f) + g) + hx) + lx) + ax) + b1x) + b2x), adx, 0);
    lemma_peel(bytes, ((((((vkx + f) + g) + hx) + lx) + ax) + b1x), b2x, 0);
    lemma_peel(bytes, (((((vkx + f) + g) + hx) + lx) + ax), b1x, 0);
    lemma_peel(bytes, ((((vkx + f) + g) + hx) + lx), ax, 0);
    lemma_peel(bytes, (((vkx + f) + g) + hx), lx, 0);
    lemma_peel(bytes, ((vkx + f) + g), hx, 0);
    lemma_peel(bytes, (vkx + f), g, 0);
    lemma_peel(bytes, vkx, f, 0);
    lemma_vk_slices(k.vk, bytes, 0);
}

/// Parses the verifier-key prefix and the two first-group blinding
/// bases of a prover key encoding, returning them with the position
/// just past them.  Complete for any fitting prover key.
#[verifier::rlimit(100)]
fn decode_pk_prefix(bytes: &Vec<u8>) -> (r: Option<(VerifierKey, G1, G1, usize)>)
    ensures
        r is Some ==> ({
            let (vk, bg1, dg1, end) = r->0;
            &&& vk.wf()
            &&& bg1.wf()
            &&& dg1.wf()
            &&& vk.ic@.len() < 65536
            &&& end == 20 + 3 * vk.ic@.len()
            &&& end <= bytes@.len()
            &&& (enc_vk(vk) + enc_g1(bg1)) + enc_g1(dg1) == bytes@.subrange(0, end as int)
        }),
        forall|k: ProverKey| #![trigger enc_pk(k)] k.wf() && pk_enc_bounds(k) && enc_pk(k)
            == bytes@ ==> r is Some && vk_same((r->0).0, k.vk) && (r->0).1 == k.beta_g1
            && (r->0).2 == k.delta_g1 && (r->0).3 == 20 + 3 * k.vk.ic@.len(),
{
    proof {
        assert forall|k: ProverKey| #![trigger enc_pk(k)] k.wf() && pk_enc_bounds(k)
            && enc_pk(k) == bytes@ implies pk_slices_ok(k, bytes@) by {
            lemma_pk_slices(k, bytes@);
        }
    }
    if bytes.len() < 12 {
        return Option::None;
    }
    let alpha_g1 = match dec_g1_at(bytes, 0) {
        Option::Some(g) => g,
        Option::None => {
            return Option::None;
        },
    };
    let beta_g2 = match dec_g2_at(bytes, 3) {
        Option::Some(g) => g,
        Option::None => {
            return Option::None;
        },
    };
    let gamma_g2 = match dec_g2_at(bytes, 6) {
        Option::Some(g) => g,
        Option::None => {
            return Option::None;
        },
    };
    let delta_g2 = match dec_g2_at(bytes, 9) {
        Option::Some(g) => g,
        Option::None => {
            return Option::None;
        },
    };
    let (ic, e1) = match dec_g1_vec_at(bytes, 12) {
        Option::Some(x) => x,
        Option::None => {
            return Option::None;
        },
    };
    if bytes.len() < 6 || e1 > bytes.len() - 6 {
        return Option::None;
    }
    let beta_g1 = match dec_g1_at(bytes, e1) {
        Option::Some(g) => g,
        Option::None => {
            return Option::None;
        },
    };
    let delta_g1 = match dec_g1_at(bytes, e1 + 3) {
        Option::Some(g) => g,
        Option::None => {
            return Option::None;
        },
    };
    let vk = VerifierKey { alpha_g1, beta_g2, gamma_g2, delta_g2, ic };
    proof {
        lemma_enc_g1_vec_len(ic@);
        assert(e1 == 14 + 3 * ic@.len());
        assert(enc_vk(vk) =~= bytes@.subrange(0, e1 as int));
        assert((enc_vk(vk) + enc_g1(beta_g1)) + enc_g1(delta_g1) =~= bytes@.subrange(
            0, e1 + 6));
    }
    Option::Some((vk, beta_g1, delta_g1, e1 + 6))
}

/// Decodes a prover key: sound — any result is well formed and
/// encodes back to exactly the input — and complete — the encoding
/// of any well-formed, bounded key decodes to that key, field for
/// field.
#[verifier::rlimit(100)]
pub fn decode_pk(bytes: &Vec<u8>) -> (r: Option<ProverKey>)
    ensures
        r is Some ==> r->0.wf() && enc_pk(r->0) == bytes@,
        forall|k: ProverKey| #![trigger enc_pk(k)] k.wf() && pk_enc_bounds(k) && enc_pk(k)
            == bytes@ ==> r is Some && pk_same(r->0, k),
{
    proof {
        assert forall|k: ProverKey| #![trigger enc_pk(k)] k.wf() && pk_enc_bounds(k)
            && enc_pk(k) == bytes@ implies pk_slices_ok(k, bytes@) by {
            lemma_pk_slices(k, bytes@);
        }
    }
    let (vk, beta_g1, delta_g1, e1) = match decode_pk_prefix(bytes) {
        Option::Some(x) => x,
        Option::None => {
            return Option::None;
        },
    };
    let (h, e2) = match dec_g1_vec_at(bytes, e1) {
        Option::Some(x) => x,
        Option::None => {
            return Option::None;
        },
    };
    let (l, e3) = match dec_g1_vec_at(bytes, e2) {
        Option::Some(x) => x,
        Option::None => {
            return Option::None;
        },
    };
    let (a, e4) = match dec_g1_vec_at(bytes, e3) {
        Option::Some(x) => x,
        Option::None => {
            return Option::None;
        },
    };
    let (b_g1, e5) = match dec_g1_vec_at(bytes, e4) {
        Option::Some(x) => x,
        Option::None => {
            return Option::None;
        },
    };
    let (b_g2, e6) = match dec_g2_vec_at(bytes, e5) {
        Option::Some(x) => x,
        Option::None => {
            return Option::None;
        },
    };
    let (a_density, e7) = match dec_bits_vec_at(bytes, e6) {
        Option::Some(x) => x,
        Option::None => {
            return Option::None;
        },
    };
    let (b_density, e8) = match dec_bits_vec_at(bytes, e7) {
        Option::Some(x) => x,
        Option::None => {
            return Option::None;
        },
    };
    if e8 != bytes.len() {
        return Option::None;
    }
    let pk = ProverKey {
        vk,
        beta_g1,
        delta_g1,
        h,
        l,
        a,
        b_g1,
        b_g2,
        a_density,
        b_density,
    };
    proof {
        assert(enc_pk(pk) =~= bytes@);
        assert forall|k: ProverKey| #![trigger enc_pk(k)] k.wf() && pk_enc_bounds(k)
            && enc_pk(k) == bytes@ implies pk_same(pk, k) by {
            assert(pk.vk.ic@ == k.vk.ic@);
            assert(pk.h@ == k.h@);
            assert(pk.l@ == k.l@);
            assert(pk.a@ == k.a@);
            assert(pk.b_g1@ == k.b_g1@);
            assert(pk.b_g2@ == k.b_g2@);
            assert(pk.a_density@ == k.a_density@);
            assert(pk.b_density@ == k.b_density@);
        }
    }
    Option::Some(pk)
}

} // verus!
