//! The default group profile: fixed generators, modulus and subgroup order.
//!
//! The values are the 2048-bit MODP prime `p`, the order `q` of the
//! prime-order subgroup, and a generator `a` of that subgroup, given
//! byte-for-byte as unsigned big-endian strings. This profile sets the second
//! generator `b` equal to `a`; the two verification equations then coincide,
//! and a deployment that wants the full strength of the two-generator scheme
//! must supply an independent `b` whose discrete logarithm base `a` is
//! unknown to all parties.

use vstd::prelude::*;
use crate::bignum::{BigNum, be_nat, lemma_be_nat_first, lemma_be_nat_lex_lt};
use vstd::arithmetic::power::{pow, lemma_pow_positive};
use crate::zkp::ZKP;

verus! {

pub open spec fn p_chunk0() -> Seq<u8> {
    seq![
        0xADu8, 0x10u8, 0x7Eu8, 0x1Eu8, 0x91u8, 0x23u8, 0xA9u8, 0xD0u8,
        0xD6u8, 0x60u8, 0xFAu8, 0xA7u8, 0x95u8, 0x59u8, 0xC5u8, 0x1Fu8,
        0xA2u8, 0x0Du8, 0x64u8, 0xE5u8, 0x68u8, 0x3Bu8, 0x9Fu8, 0xD1u8,
        0xB5u8, 0x4Bu8, 0x15u8, 0x97u8, 0xB6u8, 0x1Du8, 0x0Au8, 0x75u8,
    ]
}

pub open spec fn p_chunk1() -> Seq<u8> {
    seq![
        0xE6u8, 0xFAu8, 0x14u8, 0x1Du8, 0xF9u8, 0x5Au8, 0x56u8, 0xDBu8,
        0xAFu8, 0x9Au8, 0x3Cu8, 0x40u8, 0x7Bu8, 0xA1u8, 0xDFu8, 0x15u8,
        0xEBu8, 0x3Du8, 0x68u8, 0x8Au8, 0x30u8, 0x9Cu8, 0x18u8, 0x0Eu8,
        0x1Du8, 0xE6u8, 0xB8u8, 0x5Au8, 0x12u8, 0x74u8, 0xA0u8, 0xA6u8,
    ]
}

pub open spec fn p_chunk2() -> Seq<u8> {
    seq![
        0x6Du8, 0x3Fu8, 0x81u8, 0x52u8, 0xADu8, 0x6Au8, 0xC2u8, 0x12u8,
        0x90u8, 0x37u8, 0xC9u8, 0xEDu8, 0xEFu8, 0xDAu8, 0x4Du8, 0xF8u8,
        0xD9u8, 0x1Eu8, 0x8Fu8, 0xEFu8, 0x55u8, 0xB7u8, 0x39u8, 0x4Bu8,
        0x7Au8, 0xD5u8, 0xB7u8, 0xD0u8, 0xB6u8, 0xC1u8, 0x22u8, 0x07u8,
    ]
}

pub open spec fn p_chunk3() -> Seq<u8> {
    seq![
        0xC9u8, 0xF9u8, 0x8Du8, 0x11u8, 0xEDu8, 0x34u8, 0xDBu8, 0xF6u8,
        0xC6u8, 0xBAu8, 0x0Bu8, 0x2Cu8, 0x8Bu8, 0xBCu8, 0x27u8, 0xBEu8,
        0x6Au8, 0x00u8, 0xE0u8, 0xA0u8, 0xB9u8, 0xC4u8, 0x97u8, 0x08u8,
        0xB3u8, 0xBFu8, 0x8Au8, 0x31u8, 0x70u8, 0x91u8, 0x88u8, 0x36u8,
    ]
}

pub open spec fn p_chunk4() -> Seq<u8> {
    seq![
        0x81u8, 0x28u8, 0x61u8, 0x30u8, 0xBCu8, 0x89u8, 0x85u8, 0xDBu8,
        0x16u8, 0x02u8, 0xE7u8, 0x14u8, 0x41u8, 0x5Du8, 0x93u8, 0x30u8,
        0x27u8, 0x82u8, 0x73u8, 0xC7u8, 0xDEu8, 0x31u8, 0xEFu8, 0xDCu8,
        0x73u8, 0x10u8, 0xF7u8, 0x12u8, 0x1Fu8, 0xD5u8, 0xA0u8, 0x74u8,
    ]
}

pub open spec fn p_chunk5() -> Seq<u8> {
    seq![
        0x15u8, 0x98u8, 0x7Du8, 0x9Au8, 0xDCu8, 0x0Au8, 0x48u8, 0x6Du8,
        0xCDu8, 0xF9u8, 0x3Au8, 0xCCu8, 0x44u8, 0x32u8, 0x83u8, 0x87u8,
        0x31u8, 0x5Du8, 0x75u8, 0xE1u8, 0x98u8, 0xC6u8, 0x41u8, 0xA4u8,
        0x80u8, 0xCDu8, 0x86u8, 0xA1u8, 0xB9u8, 0xE5u8, 0x87u8, 0xE8u8,
    ]
}

pub open spec fn p_chunk6() -> Seq<u8> {
    seq![
        0xBEu8, 0x60u8, 0xE6u8, 0x9Cu8, 0xC9u8, 0x28u8, 0xB2u8, 0xB9u8,
        0xC5u8, 0x21u8, 0x72u8, 0xE4u8, 0x13u8, 0x04u8, 0x2Eu8, 0x9Bu8,
        0x23u8, 0xF1u8, 0x0Bu8, 0x0Eu8, 0x16u8, 0xE7u8, 0x97u8, 0x63u8,
        0xC9u8, 0xB5u8, 0x3Du8, 0xCFu8, 0x4Bu8, 0xA8u8, 0x0Au8, 0x29u8,
    ]
}

pub open spec fn p_chunk7() -> Seq<u8> {
    seq![
        0xE3u8, 0xFBu8, 0x73u8, 0xC1u8, 0x6Bu8, 0x8Eu8, 0x75u8, 0xB9u8,
        0x7Eu8, 0xF3u8, 0x63u8, 0xE2u8, 0xFFu8, 0xA3u8, 0x1Fu8, 0x71u8,
        0xCFu8, 0x9Du8, 0xE5u8, 0x38u8, 0x4Eu8, 0x71u8, 0xB8u8, 0x1Cu8,
        0x0Au8, 0xC4u8, 0xDFu8, 0xFEu8, 0x0Cu8, 0x10u8, 0xE6u8, 0x4Fu8,
    ]
}

/// The 2048-bit prime modulus `p`, big-endian.
pub open spec fn group_p_bytes() -> Seq<u8> {
    p_chunk0() + p_chunk1() + p_chunk2() + p_chunk3() + p_chunk4() + p_chunk5() + p_chunk6() + p_chunk7()
}

fn push_p_chunk0(v: &mut Vec<u8>)
    ensures
        final(v)@ == old(v)@ + p_chunk0(),
{
    v.push(0xAD);
    v.push(0x10);
    v.push(0x7E);
    v.push(0x1E);
    v.push(0x91);
    v.push(0x23);
    v.push(0xA9);
    v.push(0xD0);
    v.push(0xD6);
    v.push(0x60);
    v.push(0xFA);
    v.push(0xA7);
    v.push(0x95);
    v.push(0x59);
    v.push(0xC5);
    v.push(0x1F);
    v.push(0xA2);
    v.push(0x0D);
    v.push(0x64);
    v.push(0xE5);
    v.push(0x68);
    v.push(0x3B);
    v.push(0x9F);
    v.push(0xD1);
    v.push(0xB5);
    v.push(0x4B);
    v.push(0x15);
    v.push(0x97);
    v.push(0xB6);
    v.push(0x1D);
    v.push(0x0A);
    v.push(0x75);
    proof {
        assert(v@ =~= old(v)@ + p_chunk0());
    }
}

fn push_p_chunk1(v: &mut Vec<u8>)
    ensures
        final(v)@ == old(v)@ + p_chunk1(),
{
    v.push(0xE6);
    v.push(0xFA);
    v.push(0x14);
    v.push(0x1D);
    v.push(0xF9);
    v.push(0x5A);
    v.push(0x56);
    v.push(0xDB);
    v.push(0xAF);
    v.push(0x9A);
    v.push(0x3C);
    v.push(0x40);
    v.push(0x7B);
    v.push(0xA1);
    v.push(0xDF);
    v.push(0x15);
    v.push(0xEB);
    v.push(0x3D);
    v.push(0x68);
    v.push(0x8A);
    v.push(0x30);
    v.push(0x9C);
    v.push(0x18);
    v.push(0x0E);
    v.push(0x1D);
    v.push(0xE6);
    v.push(0xB8);
    v.push(0x5A);
    v.push(0x12);
    v.push(0x74);
    v.push(0xA0);
    v.push(0xA6);
    proof {
        assert(v@ =~= old(v)@ + p_chunk1());
    }
}

fn push_p_chunk2(v: &mut Vec<u8>)
    ensures
        final(v)@ == old(v)@ + p_chunk2(),
{
    v.push(0x6D);
    v.push(0x3F);
    v.push(0x81);
    v.push(0x52);
    v.push(0xAD);
    v.push(0x6A);
    v.push(0xC2);
    v.push(0x12);
    v.push(0x90);
    v.push(0x37);
    v.push(0xC9);
    v.push(0xED);
    v.push(0xEF);
    v.push(0xDA);
    v.push(0x4D);
    v.push(0xF8);
    v.push(0xD9);
    v.push(0x1E);
    v.push(0x8F);
    v.push(0xEF);
    v.push(0x55);
    v.push(0xB7);
    v.push(0x39);
    v.push(0x4B);
    v.push(0x7A);
    v.push(0xD5);
    v.push(0xB7);
    v.push(0xD0);
    v.push(0xB6);
    v.push(0xC1);
    v.push(0x22);
    v.push(0x07);
    proof {
        assert(v@ =~= old(v)@ + p_chunk2());
    }
}

fn push_p_chunk3(v: &mut Vec<u8>)
    ensures
        final(v)@ == old(v)@ + p_chunk3(),
{
    v.push(0xC9);
    v.push(0xF9);
    v.push(0x8D);
    v.push(0x11);
    v.push(0xED);
    v.push(0x34);
    v.push(0xDB);
    v.push(0xF6);
    v.push(0xC6);
    v.push(0xBA);
    v.push(0x0B);
    v.push(0x2C);
    v.push(0x8B);
    v.push(0xBC);
    v.push(0x27);
    v.push(0xBE);
    v.push(0x6A);
    v.push(0x00);
    v.push(0xE0);
    v.push(0xA0);
    v.push(0xB9);
    v.push(0xC4);
    v.push(0x97);
    v.push(0x08);
    v.push(0xB3);
    v.push(0xBF);
    v.push(0x8A);
    v.push(0x31);
    v.push(0x70);
    v.push(0x91);
    v.push(0x88);
    v.push(0x36);
    proof {
        assert(v@ =~= old(v)@ + p_chunk3());
    }
}

fn push_p_chunk4(v: &mut Vec<u8>)
    ensures
        final(v)@ == old(v)@ + p_chunk4(),
{
    v.push(0x81);
    v.push(0x28);
    v.push(0x61);
    v.push(0x30);
    v.push(0xBC);
    v.push(0x89);
    v.push(0x85);
    v.push(0xDB);
    v.push(0x16);
    v.push(0x02);
    v.push(0xE7);
    v.push(0x14);
    v.push(0x41);
    v.push(0x5D);
    v.push(0x93);
    v.push(0x30);
    v.push(0x27);
    v.push(0x82);
    v.push(0x73);
    v.push(0xC7);
    v.push(0xDE);
    v.push(0x31);
    v.push(0xEF);
    v.push(0xDC);
    v.push(0x73);
    v.push(0x10);
    v.push(0xF7);
    v.push(0x12);
    v.push(0x1F);
    v.push(0xD5);
    v.push(0xA0);
    v.push(0x74);
    proof {
        assert(v@ =~= old(v)@ + p_chunk4());
    }
}

fn push_p_chunk5(v: &mut Vec<u8>)
    ensures
        final(v)@ == old(v)@ + p_chunk5(),
{
    v.push(0x15);
    v.push(0x98);
    v.push(0x7D);
    v.push(0x9A);
    v.push(0xDC);
    v.push(0x0A);
    v.push(0x48);
    v.push(0x6D);
    v.push(0xCD);
    v.push(0xF9);
    v.push(0x3A);
    v.push(0xCC);
    v.push(0x44);
    v.push(0x32);
    v.push(0x83);
    v.push(0x87);
    v.push(0x31);
    v.push(0x5D);
    v.push(0x75);
    v.push(0xE1);
    v.push(0x98);
    v.push(0xC6);
    v.push(0x41);
    v.push(0xA4);
    v.push(0x80);
    v.push(0xCD);
    v.push(0x86);
    v.push(0xA1);
    v.push(0xB9);
    v.push(0xE5);
    v.push(0x87);
    v.push(0xE8);
    proof {
        assert(v@ =~= old(v)@ + p_chunk5());
    }
}

fn push_p_chunk6(v: &mut Vec<u8>)
    ensures
        final(v)@ == old(v)@ + p_chunk6(),
{
    v.push(0xBE);
    v.push(0x60);
    v.push(0xE6);
    v.push(0x9C);
    v.push(0xC9);
    v.push(0x28);
    v.push(0xB2);
    v.push(0xB9);
    v.push(0xC5);
    v.push(0x21);
    v.push(0x72);
    v.push(0xE4);
    v.push(0x13);
    v.push(0x04);
    v.push(0x2E);
    v.push(0x9B);
    v.push(0x23);
    v.push(0xF1);
    v.push(0x0B);
    v.push(0x0E);
    v.push(0x16);
    v.push(0xE7);
    v.push(0x97);
    v.push(0x63);
    v.push(0xC9);
    v.push(0xB5);
    v.push(0x3D);
    v.push(0xCF);
    v.push(0x4B);
    v.push(0xA8);
    v.push(0x0A);
    v.push(0x29);
    proof {
        assert(v@ =~= old(v)@ + p_chunk6());
    }
}

fn push_p_chunk7(v: &mut Vec<u8>)
    ensures
        final(v)@ == old(v)@ + p_chunk7(),
{
    v.push(0xE3);
    v.push(0xFB);
    v.push(0x73);
    v.push(0xC1);
    v.push(0x6B);
    v.push(0x8E);
    v.push(0x75);
    v.push(0xB9);
    v.push(0x7E);
    v.push(0xF3);
    v.push(0x63);
    v.push(0xE2);
    v.push(0xFF);
    v.push(0xA3);
    v.push(0x1F);
    v.push(0x71);
    v.push(0xCF);
    v.push(0x9D);
    v.push(0xE5);
    v.push(0x38);
    v.push(0x4E);
    v.push(0x71);
    v.push(0xB8);
    v.push(0x1C);
    v.push(0x0A);
    v.push(0xC4);
    v.push(0xDF);
    v.push(0xFE);
    v.push(0x0C);
    v.push(0x10);
    v.push(0xE6);
    v.push(0x4F);
    proof {
        assert(v@ =~= old(v)@ + p_chunk7());
    }
}

fn build_p() -> (v: Vec<u8>)
    ensures
        v@ =~= group_p_bytes(),
{
    let mut v: Vec<u8> = Vec::new();
    push_p_chunk0(&mut v);
    push_p_chunk1(&mut v);
    push_p_chunk2(&mut v);
    push_p_chunk3(&mut v);
    push_p_chunk4(&mut v);
    push_p_chunk5(&mut v);
    push_p_chunk6(&mut v);
    push_p_chunk7(&mut v);
    proof {
        assert(v@ =~= group_p_bytes());
    }
    v
}

pub open spec fn q_chunk0() -> Seq<u8> {
    seq![
        0x80u8, 0x1Cu8, 0x0Du8, 0x34u8, 0xC5u8, 0x8Du8, 0x93u8, 0xFEu8,
        0x99u8, 0x71u8, 0x77u8, 0x10u8, 0x1Fu8, 0x80u8, 0x53u8, 0x5Au8,
        0x47u8, 0x38u8, 0xCEu8, 0xBCu8, 0xBFu8, 0x38u8, 0x9Au8, 0x99u8,
        0xB3u8, 0x63u8, 0x71u8, 0xEBu8,
    ]
}

/// The order `q` of the subgroup, big-endian.
pub open spec fn group_q_bytes() -> Seq<u8> {
    q_chunk0()
}

fn push_q_chunk0(v: &mut Vec<u8>)
    ensures
        final(v)@ == old(v)@ + q_chunk0(),
{
    v.push(0x80);
    v.push(0x1C);
    v.push(0x0D);
    v.push(0x34);
    v.push(0xC5);
    v.push(0x8D);
    v.push(0x93);
    v.push(0xFE);
    v.push(0x99);
    v.push(0x71);
    v.push(0x77);
    v.push(0x10);
    v.push(0x1F);
    v.push(0x80);
    v.push(0x53);
    v.push(0x5A);
    v.push(0x47);
    v.push(0x38);
    v.push(0xCE);
    v.push(0xBC);
    v.push(0xBF);
    v.push(0x38);
    v.push(0x9A);
    v.push(0x99);
    v.push(0xB3);
    v.push(0x63);
    v.push(0x71);
    v.push(0xEB);
    proof {
        assert(v@ =~= old(v)@ + q_chunk0());
    }
}

fn build_q() -> (v: Vec<u8>)
    ensures
        v@ =~= group_q_bytes(),
{
    let mut v: Vec<u8> = Vec::new();
    push_q_chunk0(&mut v);
    proof {
        assert(v@ =~= group_q_bytes());
    }
    v
}

pub open spec fn a_chunk0() -> Seq<u8> {
    seq![
        0xACu8, 0x40u8, 0x32u8, 0xEFu8, 0x4Fu8, 0x2Du8, 0x9Au8, 0xE3u8,
        0x9Du8, 0xF3u8, 0x0Bu8, 0x5Cu8, 0x8Fu8, 0xFDu8, 0xACu8, 0x50u8,
        0x6Cu8, 0xDEu8, 0xBEu8, 0x7Bu8, 0x89u8, 0x99u8, 0x8Cu8, 0xAFu8,
        0x74u8, 0x86u8, 0x6Au8, 0x08u8, 0xCFu8, 0xE4u8, 0xFFu8, 0xE3u8,
    ]
}

pub open spec fn a_chunk1() -> Seq<u8> {
    seq![
        0xA6u8, 0x82u8, 0x4Au8, 0x4Eu8, 0x10u8, 0xB9u8, 0xA6u8, 0xF0u8,
        0xDDu8, 0x92u8, 0x1Fu8, 0x01u8, 0xA7u8, 0x0Cu8, 0x4Au8, 0xFAu8,
        0xABu8, 0x73u8, 0x9Du8, 0x77u8, 0x00u8, 0xC2u8, 0x9Fu8, 0x52u8,
        0xC5u8, 0x7Du8, 0xB1u8, 0x7Cu8, 0x62u8, 0x0Au8, 0x86u8, 0x52u8,
    ]
}

pub open spec fn a_chunk2() -> Seq<u8> {
    seq![
        0xBEu8, 0x5Eu8, 0x90u8, 0x01u8, 0xA8u8, 0xD6u8, 0x6Au8, 0xD7u8,
        0xC1u8, 0x76u8, 0x69u8, 0x10u8, 0x19u8, 0x99u8, 0x02u8, 0x4Au8,
        0xF4u8, 0xD0u8, 0x27u8, 0x27u8, 0x5Au8, 0xC1u8, 0x34u8, 0x8Bu8,
        0xB8u8, 0xA7u8, 0x62u8, 0xD0u8, 0x52u8, 0x1Bu8, 0xC9u8, 0x8Au8,
    ]
}

pub open spec fn a_chunk3() -> Seq<u8> {
    seq![
        0xE2u8, 0x47u8, 0x15u8, 0x04u8, 0x22u8, 0xEAu8, 0x1Eu8, 0xD4u8,
        0x09u8, 0x93u8, 0x9Du8, 0x54u8, 0xDAu8, 0x74u8, 0x60u8, 0xCDu8,
        0xB5u8, 0xF6u8, 0xC6u8, 0xB2u8, 0x50u8, 0x71u8, 0x7Cu8, 0xBEu8,
        0xF1u8, 0x80u8, 0xEBu8, 0x34u8, 0x11u8, 0x8Eu8, 0x98u8, 0xD1u8,
    ]
}

pub open spec fn a_chunk4() -> Seq<u8> {
    seq![
        0x19u8, 0x52u8, 0x9Au8, 0x45u8, 0xD6u8, 0xF8u8, 0x34u8, 0x56u8,
        0x6Eu8, 0x30u8, 0x25u8, 0xE3u8, 0x16u8, 0xA3u8, 0x30u8, 0xEFu8,
        0xBBu8, 0x77u8, 0xA8u8, 0x6Fu8, 0x0Cu8, 0x1Au8, 0xB1u8, 0x5Bu8,
        0x05u8, 0x1Au8, 0xE3u8, 0xD4u8, 0x28u8, 0xC8u8, 0xF8u8, 0xACu8,
    ]
}

pub open spec fn a_chunk5() -> Seq<u8> {
    seq![
        0xB7u8, 0x0Au8, 0x81u8, 0x37u8, 0x15u8, 0x0Bu8, 0x8Eu8, 0xEBu8,
        0x10u8, 0xE1u8, 0x83u8, 0xEDu8, 0xD1u8, 0x99u8, 0x63u8, 0xDDu8,
        0xD9u8, 0xE2u8, 0x63u8, 0xE4u8, 0x77u8, 0x05u8, 0x89u8, 0xEFu8,
        0x6Au8, 0xA2u8, 0x1Eu8, 0x7Fu8, 0x5Fu8, 0x2Fu8, 0xF3u8, 0x81u8,
    ]
}

pub open spec fn a_chunk6() -> Seq<u8> {
    seq![
        0xB5u8, 0x39u8, 0xCCu8, 0xE3u8, 0x40u8, 0x9Du8, 0x13u8, 0xCDu8,
        0x56u8, 0x6Au8, 0xFBu8, 0xB4u8, 0x8Du8, 0x6Cu8, 0x01u8, 0x91u8,
        0x81u8, 0xE1u8, 0xBCu8, 0xFEu8, 0x94u8, 0xB3u8, 0x02u8, 0x69u8,
        0xEDu8, 0xFEu8, 0x72u8, 0xFEu8, 0x9Bu8, 0x6Au8, 0xA4u8, 0xBDu8,
    ]
}

pub open spec fn a_chunk7() -> Seq<u8> {
    seq![
        0x7Bu8, 0x5Au8, 0x0Fu8, 0x1Cu8, 0x71u8, 0xCFu8, 0xFFu8, 0x4Cu8,
        0x19u8, 0xC4u8, 0x18u8, 0xE1u8, 0xF6u8, 0xECu8, 0x01u8, 0x79u8,
        0x81u8, 0xBCu8, 0x08u8, 0x7Fu8, 0x2Au8, 0x70u8, 0x65u8, 0xB3u8,
        0x84u8, 0xB8u8, 0x90u8, 0xD3u8, 0x19u8, 0x1Fu8, 0x2Bu8, 0xFAu8,
    ]
}

/// The subgroup generator `a`, big-endian.
pub open spec fn group_a_bytes() -> Seq<u8> {
    a_chunk0() + a_chunk1() + a_chunk2() + a_chunk3() + a_chunk4() + a_chunk5() + a_chunk6() + a_chunk7()
}

fn push_a_chunk0(v: &mut Vec<u8>)
    ensures
        final(v)@ == old(v)@ + a_chunk0(),
{
    v.push(0xAC);
    v.push(0x40);
    v.push(0x32);
    v.push(0xEF);
    v.push(0x4F);
    v.push(0x2D);
    v.push(0x9A);
    v.push(0xE3);
    v.push(0x9D);
    v.push(0xF3);
    v.push(0x0B);
    v.push(0x5C);
    v.push(0x8F);
    v.push(0xFD);
    v.push(0xAC);
    v.push(0x50);
    v.push(0x6C);
    v.push(0xDE);
    v.push(0xBE);
    v.push(0x7B);
    v.push(0x89);
    v.push(0x99);
    v.push(0x8C);
    v.push(0xAF);
    v.push(0x74);
    v.push(0x86);
    v.push(0x6A);
    v.push(0x08);
    v.push(0xCF);
    v.push(0xE4);
    v.push(0xFF);
    v.push(0xE3);
    proof {
        assert(v@ =~= old(v)@ + a_chunk0());
    }
}

fn push_a_chunk1(v: &mut Vec<u8>)
    ensures
        final(v)@ == old(v)@ + a_chunk1(),
{
    v.push(0xA6);
    v.push(0x82);
    v.push(0x4A);
    v.push(0x4E);
    v.push(0x10);
    v.push(0xB9);
    v.push(0xA6);
    v.push(0xF0);
    v.push(0xDD);
    v.push(0x92);
    v.push(0x1F);
    v.push(0x01);
    v.push(0xA7);
    v.push(0x0C);
    v.push(0x4A);
    v.push(0xFA);
    v.push(0xAB);
    v.push(0x73);
    v.push(0x9D);
    v.push(0x77);
    v.push(0x00);
    v.push(0xC2);
    v.push(0x9F);
    v.push(0x52);
    v.push(0xC5);
    v.push(0x7D);
    v.push(0xB1);
    v.push(0x7C);
    v.push(0x62);
    v.push(0x0A);
    v.push(0x86);
    v.push(0x52);
    proof {
        assert(v@ =~= old(v)@ + a_chunk1());
    }
}

fn push_a_chunk2(v: &mut Vec<u8>)
    ensures
        final(v)@ == old(v)@ + a_chunk2(),
{
    v.push(0xBE);
    v.push(0x5E);
    v.push(0x90);
    v.push(0x01);
    v.push(0xA8);
    v.push(0xD6);
    v.push(0x6A);
    v.push(0xD7);
    v.push(0xC1);
    v.push(0x76);
    v.push(0x69);
    v.push(0x10);
    v.push(0x19);
    v.push(0x99);
    v.push(0x02);
    v.push(0x4A);
    v.push(0xF4);
    v.push(0xD0);
    v.push(0x27);
    v.push(0x27);
    v.push(0x5A);
    v.push(0xC1);
    v.push(0x34);
    v.push(0x8B);
    v.push(0xB8);
    v.push(0xA7);
    v.push(0x62);
    v.push(0xD0);
    v.push(0x52);
    v.push(0x1B);
    v.push(0xC9);
    v.push(0x8A);
    proof {
        assert(v@ =~= old(v)@ + a_chunk2());
    }
}

fn push_a_chunk3(v: &mut Vec<u8>)
    ensures
        final(v)@ == old(v)@ + a_chunk3(),
{
    v.push(0xE2);
    v.push(0x47);
    v.push(0x15);
    v.push(0x04);
    v.push(0x22);
    v.push(0xEA);
    v.push(0x1E);
    v.push(0xD4);
    v.push(0x09);
    v.push(0x93);
    v.push(0x9D);
    v.push(0x54);
    v.push(0xDA);
    v.push(0x74);
    v.push(0x60);
    v.push(0xCD);
    v.push(0xB5);
    v.push(0xF6);
    v.push(0xC6);
    v.push(0xB2);
    v.push(0x50);
    v.push(0x71);
    v.push(0x7C);
    v.push(0xBE);
    v.push(0xF1);
    v.push(0x80);
    v.push(0xEB);
    v.push(0x34);
    v.push(0x11);
    v.push(0x8E);
    v.push(0x98);
    v.push(0xD1);
    proof {
        assert(v@ =~= old(v)@ + a_chunk3());
    }
}

fn push_a_chunk4(v: &mut Vec<u8>)
    ensures
        final(v)@ == old(v)@ + a_chunk4(),
{
    v.push(0x19);
    v.push(0x52);
    v.push(0x9A);
    v.push(0x45);
    v.push(0xD6);
    v.push(0xF8);
    v.push(0x34);
    v.push(0x56);
    v.push(0x6E);
    v.push(0x30);
    v.push(0x25);
    v.push(0xE3);
    v.push(0x16);
    v.push(0xA3);
    v.push(0x30);
    v.push(0xEF);
    v.push(0xBB);
    v.push(0x77);
    v.push(0xA8);
    v.push(0x6F);
    v.push(0x0C);
    v.push(0x1A);
    v.push(0xB1);
    v.push(0x5B);
    v.push(0x05);
    v.push(0x1A);
    v.push(0xE3);
    v.push(0xD4);
    v.push(0x28);
    v.push(0xC8);
    v.push(0xF8);
    v.push(0xAC);
    proof {
        assert(v@ =~= old(v)@ + a_chunk4());
    }
}

fn push_a_chunk5(v: &mut Vec<u8>)
    ensures
        final(v)@ == old(v)@ + a_chunk5(),
{
    v.push(0xB7);
    v.push(0x0A);
    v.push(0x81);
    v.push(0x37);
    v.push(0x15);
    v.push(0x0B);
    v.push(0x8E);
    v.push(0xEB);
    v.push(0x10);
    v.push(0xE1);
    v.push(0x83);
    v.push(0xED);
    v.push(0xD1);
    v.push(0x99);
    v.push(0x63);
    v.push(0xDD);
    v.push(0xD9);
    v.push(0xE2);
    v.push(0x63);
    v.push(0xE4);
    v.push(0x77);
    v.push(0x05);
    v.push(0x89);
    v.push(0xEF);
    v.push(0x6A);
    v.push(0xA2);
    v.push(0x1E);
    v.push(0x7F);
    v.push(0x5F);
    v.push(0x2F);
    v.push(0xF3);
    v.push(0x81);
    proof {
        assert(v@ =~= old(v)@ + a_chunk5());
    }
}

fn push_a_chunk6(v: &mut Vec<u8>)
    ensures
        final(v)@ == old(v)@ + a_chunk6(),
{
    v.push(0xB5);
    v.push(0x39);
    v.push(0xCC);
    v.push(0xE3);
    v.push(0x40);
    v.push(0x9D);
    v.push(0x13);
    v.push(0xCD);
    v.push(0x56);
    v.push(0x6A);
    v.push(0xFB);
    v.push(0xB4);
    v.push(0x8D);
    v.push(0x6C);
    v.push(0x01);
    v.push(0x91);
    v.push(0x81);
    v.push(0xE1);
    v.push(0xBC);
    v.push(0xFE);
    v.push(0x94);
    v.push(0xB3);
    v.push(0x02);
    v.push(0x69);
    v.push(0xED);
    v.push(0xFE);
    v.push(0x72);
    v.push(0xFE);
    v.push(0x9B);
    v.push(0x6A);
    v.push(0xA4);
    v.push(0xBD);
    proof {
        assert(v@ =~= old(v)@ + a_chunk6());
    }
}

fn push_a_chunk7(v: &mut Vec<u8>)
    ensures
        final(v)@ == old(v)@ + a_chunk7(),
{
    v.push(0x7B);
    v.push(0x5A);
    v.push(0x0F);
    v.push(0x1C);
    v.push(0x71);
    v.push(0xCF);
    v.push(0xFF);
    v.push(0x4C);
    v.push(0x19);
    v.push(0xC4);
    v.push(0x18);
    v.push(0xE1);
    v.push(0xF6);
    v.push(0xEC);
    v.push(0x01);
    v.push(0x79);
    v.push(0x81);
    v.push(0xBC);
    v.push(0x08);
    v.push(0x7F);
    v.push(0x2A);
    v.push(0x70);
    v.push(0x65);
    v.push(0xB3);
    v.push(0x84);
    v.push(0xB8);
    v.push(0x90);
    v.push(0xD3);
    v.push(0x19);
    v.push(0x1F);
    v.push(0x2B);
    v.push(0xFA);
    proof {
        assert(v@ =~= old(v)@ + a_chunk7());
    }
}

fn build_a() -> (v: Vec<u8>)
    ensures
        v@ =~= group_a_bytes(),
{
    let mut v: Vec<u8> = Vec::new();
    push_a_chunk0(&mut v);
    push_a_chunk1(&mut v);
    push_a_chunk2(&mut v);
    push_a_chunk3(&mut v);
    push_a_chunk4(&mut v);
    push_a_chunk5(&mut v);
    push_a_chunk6(&mut v);
    push_a_chunk7(&mut v);
    proof {
        assert(v@ =~= group_a_bytes());
    }
    v
}

/// The numeric facts the protocol needs of the default profile: the modulus
/// is above one, the order is nonzero, and the generator lies strictly
/// between one and the modulus.
pub proof fn lemma_group_values()
    ensures
        be_nat(group_p_bytes()) > 1,
        be_nat(group_q_bytes()) > 0,
        1 < be_nat(group_a_bytes()) < be_nat(group_p_bytes()),
{
    let p = group_p_bytes();
    let q = group_q_bytes();
    let a = group_a_bytes();
    assert(p.len() == 256 && q.len() == 28 && a.len() == 256);
    assert(be_nat(p) == be_nat(p.drop_last()) * 256 + p.last() as nat);
    assert(p.last() == 0x4Fu8);
    assert(be_nat(q) == be_nat(q.drop_last()) * 256 + q.last() as nat);
    assert(q.last() == 0xEBu8);
    assert(a[0] == 0xACu8 && p[0] == 0xADu8);
    lemma_be_nat_lex_lt(a, p, 0);
    lemma_be_nat_first(a);
    lemma_pow_positive(256, 255);
    let pw = pow(256, 255);
    assert(a[0] as nat * pw >= 0xAC) by (nonlinear_arith)
        requires
            pw >= 1,
            a[0] == 0xACu8,
    ;
}

impl ZKP {
    /// The default group profile, returned as `(a, b, p, q)`. In this
    /// profile `b = a`; see the module documentation.
    pub fn get_constants() -> (r: (BigNum, BigNum, BigNum, BigNum))
        ensures
            r.0.wf() && r.1.wf() && r.2.wf() && r.3.wf(),
            r.0@ == be_nat(group_a_bytes()),
            r.1@ == be_nat(group_a_bytes()),
            r.2@ == be_nat(group_p_bytes()),
            r.3@ == be_nat(group_q_bytes()),
            1 < r.0@ < r.2@,
            r.3@ > 0,
    {
        proof {
            lemma_group_values();
        }
        let pv = build_p();
        let qv = build_q();
        let av = build_a();
        let bv = build_a();
        let p = BigNum::from_bytes(pv.as_slice());
        let q = BigNum::from_bytes(qv.as_slice());
        let a = BigNum::from_bytes(av.as_slice());
        let b = BigNum::from_bytes(bv.as_slice());
        (a, b, p, q)
    }
}

} // verus!
