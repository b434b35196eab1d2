//! Priority-fee variants and the compute-budget instructions that carry them.

use solana_sdk::compute_budget::ComputeBudgetInstruction;
use solana_sdk::instruction::{AccountMeta, Instruction};
use solana_sdk::pubkey::Pubkey;
use vstd::prelude::*;

verus! {

#[verifier::external_type_specification]
#[verifier::external_body]
pub struct ExPubkey(Pubkey);

#[verifier::external_type_specification]
#[verifier::external_body]
pub struct ExAccountMeta(AccountMeta);

#[verifier::external_type_specification]
pub struct ExInstruction(Instruction);

/// Tag of the `SetComputeUnitPrice` variant in the compute-budget program's
/// instruction encoding.
pub const SET_COMPUTE_UNIT_PRICE_TAG: u8 = 3;

/// The eight little-endian bytes of `v`.
pub open spec fn le_bytes(v: u64) -> Seq<u8> {
    Seq::new(8, |k: int| ((v >> ((8 * k) as u64)) & 0xff) as u8)
}

/// Instruction data that sets the compute-unit price to `price` micro-lamports.
pub open spec fn unit_price_data(price: u64) -> Seq<u8> {
    seq![SET_COMPUTE_UNIT_PRICE_TAG].add(le_bytes(price))
}

/// One competing attempt's priority: its position in the fan-out and its
/// compute-unit price.
#[derive(Clone, Copy, Debug, PartialEq, Eq, Structural)]
pub struct FeeVariant {
    pub index: u64,
    pub price: u64,
}

/// The `i`-th variant of a fan-out whose prices start at `base`.
pub open spec fn variant_at(base: u64, i: int) -> FeeVariant {
    FeeVariant { index: i as u64, price: (base + i) as u64 }
}

/// The largest price a fan-out of `n` variants starting at `base` reaches fits
/// in a `u64`.
pub open spec fn fan_out_fits(n: u64, base: u64) -> bool {
    base as int + n as int <= u64::MAX as int + 1
}

/// The fee variants `base, base + 1, ..., base + n - 1`, indexed from zero.
pub fn generate_fee_variants(n: u64, base: u64) -> (r: Vec<FeeVariant>)
    requires
        fan_out_fits(n, base),
    ensures
        r@.len() == n,
        forall|i: int| 0 <= i < n ==> r@[i] == variant_at(base, i),
{
    let mut r: Vec<FeeVariant> = Vec::new();
    let mut i: u64 = 0;
    while i < n
        invariant
            fan_out_fits(n, base),
            i <= n,
            r@.len() == i,
            forall|j: int| 0 <= j < i ==> r@[j] == variant_at(base, j),
        decreases n - i,
    {
        r.push(FeeVariant { index: i, price: base + i });
        i = i + 1;
    }
    r
}

/// Variants of one fan-out have pairwise distinct indices and strictly
/// increasing prices.
pub proof fn lemma_variants_strictly_increase(n: u64, base: u64, i: int, j: int)
    requires
        fan_out_fits(n, base),
        0 <= i < j < n,
    ensures
        variant_at(base, i).index != variant_at(base, j).index,
        variant_at(base, i).price < variant_at(base, j).price,
        variant_at(base, j).price == base + j,
{
}

/// Relies on `ComputeBudgetInstruction::set_compute_unit_price`, which builds the
/// instruction by borsh-encoding the `SetComputeUnitPrice(price)` variant (tag 3,
/// then the `u64` in little-endian order) with no accounts.
#[verifier::external_body]
fn unit_price_instruction(price: u64) -> (r: Instruction)
    ensures
        r.data@ == unit_price_data(price),
        r.accounts@.len() == 0,
{
    ComputeBudgetInstruction::set_compute_unit_price(price)
}

/// The compute-budget instructions that set prices `spam_price`,
/// `spam_price + 1`, ..., one per fan-out variant.
pub fn array_of_fees(spam_amount: u64, spam_price: u64) -> (r: Vec<Instruction>)
    requires
        fan_out_fits(spam_amount, spam_price),
    ensures
        r@.len() == spam_amount,
        forall|i: int|
            0 <= i < spam_amount ==> {
                &&& r@[i].data@ == unit_price_data(#[trigger] variant_at(spam_price, i).price)
                &&& r@[i].accounts@.len() == 0
            },
{
    let variants = generate_fee_variants(spam_amount, spam_price);
    let mut r: Vec<Instruction> = Vec::new();
    let mut i: usize = 0;
    while i < variants.len()
        invariant
            variants@.len() == spam_amount,
            forall|j: int| 0 <= j < spam_amount ==> variants@[j] == variant_at(spam_price, j),
            i <= variants@.len(),
            r@.len() == i,
            forall|j: int|
                0 <= j < i ==> {
                    &&& r@[j].data@ == unit_price_data(#[trigger] variant_at(spam_price, j).price)
                    &&& r@[j].accounts@.len() == 0
                },
        decreases variants@.len() - i,
    {
        let ix = unit_price_instruction(variants[i].price);
        r.push(ix);
        i = i + 1;
    }
    r
}


/// Fee generation is deterministic: any two results that meet the contract of
/// `generate_fee_variants(n, base)` are the same sequence, and any two that
/// meet that of `array_of_fees(n, base)` carry the same data with no accounts.
pub proof fn lemma_fee_generation_deterministic(
    n: u64,
    base: u64,
    v1: Seq<FeeVariant>,
    v2: Seq<FeeVariant>,
    i1: Seq<Instruction>,
    i2: Seq<Instruction>,
)
    requires
        fan_out_fits(n, base),
        v1.len() == n && forall|i: int| 0 <= i < n ==> v1[i] == variant_at(base, i),
        v2.len() == n && forall|i: int| 0 <= i < n ==> v2[i] == variant_at(base, i),
        i1.len() == n && forall|i: int|
            0 <= i < n ==> {
                &&& i1[i].data@ == unit_price_data(#[trigger] variant_at(base, i).price)
                &&& i1[i].accounts@.len() == 0
            },
        i2.len() == n && forall|i: int|
            0 <= i < n ==> {
                &&& i2[i].data@ == unit_price_data(#[trigger] variant_at(base, i).price)
                &&& i2[i].accounts@.len() == 0
            },
    ensures
        v1 == v2,
        forall|i: int|
            #![trigger i1[i], i2[i]]
            0 <= i < n ==> i1[i].data@ == i2[i].data@ && i1[i].accounts@.len() == 0
                && i2[i].accounts@.len() == 0,
{
    assert(v1 =~= v2);
    assert forall|i: int| #![trigger i1[i], i2[i]]
        0 <= i < n implies i1[i].data@ == i2[i].data@ && i1[i].accounts@.len() == 0
        && i2[i].accounts@.len() == 0 by {
        assert(i1[i].data@ == unit_price_data(variant_at(base, i).price));
        assert(i2[i].data@ == unit_price_data(variant_at(base, i).price));
    }
}

/// The instructions of one attempt: the fixed prefix, then the variant's
/// compute-unit price instruction.
pub fn build_attempt(prefix: Vec<Instruction>, fee_ix: Instruction) -> (r: Vec<Instruction>)
    ensures
        r@ == prefix@.push(fee_ix),
{
    let mut r = prefix;
    r.push(fee_ix);
    r
}

} // verus!
