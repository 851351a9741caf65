use vstd::prelude::*;
use vstd::string::StringSliceAdditionalSpecFns;
use vstd::utf8::{is_ascii_chars, is_ascii_chars_encode_utf8};

use crate::pallet::{average_of, BlockNumber, Call, Pallet, PalletState};

verus! {

/// Where a transaction comes from.
#[derive(Clone, Copy, Debug, PartialEq, Eq)]
pub enum TransactionSource {
    /// Already in a block.
    InBlock,
    /// Submitted by this node.
    Local,
    /// Received from the network.
    External,
}

/// Why an unsigned transaction is invalid.
#[derive(Clone, Copy, Debug, PartialEq, Eq)]
pub enum InvalidTransaction {
    /// The call is not one that may come unsigned.
    Call,
    /// The transaction is outdated: an unsigned price was already accepted
    /// for a later block.
    Stale,
    /// The transaction is for a block that has not been reached yet.
    Future,
}

/// What the pool needs to know of a valid transaction.
#[derive(Clone, Debug)]
pub struct ValidTransaction {
    /// The higher, the earlier the transaction is included.
    pub priority: u64,
    /// Tags that other transactions must provide before this one.
    pub requires: Vec<Vec<u8>>,
    /// Tags that this transaction provides; of transactions that provide
    /// the same tag only one is included.
    pub provides: Vec<Vec<u8>>,
    /// The number of blocks the transaction stays valid for.
    pub longevity: u64,
    /// The transaction may be gossiped to other nodes.
    pub propagate: bool,
}

/// The model of a [`ValidTransaction`].
pub struct ValidTransactionView {
    pub priority: u64,
    pub requires: Seq<Seq<u8>>,
    pub provides: Seq<Seq<u8>>,
    pub longevity: u64,
    pub propagate: bool,
}

impl View for ValidTransaction {
    type V = ValidTransactionView;

    open spec fn view(&self) -> ValidTransactionView {
        ValidTransactionView {
            priority: self.priority,
            requires: self.requires@.map_values(|t: Vec<u8>| t@),
            provides: self.provides@.map_values(|t: Vec<u8>| t@),
            longevity: self.longevity,
            propagate: self.propagate,
        }
    }
}

/// The outcome of validating a transaction.
pub type TransactionValidity = Result<ValidTransaction, InvalidTransaction>;

/// The model of a [`TransactionValidity`].
pub open spec fn validity_view(v: TransactionValidity) -> Result<
    ValidTransactionView,
    InvalidTransaction,
> {
    match v {
        Ok(t) => Ok(t@),
        Err(e) => Err(e),
    }
}

/// The prefix of the tags that unsigned price transactions provide.
pub const UNSIGNED_TAG_PREFIX: &'static str = "ExampleOffchainWorker";

/// The number of blocks an unsigned price transaction stays valid for.
pub const UNSIGNED_LONGEVITY: u64 = 5;

/// The `count` least significant bytes of `x`, least significant first.
pub open spec fn le_bytes(x: nat, count: nat) -> Seq<u8>
    decreases count,
{
    if count == 0 {
        Seq::empty()
    } else {
        seq![(x % 256) as u8] + le_bytes(x / 256, (count - 1) as nat)
    }
}

/// The SCALE compact encoding of `n`: one byte `n << 2` below 2^6, two
/// little-endian bytes `(n << 2) | 1` below 2^14, four bytes `(n << 2) | 2`
/// below 2^30, else the byte `3` and the four little-endian bytes of `n`.
pub open spec fn compact_u32(n: u32) -> Seq<u8> {
    if n < 0x40 {
        seq![(n * 4) as u8]
    } else if n < 0x4000 {
        le_bytes((n * 4 + 1) as nat, 2)
    } else if n < 0x4000_0000 {
        le_bytes((n * 4 + 2) as nat, 4)
    } else {
        seq![3u8] + le_bytes(n as nat, 4)
    }
}

/// The SCALE encoding of a pair of a text with UTF-8 bytes `prefix` and a
/// `u32` `tag`: the compact length of the text, its bytes, and the four
/// little-endian bytes of `tag`.
pub open spec fn scale_encoded_tag(prefix: Seq<u8>, tag: u32) -> Seq<u8> {
    compact_u32(prefix.len() as u32) + prefix + le_bytes(tag as nat, 4)
}

/// The tag that an unsigned price transaction provides while the next
/// unsigned transaction is accepted from block `next_unsigned_at`.
pub open spec fn provides_tag(next_unsigned_at: BlockNumber) -> Seq<u8> {
    scale_encoded_tag(UNSIGNED_TAG_PREFIX.spec_bytes(), next_unsigned_at)
}

/// SCALE-encodes the pair `(prefix, tag)` with `parity_scale_codec`, as the
/// transaction builder does for a tag with a prefix. The codec panics on a
/// text longer than `u32::MAX` bytes, which `requires` leaves out.
#[verifier::external_body]
fn encode_tag(prefix: &str, tag: BlockNumber) -> (r: Vec<u8>)
    requires
        prefix.spec_bytes().len() <= u32::MAX,
    ensures
        r@ == scale_encoded_tag(prefix.spec_bytes(), tag),
{
    parity_scale_codec::Encode::encode(&(prefix, tag))
}

/// How far `new_price` lies from the average `average` (0 without one).
pub open spec fn distance_from_average(average: Option<u32>, new_price: u32) -> u32 {
    match average {
        Some(avg) => if avg > new_price {
            (avg - new_price) as u32
        } else {
            (new_price - avg) as u32
        },
        None => 0,
    }
}

/// The validity of an unsigned price transaction for `new_price` made at
/// `block_number`: stale before `next_unsigned_at`, in the future after the
/// current block; else valid, with priority the base priority plus the
/// price's distance from the average (saturating), providing the tag of
/// `next_unsigned_at`, valid for a few blocks and gossiped.
pub open spec fn parameters_validity(
    s: PalletState,
    block_number: BlockNumber,
    new_price: u32,
) -> Result<ValidTransactionView, InvalidTransaction> {
    if s.next_unsigned_at > block_number {
        Err(InvalidTransaction::Stale)
    } else if s.block_number < block_number {
        Err(InvalidTransaction::Future)
    } else {
        Ok(
            ValidTransactionView {
                priority: s.config.unsigned_priority.saturating_add(
                    distance_from_average(average_of(s.prices), new_price) as u64,
                ),
                requires: Seq::empty(),
                provides: seq![provides_tag(s.next_unsigned_at)],
                longevity: UNSIGNED_LONGEVITY,
                propagate: true,
            },
        )
    }
}

/// The validity of `call` as an unsigned transaction: only
/// `submit_price_unsigned` may come unsigned.
pub open spec fn unsigned_validity(s: PalletState, call: Call) -> Result<
    ValidTransactionView,
    InvalidTransaction,
> {
    match call {
        Call::SubmitPriceUnsigned { block_number, price } => parameters_validity(
            s,
            block_number,
            price,
        ),
        _ => Err(InvalidTransaction::Call),
    }
}

impl Pallet {
    /// Checks whether an unsigned price transaction has any chance to
    /// succeed, and with which priority, tag and longevity it enters the pool.
    pub fn validate_transaction_parameters(
        &self,
        block_number: &BlockNumber,
        new_price: &u32,
    ) -> (r: TransactionValidity)
        ensures
            validity_view(r) == parameters_validity(self@, *block_number, *new_price),
    {
        let next_unsigned_at = self.next_unsigned_at();
        if next_unsigned_at > *block_number {
            return Err(InvalidTransaction::Stale);
        }
        let current_block = self.block_number();
        if current_block < *block_number {
            return Err(InvalidTransaction::Future);
        }
        let avg_price: u32 = match self.average_price() {
            Some(price) => if price > *new_price {
                price - *new_price
            } else {
                *new_price - price
            },
            None => 0,
        };
        proof {
            reveal_strlit("ExampleOffchainWorker");
            assert(is_ascii_chars(UNSIGNED_TAG_PREFIX@));
            is_ascii_chars_encode_utf8(UNSIGNED_TAG_PREFIX@);
        }
        let tag = encode_tag(UNSIGNED_TAG_PREFIX, next_unsigned_at);
        let ghost tag_view = tag@;
        let provides = vec![tag];
        let validity = ValidTransaction {
            priority: self.config().unsigned_priority.saturating_add(avg_price as u64),
            requires: Vec::new(),
            provides,
            longevity: UNSIGNED_LONGEVITY,
            propagate: true,
        };
        proof {
            assert(validity@.requires =~= Seq::<Seq<u8>>::empty());
            assert(validity@.provides =~= seq![tag_view]);
        }
        Ok(validity)
    }

    /// Validates an unsigned call: whitelists the price submissions that the
    /// offchain worker produces, and rejects every other call.
    pub fn validate_unsigned(&self, _source: TransactionSource, call: &Call) -> (r:
        TransactionValidity)
        ensures
            validity_view(r) == unsigned_validity(self@, *call),
    {
        match call {
            Call::SubmitPriceUnsigned { block_number, price } => {
                self.validate_transaction_parameters(block_number, price)
            },
            _ => Err(InvalidTransaction::Call),
        }
    }
}

} // verus!
