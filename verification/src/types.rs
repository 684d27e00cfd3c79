use vstd::prelude::*;
use crate::runtime::RuntimeCall;
use crate::support;

verus! {

/// Accounts are known by name.
pub type AccountId = String;

/// Balances are whole amounts of up to 128 bits.
pub type Balance = u128;

/// Blocks are numbered with 32 bits.
pub type BlockNumber = u32;

/// Submissions are counted with 32 bits.
pub type Nonce = u32;

/// Claimed content is a piece of text.
pub type Content = &'static str;

/// An extrinsic of the runtime.
pub type Extrinsic = support::Extrinsic<AccountId, RuntimeCall>;

/// A block header of the runtime.
pub type Header = support::Header<BlockNumber>;

/// A block of the runtime.
pub type Block = support::Block<Header, Extrinsic>;

} // verus!
