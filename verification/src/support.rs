use vstd::prelude::*;

verus! {

/// The header of a block.
pub struct Header<BlockNumber> {
    /// The number the block claims for itself.
    pub block_number: BlockNumber,
}

/// An instruction submitted from outside: who submits it, and what is asked.
pub struct Extrinsic<Caller, Call> {
    pub caller: Caller,
    pub call: Call,
}

/// A header and the extrinsics to execute under it, in order.
pub struct Block<Header, Extrinsic> {
    pub header: Header,
    pub extrinsics: Vec<Extrinsic>,
}

/// Why a single call was turned down. A failed call leaves the state of the
/// module it was sent to as it was.
#[derive(Clone, Copy, Debug, PartialEq, Eq, Structural)]
pub enum DispatchError {
    /// The sender of a transfer holds less than the amount.
    InsufficientFunds,
    /// The receiver of a transfer cannot hold the amount on top of its balance.
    BalanceOverflow,
    /// The content already has an owner.
    ContentAlreadyClaimed,
    /// The content has no owner.
    ClaimNotFound,
    /// The content is owned by someone other than the caller.
    NotClaimOwner,
}

/// The outcome of a single call.
pub type DispatchResult = Result<(), DispatchError>;

impl DispatchError {
    /// The text that describes the error.
    pub open spec fn text(self) -> Seq<char> {
        match self {
            DispatchError::InsufficientFunds => "Not enough funds."@,
            DispatchError::BalanceOverflow => "over/underflow occured."@,
            DispatchError::ContentAlreadyClaimed => "this content is already claimed"@,
            DispatchError::ClaimNotFound => "claim does not exist"@,
            DispatchError::NotClaimOwner => "this content is owned by someone else"@,
        }
    }

    /// The text that describes the error.
    pub fn message(&self) -> (s: &'static str)
        ensures
            s@ == self.text(),
    {
        match self {
            DispatchError::InsufficientFunds => "Not enough funds.",
            DispatchError::BalanceOverflow => "over/underflow occured.",
            DispatchError::ContentAlreadyClaimed => "this content is already claimed",
            DispatchError::ClaimNotFound => "claim does not exist",
            DispatchError::NotClaimOwner => "this content is owned by someone else",
        }
    }
}

/// Why a whole block was turned down before any of it was executed.
#[derive(Clone, Copy, Debug, PartialEq, Eq, Structural)]
pub enum StructuralError {
    /// The header's number is not the successor of the current block number.
    BlockNumberMismatch,
}

impl StructuralError {
    /// The text that describes the error.
    pub open spec fn text(self) -> Seq<char> {
        "Block number mismatched"@
    }

    /// The text that describes the error.
    pub fn message(&self) -> (s: &'static str)
        ensures
            s@ == self.text(),
    {
        "Block number mismatched"
    }
}

/// A state owner that accepts calls on behalf of a caller.
pub trait Dispatch {
    /// Who may send calls.
    type Caller;

    /// The closed set of operations that can be asked for.
    type Call;

    /// Routes `call` to the operation that implements it, on behalf of `caller`.
    fn dispatch(&mut self, caller: Self::Caller, call: Self::Call) -> (r: DispatchResult);
}

} // verus!
