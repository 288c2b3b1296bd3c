//! What can go wrong, one enumeration per operation.
use vstd::prelude::*;

verus! {

/// Why a block was not added.
#[derive(Clone, Copy, Debug, PartialEq, Eq)]
pub enum AddBlockError {
    /// The block does not fit the chain.
    ValidateIntegrity(ValidateBlockIntegrityError),
}

/// Why a balance was not raised.
#[derive(Clone, Copy, Debug, PartialEq, Eq)]
pub enum AddToBalanceError {
    /// The new balance does not fit in 64 bits.
    Overflow,
}

/// Why a transaction was not admitted.
#[derive(Clone, Copy, Debug, PartialEq, Eq)]
pub enum AddTransactionError {
    AddToRecipientBalance(AddToBalanceError),
    AddToStorageBalance(AddToBalanceError),
    /// The pending block already holds its user transactions.
    LimitReached,
    RemoveFromBalance(RemoveFromBalanceError),
    ValidateIntegrity(ValidateTransactionIntegrityError),
}

/// Why a chain was not rebuilt from blocks.
#[derive(Clone, Copy, Debug, PartialEq, Eq)]
pub enum BlockchainFromStrError {
    AddBlock(AddBlockError),
}

/// Why mining ended without a proof of work.
#[derive(Clone, Copy, Debug, PartialEq, Eq)]
pub enum GenerateBlockProofOfWorkError {
    /// The mining flag was found unset.
    Stopped,
    /// Every nonce up to the largest was tried.
    NonceExhausted,
}

/// Why the chain has no last hash.
#[derive(Clone, Copy, Debug, PartialEq, Eq)]
pub enum GetLastBlockHashError {
    /// The chain holds no block.
    NoBlocks,
}

/// Why no user came from key bytes.
#[derive(Clone, Copy, Debug, PartialEq, Eq)]
pub enum LoadOrCreateUserError {
    /// The bytes are no private key.
    FromBytes,
}

/// Why the storage's transaction was not made.
#[derive(Clone, Copy, Debug, PartialEq, Eq)]
pub enum MakeStorageTransactionError {
    Add(AddTransactionError),
    GetLastBlockHash(GetLastBlockHashError),
}

/// Why no block was mined.
#[derive(Clone, Copy, Debug, PartialEq, Eq)]
pub enum MineBlockError {
    AddBlock(AddBlockError),
    GenerateBlockProofOfWork(GenerateBlockProofOfWorkError),
    MakeStorageTransaction(MakeStorageTransactionError),
    SignBlock(SignBlockError),
}

/// Why no first block was mined.
#[derive(Clone, Copy, Debug, PartialEq, Eq)]
pub enum MineGenesisBlockError {
    GenerateBlockProofOfWork(GenerateBlockProofOfWorkError),
    SignBlock(SignBlockError),
}

/// Why a received package is refused.
#[derive(Clone, Copy, Debug, PartialEq, Eq)]
pub enum ReceivePackageError {
    /// The action is not among those the receiver accepts.
    InvalidAction,
}

/// Why the bytes of a package are not received.
#[derive(Clone, Copy, Debug, PartialEq, Eq)]
pub enum ReceivePackageBytesError {
    /// The announced length is over the limit.
    TooBig,
}

/// Why a balance was not lowered.
#[derive(Clone, Copy, Debug, PartialEq, Eq)]
pub enum RemoveFromBalanceError {
    /// The balance is smaller than the amount.
    NotEnoughMoney,
}

/// Why a package is not sent.
#[derive(Clone, Copy, Debug, PartialEq, Eq)]
pub enum SendPackageError {
    /// The payload is longer than the limit.
    TooBig,
}

/// Why a block was not signed.
#[derive(Clone, Copy, Debug, PartialEq, Eq)]
pub enum SignBlockError {
    UserSign(UserSignError),
}

/// Why a transaction was not signed.
#[derive(Clone, Copy, Debug, PartialEq, Eq)]
pub enum SignTransactionError {
    UserSign(UserSignError),
}

/// Why no signature was made.
#[derive(Clone, Copy, Debug, PartialEq, Eq)]
pub enum UserSignError {
    Sign,
}

/// Why a block's balance of one address is refused.
#[derive(Clone, Copy, Debug, PartialEq, Eq)]
pub enum ValidateBlockBalanceStateError {
    /// The balance before the block and what was received exceed 64 bits.
    AddOverflow,
    /// The block states another balance than the transactions give.
    BalancesNotEquals,
    /// The block states no balance for the address.
    NoBalanceInState,
    /// More was spent than the address had.
    SubOverflow,
}

/// Why a block's time is refused.
#[derive(Clone, Copy, Debug, PartialEq, Eq)]
pub enum ValidateBlockCreatedAtError {
    /// The block is later than the clock.
    InFuture,
    /// The block is not later than its predecessor.
    PreviousInFuture,
}

/// Why a block is refused.
#[derive(Clone, Copy, Debug, PartialEq, Eq)]
pub enum ValidateBlockIntegrityError {
    ValidateCreatedAt(ValidateBlockCreatedAtError),
    ValidateIsSigned(ValidateBlockIsSignedError),
    ValidateMinerSignature(ValidateBlockMinerSignatureError),
    ValidatePreviousHash(ValidateBlockPreviousHashError),
    ValidateProofOfWork(ValidateBlockProofOfWorkError),
    ValidateTransactions(ValidateBlockTransactionsError),
}

/// A block without a signature.
#[derive(Clone, Copy, Debug, PartialEq, Eq)]
pub enum ValidateBlockIsSignedError {
    NotSigned,
}

/// Why a miner's signature is refused.
#[derive(Clone, Copy, Debug, PartialEq, Eq)]
pub enum ValidateBlockMinerSignatureError {
    ValidateUserSignature(ValidateUserSignatureError),
}

/// Why a block's previous hash is refused.
#[derive(Clone, Copy, Debug, PartialEq, Eq)]
pub enum ValidateBlockPreviousHashError {
    GetLastBlockHash(GetLastBlockHashError),
    HashesNotEquals,
}

/// A hash without the required zeros.
#[derive(Clone, Copy, Debug, PartialEq, Eq)]
pub enum ValidateBlockProofOfWorkError {
    Invalid,
}

/// Why a block's transactions are refused.
#[derive(Clone, Copy, Debug, PartialEq, Eq)]
pub enum ValidateBlockTransactionsError {
    InvalidReward,
    InvalidStorageCount,
    InvalidUserCount,
    PreviousHashesNotEquals,
    RandomStringNotUnique,
    RewardedNotMiner,
    ValidateRecipientBalanceState(ValidateBlockBalanceStateError),
    ValidateSenderBalanceState(ValidateBlockBalanceStateError),
    ValidateTransactionIntegrity(ValidateTransactionIntegrityError),
}

/// Why a configuration is refused.
#[derive(Clone, Copy, Debug, PartialEq, Eq)]
pub enum ValidateConfigError {
    InvalidTracingLevel,
    InvalidPackageMaxSizeLimit,
    NoNodes,
}

/// Why a transaction is refused.
#[derive(Clone, Copy, Debug, PartialEq, Eq)]
pub enum ValidateTransactionIntegrityError {
    PreviousBlockHash(ValidateTransactionPreviousBlockHashError),
    Recipient(ValidateTransactionRecipientError),
    SenderSignature(ValidateTransactionSenderSignatureError),
}

/// Why a transaction's previous block hash is refused.
#[derive(Clone, Copy, Debug, PartialEq, Eq)]
pub enum ValidateTransactionPreviousBlockHashError {
    GetLastBlockHash(GetLastBlockHashError),
    HashesNotEquals,
}

/// A transaction that pays the storage.
#[derive(Clone, Copy, Debug, PartialEq, Eq)]
pub enum ValidateTransactionRecipientError {
    IsStorage,
}

/// Why a sender's signature is refused.
#[derive(Clone, Copy, Debug, PartialEq, Eq)]
pub enum ValidateTransactionSenderSignatureError {
    Validate(ValidateUserSignatureError),
    IsEmpty,
}

/// Why a signature is refused.
#[derive(Clone, Copy, Debug, PartialEq, Eq)]
pub enum ValidateUserSignatureError {
    /// The signer's address is not the claimed one.
    AddressesNotEquals,
    /// The text is no Base58, or too long to be a signature.
    FromBase58,
    /// The bytes are no recoverable signature.
    Parse,
    /// No public key is recovered from the signature.
    RecoverKey,
    /// The signature does not verify under the recovered key.
    Verify,
}

} // verus!
