use std::sync::atomic::{AtomicBool, Ordering};

use blockchain::balance_state::BalanceState;
use blockchain::block::Block;
use blockchain::blockchain::Blockchain;
use blockchain::error::{
    AddBlockError, AddToBalanceError, AddTransactionError, BlockchainFromStrError,
    GenerateBlockProofOfWorkError, GetLastBlockHashError, MakeStorageTransactionError,
    MineBlockError, MineGenesisBlockError,
    RemoveFromBalanceError, ValidateBlockBalanceStateError, ValidateBlockCreatedAtError,
    ValidateBlockIntegrityError, ValidateBlockIsSignedError, ValidateBlockMinerSignatureError,
    ValidateBlockPreviousHashError, ValidateBlockProofOfWorkError,
    ValidateBlockTransactionsError, ValidateTransactionIntegrityError,
    ValidateTransactionPreviousBlockHashError, ValidateTransactionRecipientError,
    ValidateTransactionSenderSignatureError, ValidateUserSignatureError,
};
use blockchain::transaction::Transaction;
use blockchain::user::User;

const FAR_FUTURE: u64 = u64::MAX;

fn user(first: u8, rest: u8) -> User {
    let mut key = vec![rest; 32];
    key[0] = first;
    User::from_bytes(key).unwrap()
}

const NONCES: [u64; 4] = [116235, 69025, 167587, 137254];
const FIRST_TIME: u64 = 1_700_000_000_000_000_000;
const SECOND: u64 = 1_000_000_000;

/// One block of a chain that was mined once and for all. The keys, the
/// times and the random strings are fixed, and signing is repeatable, so
/// that the nonces are known.
fn mined_block(
    miner: &User,
    other: &User,
    previous: Option<&Block>,
    transfers: &[(bool, u64, u64)],
    balances: [u64; 3],
    number: usize,
) -> Block {
    let hash = previous.map(|b| b.compute_hash());
    let mut list = arrayvec::ArrayVec::new();
    for (i, (from_miner, amount, share)) in transfers.iter().enumerate() {
        let (sender, recipient) = if *from_miner { (miner, other) } else { (other, miner) };
        let mut transaction = Transaction::from_parts(
            sender.address().to_owned(),
            recipient.address().to_owned(),
            *amount,
            *share,
            hash.clone().unwrap(),
            format!("random-{}-{}", number, i),
            None,
        )
        .unwrap();
        transaction.sign(sender).unwrap();
        list.push(transaction);
    }
    if let Some(hash) = &hash {
        list.push(
            Transaction::from_parts(
                "STORAGE".to_owned(),
                miner.address().to_owned(),
                1,
                0,
                hash.clone(),
                format!("random-{}-reward", number),
                None,
            )
            .unwrap(),
        );
    }
    let mut state = BalanceState::new();
    state.insert(miner.address().to_owned(), balances[0]);
    if previous.is_some() {
        state.insert(other.address().to_owned(), balances[1]);
    }
    state.insert("STORAGE".to_owned(), balances[2]);
    let mut block = Block::from_parts(
        miner.address().to_owned(),
        hash,
        list,
        state,
        NONCES[number],
        FIRST_TIME + number as u64 * SECOND,
        None,
    );
    block.sign(miner).unwrap();
    block
}

/// The miner, another user, and the four blocks of the mined chain: in the
/// first block the miner and the storage hold 100 each.
fn mined_chain() -> (User, User, Vec<Block>) {
    let miner = user(1, 7);
    let other = user(2, 9);
    let b0 = mined_block(&miner, &other, None, &[], [100, 0, 100], 0);
    let b1 =
        mined_block(&miner, &other, Some(&b0), &[(true, 5, 0), (true, 15, 1)], [80, 20, 100], 1);
    let b2 =
        mined_block(&miner, &other, Some(&b1), &[(false, 3, 0), (true, 10, 1)], [73, 27, 100], 2);
    let b3 =
        mined_block(&miner, &other, Some(&b2), &[(false, 1, 0), (false, 2, 0)], [77, 24, 99], 3);
    (miner, other, vec![b0, b1, b2, b3])
}

/// An engine on the first `count` blocks of the mined chain.
fn engine_on(count: usize) -> (User, User, Blockchain, AtomicBool) {
    let (miner, other, blocks) = mined_chain();
    let is_mining = AtomicBool::new(false);
    let chain =
        Blockchain::from_blocks_at(miner.clone(), &blocks[..count].to_vec(), FAR_FUTURE, &is_mining)
            .unwrap();
    (miner, other, chain, is_mining)
}

fn genesis_chain() -> (User, Blockchain, AtomicBool) {
    let (miner, _other, chain, is_mining) = engine_on(1);
    (miner, chain, is_mining)
}

fn signed(sender: &User, recipient: &str, amount: u64, chain: &Blockchain) -> Transaction {
    let hash = chain.get_last_block_hash().unwrap();
    let mut transaction = Transaction::new(sender.address(), recipient, amount, &hash);
    transaction.sign(sender).unwrap();
    transaction
}

/// A block behind the chain's last, with its proof of work and the miner's
/// signature, whatever its transactions and balances are.
fn forged_block(
    miner: &User,
    previous_hash: Option<String>,
    transactions: Vec<Transaction>,
    balances: &[(&str, u64)],
    created_at: u64,
    mine: bool,
    sign: bool,
) -> Block {
    let mut list = arrayvec::ArrayVec::new();
    for transaction in transactions {
        list.push(transaction);
    }
    let mut balance_state = BalanceState::new();
    for (address, balance) in balances {
        balance_state.insert((*address).to_owned(), *balance);
    }
    let mut block = Block::from_parts(
        miner.address().to_owned(),
        previous_hash,
        list,
        balance_state,
        0,
        created_at,
        None,
    );
    if mine {
        let is_mining = AtomicBool::new(true);
        block.generate_proof_of_work(&is_mining).unwrap();
    }
    if sign {
        block.sign(miner).unwrap();
    }
    block
}

fn reward(miner: &User, previous_hash: &str) -> Transaction {
    Transaction::new("STORAGE", miner.address(), 1, previous_hash)
}

#[test]
fn genesis_bootstrap() {
    let miner = User::generate();
    let is_mining = AtomicBool::new(false);
    let mut chain = Blockchain::new(miner.clone());
    assert!(chain.is_empty());
    assert_eq!(chain.len(), 0);
    assert_eq!(chain.get_last_block_hash(), Err(GetLastBlockHashError::NoBlocks));
    assert_eq!(chain.get_balance(miner.address()), 0);

    let block = chain.mine_genesis_block(&is_mining).unwrap();

    assert_eq!(chain.len(), 1);
    assert!(!chain.is_empty());
    assert_eq!(chain.get_balance(miner.address()), 100);
    assert_eq!(chain.get_balance("STORAGE"), 100);
    assert_eq!(chain.get_balance("somebody else"), 0);
    assert!(!is_mining.load(Ordering::SeqCst));

    assert_eq!(block.miner(), miner.address());
    assert_eq!(block.previous_hash(), None);
    assert_eq!(block.transactions().len(), 0);
    assert_eq!(block.balance_state().len(), 2);
    assert_eq!(block.balance_state().get(miner.address()), Some(100));
    assert_eq!(block.balance_state().get("STORAGE"), Some(100));
    assert!(block.compute_hash().starts_with("0000"));
    assert_eq!(block.validate_proof_of_work(), Ok(()));
    assert_eq!(block.validate_miner_signature(), Ok(()));
    assert_eq!(chain.get_last_block_hash().unwrap(), block.compute_hash());
    assert_eq!(chain.blocks()[0].to_json(), block.to_json());
}

#[test]
fn happy_path_transaction_and_mine() {
    let miner = User::generate();
    let is_mining = AtomicBool::new(false);
    let mut chain = Blockchain::new(miner.clone());
    chain.mine_genesis_block(&is_mining).unwrap();
    let recipient = User::generate();

    let first = signed(&miner, recipient.address(), 5, &chain);
    assert_eq!(chain.add_transaction(first.clone()), Ok(()));
    assert!(!chain.minable());
    assert_eq!(chain.get_balance(miner.address()), 95);
    assert_eq!(chain.get_balance(recipient.address()), 5);
    assert_eq!(chain.get_balance("STORAGE"), 100);

    let second = signed(&miner, recipient.address(), 15, &chain);
    assert_eq!(chain.add_transaction(second.clone()), Ok(()));
    assert!(chain.minable());
    assert_eq!(chain.get_balance(miner.address()), 79);
    assert_eq!(chain.get_balance(recipient.address()), 20);
    assert_eq!(chain.get_balance("STORAGE"), 101);

    let genesis_hash = chain.get_last_block_hash().unwrap();
    let before = chain.clone();
    // The node mines on a copy and puts it in the engine's place.
    let (block, package) = blockchain::node::helpers::mine_block(&mut chain, &is_mining).unwrap();

    // What is announced: the block, and the length that the chain had.
    assert_eq!(package.action(), blockchain::package::Action::AddBlock);
    assert_eq!(package.data(), format!("{{\"block\":{},\"blockchain_len\":1}}", block.to_json()));
    let parsed: serde_json::Value = serde_json::from_str(package.data()).unwrap();
    assert_eq!(parsed["blockchain_len"].as_u64(), Some(1));
    assert_eq!(parsed["block"]["nonce"].as_u64(), Some(block.nonce()));
    assert_eq!(parsed["block"]["transactions"].as_array().unwrap().len(), 3);

    // The copy that was made before is as it was.
    assert_eq!(before.len(), 1);
    assert!(before.minable());
    assert_eq!(before.get_balance("STORAGE"), 101);
    // The block fits the chain that it was mined on, from its own time on.
    assert_eq!(block.validate_integrity_at(&before, block.created_at()), Ok(()));
    assert_eq!(block.validate_integrity(&before), Ok(()));
    assert_eq!(
        block.validate_integrity_at(&before, block.created_at() - 1),
        Err(ValidateBlockIntegrityError::ValidateCreatedAt(ValidateBlockCreatedAtError::InFuture))
    );
    assert_eq!(block.nonce(), chain.blocks()[1].nonce());

    assert_eq!(chain.len(), 2);
    assert!(!chain.minable());
    assert_eq!(chain.preparing_block_state().transactions().len(), 0);
    assert_eq!(block.transactions().len(), 3);
    assert_eq!(block.transactions()[0].to_json(), first.to_json());
    assert_eq!(block.transactions()[1].to_json(), second.to_json());
    let reward = &block.transactions()[2];
    assert_eq!(reward.sender(), "STORAGE");
    assert_eq!(reward.recipient(), miner.address());
    assert_eq!(reward.amount(), 1);
    assert_eq!(reward.amount_to_storage(), 0);
    assert_eq!(reward.sender_signature(), None);
    assert_eq!(reward.previous_block_hash(), genesis_hash);
    assert_eq!(block.previous_hash(), Some(genesis_hash.as_str()));
    assert!(block.compute_hash().starts_with("0000"));

    assert_eq!(chain.get_balance(recipient.address()), 20);
    // 100 - 5 - 15 - 1 (storage share) + 1 (reward)
    assert_eq!(chain.get_balance(miner.address()), 80);
    // 100 + 1 (storage share) - 1 (the reward, which the storage pays)
    assert_eq!(chain.get_balance("STORAGE"), 100);
    assert_eq!(block.balance_state().get(recipient.address()), Some(20));
    assert_eq!(block.balance_state().get(miner.address()), Some(80));
    assert_eq!(block.balance_state().get("STORAGE"), Some(100));
    assert_eq!(block.balance_state().len(), 3);
    // What the three hold together is what they held before the block.
    assert_eq!(20 + 80 + 100, 0 + 100 + 100);
    assert!(!is_mining.load(Ordering::SeqCst));
}

#[test]
fn rejection_bad_signature() {
    let (miner, chain, _is_mining) = genesis_chain();
    let transaction = signed(&miner, "recipient", 50, &chain);
    assert_eq!(transaction.validate_integrity(&chain), Ok(()));

    // One byte of the amount's decimal text is another.
    let tampered = Transaction::from_parts(
        transaction.sender().to_owned(),
        transaction.recipient().to_owned(),
        51,
        transaction.amount_to_storage(),
        transaction.previous_block_hash().to_owned(),
        transaction.random_string().to_owned(),
        transaction.sender_signature().map(str::to_owned),
    )
    .unwrap();
    assert!(matches!(
        tampered.validate_integrity(&chain),
        Err(ValidateTransactionIntegrityError::SenderSignature(
            ValidateTransactionSenderSignatureError::Validate(_)
        ))
    ));

    // One byte of the signature is another.
    let mut signature: Vec<u8> = transaction.sender_signature().unwrap().bytes().collect();
    signature[10] = if signature[10] == b'2' { b'3' } else { b'2' };
    let tampered = Transaction::from_parts(
        transaction.sender().to_owned(),
        transaction.recipient().to_owned(),
        transaction.amount(),
        transaction.amount_to_storage(),
        transaction.previous_block_hash().to_owned(),
        transaction.random_string().to_owned(),
        Some(String::from_utf8(signature).unwrap()),
    )
    .unwrap();
    assert!(matches!(
        tampered.validate_integrity(&chain),
        Err(ValidateTransactionIntegrityError::SenderSignature(
            ValidateTransactionSenderSignatureError::Validate(_)
        ))
    ));
}

#[test]
fn the_mined_chain_is_a_chain() {
    let (miner, other, blocks) = mined_chain();
    for block in &blocks {
        assert!(block.compute_hash().starts_with("0000"));
        assert_eq!(block.validate_proof_of_work(), Ok(()));
        assert_eq!(block.validate_miner_signature(), Ok(()));
    }
    let is_mining = AtomicBool::new(false);
    let chain = Blockchain::from_blocks_at(miner.clone(), &blocks, FAR_FUTURE, &is_mining).unwrap();
    assert_eq!(chain.len(), 4);
    assert_eq!(chain.get_balance(miner.address()), 77);
    assert_eq!(chain.get_balance(other.address()), 24);
    assert_eq!(chain.get_balance("STORAGE"), 99);
    // What the three hold together never changes.
    for block in &blocks {
        let total: u64 =
            (0..block.balance_state().len()).map(|i| block.balance_state().balance_at(i)).sum();
        assert_eq!(total, 200);
    }
    // Every block names the hash of the one before it, and is later.
    for pair in blocks.windows(2) {
        assert_eq!(pair[1].previous_hash(), Some(pair[0].compute_hash().as_str()));
        assert!(pair[1].created_at() > pair[0].created_at());
        let strings: Vec<&str> = pair[1].transactions().iter().map(|t| t.random_string()).collect();
        assert_eq!(strings.len(), 3);
        assert!(strings[0] != strings[1] && strings[0] != strings[2] && strings[1] != strings[2]);
        for transaction in pair[1].transactions() {
            assert_eq!(Some(transaction.previous_block_hash()), pair[1].previous_hash());
        }
    }
}

#[test]
fn lag_recovery() {
    // A has mined blocks 1 and 2 while B was away, and now block 3.
    let (miner, other, blocks) = mined_chain();
    let flag_a = AtomicBool::new(false);
    let flag_b = AtomicBool::new(true);
    let a = Blockchain::from_blocks_at(miner.clone(), &blocks, FAR_FUTURE, &flag_a).unwrap();
    let mut b =
        Blockchain::from_blocks_at(User::generate(), &blocks[..1].to_vec(), FAR_FUTURE, &flag_b)
            .unwrap();
    assert_eq!(a.len(), 4);
    assert_eq!(b.len(), 1);

    // A announces block 3 to B.
    let third = &blocks[3];
    let announced_len = a.len();
    assert_eq!(
        b.add_block(third, false, &flag_b),
        Err(AddBlockError::ValidateIntegrity(ValidateBlockIntegrityError::ValidatePreviousHash(
            ValidateBlockPreviousHashError::HashesNotEquals
        )))
    );
    assert!(announced_len > b.len());

    // B takes over A's blocks.
    flag_b.store(true, Ordering::SeqCst);
    let sent: Vec<Block> = a.blocks().to_vec();
    blockchain::node::helpers::transfer_blockchain_from(&mut b, &sent, &flag_b).unwrap();

    assert!(!flag_b.load(Ordering::SeqCst));
    assert_eq!(b.len(), a.len());
    for (ours, theirs) in b.blocks().iter().zip(a.blocks()) {
        assert_eq!(ours.compute_hash(), theirs.compute_hash());
    }
    assert_eq!(b.to_string(), a.to_string());
    assert_eq!(b.get_balance(other.address()), 24);
    assert_eq!(b.get_balance(miner.address()), a.get_balance(miner.address()));
    assert_ne!(b.miner().address(), a.miner().address());
}

#[test]
fn admission_errors() {
    let (miner, mut chain, _is_mining) = genesis_chain();
    let hash = chain.get_last_block_hash().unwrap();

    // The recipient is the storage.
    let mut to_storage = Transaction::new(miner.address(), "STORAGE", 5, &hash);
    to_storage.sign(&miner).unwrap();
    assert_eq!(
        chain.add_transaction(to_storage),
        Err(AddTransactionError::ValidateIntegrity(ValidateTransactionIntegrityError::Recipient(
            ValidateTransactionRecipientError::IsStorage
        )))
    );

    // No signature.
    let unsigned = Transaction::new(miner.address(), "recipient", 5, &hash);
    assert_eq!(
        chain.add_transaction(unsigned),
        Err(AddTransactionError::ValidateIntegrity(
            ValidateTransactionIntegrityError::SenderSignature(
                ValidateTransactionSenderSignatureError::IsEmpty
            )
        ))
    );

    // Another last hash.
    let mut stale = Transaction::new(miner.address(), "recipient", 5, "0000abcd");
    stale.sign(&miner).unwrap();
    assert_eq!(
        chain.add_transaction(stale),
        Err(AddTransactionError::ValidateIntegrity(
            ValidateTransactionIntegrityError::PreviousBlockHash(
                ValidateTransactionPreviousBlockHashError::HashesNotEquals
            )
        ))
    );

    // More than the sender has: 100 is there, 100 and the share are asked.
    assert_eq!(
        chain.add_transaction(signed(&miner, "recipient", 100, &chain)),
        Err(AddTransactionError::RemoveFromBalance(RemoveFromBalanceError::NotEnoughMoney))
    );
    let poor = User::generate();
    assert_eq!(
        chain.add_transaction(signed(&poor, "recipient", 1, &chain)),
        Err(AddTransactionError::RemoveFromBalance(RemoveFromBalanceError::NotEnoughMoney))
    );
    assert_eq!(
        chain.add_transaction(signed(&miner, "recipient", u64::MAX, &chain)),
        Err(AddTransactionError::RemoveFromBalance(RemoveFromBalanceError::NotEnoughMoney))
    );

    // Nothing of this changed the state.
    assert_eq!(chain.preparing_block_state().transactions().len(), 0);
    assert_eq!(chain.preparing_block_state().balance_state().len(), 0);
    assert_eq!(chain.get_balance(miner.address()), 100);

    // 99 and the share is all that the sender has.
    assert_eq!(chain.add_transaction(signed(&miner, "recipient", 99, &chain)), Ok(()));
    assert_eq!(chain.get_balance(miner.address()), 0);
    assert_eq!(chain.get_balance("recipient"), 99);
    assert_eq!(chain.get_balance("STORAGE"), 101);
}

#[test]
fn the_limit_counts_the_transactions_of_users() {
    let (miner, mut chain, _is_mining) = genesis_chain();
    let hash = chain.get_last_block_hash().unwrap();
    // The storage's transaction first: two of users still have room.
    assert_eq!(chain.add_transaction(Transaction::new("STORAGE", miner.address(), 1, &hash)), Ok(()));
    assert_eq!(chain.add_transaction(signed(&miner, "a", 1, &chain)), Ok(()));
    assert!(chain.minable());
    assert_eq!(chain.add_transaction(signed(&miner, "b", 2, &chain)), Ok(()));
    assert_eq!(chain.preparing_block_state().transactions().len(), 3);
    assert_eq!(
        chain.add_transaction(signed(&miner, "c", 3, &chain)),
        Err(AddTransactionError::LimitReached)
    );
    assert_eq!(chain.get_balance(miner.address()), 98);
    assert_eq!(chain.get_balance("STORAGE"), 99);
}

#[test]
fn limit_of_user_transactions() {
    let (miner, mut chain, _is_mining) = genesis_chain();
    assert_eq!(chain.add_transaction(signed(&miner, "a", 1, &chain)), Ok(()));
    assert_eq!(chain.add_transaction(signed(&miner, "b", 2, &chain)), Ok(()));
    assert_eq!(
        chain.add_transaction(signed(&miner, "c", 3, &chain)),
        Err(AddTransactionError::LimitReached)
    );
    assert_eq!(chain.get_balance("c"), 0);
    // The storage's transaction is the third.
    let hash = chain.get_last_block_hash().unwrap();
    assert_eq!(chain.add_transaction(Transaction::new("STORAGE", miner.address(), 1, &hash)), Ok(()));
    assert_eq!(chain.preparing_block_state().transactions().len(), 3);
    // A fourth finds the block full, whoever sends it.
    assert_eq!(
        chain.add_transaction(Transaction::new("STORAGE", miner.address(), 1, &hash)),
        Err(AddTransactionError::LimitReached)
    );
    assert_eq!(
        chain.add_transaction(signed(&miner, "c", 3, &chain)),
        Err(AddTransactionError::LimitReached)
    );
    assert_eq!(chain.preparing_block_state().transactions().len(), 3);
}

#[test]
fn a_balance_that_would_not_fit_is_refused() {
    // A first block is taken as it is: let the storage and a rich user hold
    // nearly all that 64 bits can count.
    let miner = User::generate();
    let rich = User::generate();
    let first = forged_block(
        &miner,
        None,
        Vec::new(),
        &[(rich.address(), u64::MAX - 5), ("STORAGE", u64::MAX), (miner.address(), 100)],
        1,
        false,
        true,
    );
    let is_mining = AtomicBool::new(false);
    let mut chain = Blockchain::from_blocks(miner.clone(), &vec![first], &is_mining).unwrap();

    assert_eq!(
        chain.add_transaction(signed(&miner, rich.address(), 6, &chain)),
        Err(AddTransactionError::AddToRecipientBalance(AddToBalanceError::Overflow))
    );
    assert_eq!(
        chain.add_transaction(signed(&miner, "somebody", 10, &chain)),
        Err(AddTransactionError::AddToStorageBalance(AddToBalanceError::Overflow))
    );
    assert_eq!(chain.preparing_block_state().balance_state().len(), 0);
    assert_eq!(chain.get_balance(miner.address()), 100);
    assert_eq!(chain.add_transaction(signed(&miner, rich.address(), 5, &chain)), Ok(()));
    assert_eq!(chain.get_balance(rich.address()), u64::MAX);
}

#[test]
fn transfer_to_oneself() {
    let (miner, mut chain, _is_mining) = genesis_chain();
    let hash = chain.get_last_block_hash().unwrap();
    let me = miner.address().to_owned();
    // The sender pays amount and share, and receives the amount.
    let to_myself = signed(&miner, miner.address(), 50, &chain);
    assert_eq!(chain.add_transaction(to_myself.clone()), Ok(()));
    assert_eq!(chain.get_balance(miner.address()), 99);
    assert_eq!(chain.get_balance("STORAGE"), 101);

    // A block is held to the same account.
    let transactions = || vec![to_myself.clone(), signed(&miner, "b", 2, &chain), reward(&miner, &hash)];
    let block = |balances: &[(&str, u64)]| {
        forged_block(&miner, Some(hash.clone()), transactions(), balances, 5, false, false)
    };
    assert_eq!(
        block(&[(me.as_str(), 98), ("b", 2), ("STORAGE", 100)]).validate_transactions(&chain),
        Ok(())
    );
    assert_eq!(
        block(&[(me.as_str(), 48), ("b", 2), ("STORAGE", 100)]).validate_transactions(&chain),
        Err(ValidateBlockTransactionsError::ValidateSenderBalanceState(
            ValidateBlockBalanceStateError::BalancesNotEquals
        ))
    );
    assert_eq!(
        block(&[(me.as_str(), 98), ("b", 2), ("STORAGE", 99)]).validate_transactions(&chain),
        Err(ValidateBlockTransactionsError::ValidateSenderBalanceState(
            ValidateBlockBalanceStateError::BalancesNotEquals
        ))
    );
}

#[test]
fn mining_without_a_chain_or_a_reward() {
    let is_mining = AtomicBool::new(false);
    let mut empty = Blockchain::new(User::generate());
    assert_eq!(
        empty.mine_block(&is_mining).err(),
        Some(MineBlockError::MakeStorageTransaction(
            MakeStorageTransactionError::GetLastBlockHash(GetLastBlockHashError::NoBlocks)
        ))
    );
    assert_eq!(empty.len(), 0);

    // A storage without money cannot pay the reward.
    let miner = User::generate();
    let first = forged_block(&miner, None, Vec::new(), &[(miner.address(), 100)], 1, false, true);
    let mut chain = Blockchain::from_blocks(miner.clone(), &vec![first], &is_mining).unwrap();
    chain.add_transaction(signed(&miner, "a", 1, &chain)).unwrap();
    chain.add_transaction(signed(&miner, "b", 2, &chain)).unwrap();
    assert_eq!(
        chain.mine_block(&is_mining).err(),
        Some(MineBlockError::MakeStorageTransaction(MakeStorageTransactionError::Add(
            AddTransactionError::RemoveFromBalance(RemoveFromBalanceError::NotEnoughMoney)
        )))
    );
    // The engine is as it was.
    assert_eq!(chain.len(), 1);
    assert_eq!(chain.preparing_block_state().transactions().len(), 2);
    assert_eq!(chain.get_balance("b"), 2);
}

#[test]
fn mining_an_unfilled_state_gives_a_block_that_is_refused() {
    let (_miner, mut chain, is_mining) = genesis_chain();
    assert_eq!(
        chain.mine_block(&is_mining).err(),
        Some(MineBlockError::AddBlock(AddBlockError::ValidateIntegrity(
            ValidateBlockIntegrityError::ValidateTransactions(
                ValidateBlockTransactionsError::InvalidUserCount
            )
        )))
    );
    assert_eq!(chain.len(), 1);
    assert_eq!(chain.preparing_block_state().transactions().len(), 0);
    assert_eq!(chain.get_balance("STORAGE"), 100);
    assert!(!is_mining.load(Ordering::SeqCst));
}

#[test]
fn balance_before_a_block() {
    let (miner, other, chain, _is_mining) = engine_on(4);
    let blocks: Vec<Block> = chain.blocks().to_vec();
    let (me, you) = (miner.address(), other.address());

    assert_eq!(chain.get_balance_from_database(you, None), 24);
    assert_eq!(chain.get_balance_from_database(you, Some(&blocks[3])), 27);
    assert_eq!(chain.get_balance_from_database(you, Some(&blocks[2])), 20);
    assert_eq!(chain.get_balance_from_database(you, Some(&blocks[1])), 0);
    assert_eq!(chain.get_balance_from_database(me, None), 77);
    assert_eq!(chain.get_balance_from_database(me, Some(&blocks[3])), 73);
    assert_eq!(chain.get_balance_from_database(me, Some(&blocks[2])), 80);
    assert_eq!(chain.get_balance_from_database(me, Some(&blocks[1])), 100);
    assert_eq!(chain.get_balance_from_database("STORAGE", Some(&blocks[3])), 100);
    assert_eq!(chain.get_balance_from_database("STORAGE", None), 99);
    assert_eq!(chain.get_balance_from_database("nobody", None), 0);
    // A first block has no predecessor: every block counts.
    assert_eq!(chain.get_balance_from_database(you, Some(&blocks[0])), 24);
    // So does a block whose previous hash is not on the chain.
    let stray = Block::from_parts(
        me.to_owned(),
        Some("no hash".to_owned()),
        arrayvec::ArrayVec::new(),
        BalanceState::new(),
        0,
        0,
        None,
    );
    assert_eq!(chain.get_balance_from_database(you, Some(&stray)), 24);
    assert!(chain.get_block_before_block(&stray).is_none());

    assert_eq!(
        chain.get_block_before_block(&blocks[3]).unwrap().compute_hash(),
        blocks[2].compute_hash()
    );
    assert_eq!(
        chain.get_block_before_block(&blocks[1]).unwrap().compute_hash(),
        blocks[0].compute_hash()
    );
    assert!(chain.get_block_before_block(&blocks[0]).is_none());
}

#[test]
fn blocks_that_do_not_fit() {
    let (miner, other, blocks) = mined_chain();
    let is_mining = AtomicBool::new(false);
    let mut chain =
        Blockchain::from_blocks_at(miner.clone(), &blocks[..1].to_vec(), FAR_FUTURE, &is_mining)
            .unwrap();
    let second = &blocks[1];
    let rebuilt = |nonce: u64, signature: Option<String>| {
        let mut list = arrayvec::ArrayVec::new();
        for transaction in second.transactions() {
            list.push(transaction.clone());
        }
        Block::from_parts(
            second.miner().to_owned(),
            second.previous_hash().map(str::to_owned),
            list,
            second.balance_state().clone(),
            nonce,
            second.created_at(),
            signature,
        )
    };
    let mut refused = |block: &Block| {
        let out = chain.add_block_at(block, false, FAR_FUTURE, &is_mining);
        assert_eq!(chain.len(), 1);
        match out {
            Err(AddBlockError::ValidateIntegrity(e)) => e,
            Ok(()) => panic!("the block was added"),
        }
    };

    // Another previous hash: the third block does not follow the first.
    assert_eq!(
        refused(&blocks[2]),
        ValidateBlockIntegrityError::ValidatePreviousHash(
            ValidateBlockPreviousHashError::HashesNotEquals
        )
    );

    // No proof of work: the nonce before the right one.
    assert_eq!(
        refused(&rebuilt(second.nonce() - 1, second.miner_signature().map(str::to_owned))),
        ValidateBlockIntegrityError::ValidateProofOfWork(ValidateBlockProofOfWorkError::Invalid)
    );

    // No signature.
    assert_eq!(
        refused(&rebuilt(second.nonce(), None)),
        ValidateBlockIntegrityError::ValidateIsSigned(ValidateBlockIsSignedError::NotSigned)
    );

    // Signed by another than the miner.
    let mut forged = rebuilt(second.nonce(), None);
    forged.sign(&other).unwrap();
    assert_eq!(
        refused(&forged),
        ValidateBlockIntegrityError::ValidateMinerSignature(
            ValidateBlockMinerSignatureError::ValidateUserSignature(
                ValidateUserSignatureError::AddressesNotEquals
            )
        )
    );

    // Too few transactions.
    let hash = blocks[0].compute_hash();
    let block = forged_block(&miner, Some(hash), Vec::new(), &[], FIRST_TIME + 1, true, true);
    assert_eq!(
        refused(&block),
        ValidateBlockIntegrityError::ValidateTransactions(
            ValidateBlockTransactionsError::InvalidUserCount
        )
    );

    // And the second block itself fits.
    assert_eq!(chain.add_block_at(second, false, second.created_at(), &is_mining), Ok(()));
    assert_eq!(chain.len(), 2);
}

fn honest(miner: &User, chain: &Blockchain) -> Vec<Transaction> {
    let hash = chain.get_last_block_hash().unwrap();
    vec![signed(miner, "a", 1, chain), signed(miner, "b", 2, chain), reward(miner, &hash)]
}

#[test]
fn transactions_that_do_not_fit() {
    let (miner, chain, _is_mining) = genesis_chain();
    let hash = chain.get_last_block_hash().unwrap();
    let me = miner.address().to_owned();
    let check = |transactions: Vec<Transaction>, balances: &[(&str, u64)]| {
        let block = forged_block(&miner, Some(hash.clone()), transactions, balances, 5, false, false);
        block.validate_transactions(&chain)
    };
    let good = [(me.as_str(), 98u64), ("a", 1), ("b", 2), ("STORAGE", 99)];

    // Too few.
    assert_eq!(
        check(vec![signed(&miner, "a", 1, &chain), reward(&miner, &hash)], &good),
        Err(ValidateBlockTransactionsError::InvalidUserCount)
    );
    assert_eq!(check(Vec::new(), &good), Err(ValidateBlockTransactionsError::InvalidUserCount));

    // No transaction of the storage, and two of them.
    let three_users = vec![
        signed(&miner, "a", 1, &chain),
        signed(&miner, "b", 2, &chain),
        signed(&miner, "c", 3, &chain),
    ];
    assert_eq!(
        check(three_users, &good),
        Err(ValidateBlockTransactionsError::InvalidStorageCount)
    );
    let two_rewards =
        vec![signed(&miner, "a", 1, &chain), reward(&miner, &hash), reward(&miner, &hash)];
    assert_eq!(
        check(two_rewards, &good),
        Err(ValidateBlockTransactionsError::InvalidStorageCount)
    );

    // The same random string twice.
    let first = signed(&miner, "a", 1, &chain);
    let twice = vec![first.clone(), first.clone(), reward(&miner, &hash)];
    assert_eq!(check(twice, &good), Err(ValidateBlockTransactionsError::RandomStringNotUnique));
    let twice = vec![first.clone(), reward(&miner, &hash), first.clone()];
    assert_eq!(check(twice, &good), Err(ValidateBlockTransactionsError::RandomStringNotUnique));

    // A transaction that is not signed.
    let unsigned = vec![
        Transaction::new(miner.address(), "a", 1, &hash),
        signed(&miner, "b", 2, &chain),
        reward(&miner, &hash),
    ];
    assert_eq!(
        check(unsigned, &good),
        Err(ValidateBlockTransactionsError::ValidateTransactionIntegrity(
            ValidateTransactionIntegrityError::SenderSignature(
                ValidateTransactionSenderSignatureError::IsEmpty
            )
        ))
    );

    // The reward goes to another than the miner, or is not the reward.
    let stranger = vec![
        signed(&miner, "a", 1, &chain),
        signed(&miner, "b", 2, &chain),
        Transaction::new("STORAGE", "a", 1, &hash),
    ];
    assert_eq!(
        check(stranger, &[(me.as_str(), 97), ("a", 2), ("b", 2), ("STORAGE", 99)]),
        Err(ValidateBlockTransactionsError::RewardedNotMiner)
    );
    let greedy = vec![
        Transaction::new("STORAGE", miner.address(), 2, &hash),
        signed(&miner, "a", 1, &chain),
        signed(&miner, "b", 2, &chain),
    ];
    assert_eq!(check(greedy, &good), Err(ValidateBlockTransactionsError::InvalidReward));

    // Balances: none stated, another stated, more spent than there was.
    assert_eq!(
        check(honest(&miner, &chain), &[("a", 1), ("b", 2), ("STORAGE", 99)]),
        Err(ValidateBlockTransactionsError::ValidateSenderBalanceState(
            ValidateBlockBalanceStateError::NoBalanceInState
        ))
    );
    assert_eq!(
        check(honest(&miner, &chain), &[(me.as_str(), 98), ("b", 2), ("STORAGE", 99)]),
        Err(ValidateBlockTransactionsError::ValidateRecipientBalanceState(
            ValidateBlockBalanceStateError::NoBalanceInState
        ))
    );
    assert_eq!(
        check(honest(&miner, &chain), &[(me.as_str(), 99), ("a", 1), ("b", 2), ("STORAGE", 99)]),
        Err(ValidateBlockTransactionsError::ValidateSenderBalanceState(
            ValidateBlockBalanceStateError::BalancesNotEquals
        ))
    );
    assert_eq!(
        check(honest(&miner, &chain), &[(me.as_str(), 98), ("a", 2), ("b", 2), ("STORAGE", 99)]),
        Err(ValidateBlockTransactionsError::ValidateRecipientBalanceState(
            ValidateBlockBalanceStateError::BalancesNotEquals
        ))
    );
    assert_eq!(
        check(honest(&miner, &chain), &[(me.as_str(), 98), ("a", 1), ("b", 2), ("STORAGE", 100)]),
        Err(ValidateBlockTransactionsError::ValidateSenderBalanceState(
            ValidateBlockBalanceStateError::BalancesNotEquals
        ))
    );
    let poor = User::generate();
    let overdrawn = vec![
        signed(&poor, "a", 1, &chain),
        signed(&miner, "b", 2, &chain),
        reward(&miner, &hash),
    ];
    assert_eq!(
        check(overdrawn, &[(poor.address(), 0)]),
        Err(ValidateBlockTransactionsError::ValidateSenderBalanceState(
            ValidateBlockBalanceStateError::SubOverflow
        ))
    );

    // Another previous hash than the transactions name.
    let block =
        forged_block(&miner, Some("other".to_owned()), honest(&miner, &chain), &good, 5, false, false);
    assert_eq!(
        block.validate_transactions(&chain),
        Err(ValidateBlockTransactionsError::PreviousHashesNotEquals)
    );
    let block = forged_block(&miner, None, honest(&miner, &chain), &good, 5, false, false);
    assert_eq!(
        block.validate_transactions(&chain),
        Err(ValidateBlockTransactionsError::PreviousHashesNotEquals)
    );

    // And the transactions that fit.
    assert_eq!(check(honest(&miner, &chain), &good), Ok(()));
    let block = forged_block(&miner, Some(hash.clone()), honest(&miner, &chain), &good, 5, false, false);
    assert_eq!(block.validate_balance_state("a", &chain), Ok(()));
    assert_eq!(
        block.validate_balance_state("nobody", &chain),
        Err(ValidateBlockBalanceStateError::NoBalanceInState)
    );
}

#[test]
fn the_time_of_a_block() {
    let (miner, _other, blocks) = mined_chain();
    let is_mining = AtomicBool::new(false);
    let mut chain =
        Blockchain::from_blocks_at(miner.clone(), &blocks[..1].to_vec(), FAR_FUTURE, &is_mining)
            .unwrap();
    let hash = chain.get_last_block_hash().unwrap();
    let later = FIRST_TIME + 1;
    let at = |created_at: u64| {
        forged_block(&miner, Some(hash.clone()), Vec::new(), &[], created_at, false, false)
    };

    assert_eq!(at(later).validate_created_at(&chain, later), Ok(()));
    assert_eq!(at(later).validate_created_at(&chain, FAR_FUTURE), Ok(()));
    assert_eq!(
        at(later).validate_created_at(&chain, later - 1),
        Err(ValidateBlockCreatedAtError::InFuture)
    );
    assert_eq!(
        at(FIRST_TIME).validate_created_at(&chain, FAR_FUTURE),
        Err(ValidateBlockCreatedAtError::PreviousInFuture)
    );
    assert_eq!(
        at(FIRST_TIME - 1).validate_created_at(&chain, FAR_FUTURE),
        Err(ValidateBlockCreatedAtError::PreviousInFuture)
    );
    assert_eq!(
        at(0).validate_created_at(&chain, 0),
        Err(ValidateBlockCreatedAtError::PreviousInFuture)
    );

    // The whole validation looks at the time last.
    let second = &blocks[1];
    assert_eq!(
        chain.add_block_at(second, false, second.created_at() - 1, &is_mining),
        Err(AddBlockError::ValidateIntegrity(ValidateBlockIntegrityError::ValidateCreatedAt(
            ValidateBlockCreatedAtError::InFuture
        )))
    );
    assert_eq!(chain.len(), 1);
    assert_eq!(second.validate_integrity_at(&chain, second.created_at()), Ok(()));
    assert_eq!(second.validate_integrity(&chain), Ok(()));
    assert_eq!(chain.add_block_at(second, false, second.created_at(), &is_mining), Ok(()));
    assert_eq!(chain.len(), 2);
    assert_eq!(chain.get_balance(miner.address()), 80);
    assert_eq!(chain.get_balance("STORAGE"), 100);
}

#[test]
fn received_money_that_would_not_fit() {
    let miner = User::generate();
    let rich = User::generate();
    let first = forged_block(
        &miner,
        None,
        Vec::new(),
        &[(rich.address(), u64::MAX), ("STORAGE", 100), (miner.address(), 100)],
        1,
        false,
        true,
    );
    let is_mining = AtomicBool::new(false);
    let chain = Blockchain::from_blocks(miner.clone(), &vec![first], &is_mining).unwrap();
    let hash = chain.get_last_block_hash().unwrap();
    let transactions = vec![
        signed(&miner, rich.address(), 1, &chain),
        signed(&miner, "b", 2, &chain),
        reward(&miner, &hash),
    ];
    let block = forged_block(
        &miner,
        Some(hash.clone()),
        transactions,
        &[(miner.address(), 98), (rich.address(), u64::MAX), ("b", 2), ("STORAGE", 99)],
        2,
        false,
        false,
    );
    assert_eq!(
        block.validate_transactions(&chain),
        Err(ValidateBlockTransactionsError::ValidateRecipientBalanceState(
            ValidateBlockBalanceStateError::AddOverflow
        ))
    );
}

#[test]
fn no_block_fits_an_empty_chain() {
    let (miner, _other, blocks) = mined_chain();
    let is_mining = AtomicBool::new(false);
    let mut empty = Blockchain::new(miner);
    assert_eq!(
        blocks[1].validate_previous_hash(&empty),
        Err(ValidateBlockPreviousHashError::GetLastBlockHash(GetLastBlockHashError::NoBlocks))
    );
    assert_eq!(
        blocks[0].validate_previous_hash(&empty),
        Err(ValidateBlockPreviousHashError::GetLastBlockHash(GetLastBlockHashError::NoBlocks))
    );
    assert_eq!(
        empty.add_block_at(&blocks[0], false, FAR_FUTURE, &is_mining),
        Err(AddBlockError::ValidateIntegrity(ValidateBlockIntegrityError::ValidatePreviousHash(
            ValidateBlockPreviousHashError::GetLastBlockHash(GetLastBlockHashError::NoBlocks)
        )))
    );
    assert!(empty.is_empty());
    // As the first block it is taken as it is.
    assert_eq!(empty.add_block_at(&blocks[0], true, 0, &is_mining), Ok(()));
    assert_eq!(empty.len(), 1);
    // A block that names no previous hash does not fit.
    assert_eq!(
        blocks[0].validate_previous_hash(&empty),
        Err(ValidateBlockPreviousHashError::HashesNotEquals)
    );
    assert_eq!(blocks[1].validate_previous_hash(&empty), Ok(()));
}

#[test]
fn adding_a_block_clears_the_state_and_stops_mining() {
    let (miner, mut chain, is_mining) = genesis_chain();
    chain.add_transaction(signed(&miner, "a", 1, &chain)).unwrap();
    is_mining.store(true, Ordering::SeqCst);
    let block = forged_block(&miner, Some("x".to_owned()), Vec::new(), &[], 5, false, true);
    assert!(chain.add_block(&block, false, &is_mining).is_err());
    assert!(!is_mining.load(Ordering::SeqCst));
    assert_eq!(chain.preparing_block_state().transactions().len(), 0);
    assert_eq!(chain.get_balance("a"), 0);
    assert_eq!(chain.len(), 1);
}

#[test]
fn rebuilding_from_blocks() {
    let (_miner, other, blocks) = mined_chain();
    let is_mining = AtomicBool::new(false);
    let two = blocks[..2].to_vec();
    let last_time = two[1].created_at();

    let rebuilt = Blockchain::from_blocks_at(User::generate(), &two, last_time, &is_mining).unwrap();
    assert_eq!(rebuilt.len(), 2);
    assert_eq!(rebuilt.to_string(), format!("[{},{}]", two[0].to_json(), two[1].to_json()));
    assert_eq!(rebuilt.get_balance(other.address()), 20);
    assert_eq!(Blockchain::from_blocks(User::generate(), &blocks, &is_mining).unwrap().len(), 4);

    // At an earlier time the second block is of the future.
    assert_eq!(
        Blockchain::from_blocks_at(User::generate(), &two, last_time - 1, &is_mining).err(),
        Some(BlockchainFromStrError::AddBlock(AddBlockError::ValidateIntegrity(
            ValidateBlockIntegrityError::ValidateCreatedAt(ValidateBlockCreatedAtError::InFuture)
        )))
    );
    // In another order the blocks make no chain: the second block is taken
    // as the first, and the first names no previous hash.
    let swapped = vec![blocks[1].clone(), blocks[0].clone()];
    assert_eq!(
        Blockchain::from_blocks_at(User::generate(), &swapped, FAR_FUTURE, &is_mining).err(),
        Some(BlockchainFromStrError::AddBlock(AddBlockError::ValidateIntegrity(
            ValidateBlockIntegrityError::ValidatePreviousHash(
                ValidateBlockPreviousHashError::HashesNotEquals
            )
        )))
    );
    // With a block left out the next does not name the last hash.
    let gap = vec![blocks[0].clone(), blocks[2].clone()];
    assert_eq!(
        Blockchain::from_blocks_at(User::generate(), &gap, FAR_FUTURE, &is_mining).err(),
        Some(BlockchainFromStrError::AddBlock(AddBlockError::ValidateIntegrity(
            ValidateBlockIntegrityError::ValidatePreviousHash(
                ValidateBlockPreviousHashError::HashesNotEquals
            )
        )))
    );
    // No blocks make an empty chain.
    let empty = Blockchain::from_blocks(User::generate(), &Vec::new(), &is_mining).unwrap();
    assert!(empty.is_empty());
    assert_eq!(empty.to_string(), "[]");
}

#[test]
fn the_chain_as_json() {
    let (_miner, chain, _is_mining) = genesis_chain();
    let block = &chain.blocks()[0];
    assert_eq!(chain.to_string(), format!("[{}]", block.to_json()));
    let parsed: serde_json::Value = serde_json::from_str(&chain.to_string()).unwrap();
    let first = &parsed.as_array().unwrap()[0];
    assert_eq!(first["miner"].as_str().unwrap(), block.miner());
    assert!(first["previous_hash"].is_null());
    assert_eq!(first["transactions"].as_array().unwrap().len(), 0);
    assert_eq!(first["balance_state"]["STORAGE"].as_u64(), Some(100));
    assert_eq!(first["nonce"].as_u64(), Some(block.nonce()));
    assert_eq!(first["miner_signature"].as_str(), block.miner_signature());
    let seconds = first["created_at"].as_f64().unwrap();
    assert_eq!(seconds, std::time::Duration::from_nanos(block.created_at()).as_secs_f64());
}

fn unsigned(block: &Block) -> Block {
    let mut list = arrayvec::ArrayVec::new();
    for transaction in block.transactions() {
        list.push(transaction.clone());
    }
    Block::from_parts(
        block.miner().to_owned(),
        block.previous_hash().map(str::to_owned),
        list,
        block.balance_state().clone(),
        block.nonce(),
        block.created_at(),
        None,
    )
}

#[test]
fn the_end_of_the_mining_of_a_first_block() {
    let (miner, _other, blocks) = mined_chain();
    let is_mining = AtomicBool::new(true);
    let mut chain = Blockchain::new(miner.clone());

    // A search that failed: nothing is changed, and a search that was
    // stopped leaves the flag to the one who stopped it.
    assert_eq!(
        chain
            .finish_genesis_block(
                unsigned(&blocks[0]),
                Err(GenerateBlockProofOfWorkError::Stopped),
                &is_mining
            )
            .err(),
        Some(MineGenesisBlockError::GenerateBlockProofOfWork(
            GenerateBlockProofOfWorkError::Stopped
        ))
    );
    assert!(chain.is_empty());
    assert!(is_mining.load(Ordering::SeqCst));
    assert_eq!(
        chain
            .finish_genesis_block(
                unsigned(&blocks[0]),
                Err(GenerateBlockProofOfWorkError::NonceExhausted),
                &is_mining
            )
            .err(),
        Some(MineGenesisBlockError::GenerateBlockProofOfWork(
            GenerateBlockProofOfWorkError::NonceExhausted
        ))
    );
    assert!(chain.is_empty());
    assert!(!is_mining.load(Ordering::SeqCst));

    // A search that succeeded: the block is signed and is the first.
    is_mining.store(true, Ordering::SeqCst);
    let added = chain.finish_genesis_block(unsigned(&blocks[0]), Ok(()), &is_mining).unwrap();
    assert_eq!(added.to_json(), blocks[0].to_json());
    assert_eq!(added.validate_miner_signature(), Ok(()));
    assert_eq!(chain.len(), 1);
    assert_eq!(chain.blocks()[0].to_json(), blocks[0].to_json());
    assert_eq!(chain.get_balance(miner.address()), 100);
    assert!(!is_mining.load(Ordering::SeqCst));
}

#[test]
fn the_end_of_the_mining_of_a_block() {
    let (miner, other, mut chain, is_mining) = engine_on(1);
    let (_, _, blocks) = mined_chain();
    let second = &blocks[1];
    chain.add_transaction(signed(&miner, "a", 1, &chain)).unwrap();

    // A search that failed: nothing is changed.
    assert_eq!(
        chain
            .finish_block(
                unsigned(second),
                Err(GenerateBlockProofOfWorkError::Stopped),
                FAR_FUTURE,
                &is_mining
            )
            .err(),
        Some(MineBlockError::GenerateBlockProofOfWork(GenerateBlockProofOfWorkError::Stopped))
    );
    assert_eq!(chain.len(), 1);
    assert_eq!(chain.get_balance("a"), 1);

    // A block that is not added: the chain stays, the pending state goes.
    assert_eq!(
        chain.finish_block(unsigned(second), Ok(()), second.created_at() - 1, &is_mining).err(),
        Some(MineBlockError::AddBlock(AddBlockError::ValidateIntegrity(
            ValidateBlockIntegrityError::ValidateCreatedAt(ValidateBlockCreatedAtError::InFuture)
        )))
    );
    assert_eq!(chain.len(), 1);
    assert_eq!(chain.get_balance("a"), 0);
    assert_eq!(
        chain.finish_block(unsigned(&blocks[2]), Ok(()), FAR_FUTURE, &is_mining).err(),
        Some(MineBlockError::AddBlock(AddBlockError::ValidateIntegrity(
            ValidateBlockIntegrityError::ValidatePreviousHash(
                ValidateBlockPreviousHashError::HashesNotEquals
            )
        )))
    );

    // The block that was mined: it is signed and added.
    is_mining.store(true, Ordering::SeqCst);
    let added = chain.finish_block(unsigned(second), Ok(()), second.created_at(), &is_mining).unwrap();
    assert_eq!(added.to_json(), second.to_json());
    assert_eq!(chain.len(), 2);
    assert_eq!(chain.get_last_block_hash().unwrap(), second.compute_hash());
    assert_eq!(chain.get_balance(other.address()), 20);
    assert!(!is_mining.load(Ordering::SeqCst));
}
