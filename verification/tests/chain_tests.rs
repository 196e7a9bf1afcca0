use godcoin::asset::Asset;
use godcoin::chain::{Blockchain, TxErr};
use godcoin::chain::TxManager;
use godcoin::constants::{
    grael_fee_min, grael_fee_mult, FEE_RESET_WINDOW, MAX_MEMO_BYTE_SIZE, MAX_SCRIPT_BYTE_SIZE,
    NETWORK_FEE_AVG_WINDOW, TX_EXPIRY_ADJUSTMENT,
};
use godcoin::crypto::Digest;
use godcoin::tx::TxId;
use godcoin::crypto::KeyPair;
use godcoin::net::{handle_request, ErrorKind, MsgRequest, MsgResponse};
use godcoin::script::{Script, ScriptEngine, ScriptErr, ScriptHash};
use godcoin::tx::{MintTx, TransferTx, Tx, TxPrecompData, TxVariant, TxVariantV0};

fn get_asset(s: &str) -> Asset {
    s.parse().unwrap()
}

/// A permissive engine: every script evaluates truthy. Signature policy is
/// the engine's concern, which these tests do not exercise.
struct ApproveAll;

impl ScriptEngine for ApproveAll {
    fn eval(&mut self, _data: &TxPrecompData, _script: &Script) -> Result<bool, ScriptErr> {
        Ok(true)
    }
}

/// A single-node test chain: genesis owner, a pending pool, and block
/// production that returns fees as a reward.
struct TestMinter {
    chain: Blockchain,
    engine: ApproveAll,
    pool: Vec<TxVariant>,
    genesis_script: Script,
    minter_key: KeyPair,
    wallet_keys: Vec<KeyPair>,
    time: u64,
}

impl TestMinter {
    fn new() -> TestMinter {
        let mut chain = Blockchain::new();
        let info = chain.create_genesis_block(KeyPair::gen(), 1);
        let mut minter = TestMinter {
            chain,
            engine: ApproveAll,
            pool: Vec::new(),
            genesis_script: info.script,
            minter_key: info.minter_key,
            wallet_keys: info.wallet_keys,
            time: 2,
        };
        // Seed the genesis wallet with 1000.00000 GRAEL.
        let mint = TxVariant::V0(TxVariantV0::MintTx(MintTx {
            base: Tx {
                nonce: 0,
                expiry: 10,
                fee: get_asset("0.00000 GRAEL"),
                signature_pairs: vec![],
            },
            to: minter.genesis_script.hash(),
            amount: get_asset("1000.00000 GRAEL"),
            attachment: vec![],
            attachment_name: String::new(),
            script: minter.genesis_script.clone(),
        }));
        let res = minter.request(MsgRequest::Broadcast(mint));
        assert!(matches!(res, MsgResponse::Broadcast));
        minter.produce_block().unwrap();
        minter
    }

    fn genesis_addr(&self) -> ScriptHash {
        self.genesis_script.hash()
    }

    fn request(&mut self, req: MsgRequest) -> MsgResponse {
        handle_request(&mut self.chain, &mut self.engine, &mut self.pool, req)
    }

    fn produce_block(&mut self) -> Result<(), godcoin::chain::BlockErr> {
        let pending = std::mem::take(&mut self.pool);
        self.time += 1;
        self.chain
            .produce_block(&mut self.engine, &self.minter_key, pending, self.time)
    }

    fn chain(&self) -> &Blockchain {
        &self.chain
    }
}

fn transfer(
    from_script: &Script,
    to: ScriptHash,
    amount: Asset,
    fee: Asset,
    memo: Vec<u8>,
    signer: &KeyPair,
    nonce: u32,
) -> TxVariant {
    let mut tx = TxVariant::V0(TxVariantV0::TransferTx(TransferTx {
        base: Tx {
            nonce,
            expiry: 1_000_000,
            fee,
            signature_pairs: vec![],
        },
        from: from_script.hash(),
        script: from_script.clone(),
        call_fn: 0,
        args: vec![],
        amount,
        memo,
        to,
    }));
    tx.append_sign(signer);
    tx
}

#[test]
fn transfer_from_minter() {
    let mut minter = TestMinter::new();

    let from_addr = minter.genesis_addr();
    let from_bal = minter.chain().get_balance(&from_addr);
    let to_addr = KeyPair::gen();
    let amount = get_asset("1.00000 GRAEL");

    let script = minter.genesis_script.clone();
    let signer = minter.wallet_keys[0].clone();
    let tx = transfer(
        &script,
        ScriptHash::of_key(&to_addr.0),
        amount,
        get_asset("1.00000 GRAEL"),
        vec![],
        &signer,
        1,
    );
    let res = minter.request(MsgRequest::Broadcast(tx));
    assert!(matches!(res, MsgResponse::Broadcast));
    minter.produce_block().unwrap();

    let cur_bal = minter.chain().get_balance(&ScriptHash::of_key(&to_addr.0));
    assert_eq!(cur_bal, amount);

    // The fee returns to the genesis wallet in the reward transaction, so
    // only the amount leaves it.
    let cur_bal = minter.chain().get_balance(&from_addr);
    assert_eq!(cur_bal, from_bal.checked_sub(amount).unwrap());
}

#[test]
fn transfer_from_user() {
    let mut minter = TestMinter::new();

    let user_1_addr = KeyPair::gen();
    let user_2_addr = KeyPair::gen();
    let user_1_script = Script::single_sig(&user_1_addr.0);

    let script = minter.genesis_script.clone();
    let signer = minter.wallet_keys[0].clone();
    let tx = transfer(
        &script,
        user_1_script.hash(),
        get_asset("100.00000 GRAEL"),
        get_asset("1.00000 GRAEL"),
        vec![],
        &signer,
        1,
    );
    let res = minter.request(MsgRequest::Broadcast(tx));
    assert!(matches!(res, MsgResponse::Broadcast));

    let tx = transfer(
        &user_1_script,
        ScriptHash::of_key(&user_2_addr.0),
        get_asset("99.00000 GRAEL"),
        get_asset("1.00000 GRAEL"),
        vec![],
        &user_1_addr,
        2,
    );
    let res = minter.request(MsgRequest::Broadcast(tx));
    assert!(matches!(res, MsgResponse::Broadcast));
    minter.produce_block().unwrap();

    let user_1_bal = minter.chain().get_balance(&user_1_script.hash());
    assert_eq!(user_1_bal, get_asset("0.00000 GRAEL"));

    let user_2_bal = minter
        .chain()
        .get_balance(&ScriptHash::of_key(&user_2_addr.0));
    assert_eq!(user_2_bal, get_asset("99.00000 GRAEL"));

    // Both fees loop back to the genesis wallet via the reward transaction.
    let minter_bal = minter.chain().get_balance(&minter.genesis_addr());
    assert_eq!(minter_bal, get_asset("901.00000 GRAEL"));
}

#[test]
fn insufficient_balance_caused_by_fee() {
    let mut minter = TestMinter::new();

    let from_addr = minter.genesis_addr();
    let to_addr = KeyPair::gen();
    let script = minter.genesis_script.clone();
    let signer = minter.wallet_keys[0].clone();
    let tx = transfer(
        &script,
        ScriptHash::of_key(&to_addr.0),
        get_asset("0.00000 GRAEL"),
        get_asset("1001.00000 GRAEL"),
        vec![],
        &signer,
        1,
    );
    let res = minter.request(MsgRequest::Broadcast(tx));
    assert!(matches!(
        res,
        MsgResponse::Error(ErrorKind::TxValidation(TxErr::InsufficientBalance), _)
    ));
    minter.produce_block().unwrap();

    let cur_bal = minter.chain().get_balance(&ScriptHash::of_key(&to_addr.0));
    assert_eq!(cur_bal, get_asset("0.00000 GRAEL"));

    let cur_bal = minter.chain().get_balance(&from_addr);
    assert_eq!(cur_bal, get_asset("1000.00000 GRAEL"));
}

#[test]
fn insufficient_fee() {
    let mut minter = TestMinter::new();

    let from_addr = minter.genesis_addr();
    let info = minter
        .chain()
        .get_address_info(&from_addr, &[])
        .unwrap();
    let bad_fee = info
        .total_fee()
        .unwrap()
        .checked_sub(get_asset("0.00001 GRAEL"))
        .unwrap();
    let script = minter.genesis_script.clone();
    let signer = minter.wallet_keys[0].clone();
    let tx = transfer(
        &script,
        ScriptHash::of_key(&KeyPair::gen().0),
        get_asset("0.00000 GRAEL"),
        bad_fee,
        vec![],
        &signer,
        1,
    );
    let res = minter.request(MsgRequest::Broadcast(tx));
    assert!(matches!(
        res,
        MsgResponse::Error(ErrorKind::TxValidation(TxErr::InvalidFeeAmount), _)
    ));
}

#[test]
fn insufficient_balance_caused_by_amt() {
    let mut minter = TestMinter::new();

    let from_addr = minter.genesis_addr();
    let to_addr = KeyPair::gen();
    let script = minter.genesis_script.clone();
    let signer = minter.wallet_keys[0].clone();
    let tx = transfer(
        &script,
        ScriptHash::of_key(&to_addr.0),
        get_asset("500000.00000 GRAEL"),
        get_asset("1.00000 GRAEL"),
        vec![],
        &signer,
        1,
    );
    let res = minter.request(MsgRequest::Broadcast(tx));
    assert!(matches!(
        res,
        MsgResponse::Error(ErrorKind::TxValidation(TxErr::InsufficientBalance), _)
    ));
    minter.produce_block().unwrap();

    let cur_bal = minter.chain().get_balance(&ScriptHash::of_key(&to_addr.0));
    assert_eq!(cur_bal, get_asset("0.00000 GRAEL"));

    let cur_bal = minter.chain().get_balance(&from_addr);
    assert_eq!(cur_bal, get_asset("1000.00000 GRAEL"));
}

#[test]
fn memo_too_large() {
    let mut minter = TestMinter::new();

    let from_addr = minter.genesis_addr();
    let to_addr = KeyPair::gen();
    let script = minter.genesis_script.clone();
    let signer = minter.wallet_keys[0].clone();
    let tx = transfer(
        &script,
        ScriptHash::of_key(&to_addr.0),
        get_asset("1.00000 GRAEL"),
        get_asset("1.00000 GRAEL"),
        (0..=MAX_MEMO_BYTE_SIZE).map(|_| 0).collect(),
        &signer,
        1,
    );
    let res = minter.request(MsgRequest::Broadcast(tx));
    assert!(matches!(
        res,
        MsgResponse::Error(ErrorKind::TxValidation(TxErr::TxTooLarge), _)
    ));
    minter.produce_block().unwrap();

    let cur_bal = minter.chain().get_balance(&ScriptHash::of_key(&to_addr.0));
    assert_eq!(cur_bal, get_asset("0.00000 GRAEL"));

    let cur_bal = minter.chain().get_balance(&from_addr);
    assert_eq!(cur_bal, get_asset("1000.00000 GRAEL"));
}

#[test]
fn script_too_large() {
    let mut minter = TestMinter::new();

    let from_script = Script::new((0..=MAX_SCRIPT_BYTE_SIZE).map(|_| 0).collect());
    let to_addr = KeyPair::gen();
    let signer = minter.wallet_keys[0].clone();
    let tx = transfer(
        &from_script,
        ScriptHash::of_key(&to_addr.0),
        get_asset("1.00000 GRAEL"),
        get_asset("1.00000 GRAEL"),
        vec![],
        &signer,
        1,
    );
    let res = minter.request(MsgRequest::Broadcast(tx));
    assert!(matches!(
        res,
        MsgResponse::Error(ErrorKind::TxValidation(TxErr::TxTooLarge), _)
    ));
}

#[test]
fn tx_addr_dynamic_fee_increase_in_pool() {
    let mut minter = TestMinter::new();
    let from_addr = minter.genesis_addr();

    let res = minter.request(MsgRequest::GetAddressInfo(from_addr.clone()));
    let addr_info = match res {
        MsgResponse::GetAddressInfo(info) => info,
        _ => panic!("Expected GetAddressInfo response"),
    };

    let script = minter.genesis_script.clone();
    let signer = minter.wallet_keys[0].clone();
    let tx = transfer(
        &script,
        ScriptHash::of_key(&KeyPair::gen().0),
        Asset::new(0),
        addr_info.total_fee().unwrap(),
        vec![],
        &signer,
        1,
    );
    let res = minter.request(MsgRequest::Broadcast(tx));
    assert!(matches!(res, MsgResponse::Broadcast));

    let res = minter.request(MsgRequest::GetAddressInfo(from_addr.clone()));
    let old_addr_info = addr_info;
    let addr_info = match res {
        MsgResponse::GetAddressInfo(info) => info,
        _ => panic!("Expected GetAddressInfo response"),
    };

    assert!(addr_info.addr_fee.amount > old_addr_info.addr_fee.amount);

    // The transfer count starts at one, so a single pending transfer quotes
    // the curve at an exponent of two.
    let expected_fee = grael_fee_min()
        .checked_mul(grael_fee_mult().pow(2).unwrap())
        .unwrap();
    assert_eq!(addr_info.addr_fee, expected_fee);

    minter.produce_block().unwrap();
    let res = minter.request(MsgRequest::GetAddressInfo(from_addr));
    let addr_info = match res {
        MsgResponse::GetAddressInfo(info) => info,
        _ => panic!("Expected GetAddressInfo response"),
    };
    assert_eq!(addr_info.addr_fee, expected_fee);
}

#[test]
fn tx_addr_dynamic_fee_increase() {
    let mut minter = TestMinter::new();
    let from_addr = minter.genesis_addr();

    for num in 1..10u16 {
        let res = minter.request(MsgRequest::GetAddressInfo(from_addr.clone()));
        let addr_info = match res {
            MsgResponse::GetAddressInfo(info) => info,
            _ => panic!("Expected GetAddressInfo response"),
        };

        let expected_fee = grael_fee_min()
            .checked_mul(grael_fee_mult().pow(num).unwrap())
            .unwrap();
        assert_eq!(addr_info.addr_fee, expected_fee);

        let script = minter.genesis_script.clone();
        let signer = minter.wallet_keys[0].clone();
        let tx = transfer(
            &script,
            ScriptHash::of_key(&KeyPair::gen().0),
            Asset::new(0),
            addr_info.total_fee().unwrap(),
            vec![],
            &signer,
            num as u32,
        );

        let res = minter.request(MsgRequest::Broadcast(tx));
        assert!(!res.is_err());
        assert!(matches!(res, MsgResponse::Broadcast));
        minter.produce_block().unwrap();
    }

    for _ in 0..=FEE_RESET_WINDOW {
        minter.produce_block().unwrap();
    }

    // The idle blocks reset the address fee back to the curve's start.
    let res = minter.request(MsgRequest::GetAddressInfo(from_addr));
    let addr_info = match res {
        MsgResponse::GetAddressInfo(info) => info,
        _ => panic!("Expected GetAddressInfo response"),
    };

    let expected_fee = grael_fee_min().checked_mul(grael_fee_mult()).unwrap();
    assert_eq!(addr_info.addr_fee, expected_fee);
}

#[test]
fn net_fee_dynamic_increase() {
    let mut minter = TestMinter::new();
    let addrs: Vec<KeyPair> = (0..100).map(|_| KeyPair::gen()).collect();

    for (i, addr) in addrs.iter().enumerate() {
        let script = minter.genesis_script.clone();
        let signer = minter.wallet_keys[0].clone();
        let build = |nonce: u32| {
            transfer(
                &script,
                ScriptHash::of_key(&addr.0),
                Asset::new(100_000),
                get_asset("1.00000 GRAEL"),
                vec![],
                &signer,
                nonce,
            )
        };
        let res = minter.request(MsgRequest::Broadcast(build(i as u32)));
        if matches!(
            res,
            MsgResponse::Error(ErrorKind::TxValidation(TxErr::InvalidFeeAmount), _)
        ) {
            // The address fee has outgrown the flat fee; let the reset
            // window pass and try again.
            for _ in 0..=FEE_RESET_WINDOW {
                minter.produce_block().unwrap();
            }
            let res = minter.request(MsgRequest::Broadcast(build(i as u32)));
            assert!(matches!(res, MsgResponse::Broadcast));
        } else {
            assert!(matches!(res, MsgResponse::Broadcast));
        }
    }

    // Flush the pool and let the aligned window advance over busy blocks.
    for _ in 0..5 {
        minter.produce_block().unwrap();
    }

    let res = minter.request(MsgRequest::GetProperties);
    let props = match res {
        MsgResponse::GetProperties(props) => props,
        _ => panic!("Expected GetProperties response"),
    };
    assert!(props.height > 0);
    let busy_fee = props.network_fee;
    assert!(busy_fee.amount >= grael_fee_min().amount);

    // After a quiet stretch the window holds only reward transactions and
    // the fee settles back down.
    for _ in 0..=(3 * NETWORK_FEE_AVG_WINDOW) {
        minter.produce_block().unwrap();
    }
    let quiet_fee = minter.chain().get_network_fee().unwrap();
    assert!(quiet_fee.amount <= busy_fee.amount);
}

#[test]
fn projection_with_empty_pool_matches_index() {
    let minter = TestMinter::new();
    let addr = minter.genesis_addr();
    let indexed = minter.chain().get_balance(&addr);
    let projected = minter.chain().get_balance_with_txs(&addr, &[]).unwrap();
    assert_eq!(indexed, projected);
}

#[test]
fn merkle_root_depends_on_tx_order() {
    let minter = KeyPair::gen();
    let script = Script::single_sig(&minter.0);
    let make = |nonce: u32| {
        TxVariant::V0(TxVariantV0::TransferTx(TransferTx {
            base: Tx {
                nonce,
                expiry: 1,
                fee: get_asset("1.00000 GRAEL"),
                signature_pairs: vec![],
            },
            from: script.hash(),
            script: script.clone(),
            call_fn: 0,
            args: vec![],
            amount: get_asset("1.00000 GRAEL"),
            memo: vec![],
            to: script.hash(),
        }))
    };
    let a = make(1);
    let b = make(2);
    let forward = vec![a.duplicate(), b.duplicate()];
    let backward = vec![b, a];
    let root_fwd = godcoin::block::calc_tx_merkle_root(&forward);
    let root_bwd = godcoin::block::calc_tx_merkle_root(&backward);
    assert_ne!(root_fwd, root_bwd);
}

#[test]
fn tx_manager() {
    let now: u64 = 1_000_000;
    let id = TxId::from_digest(Digest::from_slice(&[0u8; 32]).unwrap());
    let mut manager = TxManager::new();
    assert!(!manager.has(&id));
    manager.insert(&id, now);
    assert!(manager.has(&id));

    let mut manager = TxManager::new();
    manager.insert(&id, now - TX_EXPIRY_ADJUSTMENT + 1);
    manager.purge_expired(now);
    // The transaction has expired, but the grace period keeps it around.
    assert!(manager.has(&id));

    let mut manager = TxManager::new();
    manager.insert(&id, now - TX_EXPIRY_ADJUSTMENT - 1);
    assert!(manager.has(&id));
    manager.purge_expired(now);
    // Past the grace period the entry is gone.
    assert!(!manager.has(&id));
}

#[test]
fn too_many_signatures() {
    let mut minter = TestMinter::new();
    let to_addr = KeyPair::gen();
    let script = minter.genesis_script.clone();
    let mut tx = TxVariant::V0(TxVariantV0::TransferTx(TransferTx {
        base: Tx {
            nonce: 1,
            expiry: 1_000_000,
            fee: get_asset("1.00000 GRAEL"),
            signature_pairs: vec![],
        },
        from: script.hash(),
        script,
        call_fn: 0,
        args: vec![],
        amount: get_asset("1.00000 GRAEL"),
        memo: vec![],
        to: ScriptHash::of_key(&to_addr.0),
    }));
    for _ in 0..9 {
        tx.append_sign(&KeyPair::gen());
    }
    let res = minter.request(MsgRequest::Broadcast(tx));
    assert!(matches!(
        res,
        MsgResponse::Error(ErrorKind::TxValidation(TxErr::TooManySignatures), _)
    ));
}

#[test]
fn reward_tx_prohibited_on_broadcast() {
    let mut minter = TestMinter::new();
    let tx = TxVariant::V0(TxVariantV0::RewardTx(godcoin::tx::RewardTx {
        base: Tx {
            nonce: 0,
            expiry: 0,
            fee: get_asset("0.00000 GRAEL"),
            signature_pairs: vec![],
        },
        to: minter.genesis_addr(),
        rewards: get_asset("1.00000 GRAEL"),
    }));
    let res = minter.request(MsgRequest::Broadcast(tx));
    assert!(matches!(
        res,
        MsgResponse::Error(ErrorKind::TxValidation(TxErr::TxProhibited), _)
    ));
}

#[test]
fn mint_overflow_is_arithmetic() {
    let mut minter = TestMinter::new();
    let mint = TxVariant::V0(TxVariantV0::MintTx(MintTx {
        base: Tx {
            nonce: 1,
            expiry: 10,
            fee: get_asset("0.00000 GRAEL"),
            signature_pairs: vec![],
        },
        to: minter.genesis_addr(),
        amount: Asset::new(i64::MAX),
        attachment: vec![],
        attachment_name: String::new(),
        script: minter.genesis_script.clone(),
    }));
    let res = minter.request(MsgRequest::Broadcast(mint));
    assert!(matches!(
        res,
        MsgResponse::Error(ErrorKind::TxValidation(TxErr::Arithmetic), _)
    ));
}

/// An engine that refuses every script.
struct RejectAll;

impl ScriptEngine for RejectAll {
    fn eval(&mut self, _data: &TxPrecompData, _script: &Script) -> Result<bool, ScriptErr> {
        Ok(false)
    }
}

/// An engine that always fails outright.
struct FailAll;

impl ScriptEngine for FailAll {
    fn eval(&mut self, _data: &TxPrecompData, _script: &Script) -> Result<bool, ScriptErr> {
        Err(ScriptErr { code: 42 })
    }
}

#[test]
fn script_verdicts_surface_as_errors() {
    let mut minter = TestMinter::new();
    let to_addr = KeyPair::gen();
    let script = minter.genesis_script.clone();
    let signer = minter.wallet_keys[0].clone();
    let tx = transfer(
        &script,
        ScriptHash::of_key(&to_addr.0),
        get_asset("1.00000 GRAEL"),
        get_asset("1.00000 GRAEL"),
        vec![],
        &signer,
        1,
    );

    let mut reject = RejectAll;
    let res = handle_request(&mut minter.chain, &mut reject, &mut minter.pool, MsgRequest::Broadcast(tx.duplicate()));
    assert!(matches!(
        res,
        MsgResponse::Error(ErrorKind::TxValidation(TxErr::ScriptRetFalse), _)
    ));

    let mut fail = FailAll;
    let res = handle_request(&mut minter.chain, &mut fail, &mut minter.pool, MsgRequest::Broadcast(tx));
    assert!(matches!(
        res,
        MsgResponse::Error(ErrorKind::TxValidation(TxErr::ScriptEval(ScriptErr { code: 42 })), _)
    ));
}

#[test]
fn wire_request_round_trip() {
    let req = MsgRequest::GetBlock(42);
    let bytes = req.serialize();
    let mut cur = godcoin::serializer::Cursor::new(&bytes);
    match MsgRequest::deserialize(&mut cur) {
        Some(MsgRequest::GetBlock(h)) => assert_eq!(h, 42),
        _ => panic!("expected a block request"),
    }
    assert_eq!(cur.pos, bytes.len());

    let bad = vec![99u8];
    let mut cur = godcoin::serializer::Cursor::new(&bad);
    assert!(MsgRequest::deserialize(&mut cur).is_none());
}
