use godcoin::asset::Asset;
use godcoin::crypto::KeyPair;
use godcoin::script::{Script, ScriptHash};
use godcoin::serializer::Cursor;
use godcoin::tx::{
    MintTx, OwnerTx, TransferTx, Tx, TxVariant, TxVariantV0,
};

fn get_asset(s: &str) -> Asset {
    s.parse().unwrap()
}

fn base_tx(nonce: u32, expiry: u64, fee: &str) -> Tx {
    Tx {
        nonce,
        expiry,
        fee: get_asset(fee),
        signature_pairs: vec![],
    }
}

fn round_trip(tx: &TxVariant) -> TxVariant {
    let mut v = vec![];
    tx.serialize(&mut v);
    let mut c = Cursor::new(&v);
    let dec = TxVariant::deserialize(&mut c).unwrap();
    assert_eq!(c.pos, v.len());
    dec
}

#[test]
fn serialize_tx_with_sigs() {
    let minter = KeyPair::gen();
    let wallet = KeyPair::gen();
    let script = Script::single_sig(&minter.0);
    let mut owner_tx = TxVariant::V0(TxVariantV0::OwnerTx(OwnerTx {
        base: base_tx(123456789, 1230, "123.00000 GRAEL"),
        minter: minter.0.clone(),
        wallet: script.hash(),
        script,
    }));

    owner_tx.append_sign(&minter);
    owner_tx.append_sign(&wallet);

    let dec = round_trip(&owner_tx);
    assert_eq!(owner_tx, dec);
    assert_eq!(dec.sigs().len(), 2);
    assert_eq!(owner_tx.sigs()[0], dec.sigs()[0]);
    assert_eq!(owner_tx.sigs()[1], dec.sigs()[1]);
}

#[test]
fn serialize_owner() {
    let minter = KeyPair::gen();
    let script = Script::single_sig(&minter.0);
    let owner_tx = OwnerTx {
        base: base_tx(123, 1230, "123.00000 GRAEL"),
        minter: minter.0,
        wallet: script.hash(),
        script,
    };

    let var = TxVariant::V0(TxVariantV0::OwnerTx(owner_tx));
    let dec = round_trip(&var);
    assert_eq!(var, dec);
    assert_eq!(dec.base().expiry, 1230);
    assert_eq!(dec.base().fee, get_asset("123.00000 GRAEL"));
    match dec {
        TxVariant::V0(TxVariantV0::OwnerTx(_)) => {}
        _ => panic!("expected an owner transaction"),
    }
}

#[test]
fn serialize_mint() {
    let wallet = KeyPair::gen();
    let script = Script::single_sig(&wallet.0);
    let mint_tx = MintTx {
        base: base_tx(123, 1234, "123.00000 GRAEL"),
        to: script.hash(),
        amount: get_asset("10.00000 GRAEL"),
        attachment: vec![1, 2, 3],
        attachment_name: "abc.pdf".to_owned(),
        script,
    };

    let var = TxVariant::V0(TxVariantV0::MintTx(mint_tx.clone()));
    let dec = round_trip(&var);
    assert_eq!(dec.base().expiry, 1234);
    assert_eq!(dec.base().fee, get_asset("123.00000 GRAEL"));
    match dec {
        TxVariant::V0(TxVariantV0::MintTx(dec_mint)) => {
            assert_eq!(mint_tx.to, dec_mint.to);
            assert_eq!(mint_tx.amount, dec_mint.amount);
            assert_eq!(mint_tx, dec_mint);
        }
        _ => panic!("expected a mint transaction"),
    }
}

#[test]
fn serialize_transfer() {
    let from = KeyPair::gen();
    let to = KeyPair::gen();
    let script = Script::single_sig(&from.0);
    let transfer_tx = TransferTx {
        base: base_tx(123, 1234567890, "1.23000 GRAEL"),
        from: script.hash(),
        script: script.clone(),
        call_fn: 0,
        args: vec![],
        amount: get_asset("1.00456 GRAEL"),
        memo: Vec::from(String::from("Hello world!").as_bytes()),
        to: ScriptHash::of_key(&to.0),
    };

    let var = TxVariant::V0(TxVariantV0::TransferTx(transfer_tx.clone()));
    let dec = round_trip(&var);
    assert_eq!(dec.base().expiry, 1234567890);
    assert_eq!(dec.base().fee, get_asset("1.23000 GRAEL"));
    match dec {
        TxVariant::V0(TxVariantV0::TransferTx(dec_tx)) => {
            assert_eq!(transfer_tx.from, dec_tx.from);
            assert_eq!(transfer_tx.script, dec_tx.script);
            assert_eq!(transfer_tx.amount, dec_tx.amount);
            assert_eq!(transfer_tx.memo, dec_tx.memo);
        }
        _ => panic!("expected a transfer transaction"),
    }
}

#[test]
fn tx_eq() {
    let tx_a = Tx {
        nonce: 123,
        expiry: 1,
        fee: get_asset("10.00000 GRAEL"),
        signature_pairs: vec![KeyPair::gen().sign(b"hello world")],
    };
    let tx_b = tx_a.clone();
    assert_eq!(tx_a, tx_b);

    let mut tx_b = tx_a.clone();
    tx_b.expiry += 1;
    assert_ne!(tx_a, tx_b);

    let mut tx_b = tx_a.clone();
    tx_b.fee = get_asset("10.00000 GRAEL");
    assert_eq!(tx_a, tx_b);

    let mut tx_b = tx_a.clone();
    tx_b.fee = get_asset("100.00000 GRAEL");
    assert_ne!(tx_a, tx_b);

    let mut tx_b = tx_a.clone();
    tx_b.fee = get_asset("1.00000 GRAEL");
    assert_ne!(tx_a, tx_b);

    let mut tx_b = tx_a.clone();
    tx_b.signature_pairs.push(KeyPair::gen().sign(b"hello world"));
    assert_ne!(tx_a, tx_b);
}

#[test]
fn tx_nonce_change_ne() {
    let minter = KeyPair::gen();
    let script = Script::single_sig(&minter.0);
    let make = |nonce: u32| {
        TxVariant::V0(TxVariantV0::OwnerTx(OwnerTx {
            base: Tx {
                nonce,
                expiry: 1,
                fee: get_asset("10.00000 GRAEL"),
                signature_pairs: vec![],
            },
            minter: minter.0.clone(),
            wallet: script.hash(),
            script: script.clone(),
        }))
    };
    let tx_a = make(123);
    let tx_b = make(124);

    let mut buf_a = Vec::new();
    tx_a.serialize_without_sigs(&mut buf_a);
    let mut buf_b = Vec::new();
    tx_b.serialize_without_sigs(&mut buf_b);
    assert_ne!(buf_a, buf_b);
}

#[test]
fn transfer_tx_eq() {
    let from = KeyPair::gen();
    let to = KeyPair::gen();
    let script = Script::single_sig(&from.0);
    let tx_a = TransferTx {
        base: Tx {
            nonce: 123,
            expiry: 1,
            fee: get_asset("10.00000 GRAEL"),
            signature_pairs: vec![KeyPair::gen().sign(b"hello world")],
        },
        from: script.hash(),
        script: script.clone(),
        call_fn: 0,
        args: vec![],
        amount: get_asset("1.00000 GRAEL"),
        memo: vec![1, 2, 3],
        to: ScriptHash::of_key(&to.0),
    };

    let tx_b = tx_a.clone();
    assert_eq!(tx_a, tx_b);

    let mut tx_b = tx_a.clone();
    tx_b.base.fee = get_asset("10.00000 GRAEL");
    assert_eq!(tx_a, tx_b);

    let mut tx_b = tx_a.clone();
    tx_b.base.fee = get_asset("1.00000 GRAEL");
    assert_ne!(tx_a, tx_b);

    let mut tx_b = tx_a.clone();
    tx_b.from = ScriptHash::of_key(&KeyPair::gen().0);
    assert_ne!(tx_a, tx_b);

    let mut tx_b = tx_a.clone();
    tx_b.script = Script::single_sig(&KeyPair::gen().0);
    assert_ne!(tx_a, tx_b);

    let mut tx_b = tx_a.clone();
    tx_b.amount = get_asset("10.00000 GRAEL");
    assert_ne!(tx_a, tx_b);

    let mut tx_b = tx_a.clone();
    tx_b.memo = vec![1, 2, 3, 4];
    assert_ne!(tx_a, tx_b);
}

#[test]
fn precomp_data() {
    let from = KeyPair::gen();
    let to = KeyPair::gen();
    let script = Script::single_sig(&from.0);
    let tx = TxVariant::V0(TxVariantV0::TransferTx(TransferTx {
        base: Tx {
            nonce: 123,
            expiry: 1,
            fee: get_asset("10.00000 GRAEL"),
            signature_pairs: vec![KeyPair::gen().sign(b"hello world")],
        },
        from: script.hash(),
        script,
        call_fn: 0,
        args: vec![],
        amount: get_asset("1.00000 GRAEL"),
        memo: vec![1, 2, 3],
        to: ScriptHash::of_key(&to.0),
    }));

    let txid = tx.calc_txid();
    assert_eq!(tx.precompute().txid(), &txid);
}

#[test]
fn txid_survives_round_trip() {
    let minter = KeyPair::gen();
    let script = Script::single_sig(&minter.0);
    let mut tx = TxVariant::V0(TxVariantV0::OwnerTx(OwnerTx {
        base: base_tx(7, 99, "0.00000 GRAEL"),
        minter: minter.0.clone(),
        wallet: script.hash(),
        script,
    }));
    tx.append_sign(&minter);

    let dec = round_trip(&tx);
    assert_eq!(dec, tx);
    assert_eq!(dec.calc_txid(), tx.calc_txid());
}
