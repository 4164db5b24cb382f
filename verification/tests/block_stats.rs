use blockmeta::entity_tables::EntityTables;
use blockmeta::graph_out::block_meta_to_tables;
use substreams_entity_change::pb::entity::value::Typed;
use blockmeta::bignum::BigNum;
use blockmeta::block::{map_block_to_meta, Block, BlockHeader, TransactionTrace};

fn trace(hash: u8, status: i32, price: Option<Vec<u8>>, used: u64, txn_type: i32, cap: Option<Vec<u8>>) -> TransactionTrace {
    TransactionTrace {
        hash: vec![hash],
        gas_used: used,
        gas_price: price,
        max_priority_fee_per_gas: cap,
        txn_type,
        status,
    }
}

fn block(base_fee: Option<Vec<u8>>, traces: Vec<TransactionTrace>) -> Block {
    Block {
        hash: vec![0xab, 0xcd],
        number: 15_000_000,
        header: Some(BlockHeader { base_fee_per_gas: base_fee, timestamp: Some(1_700_000_000), gas_used: 21_000 }),
        transaction_traces: traces,
    }
}

#[test]
fn london_block_statistics() {
    let b = block(
        Some(vec![10]),
        vec![
            trace(1, 1, Some(vec![20]), 2, 0, None),
            trace(2, 2, Some(vec![99]), 7, 0, None),
            trace(3, 1, Some(vec![5]), 3, 0, None),
            trace(4, 1, Some(vec![30]), 4, 2, Some(vec![2])),
        ],
    );
    let meta = map_block_to_meta(b);
    assert_eq!(meta.hash, vec![0xab, 0xcd]);
    assert_eq!(meta.number, 15_000_000);
    assert_eq!(meta.timestamp, 1_700_000_000);
    assert_eq!(meta.gas_used, 21_000);
    assert_eq!(meta.base_fee_per_gas, vec![10]);
    assert_eq!(meta.txn_count, 4);
    assert_eq!(meta.txns.len(), 3);

    // newest first: the dynamic-fee transaction, then the cheap one, then the first
    let t = &meta.txns[0];
    assert_eq!(t.hash, vec![4]);
    assert_eq!(t.index, 0);
    assert_eq!(t.gas_price, vec![30]);
    assert_eq!(t.gas_fee, vec![120]);
    assert_eq!(t.burned_fee, vec![40]);
    assert_eq!(t.max_priority_fee_per_gas, vec![2]);
    assert_eq!(t.miner_tip, vec![8]);
    assert_eq!(t.txn_type, 2);
    assert_eq!(t.timestamp, 1_700_000_000);

    let t = &meta.txns[1];
    assert_eq!(t.hash, vec![3]);
    assert_eq!(t.index, 1);
    assert_eq!(t.gas_fee, vec![15]);
    assert_eq!(t.burned_fee, vec![30]);
    // gas price below the base fee: the priority fee is -5, stored by magnitude
    assert_eq!(t.max_priority_fee_per_gas, vec![5]);
    assert_eq!(t.miner_tip, vec![15]);

    let t = &meta.txns[2];
    assert_eq!(t.hash, vec![1]);
    assert_eq!(t.index, 2);
    assert_eq!(t.gas_fee, vec![40]);
    assert_eq!(t.burned_fee, vec![20]);
    assert_eq!(t.max_priority_fee_per_gas, vec![10]);
    assert_eq!(t.miner_tip, vec![20]);

    assert_eq!(meta.gas_fees, vec![175]);
    assert_eq!(meta.burned_fees, vec![90]);
    assert_eq!(meta.miner_tips, vec![13]);
    assert_eq!(meta.min_gas_price, vec![5]);
    assert_eq!(meta.max_gas_price, vec![30]);
    assert_eq!(meta.first_gas_price, vec![30]);
    assert_eq!(meta.last_gas_price, vec![20]);
}

#[test]
fn pre_london_block_statistics() {
    let b = block(None, vec![trace(1, 1, Some(vec![20]), 2, 0, None), trace(2, 1, None, 5, 0, None)]);
    let meta = map_block_to_meta(b);
    assert_eq!(meta.base_fee_per_gas, vec![0]);
    assert_eq!(meta.txns.len(), 2);
    // a missing gas price reads as zero
    assert_eq!(meta.txns[0].gas_price, vec![0]);
    assert_eq!(meta.txns[0].gas_fee, vec![0]);
    let t = &meta.txns[1];
    assert_eq!(t.gas_fee, vec![40]);
    assert_eq!(t.burned_fee, vec![0]);
    assert_eq!(t.max_priority_fee_per_gas, vec![20]);
    assert_eq!(t.miner_tip, vec![40]);
    assert_eq!(meta.burned_fees, vec![0]);
    assert_eq!(meta.gas_fees, vec![40]);
    assert_eq!(meta.miner_tips, vec![40]);
    assert_eq!(meta.min_gas_price, vec![0]);
    assert_eq!(meta.max_gas_price, vec![20]);
}

#[test]
fn empty_block_statistics() {
    let meta = map_block_to_meta(block(Some(vec![0, 7]), vec![trace(9, 0, Some(vec![1]), 1, 0, None)]));
    assert_eq!(meta.txns.len(), 0);
    assert_eq!(meta.txn_count, 1);
    assert_eq!(meta.base_fee_per_gas, vec![7]);
    assert_eq!(meta.min_gas_price, vec![0]);
    assert_eq!(meta.max_gas_price, vec![0]);
    assert_eq!(meta.first_gas_price, vec![0]);
    assert_eq!(meta.last_gas_price, vec![0]);
    assert_eq!(meta.gas_fees, vec![0]);
    assert_eq!(meta.burned_fees, vec![0]);
    assert_eq!(meta.miner_tips, vec![0]);
}

#[test]
fn dynamic_fee_without_cap_reads_zero() {
    let meta = map_block_to_meta(block(Some(vec![1]), vec![trace(1, 1, Some(vec![3]), 2, 2, None)]));
    assert_eq!(meta.txns[0].max_priority_fee_per_gas, vec![0]);
    assert_eq!(meta.txns[0].miner_tip, vec![0]);
    assert_eq!(meta.txns[0].burned_fee, vec![2]);
}

#[test]
fn large_amounts_are_exact() {
    // 2^64 gas price times 2^32 gas: 2^96
    let price = vec![1, 0, 0, 0, 0, 0, 0, 0, 0];
    let meta = map_block_to_meta(block(None, vec![trace(1, 1, Some(price.clone()), 1u64 << 32, 0, None)]));
    let mut expected = vec![1u8];
    expected.extend(std::iter::repeat(0u8).take(12));
    assert_eq!(meta.txns[0].gas_price, price);
    assert_eq!(meta.txns[0].gas_fee, expected);
    assert_eq!(meta.gas_fees, expected);
}

#[test]
fn fee_split_law_on_values() {
    // gas fee = burned fee + miner tip for a non-dynamic-fee transaction after London
    let meta = map_block_to_meta(block(Some(vec![4]), vec![trace(1, 1, Some(vec![9]), 3, 0, None)]));
    let t = &meta.txns[0];
    assert_eq!(t.gas_fee, vec![27]);
    assert_eq!(t.burned_fee, vec![12]);
    assert_eq!(t.miner_tip, vec![15]);
}

#[test]
fn bignum_round_trips_signed_bytes() {
    let n = BigNum::from_signed_bytes_be(vec![0xff, 0x38]);
    assert_eq!(n.to_signed_bytes_be(), vec![0xff, 0x38]);
    assert_eq!(n.duplicate().to_signed_bytes_be(), vec![0xff, 0x38]);
}

#[test]
fn total_fee_splits_into_burned_and_tips() {
    // no dynamic-fee transaction: total fee = total burned + total tips
    let meta = map_block_to_meta(block(
        Some(vec![4]),
        vec![trace(1, 1, Some(vec![9]), 3, 0, None), trace(2, 1, Some(vec![6]), 10, 1, None)],
    ));
    assert_eq!(meta.gas_fees, vec![87]);
    assert_eq!(meta.burned_fees, vec![52]);
    assert_eq!(meta.miner_tips, vec![35]);
}

#[test]
fn negative_tip_total_is_published_by_magnitude() {
    // gas price 1 under a base fee of 10: tip total is -18
    let meta = map_block_to_meta(block(Some(vec![10]), vec![trace(1, 1, Some(vec![1]), 2, 0, None)]));
    assert_eq!(meta.miner_tips, vec![18]);
    let mut tables = EntityTables::new();
    block_meta_to_tables(&mut tables, &meta, &Some(BigNum::from_signed_bytes_be(vec![10])));
    let changes = tables.to_entity_changes();
    let id = meta.number.to_string();
    let row = changes.entity_changes.iter().find(|c| c.entity == "Block" && c.id == id).unwrap();
    let column = |name: &str| {
        row.fields.iter().find(|f| f.name == name).and_then(|f| f.new_value.as_ref()).and_then(|v| v.typed.clone())
    };
    assert_eq!(column("minerTips"), Some(Typed::Bigint("18".to_string())));
    assert_eq!(column("gasFees"), Some(Typed::Bigint("2".to_string())));
    assert_eq!(column("minGasPrice"), Some(Typed::Bigint("1".to_string())));
}
