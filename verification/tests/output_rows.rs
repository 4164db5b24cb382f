use blockmeta::bignum::BigNum;
use blockmeta::block::{Block, BlockHeader, BlockMeta, TransactionMeta, TransactionTrace};
use blockmeta::db_out::{block_meta_to_database_changes, BlockMetaDelta, DeltaOperation};
use blockmeta::graph_out::{block_meta_to_tables, candle_to_tables, push_tx_meta_create, push_update, CandleReading};
use blockmeta::db_tables::DatabaseTables;
use blockmeta::entity_tables::EntityTables;
use blockmeta::db_check::deltas_accepted;
use blockmeta::{db_out, graph_out, try_db_out};
use substreams_database_change::pb::database::{table_change, DatabaseChanges, TableChange};
use substreams_entity_change::pb::entity::value::Typed;
use substreams_entity_change::pb::entity::EntityChanges;

fn tx(hash: u8, price: u8) -> TransactionMeta {
    TransactionMeta {
        hash: vec![hash],
        gas_used: 21000,
        gas_price: vec![price],
        gas_fee: vec![0x01, 0x02],
        txn_type: 2,
        timestamp: 1700000000,
        index: 0,
        max_priority_fee_per_gas: vec![3],
        burned_fee: vec![4],
        miner_tip: vec![5],
    }
}

fn meta(number: u64, txns: Vec<TransactionMeta>) -> BlockMeta {
    BlockMeta {
        hash: vec![0xab, 0xcd],
        number,
        timestamp: 1700000000,
        gas_used: 42,
        base_fee_per_gas: vec![0x0a],
        txn_count: txns.len() as i32,
        txns,
        min_gas_price: vec![1],
        max_gas_price: vec![2],
        first_gas_price: vec![3],
        last_gas_price: vec![4],
        burned_fees: vec![0x01, 0x00],
        gas_fees: vec![6],
        miner_tips: vec![7],
    }
}

fn find<'a>(changes: &'a DatabaseChanges, table: &str, pk: &str) -> Option<&'a TableChange> {
    changes.table_changes.iter().find(|c| {
        c.table == table && c.primary_key == Some(table_change::PrimaryKey::Pk(pk.to_string()))
    })
}

fn field<'a>(change: &'a TableChange, name: &str) -> Option<&'a str> {
    change.fields.iter().find(|f| f.name == name).map(|f| f.new_value.as_str())
}

fn database_changes(deltas: Vec<BlockMetaDelta>) -> DatabaseChanges {
    let mut tables = DatabaseTables::new();
    block_meta_to_database_changes(&mut tables, deltas);
    tables.to_database_changes()
}

#[test]
fn created_block_writes_block_and_transaction_rows() {
    let d = BlockMetaDelta {
        operation: DeltaOperation::Create,
        key: "77".to_string(),
        old_value: meta(0, vec![]),
        new_value: meta(77, vec![tx(0x11, 9), tx(0x22, 8)]),
    };
    let changes = database_changes(vec![d]);
    assert_eq!(changes.table_changes.len(), 3);
    let b = find(&changes, "blocks", "77").unwrap();
    assert_eq!(b.operation, 1);
    assert_eq!(b.fields.len(), 9);
    assert_eq!(field(b, "hash"), Some("abcd"));
    assert_eq!(field(b, "gas_used"), Some("42"));
    assert_eq!(field(b, "base_fee_per_gas"), Some("0a"));
    assert_eq!(field(b, "timestamp"), Some("1700000000"));
    assert_eq!(field(b, "burned_fees"), Some("0100"));
    assert_eq!(field(b, "miner_tips"), Some("07"));
    let t = find(&changes, "transactions", "77_1").unwrap();
    assert_eq!(t.operation, 1);
    assert_eq!(t.fields.len(), 9);
    assert_eq!(field(t, "hash"), Some("22"));
    assert_eq!(field(t, "gas_price"), Some("08"));
    assert_eq!(field(t, "gas_fee"), Some("0102"));
    assert_eq!(field(t, "block_number"), Some("77"));
    assert_eq!(field(t, "txn_type"), Some("2"));
    assert!(find(&changes, "transactions", "77_0").is_some());
}

#[test]
fn updated_block_updates_deletes_and_creates_transaction_rows() {
    let shrink = BlockMetaDelta {
        operation: DeltaOperation::Update,
        key: "5".to_string(),
        old_value: meta(5, vec![tx(1, 1), tx(2, 2)]),
        new_value: meta(5, vec![tx(3, 3)]),
    };
    let changes = database_changes(vec![shrink]);
    let b = find(&changes, "blocks", "5").unwrap();
    assert_eq!(b.operation, 2);
    let t0 = find(&changes, "transactions", "5_0").unwrap();
    assert_eq!(t0.operation, 2);
    assert_eq!(t0.fields.len(), 7);
    assert_eq!(field(t0, "hash"), None);
    assert_eq!(field(t0, "gas_price"), Some("03"));
    let t1 = find(&changes, "transactions", "5_1").unwrap();
    assert_eq!(t1.operation, 3);
    assert_eq!(t1.fields.len(), 0);

    let grow = BlockMetaDelta {
        operation: DeltaOperation::Update,
        key: "6".to_string(),
        old_value: meta(6, vec![]),
        new_value: meta(6, vec![tx(3, 3)]),
    };
    let changes = database_changes(vec![grow]);
    let t0 = find(&changes, "transactions", "6_0").unwrap();
    assert_eq!(t0.operation, 1);
    assert_eq!(field(t0, "block_number"), Some("6"));
}

#[test]
fn db_out_converts_all_deltas() {
    let deltas = vec![
        BlockMetaDelta {
            operation: DeltaOperation::Create,
            key: "1".to_string(),
            old_value: meta(0, vec![]),
            new_value: meta(1, vec![tx(1, 1)]),
        },
        BlockMetaDelta {
            operation: DeltaOperation::Create,
            key: "2".to_string(),
            old_value: meta(0, vec![]),
            new_value: meta(2, vec![]),
        },
    ];
    let changes = db_out(deltas);
    assert_eq!(changes.table_changes.len(), 3);
    assert!(find(&changes, "blocks", "1").is_some());
    assert!(find(&changes, "blocks", "2").is_some());
    assert!(find(&changes, "transactions", "1_0").is_some());
}

fn column_count(changes: &EntityChanges, entity: &str, id: &str) -> usize {
    changes.entity_changes.iter().find(|c| c.entity == entity && c.id == id).unwrap().fields.len()
}

fn bigint_text(changes: &EntityChanges, entity: &str, id: &str, column: &str) -> Option<Typed> {
    let change = changes.entity_changes.iter().find(|c| c.entity == entity && c.id == id)?;
    let field = change.fields.iter().find(|f| f.name == column)?;
    field.new_value.as_ref()?.typed.clone()
}

#[test]
fn block_entity_columns() {
    let mut tables = EntityTables::new();
    let base_fee = Some(BigNum::from_signed_bytes_be(vec![0x0a]));
    block_meta_to_tables(&mut tables, &meta(77, vec![tx(1, 1)]), &base_fee);
    let tables = tables.to_entity_changes();
    assert_eq!(column_count(&tables, "Block", "77"), 15);
    assert_eq!(bigint_text(&tables, "Block", "77", "BlockNum"), Some(Typed::Bigint("77".to_string())));
    assert_eq!(bigint_text(&tables, "Block", "77", "BaseFee"), Some(Typed::Bigint("10".to_string())));
    assert_eq!(bigint_text(&tables, "Block", "77", "BlockTime"), Some(Typed::Bigint("1700000000".to_string())));
    assert_eq!(bigint_text(&tables, "Block", "77", "number"), Some(Typed::Bigint("77".to_string())));
    assert_eq!(bigint_text(&tables, "Block", "77", "txnCount"), Some(Typed::Int32(1)));
    assert_eq!(bigint_text(&tables, "Block", "77", "baseFeePerGas"), Some(Typed::Bigint("10".to_string())));
    assert_eq!(bigint_text(&tables, "Block", "77", "burnedFees"), Some(Typed::Bigint("256".to_string())));
    assert_eq!(bigint_text(&tables, "Block", "77", "timestamp"), Some(Typed::Bigint("1700000000".to_string())));
    assert!(entity(&tables, "Block", "abcd").is_none());
}

#[test]
fn block_entity_before_london_has_no_base_fee() {
    let mut tables = EntityTables::new();
    block_meta_to_tables(&mut tables, &meta(12_000_000, vec![]), &None);
    let tables = tables.to_entity_changes();
    assert_eq!(column_count(&tables, "Block", "12000000"), 14);
    assert_eq!(bigint_text(&tables, "Block", "12000000", "BaseFee"), None);
    assert_eq!(bigint_text(&tables, "Block", "12000000", "BlockNum"), Some(Typed::Bigint("12000000".to_string())));
}

#[test]
fn block_entity_update_columns() {
    let mut tables = EntityTables::new();
    push_update(&mut tables, &meta(1, vec![]), &meta(2, vec![]), &Some(BigNum::from_signed_bytes_be(vec![0x0a])));
    let tables = tables.to_entity_changes();
    assert_eq!(bigint_text(&tables, "Block", "2", "BlockNum"), Some(Typed::Bigint("2".to_string())));
    assert_eq!(bigint_text(&tables, "Block", "2", "BaseFee"), Some(Typed::Bigint("10".to_string())));
    assert_eq!(bigint_text(&tables, "Block", "2", "number"), Some(Typed::Bigint("2".to_string())));
    assert_eq!(bigint_text(&tables, "Block", "2", "gasFees"), Some(Typed::Bytes("Bg==".to_string())));
    assert_eq!(bigint_text(&tables, "Block", "2", "firstGasPrice"), Some(Typed::Bigint("3".to_string())));
}

#[test]
fn transaction_entity_columns() {
    let mut tables = EntityTables::new();
    push_tx_meta_create(&mut tables, 77, vec![0xab], &tx(0x11, 9));
    let tables = tables.to_entity_changes();
    assert_eq!(bigint_text(&tables, "Txn", "11", "blockNumber"), Some(Typed::Bigint("77".to_string())));
    assert_eq!(bigint_text(&tables, "Txn", "11", "block"), Some(Typed::Bytes("qw==".to_string())));
    assert_eq!(bigint_text(&tables, "Txn", "11", "gasFee"), Some(Typed::Bigint("258".to_string())));
    assert_eq!(bigint_text(&tables, "Txn", "11", "txnType"), Some(Typed::Int32(2)));
}

#[test]
fn candle_columns_follow_the_stores() {
    let mut tables = EntityTables::new();
    let reading = CandleReading {
        open: Some(BigNum::from_signed_bytes_be(vec![0x10])),
        high: None,
        low: Some(BigNum::from_signed_bytes_be(vec![0xff])),
        close: None,
    };
    candle_to_tables(&mut tables, "BaseFeePerGasMinuteCandle", &"-120".to_string(), &reading);
    let tables = tables.to_entity_changes();
    assert_eq!(column_count(&tables, "BaseFeePerGasMinuteCandle", "-120"), 3);
    assert_eq!(bigint_text(&tables, "BaseFeePerGasMinuteCandle", "-120", "timestamp"), Some(Typed::Bigint("-120".to_string())));
    assert_eq!(bigint_text(&tables, "BaseFeePerGasMinuteCandle", "-120", "open"), Some(Typed::Bigint("16".to_string())));
    assert_eq!(bigint_text(&tables, "BaseFeePerGasMinuteCandle", "-120", "low"), Some(Typed::Bigint("-1".to_string())));
}

fn entity<'a>(changes: &'a EntityChanges, name: &str, id: &str) -> Option<&'a substreams_entity_change::pb::entity::EntityChange> {
    changes.entity_changes.iter().find(|c| c.entity == name && c.id == id)
}

#[test]
fn graph_out_writes_block_and_candles() {
    let block = Block {
        hash: vec![0x01, 0x02],
        number: 17_000_000,
        header: Some(BlockHeader { base_fee_per_gas: Some(vec![0x05]), timestamp: Some(1688958887), gas_used: 1 }),
        transaction_traces: vec![TransactionTrace {
            hash: vec![9],
            gas_used: 2,
            gas_price: Some(vec![7]),
            max_priority_fee_per_gas: None,
            txn_type: 0,
            status: 1,
        }],
    };
    let reading = || CandleReading { open: Some(BigNum::from_signed_bytes_be(vec![5])), high: None, low: None, close: None };
    let changes = graph_out(block, reading(), reading(), reading(), reading());
    assert_eq!(changes.entity_changes.len(), 5);
    let b = entity(&changes, "Block", "17000000").unwrap();
    assert_eq!(b.operation, 2);
    let column = |name: &str| {
        b.fields.iter().find(|f| f.name == name).and_then(|f| f.new_value.as_ref()).and_then(|v| v.typed.clone())
    };
    assert_eq!(column("BlockNum"), Some(Typed::Bigint("17000000".to_string())));
    assert_eq!(column("BaseFee"), Some(Typed::Bigint("5".to_string())));
    assert_eq!(column("BlockTime"), Some(Typed::Bigint("1688958887".to_string())));
    assert!(entity(&changes, "Block", "0102").is_none());
    assert!(entity(&changes, "BaseFeePerGasMinuteCandle", "1688958840").is_some());
    assert!(entity(&changes, "BaseFeePerGasHourCandle", "1688958000").is_some());
    assert!(entity(&changes, "BaseFeePerGasDayCandle", "1688947200").is_some());
    let w = entity(&changes, "BaseFeePerGasWeekCandle", "1688947200").unwrap();
    assert_eq!(w.fields.len(), 2);
}

#[test]
fn try_db_out_accepts_creations_and_updates() {
    let deltas = vec![
        BlockMetaDelta {
            operation: DeltaOperation::Create,
            key: "1".to_string(),
            old_value: meta(0, vec![]),
            new_value: meta(1, vec![tx(1, 1), tx(2, 2)]),
        },
        BlockMetaDelta {
            operation: DeltaOperation::Update,
            key: "1".to_string(),
            old_value: meta(1, vec![tx(1, 1), tx(2, 2)]),
            new_value: meta(1, vec![tx(3, 3)]),
        },
    ];
    assert!(deltas_accepted(&deltas));
    let changes = try_db_out(deltas).unwrap();
    let b = find(&changes, "blocks", "1").unwrap();
    assert_eq!(b.operation, 1);
    let t0 = find(&changes, "transactions", "1_0").unwrap();
    assert_eq!(t0.operation, 1);
    assert_eq!(field(t0, "gas_price"), Some("03"));
    assert_eq!(field(t0, "hash"), Some("01"));
    let t1 = find(&changes, "transactions", "1_1").unwrap();
    assert_eq!(t1.operation, 3);
}

#[test]
fn try_db_out_refuses_a_create_after_an_update() {
    let deltas = vec![
        BlockMetaDelta {
            operation: DeltaOperation::Update,
            key: "9".to_string(),
            old_value: meta(9, vec![]),
            new_value: meta(9, vec![]),
        },
        BlockMetaDelta {
            operation: DeltaOperation::Create,
            key: "9".to_string(),
            old_value: meta(0, vec![]),
            new_value: meta(9, vec![]),
        },
    ];
    assert!(!deltas_accepted(&deltas));
    assert!(try_db_out(deltas).is_none());
}

#[test]
fn try_db_out_refuses_a_create_after_a_delete() {
    let deltas = vec![
        BlockMetaDelta {
            operation: DeltaOperation::Update,
            key: "4".to_string(),
            old_value: meta(4, vec![tx(1, 1), tx(2, 2)]),
            new_value: meta(4, vec![tx(3, 3)]),
        },
        BlockMetaDelta {
            operation: DeltaOperation::Create,
            key: "other".to_string(),
            old_value: meta(0, vec![]),
            new_value: meta(4, vec![tx(1, 1), tx(2, 2)]),
        },
    ];
    assert!(try_db_out(deltas).is_none());
}

#[test]
fn try_db_out_refuses_deletions() {
    let deltas = vec![BlockMetaDelta {
        operation: DeltaOperation::Delete,
        key: "4".to_string(),
        old_value: meta(4, vec![]),
        new_value: meta(4, vec![]),
    }];
    assert!(try_db_out(deltas).is_none());
    assert!(try_db_out(vec![]).is_some());
}

#[test]
fn transaction_rows_of_different_blocks_do_not_collide() {
    let deltas = vec![
        BlockMetaDelta {
            operation: DeltaOperation::Create,
            key: "1".to_string(),
            old_value: meta(0, vec![]),
            new_value: meta(1, (0..12).map(|i| tx(i, i)).collect()),
        },
        BlockMetaDelta {
            operation: DeltaOperation::Create,
            key: "11".to_string(),
            old_value: meta(0, vec![]),
            new_value: meta(11, vec![tx(20, 20), tx(21, 21)]),
        },
    ];
    let changes = try_db_out(deltas).unwrap();
    assert_eq!(changes.table_changes.len(), 2 + 12 + 2);
    assert_eq!(field(find(&changes, "transactions", "1_11").unwrap(), "hash"), Some("0b"));
    assert_eq!(field(find(&changes, "transactions", "11_1").unwrap(), "hash"), Some("15"));
}

#[test]
fn byte_columns_are_standard_base64() {
    let mut tables = EntityTables::new();
    push_tx_meta_create(&mut tables, 5, vec![1, 2, 3, 4, 0xfb, 0xff], &tx(0x11, 9));
    let tables = tables.to_entity_changes();
    assert_eq!(bigint_text(&tables, "Txn", "11", "block"), Some(Typed::Bytes("AQIDBPv/".to_string())));
    let mut tables = EntityTables::new();
    push_tx_meta_create(&mut tables, 5, vec![1, 2, 3, 4], &tx(0x11, 9));
    let tables = tables.to_entity_changes();
    assert_eq!(bigint_text(&tables, "Txn", "11", "block"), Some(Typed::Bytes("AQIDBA==".to_string())));
}

#[test]
fn graph_out_block_before_london_has_null_base_fee() {
    let block = Block {
        hash: vec![0xab],
        number: 7,
        header: Some(BlockHeader { base_fee_per_gas: None, timestamp: Some(1438269988), gas_used: 0 }),
        transaction_traces: vec![],
    };
    let reading = || CandleReading { open: None, high: None, low: None, close: None };
    let changes = graph_out(block, reading(), reading(), reading(), reading());
    let b = entity(&changes, "Block", "7").unwrap();
    assert!(b.fields.iter().all(|f| f.name != "BaseFee"));
    let column = |name: &str| {
        b.fields.iter().find(|f| f.name == name).and_then(|f| f.new_value.as_ref()).and_then(|v| v.typed.clone())
    };
    assert_eq!(column("BlockNum"), Some(Typed::Bigint("7".to_string())));
    assert_eq!(column("BlockTime"), Some(Typed::Bigint("1438269988".to_string())));
}
