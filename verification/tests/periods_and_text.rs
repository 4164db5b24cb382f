use blockmeta::block::{BlockMeta, TransactionMeta};
use blockmeta::stores::{base_fee_candle_update, block_meta_store_keys, candle_key, try_base_fee_candle_update};
use blockmeta::text::{i32_to_decimal, i64_to_decimal, parse_i64, u64_to_decimal};
use blockmeta::time_unit::{get_latest_time_unit, period_start, Granularity};

#[test]
fn week_candles_start_on_monday() {
    assert_eq!(get_latest_time_unit(1688958887, 604800, 345600), 1688947200);
    assert_eq!(get_latest_time_unit(1628166822, 604800, 345600), 1627862400);
}

#[test]
fn minute_hour_day_periods() {
    assert_eq!(get_latest_time_unit(125, 60, 0), 120);
    assert_eq!(get_latest_time_unit(1700000000, 3600, 0), 1699999200);
    assert_eq!(get_latest_time_unit(1700000000, 86400, 0), 1699920000);
    assert_eq!(period_start(1700000000, Granularity::Minute), 1699999980);
    assert_eq!(period_start(1688958887, Granularity::Week), 1688947200);
}

#[test]
fn periods_round_toward_offset() {
    // Rust's division truncates: before the offset the period start rounds up
    assert_eq!(get_latest_time_unit(-5, 60, 0), 0);
    assert_eq!(get_latest_time_unit(-65, 60, 0), -60);
    assert_eq!(get_latest_time_unit(7, -2, 0), 6);
    assert_eq!(get_latest_time_unit(i64::MIN, i64::MIN, 0), i64::MIN);
}

#[test]
fn period_start_is_idempotent() {
    let t = 1688958887;
    let s = get_latest_time_unit(t, 604800, 345600);
    assert_eq!(get_latest_time_unit(s, 604800, 345600), s);
    assert!(s <= t && t < s + 604800);
    assert_eq!((s - 345600) % 604800, 0);
}

#[test]
fn decimal_text() {
    assert_eq!(u64_to_decimal(0), "0");
    assert_eq!(u64_to_decimal(u64::MAX), "18446744073709551615");
    assert_eq!(i64_to_decimal(-42), "-42");
    assert_eq!(i64_to_decimal(i64::MIN), "-9223372036854775808");
    assert_eq!(i64_to_decimal(i64::MAX), "9223372036854775807");
    assert_eq!(i32_to_decimal(-7), "-7");
}

#[test]
fn parse_decimal_text() {
    assert_eq!(parse_i64("1688947200"), Some(1688947200));
    assert_eq!(parse_i64("+12"), Some(12));
    assert_eq!(parse_i64("-0012"), Some(-12));
    assert_eq!(parse_i64("-9223372036854775808"), Some(i64::MIN));
    assert_eq!(parse_i64("9223372036854775807"), Some(i64::MAX));
    assert_eq!(parse_i64("9223372036854775808"), None);
    assert_eq!(parse_i64("-9223372036854775809"), None);
    assert_eq!(parse_i64("123456789012345678901234567890"), None);
    assert_eq!(parse_i64(""), None);
    assert_eq!(parse_i64("-"), None);
    assert_eq!(parse_i64("+"), None);
    assert_eq!(parse_i64("12a"), None);
    assert_eq!(parse_i64(" 1"), None);
}

#[test]
fn decimal_parse_round_trip() {
    for v in [0i64, 1, -1, 42, i64::MIN, i64::MAX, 1688947200] {
        assert_eq!(parse_i64(&i64_to_decimal(v)), Some(v));
        assert_eq!(parse_i64(&i64_to_decimal(v)).map(|x| x.to_string()), Some(v.to_string()));
    }
}

fn meta(number: u64, timestamp: i64, base_fee: Vec<u8>) -> BlockMeta {
    BlockMeta {
        hash: vec![1],
        number,
        timestamp,
        gas_used: 0,
        base_fee_per_gas: base_fee,
        txns: Vec::<TransactionMeta>::new(),
        txn_count: 0,
        min_gas_price: vec![0],
        max_gas_price: vec![0],
        first_gas_price: vec![0],
        last_gas_price: vec![0],
        burned_fees: vec![0],
        gas_fees: vec![0],
        miner_tips: vec![0],
    }
}

#[test]
fn block_store_keys() {
    let k = block_meta_store_keys(&meta(15_000_123, 0, vec![1]));
    assert_eq!(k.key, "15000123");
    assert_eq!(k.delete_prefix, "14990123");
}

#[test]
fn candle_store_updates() {
    let m = meta(1, 1688958887, vec![0x01, 0x00]);
    let u = base_fee_candle_update(&m, Granularity::Week);
    assert_eq!(u.key, "1688947200");
    assert_eq!(u.delete_prefix, (1688947200i64 - 1209600).to_string());
    assert_eq!(u.value.to_signed_bytes_be(), vec![0x01, 0x00]);
    let u = base_fee_candle_update(&m, Granularity::Minute);
    assert_eq!(u.key, "1688958840");
    assert_eq!(u.delete_prefix, (1688958840i64 - 172800).to_string());
    let u = base_fee_candle_update(&m, Granularity::Hour);
    assert_eq!(u.key, "1688958000");
    let u = base_fee_candle_update(&meta(1, 1688958887, vec![0xff]), Granularity::Day);
    assert_eq!(u.key, "1688947200");
    assert_eq!(u.delete_prefix, "1688774400");
    // 0xff is 255, kept positive in two's complement
    assert_eq!(u.value.to_signed_bytes_be(), vec![0x00, 0xff]);
    assert_eq!(candle_key(1688958887, Granularity::Day), "1688947200");
}

#[test]
fn timestamps_of_one_period_share_a_candle_key() {
    let start = get_latest_time_unit(1688958887, 3600, 0);
    for t in [start, start + 1, start + 1800, start + 3599] {
        assert_eq!(get_latest_time_unit(t, 3600, 0), start);
        assert_eq!(candle_key(t, Granularity::Hour), start.to_string());
    }
    assert_ne!(get_latest_time_unit(start + 3600, 3600, 0), start);
}

#[test]
fn checked_candle_updates_refuse_overflowing_periods() {
    let u = try_base_fee_candle_update(&meta(1, 1688958887, vec![0x01]), Granularity::Week).unwrap();
    assert_eq!(u.key, "1688947200");
    assert_eq!(u.delete_prefix, (1688947200i64 - 1209600).to_string());
    // the week offset cannot be taken off the smallest timestamp
    assert!(!Granularity::Week.admits(i64::MIN));
    assert!(Granularity::Minute.admits(i64::MIN));
    assert!(try_base_fee_candle_update(&meta(1, i64::MIN, vec![1]), Granularity::Week).is_none());
    // the minute period fits, the retention span before it does not
    assert!(try_base_fee_candle_update(&meta(1, i64::MIN + 100, vec![1]), Granularity::Minute).is_none());
    assert!(try_base_fee_candle_update(&meta(1, i64::MIN + 200_000, vec![1]), Granularity::Minute).is_some());
}
