use arbiter::amm::TradeRecord;
use arbiter::backtest::{export_dataset, normalize_event, BacktestDataset, BlockRange, RawSwapEvent};
use arbiter::codec::{parse_dataset, render_dataset};
use arbiter::errors::SimError;

fn event(block: u64, log: u64, amount_in: u64) -> RawSwapEvent {
    RawSwapEvent {
        block_number: block,
        log_index: log,
        amount_in,
        amount_out: amount_in / 2,
        asset_in: 0,
        asset_out: 1,
        price: 1_500_000,
    }
}

#[test]
fn backwards_range_is_rejected_before_any_query() {
    assert_eq!(BlockRange::new(10, 5).unwrap_err(), SimError::InvalidConfig);
    assert!(BlockRange::new(5, 5).is_ok());
}

#[test]
fn export_filters_to_single_block_on_boundary_range() {
    let range = BlockRange::new(7, 7).unwrap();
    let events = vec![event(6, 0, 10), event(7, 0, 20), event(7, 1, 30), event(8, 0, 40)];
    let ds = export_dataset(&range, &events, 9).unwrap();
    assert_eq!(ds.records.len(), 2);
    for r in &ds.records {
        assert_eq!(r.block_or_step, 7);
    }
    assert_eq!(ds.records[0].amount_in, 20);
    assert_eq!(ds.records[1].amount_in, 30);
}

#[test]
fn export_preserves_chain_order() {
    let range = BlockRange::new(1, 100).unwrap();
    let events = vec![event(2, 0, 1), event(2, 1, 2), event(5, 0, 3), event(9, 2, 4)];
    let ds = export_dataset(&range, &events, 100).unwrap();
    let blocks: Vec<u64> = ds.records.iter().map(|r| r.block_or_step).collect();
    assert_eq!(blocks, vec![2, 2, 5, 9]);
}

#[test]
fn short_range_reports_last_good_block() {
    let range = BlockRange::new(1, 100).unwrap();
    let events = vec![event(2, 0, 1)];
    let err = export_dataset(&range, &events, 57).unwrap_err();
    assert_eq!(err, SimError::RangeUnavailable { last_good_block: 57 });
}

#[test]
fn normalization_keeps_every_field() {
    let e = event(11, 3, 42);
    let t = normalize_event(&e);
    assert_eq!(t.block_or_step, 11);
    assert_eq!(t.amount_in, 42);
    assert_eq!(t.amount_out, 21);
    assert_eq!(t.asset_in, 0);
    assert_eq!(t.asset_out, 1);
    assert_eq!(t.resulting_price, 1_500_000);
}

fn record(block: u64, amount_in: u64) -> TradeRecord {
    TradeRecord {
        block_or_step: block,
        amount_in,
        amount_out: amount_in + 1,
        asset_in: 0,
        asset_out: 1,
        resulting_price: 2_000_000,
    }
}

#[test]
fn render_produces_exact_bytes() {
    let ds = BacktestDataset { records: vec![TradeRecord {
        block_or_step: 1,
        amount_in: 2,
        amount_out: 3,
        asset_in: 0,
        asset_out: 1,
        resulting_price: 100,
    }] };
    let bytes = render_dataset(&ds);
    let expected = b"block,amount_in,amount_out,asset_in,asset_out,price\n\
        00000000000000000001,00000000000000000002,00000000000000000003,\
        00000000000000000000,00000000000000000001,00000000000000000100\n";
    assert_eq!(bytes, expected.to_vec());
}

#[test]
fn import_of_export_round_trips_field_for_field() {
    let range = BlockRange::new(1, 50).unwrap();
    let events = vec![event(3, 0, 10), event(4, 1, u64::MAX), event(50, 0, 0)];
    let exported = export_dataset(&range, &events, 50).unwrap();
    let bytes = render_dataset(&exported);
    let imported = parse_dataset(&bytes).unwrap();
    assert_eq!(imported.records, exported.records);
}

#[test]
fn empty_dataset_round_trips() {
    let ds = BacktestDataset { records: vec![] };
    let parsed = parse_dataset(&render_dataset(&ds)).unwrap();
    assert!(parsed.records.is_empty());
}

#[test]
fn missing_field_fails_naming_the_line_and_loads_nothing() {
    // Line three misses fields: the import fails with that line number and
    // returns no records at all.
    let good = render_dataset(&BacktestDataset { records: vec![record(1, 5), record(2, 6)] });
    let mut bytes = good[..52 + 126].to_vec(); // header + first full row
    bytes.extend_from_slice(b"3,7\n");
    let err = parse_dataset(&bytes).unwrap_err();
    assert_eq!(err, SimError::MalformedRecord { line: 3 });
}

#[test]
fn corrupt_digit_fails_at_its_line() {
    let mut bytes = render_dataset(&BacktestDataset { records: vec![record(1, 5), record(2, 6)] });
    bytes[52 + 126 + 3] = b'x'; // corrupt a digit in the second record row
    let err = parse_dataset(&bytes).unwrap_err();
    assert_eq!(err, SimError::MalformedRecord { line: 3 });
}

#[test]
fn missing_header_is_line_one() {
    let err = parse_dataset(&b"not,a,header\n".to_vec()).unwrap_err();
    assert_eq!(err, SimError::MalformedRecord { line: 1 });
}

#[test]
fn largest_value_round_trips() {
    let ds = BacktestDataset { records: vec![record(u64::MAX, u64::MAX - 1)] };
    let parsed = parse_dataset(&render_dataset(&ds)).unwrap();
    assert_eq!(parsed.records, ds.records);
}
