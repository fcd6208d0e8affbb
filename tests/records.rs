use payment_engine::record::{format_amount, format_row, parse_amount, parse_kind, parse_record, parse_uint};
use payment_engine::{RecordError, Snapshot, Transaction, TransactionEnum};

fn fields(v: &[&str]) -> Vec<Vec<u8>> {
    v.iter().map(|f| f.as_bytes().to_vec()).collect()
}

fn text(v: Vec<u8>) -> String {
    String::from_utf8(v).unwrap()
}

#[test]
fn retrieve_data() {
    let records = vec![
        fields(&["deposit", "1", "1", "10.0"]),
        fields(&["withdrawal", "1", "4", "3.0"]),
        fields(&["dispute", "1", "3"]),
        fields(&["resolve", "1", "3"]),
        fields(&["chargeback", "1", "3"]),
    ];
    let compare_tx = vec![
        Transaction { tx_type: TransactionEnum::Deposit, client_id: 1, tx_id: 1, tx_amount: 100000 },
        Transaction { tx_type: TransactionEnum::Withdrawal, client_id: 1, tx_id: 4, tx_amount: 30000 },
        Transaction { tx_type: TransactionEnum::Dispute, client_id: 1, tx_id: 3, tx_amount: 0 },
        Transaction { tx_type: TransactionEnum::Resolve, client_id: 1, tx_id: 3, tx_amount: 0 },
        Transaction { tx_type: TransactionEnum::Chargeback, client_id: 1, tx_id: 3, tx_amount: 0 },
    ];
    for (index, r) in records.iter().enumerate() {
        assert_eq!(parse_record(r), Ok(compare_tx[index]));
    }
}

#[test]
fn record_errors() {
    assert_eq!(parse_record(&fields(&["deposit", "1"])), Err(RecordError::InvalidLength));
    assert_eq!(parse_record(&fields(&["deposit", "1", "2", "3", "4"])), Err(RecordError::InvalidLength));
    assert_eq!(parse_record(&fields(&["refund", "1", "2"])), Err(RecordError::InvalidType));
    assert_eq!(parse_record(&fields(&["deposit", "65536", "2", "1"])), Err(RecordError::InvalidClient));
    assert_eq!(parse_record(&fields(&["deposit", "-1", "2", "1"])), Err(RecordError::InvalidClient));
    assert_eq!(parse_record(&fields(&["deposit", "1", "4294967296", "1"])), Err(RecordError::InvalidTx));
    assert_eq!(parse_record(&fields(&["deposit", "1", "", "1"])), Err(RecordError::InvalidTx));
    assert_eq!(parse_record(&fields(&["withdrawal", "1", "2"])), Err(RecordError::MissingAmount));
    assert_eq!(parse_record(&fields(&["deposit", "1", "2", "1.23456"])), Err(RecordError::InvalidAmount));
    assert_eq!(parse_record(&fields(&["deposit", "1", "2", "abc"])), Err(RecordError::InvalidAmount));
}

#[test]
fn record_kind_in_any_case() {
    assert_eq!(parse_kind(&b"Deposit".to_vec()), Some(TransactionEnum::Deposit));
    assert_eq!(parse_kind(&b"WITHDRAWAL".to_vec()), Some(TransactionEnum::Withdrawal));
    assert_eq!(parse_kind(&b"chargeBack".to_vec()), Some(TransactionEnum::Chargeback));
    assert_eq!(parse_kind(&b"deposits".to_vec()), None);
    assert_eq!(
        parse_record(&fields(&["Resolve", "65535", "4294967295", "2.5"])),
        Ok(Transaction { tx_type: TransactionEnum::Resolve, client_id: 65535, tx_id: 4294967295, tx_amount: 0 })
    );
}

#[test]
fn amounts_in_ten_thousandths() {
    assert_eq!(parse_amount(&b"10".to_vec()), Some(100000));
    assert_eq!(parse_amount(&b"5000.1234".to_vec()), Some(50001234));
    assert_eq!(parse_amount(&b"0.5".to_vec()), Some(5000));
    assert_eq!(parse_amount(&b"1.05".to_vec()), Some(10500));
    assert_eq!(parse_amount(&b"007.000".to_vec()), Some(70000));
    assert_eq!(parse_amount(&b"1844674407370955.1615".to_vec()), Some(u64::MAX));
    assert_eq!(parse_amount(&b"1844674407370955.1616".to_vec()), None);
    assert_eq!(parse_amount(&b"".to_vec()), None);
    assert_eq!(parse_amount(&b".5".to_vec()), None);
    assert_eq!(parse_amount(&b"1.".to_vec()), None);
    assert_eq!(parse_amount(&b"1.2.3".to_vec()), None);
    assert_eq!(parse_uint(&b"18446744073709551615".to_vec()), Some(u64::MAX));
    assert_eq!(parse_uint(&b"18446744073709551616".to_vec()), None);
    assert_eq!(parse_uint(&b"12a".to_vec()), None);
}

#[test]
fn amounts_print_with_four_digits() {
    assert_eq!(text(format_amount(100000)), "10.0000");
    assert_eq!(text(format_amount(0)), "0.0000");
    assert_eq!(text(format_amount(7)), "0.0007");
    assert_eq!(text(format_amount(1090000)), "109.0000");
    assert_eq!(text(format_amount(u64::MAX)), "1844674407370955.1615");
}

#[test]
fn rows_print_every_field() {
    let s = Snapshot { client_id: 2, available: 90000, held: 1000000, total: 1090000, frozen: false };
    let row: Vec<String> = format_row(&s).into_iter().map(text).collect();
    assert_eq!(row, vec!["2", "9.0000", "100.0000", "109.0000", "false"]);
    let s = Snapshot { client_id: 1, available: 170000, held: 0, total: 170000, frozen: true };
    let row: Vec<String> = format_row(&s).into_iter().map(text).collect();
    assert_eq!(row, vec!["1", "17.0000", "0.0000", "17.0000", "true"]);
}

#[test]
fn client_info_row() {
    let c = payment_engine::Client::new(1, TransactionEnum::Deposit, 123);
    let row: Vec<String> = c.get_info(42).into_iter().map(text).collect();
    assert_eq!(row, vec!["42", "0.0123", "0.0000", "0.0123", "false"]);
}
