use csv::{ReaderBuilder, Trim};
use payments_toy_engine::csv::{read_input, CsvPaymentRecord, RecordError, TxType};
use payments_toy_engine::domain::props::Amount;

fn dec(text: &str) -> Amount {
    Amount::parse(text).expect("a decimal number")
}

fn fields(row: &[&str]) -> Vec<String> {
    row.iter().map(|field| field.to_string()).collect()
}

fn assert_record(
    records: &[Result<CsvPaymentRecord, String>],
    idx: usize,
    tx_type: TxType,
    client_id: &str,
    tx_id: &str,
    amount: Option<Amount>,
) {
    let rec = records
        .get(idx)
        .unwrap_or_else(|| panic!("{} record not found", idx + 1))
        .as_ref()
        .unwrap_or_else(|_| panic!("{} record not parsed", idx + 1));

    assert_eq!(rec.tx_type, tx_type);
    assert_eq!(rec.client_id, client_id);
    assert_eq!(rec.tx_id, tx_id);
    assert_eq!(rec.amount, amount);
}

fn assert_record_not_parsable(records: &[Result<CsvPaymentRecord, String>], idx: usize) {
    records
        .get(idx)
        .unwrap_or_else(|| panic!("{} record not found", idx + 1))
        .as_ref()
        .expect_err("Not parsable entry not found");
}

#[test]
fn parses_data() {
    let data = r#"
            type, client, tx, amount
            deposit, 1, tx-1,     1.0
            withdrawal , cl-1,4,1.5
            dispute, 2, 5,
            resolve, c-2, 5,
            chargeback , 2 , 5 ,
            unrecognized , cl-1,4,1.5
            "#;

    let reader = ReaderBuilder::new()
        .trim(Trim::All)
        .from_reader(data.as_bytes());

    let records: Vec<Result<CsvPaymentRecord, String>> = reader
        .into_records()
        .map(|r| match r {
            Ok(row) => {
                let row: Vec<String> = row.iter().map(|field| field.to_owned()).collect();
                CsvPaymentRecord::from_fields(&row)
                    .map_err(|ee| format!("Error parsing row: {:?}", ee))
            }
            Err(ee) => Err(format!("Error parsing row: {}", ee)),
        })
        .collect();

    assert_record(&records, 0, TxType::Deposit, "1", "tx-1", Some(dec("1.0")));
    assert_record(
        &records,
        1,
        TxType::Withdrawal,
        "cl-1",
        "4",
        Some(dec("1.5")),
    );
    assert_record(&records, 2, TxType::Dispute, "2", "5", None);
    assert_record(&records, 3, TxType::Resolve, "c-2", "5", None);
    assert_record(&records, 4, TxType::Chargeback, "2", "5", None);

    assert_record_not_parsable(&records, 5);
}

#[test]
fn every_known_type_is_read() {
    assert_eq!(TxType::parse(&"deposit".to_owned()), Some(TxType::Deposit));
    assert_eq!(TxType::parse(&"withdrawal".to_owned()), Some(TxType::Withdrawal));
    assert_eq!(TxType::parse(&"dispute".to_owned()), Some(TxType::Dispute));
    assert_eq!(TxType::parse(&"resolve".to_owned()), Some(TxType::Resolve));
    assert_eq!(TxType::parse(&"chargeback".to_owned()), Some(TxType::Chargeback));
}

#[test]
fn types_are_case_sensitive() {
    assert_eq!(TxType::parse(&"Deposit".to_owned()), None);
    assert_eq!(TxType::parse(&"DEPOSIT".to_owned()), None);
    assert_eq!(TxType::parse(&" deposit".to_owned()), None);
    assert_eq!(TxType::parse(&"".to_owned()), None);
}

#[test]
fn amount_keeps_its_scale() {
    let record = CsvPaymentRecord::from_fields(&fields(&["deposit", "1", "7", "2.5000"]))
        .expect("a record");
    let amount = record.amount.expect("an amount");
    assert_eq!((amount.mantissa(), amount.scale()), (25000, 4));
}

#[test]
fn fields_are_taken_as_they_stand() {
    let record = CsvPaymentRecord::from_fields(&fields(&["dispute", " 1 ", "tx 7", ""]))
        .expect("a record");
    assert_eq!(record.client_id, " 1 ");
    assert_eq!(record.tx_id, "tx 7");
    assert_eq!(record.amount, None);
    let record =
        CsvPaymentRecord::from_fields(&fields(&["deposit", "", "", ""])).expect("a record");
    assert_eq!(record.client_id, "");
    assert_eq!(record.tx_id, "");
}

#[test]
fn each_record_error_has_its_input() {
    assert_eq!(
        CsvPaymentRecord::from_fields(&fields(&["deposit", "1", "7"])).err(),
        Some(RecordError::FieldCount)
    );
    assert_eq!(
        CsvPaymentRecord::from_fields(&fields(&["deposit", "1", "7", "1.0", "x"])).err(),
        Some(RecordError::FieldCount)
    );
    assert_eq!(
        CsvPaymentRecord::from_fields(&fields(&[])).err(),
        Some(RecordError::FieldCount)
    );
    assert_eq!(
        CsvPaymentRecord::from_fields(&fields(&["refund", "1", "7", "1.0"])).err(),
        Some(RecordError::UnknownType)
    );
    assert_eq!(
        CsvPaymentRecord::from_fields(&fields(&["deposit", "1", "7", "one"])).err(),
        Some(RecordError::IllegalAmount)
    );
    // The type is looked at before the amount.
    assert_eq!(
        CsvPaymentRecord::from_fields(&fields(&["refund", "1", "7", "one"])).err(),
        Some(RecordError::UnknownType)
    );
}

#[test]
fn read_input_reads_every_row() {
    let rows = vec![
        fields(&["deposit", "1", "7", "1.5"]),
        fields(&["bogus", "1", "7", "1.5"]),
        fields(&["resolve", "2", "7", ""]),
        fields(&["withdrawal", "2"]),
    ];
    let records = read_input(&rows);
    assert_eq!(records.len(), 4);
    let first = records[0].as_ref().expect("a record");
    assert_eq!(first.tx_type, TxType::Deposit);
    assert_eq!(first.amount, Some(dec("1.5")));
    assert_eq!(records[1].as_ref().err(), Some(&RecordError::UnknownType));
    let third = records[2].as_ref().expect("a record");
    assert_eq!(third.tx_type, TxType::Resolve);
    assert_eq!(third.client_id, "2");
    assert_eq!(third.amount, None);
    assert_eq!(records[3].as_ref().err(), Some(&RecordError::FieldCount));
    assert!(read_input(&vec![]).is_empty());
}

#[test]
fn amount_that_is_too_long_is_refused() {
    let long = "0".repeat(300);
    assert_eq!(
        CsvPaymentRecord::from_fields(&fields(&["deposit", "1", "7", long.as_str()])).err(),
        Some(RecordError::IllegalAmount)
    );
}
