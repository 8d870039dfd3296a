//! The rows of the input table: one payment record per row.

use crate::domain::props::{amount_read, amount_view, Amount};
use vstd::prelude::*;

verus! {

/// The kinds of row the input table can hold.
#[derive(Debug, PartialEq, Eq, Clone, Copy, Structural)]
pub enum TxType {
    Deposit,
    Withdrawal,
    Dispute,
    Resolve,
    Chargeback,
}

/// One row of the input table.
#[derive(Debug)]
pub struct CsvPaymentRecord {
    pub tx_type: TxType,
    pub client_id: String,
    pub tx_id: String,
    pub amount: Option<Amount>,
}

/// Why a row of the input table is not a payment record.
#[derive(Debug, PartialEq, Eq, Clone, Copy, Structural)]
pub enum RecordError {
    /// The row does not have the four fields of a record.
    FieldCount,
    /// The row's type is none of the five known ones.
    UnknownType,
    /// The row's amount is not a decimal number, or is longer than an
    /// amount is read.
    IllegalAmount,
}

/// The kind of row a type field names; the names are in lower case.
pub open spec fn tx_type_named(name: Seq<char>) -> Option<TxType> {
    if name == "deposit"@ {
        Some(TxType::Deposit)
    } else if name == "withdrawal"@ {
        Some(TxType::Withdrawal)
    } else if name == "dispute"@ {
        Some(TxType::Dispute)
    } else if name == "resolve"@ {
        Some(TxType::Resolve)
    } else if name == "chargeback"@ {
        Some(TxType::Chargeback)
    } else {
        None
    }
}

/// What the four fields of a row hold, field by field: the kind its
/// type names, and the amount its last field spells, none where that
/// field is empty.
pub open spec fn record_fields(fields: Seq<String>) -> Result<
    (TxType, Seq<char>, Seq<char>, Option<crate::domain::fixed::Fixed>),
    RecordError,
> {
    if fields.len() != 4 {
        Err(RecordError::FieldCount)
    } else if tx_type_named(fields[0]@) is None {
        Err(RecordError::UnknownType)
    } else if fields[3]@.len() == 0 {
        Ok((tx_type_named(fields[0]@).unwrap(), fields[1]@, fields[2]@, None))
    } else if amount_read(fields[3]@) is None {
        Err(RecordError::IllegalAmount)
    } else {
        Ok((tx_type_named(fields[0]@).unwrap(), fields[1]@, fields[2]@, amount_read(fields[3]@)))
    }
}

fn text_is(text: &String, name: &str) -> (r: bool)
    ensures
        r == (text@ == name@),
{
    *text == name.to_owned()
}

impl TxType {
    /// Reads the kind of row from the type field.
    pub fn parse(name: &String) -> (r: Option<TxType>)
        ensures
            r == tx_type_named(name@),
    {
        if text_is(name, "deposit") {
            Some(TxType::Deposit)
        } else if text_is(name, "withdrawal") {
            Some(TxType::Withdrawal)
        } else if text_is(name, "dispute") {
            Some(TxType::Dispute)
        } else if text_is(name, "resolve") {
            Some(TxType::Resolve)
        } else if text_is(name, "chargeback") {
            Some(TxType::Chargeback)
        } else {
            None
        }
    }
}

impl Clone for CsvPaymentRecord {
    fn clone(&self) -> (r: Self)
        ensures
            r == *self,
    {
        CsvPaymentRecord {
            tx_type: self.tx_type,
            client_id: self.client_id.clone(),
            tx_id: self.tx_id.clone(),
            amount: self.amount,
        }
    }
}

impl CsvPaymentRecord {
    /// Reads a record from the fields of a row, in the order type,
    /// client, transaction, amount. The fields are taken as they stand:
    /// trimming them is the reader's part.
    pub fn from_fields(fields: &Vec<String>) -> (r: Result<CsvPaymentRecord, RecordError>)
        ensures
            reads_as(fields@, r),
    {
        if fields.len() != 4 {
            return Err(RecordError::FieldCount);
        }
        let tx_type = match TxType::parse(&fields[0]) {
            Some(tx_type) => tx_type,
            None => {
                return Err(RecordError::UnknownType);
            },
        };
        let amount = if fields[3].as_str().is_empty() {
            None
        } else {
            match Amount::parse(fields[3].as_str()) {
                Some(amount) => Some(amount),
                None => {
                    return Err(RecordError::IllegalAmount);
                },
            }
        };
        Ok(
            CsvPaymentRecord {
                tx_type,
                client_id: fields[1].clone(),
                tx_id: fields[2].clone(),
                amount,
            },
        )
    }
}

/// Whether a result is what reading a row's fields gives.
pub open spec fn reads_as(fields: Seq<String>, r: Result<CsvPaymentRecord, RecordError>) -> bool {
    match record_fields(fields) {
        Ok(parts) => r matches Ok(record) && record.tx_type == parts.0 && record.client_id@
            == parts.1 && record.tx_id@ == parts.2 && amount_view(record.amount) == parts.3,
        Err(error) => r matches Err(e) && e == error,
    }
}

/// Reads the rows of an input table, each from its fields: one result per
/// row, in the order of the rows. A row that is no record does not stop
/// the reading.
pub fn read_input(rows: &Vec<Vec<String>>) -> (records: Vec<Result<CsvPaymentRecord, RecordError>>)
    ensures
        records.len() == rows.len(),
        forall|i: int| 0 <= i < rows.len() ==> reads_as(rows[i]@, #[trigger] records[i]),
{
    let mut records: Vec<Result<CsvPaymentRecord, RecordError>> = Vec::new();
    let mut i: usize = 0;
    while i < rows.len()
        invariant
            i <= rows.len(),
            records.len() == i,
            forall|k: int| 0 <= k < i ==> reads_as(rows[k]@, #[trigger] records[k]),
        decreases rows.len() - i,
    {
        records.push(CsvPaymentRecord::from_fields(&rows[i]));
        i += 1;
    }
    records
}

} // verus!
