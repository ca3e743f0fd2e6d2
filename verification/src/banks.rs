//! The bank profile registry: a closed table from bank identifier to export
//! layout.
//!
//! Each bank maps to a fixed number of leading rows to skip, a canonical
//! header list that fixes the decode order, a sheet-name policy and a target
//! ledger account. Resolution is a pure function of the bank and an optional
//! sheet-name override.

use vstd::prelude::*;
use vstd::string::StringExecFns;

use crate::BetlError;

verus! {

/// The closed set of supported bank export layouts.
#[derive(Debug, Clone, Copy, PartialEq, Eq, Structural)]
pub enum Bank {
    Bankia,
    Santander,
    Revolut,
    EvoBank,
    Bankinter,
}

/// One bank's export layout.
#[derive(Debug, Clone, PartialEq)]
pub struct BankConfig {
    /// Leading rows discarded before the header row.
    pub skip_row_num: usize,
    /// Canonical field names, in the column order the bank exports.
    pub headers: Vec<String>,
    /// Worksheet or section to read.
    pub sheet_name: String,
    /// Ledger account the transactions post against.
    pub base_account: String,
}

/// The canonical header names every profile must carry for decoding.
pub open spec fn op_date_name() -> Seq<char> {
    "operation_date"@
}

pub open spec fn value_date_name() -> Seq<char> {
    "value_date"@
}

pub open spec fn description_name() -> Seq<char> {
    "description"@
}

pub open spec fn amount_name() -> Seq<char> {
    "amount"@
}

pub open spec fn bankia_headers() -> Seq<Seq<char>> {
    seq!["operation_date"@, "value_date"@, "description"@, "more"@, "amount"@, "total"@]
}

pub open spec fn santander_headers() -> Seq<Seq<char>> {
    seq!["operation_date"@, "value_date"@, "description"@, "amount"@, "total"@]
}

pub open spec fn revolut_headers() -> Seq<Seq<char>> {
    seq![
        "type"@,
        "product"@,
        "operation_date"@,
        "value_date"@,
        "description"@,
        "amount"@,
        "fee"@,
        "currency"@,
        "state"@,
        "total"@,
    ]
}

pub open spec fn evo_bank_headers() -> Seq<Seq<char>> {
    seq!["operation_date"@, "value_date"@, "description"@, "amount"@, "currency"@, "total"@]
}

pub open spec fn bankinter_headers() -> Seq<Seq<char>> {
    seq!["operation_date"@, "value_date"@, "description"@, "amount"@, "total"@, "currency"@]
}

/// The index of the first header equal to `name`, if any.
pub open spec fn spec_find_header(hs: Seq<Seq<char>>, name: Seq<char>) -> Option<int>
    decreases hs.len(),
{
    if hs.len() == 0 {
        None
    } else if hs[0] == name {
        Some(0int)
    } else {
        match spec_find_header(hs.drop_first(), name) {
            Some(i) => Some(i + 1),
            None => None,
        }
    }
}

/// Where the first `n` headers differ from `name`, the first match — if any
/// — sits at or past `n`; and the reported index always holds `name` with no
/// match before it.
pub proof fn lemma_find_header_from(hs: Seq<Seq<char>>, name: Seq<char>, n: int)
    requires
        0 <= n <= hs.len(),
        forall|k: int| 0 <= k < n ==> #[trigger] hs[k] != name,
    ensures
        match spec_find_header(hs, name) {
            Some(i) => n <= i < hs.len() && hs[i] == name && (forall|k: int|
                0 <= k < i ==> #[trigger] hs[k] != name),
            None => forall|k: int| 0 <= k < hs.len() ==> #[trigger] hs[k] != name,
        },
    decreases hs.len(),
{
    if hs.len() > 0 {
        if hs[0] == name {
        } else {
            let t = hs.drop_first();
            let m = if n == 0 {
                0
            } else {
                n - 1
            };
            assert(forall|k: int| 0 <= k < m ==> #[trigger] t[k] != name);
            lemma_find_header_from(t, name, m);
            assert(forall|k: int| 1 <= k < hs.len() ==> hs[k] == t[k - 1]);
        }
    }
}

/// Finds the column of `name` in a header list.
pub fn find_header(headers: &Vec<String>, name: &str) -> (r: Option<usize>)
    ensures
        match r {
            Some(i) => spec_find_header(headers.deep_view(), name@) == Some(i as int),
            None => spec_find_header(headers.deep_view(), name@) is None,
        },
{
    let needle = String::from_str(name);
    let mut i: usize = 0;
    while i < headers.len()
        invariant
            i <= headers@.len(),
            needle@ == name@,
            forall|k: int| 0 <= k < i ==> #[trigger] headers.deep_view()[k] != name@,
        decreases headers@.len() - i,
    {
        if headers[i].eq(&needle) {
            proof {
                assert(headers.deep_view()[i as int] == headers@[i as int]@);
                lemma_find_header_from(headers.deep_view(), name@, i as int);
            }
            return Some(i);
        }
        proof {
            assert(headers.deep_view()[i as int] == headers@[i as int]@);
        }
        i += 1;
    }
    proof {
        lemma_find_header_from(headers.deep_view(), name@, headers@.len() as int);
    }
    None
}

impl BankConfig {
    /// Well-formedness: the canonical headers carry the four field names the
    /// decoder reads.
    pub open spec fn wf(self) -> bool {
        &&& spec_find_header(self.headers.deep_view(), op_date_name()) is Some
        &&& spec_find_header(self.headers.deep_view(), value_date_name()) is Some
        &&& spec_find_header(self.headers.deep_view(), description_name()) is Some
        &&& spec_find_header(self.headers.deep_view(), amount_name()) is Some
    }
}

/// A header list carrying the four field names in its first five or six
/// positions is well-formed for decoding.
proof fn lemma_headers_have_fields(hs: Seq<Seq<char>>)
    requires
        hs.len() >= 4,
        exists|i: int| 0 <= i < hs.len() && hs[i] == op_date_name(),
        exists|i: int| 0 <= i < hs.len() && hs[i] == value_date_name(),
        exists|i: int| 0 <= i < hs.len() && hs[i] == description_name(),
        exists|i: int| 0 <= i < hs.len() && hs[i] == amount_name(),
    ensures
        spec_find_header(hs, op_date_name()) is Some,
        spec_find_header(hs, value_date_name()) is Some,
        spec_find_header(hs, description_name()) is Some,
        spec_find_header(hs, amount_name()) is Some,
{
    lemma_find_header_from(hs, op_date_name(), 0);
    lemma_find_header_from(hs, value_date_name(), 0);
    lemma_find_header_from(hs, description_name(), 0);
    lemma_find_header_from(hs, amount_name(), 0);
}

/// Resolves a bank identifier and an optional sheet-name override into the
/// bank's export layout.
///
/// Every bank but Santander requires the sheet name to be supplied (the
/// caller derives it, typically from the input file's base name or a fixed
/// constant); Santander defaults to its well-known sheet. A missing mandatory
/// sheet name is the one failure.
pub fn parse_config(bank: &Bank, sheet_name: Option<&str>) -> (r: Result<BankConfig, BetlError>)
    ensures
        match bank {
            Bank::Santander => r matches Ok(c) && c.skip_row_num == 7 && c.headers.deep_view()
                == santander_headers() && c.base_account@ == "Assets:Checking"@ && c.wf() && (
            match sheet_name {
                Some(s) => c.sheet_name@ == s@,
                None => c.sheet_name@ == "Movimientos"@,
            }),
            Bank::Bankia => match sheet_name {
                Some(s) => r matches Ok(c) && c.skip_row_num == 2 && c.headers.deep_view()
                    == bankia_headers() && c.sheet_name@ == s@ && c.base_account@
                    == "Assets:Emergency fund"@ && c.wf(),
                None => r == Err::<BankConfig, BetlError>(BetlError::Configuration),
            },
            Bank::Revolut => match sheet_name {
                Some(s) => r matches Ok(c) && c.skip_row_num == 0 && c.headers.deep_view()
                    == revolut_headers() && c.sheet_name@ == s@ && c.base_account@
                    == "Assets:Revolut"@ && c.wf(),
                None => r == Err::<BankConfig, BetlError>(BetlError::Configuration),
            },
            Bank::EvoBank => match sheet_name {
                Some(s) => r matches Ok(c) && c.skip_row_num == 1 && c.headers.deep_view()
                    == evo_bank_headers() && c.sheet_name@ == s@ && c.base_account@
                    == "Assets:EvoBank"@ && c.wf(),
                None => r == Err::<BankConfig, BetlError>(BetlError::Configuration),
            },
            Bank::Bankinter => match sheet_name {
                Some(s) => r matches Ok(c) && c.skip_row_num == 8 && c.headers.deep_view()
                    == bankinter_headers() && c.sheet_name@ == s@ && c.base_account@
                    == "Assets:Bankinter"@ && c.wf(),
                None => r == Err::<BankConfig, BetlError>(BetlError::Configuration),
            },
        },
{
    match bank {
        Bank::Bankia => {
            let sheet = match sheet_name {
                Some(s) => String::from_str(s),
                None => {
                    return Err(BetlError::Configuration);
                },
            };
            let headers = vec![
                String::from_str("operation_date"),
                String::from_str("value_date"),
                String::from_str("description"),
                String::from_str("more"),
                String::from_str("amount"),
                String::from_str("total"),
            ];
            proof {
                assert(headers.deep_view() =~= bankia_headers());
                assert(bankia_headers()[0] == op_date_name());
                assert(bankia_headers()[1] == value_date_name());
                assert(bankia_headers()[2] == description_name());
                assert(bankia_headers()[4] == amount_name());
                lemma_headers_have_fields(bankia_headers());
            }
            Ok(
                BankConfig {
                    skip_row_num: 2,
                    headers,
                    sheet_name: sheet,
                    base_account: String::from_str("Assets:Emergency fund"),
                },
            )
        },
        Bank::Santander => {
            let sheet = match sheet_name {
                Some(s) => String::from_str(s),
                None => String::from_str("Movimientos"),
            };
            let headers = vec![
                String::from_str("operation_date"),
                String::from_str("value_date"),
                String::from_str("description"),
                String::from_str("amount"),
                String::from_str("total"),
            ];
            proof {
                assert(headers.deep_view() =~= santander_headers());
                assert(santander_headers()[0] == op_date_name());
                assert(santander_headers()[1] == value_date_name());
                assert(santander_headers()[2] == description_name());
                assert(santander_headers()[3] == amount_name());
                lemma_headers_have_fields(santander_headers());
            }
            Ok(
                BankConfig {
                    skip_row_num: 7,
                    headers,
                    sheet_name: sheet,
                    base_account: String::from_str("Assets:Checking"),
                },
            )
        },
        Bank::Revolut => {
            let sheet = match sheet_name {
                Some(s) => String::from_str(s),
                None => {
                    return Err(BetlError::Configuration);
                },
            };
            let headers = vec![
                String::from_str("type"),
                String::from_str("product"),
                String::from_str("operation_date"),
                String::from_str("value_date"),
                String::from_str("description"),
                String::from_str("amount"),
                String::from_str("fee"),
                String::from_str("currency"),
                String::from_str("state"),
                String::from_str("total"),
            ];
            proof {
                assert(headers.deep_view() =~= revolut_headers());
                assert(revolut_headers()[2] == op_date_name());
                assert(revolut_headers()[3] == value_date_name());
                assert(revolut_headers()[4] == description_name());
                assert(revolut_headers()[5] == amount_name());
                lemma_headers_have_fields(revolut_headers());
            }
            Ok(
                BankConfig {
                    skip_row_num: 0,
                    headers,
                    sheet_name: sheet,
                    base_account: String::from_str("Assets:Revolut"),
                },
            )
        },
        Bank::EvoBank => {
            let sheet = match sheet_name {
                Some(s) => String::from_str(s),
                None => {
                    return Err(BetlError::Configuration);
                },
            };
            let headers = vec![
                String::from_str("operation_date"),
                String::from_str("value_date"),
                String::from_str("description"),
                String::from_str("amount"),
                String::from_str("currency"),
                String::from_str("total"),
            ];
            proof {
                assert(headers.deep_view() =~= evo_bank_headers());
                assert(evo_bank_headers()[0] == op_date_name());
                assert(evo_bank_headers()[1] == value_date_name());
                assert(evo_bank_headers()[2] == description_name());
                assert(evo_bank_headers()[3] == amount_name());
                lemma_headers_have_fields(evo_bank_headers());
            }
            Ok(
                BankConfig {
                    skip_row_num: 1,
                    headers,
                    sheet_name: sheet,
                    base_account: String::from_str("Assets:EvoBank"),
                },
            )
        },
        Bank::Bankinter => {
            let sheet = match sheet_name {
                Some(s) => String::from_str(s),
                None => {
                    return Err(BetlError::Configuration);
                },
            };
            let headers = vec![
                String::from_str("operation_date"),
                String::from_str("value_date"),
                String::from_str("description"),
                String::from_str("amount"),
                String::from_str("total"),
                String::from_str("currency"),
            ];
            proof {
                assert(headers.deep_view() =~= bankinter_headers());
                assert(bankinter_headers()[0] == op_date_name());
                assert(bankinter_headers()[1] == value_date_name());
                assert(bankinter_headers()[2] == description_name());
                assert(bankinter_headers()[3] == amount_name());
                lemma_headers_have_fields(bankinter_headers());
            }
            Ok(
                BankConfig {
                    skip_row_num: 8,
                    headers,
                    sheet_name: sheet,
                    base_account: String::from_str("Assets:Bankinter"),
                },
            )
        },
    }
}

} // verus!
