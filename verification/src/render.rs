//! Category matching and ledger rendering.
//!
//! Each transaction renders as one ledger block: a dated header line and an
//! indented posting line, with at most one category line appended where the
//! first matching regex mapping — scanned in the mapping's own order — names
//! one. Blocks are separated by exactly one blank line.

use vstd::prelude::*;
use vstd::string::StringExecFns;

use crate::amount::{format_amount, spec_format_amount};
use crate::bank_statement::{Transaction, TransactionV};
use crate::BetlError;

verus! {

/// Regex-pattern-to-category-label mappings, in iteration order.
#[derive(Debug, Clone, PartialEq)]
pub struct Mappings {
    pub mappings: Vec<(String, String)>,
}

impl View for Mappings {
    type V = Seq<(Seq<char>, Seq<char>)>;

    open spec fn view(&self) -> Seq<(Seq<char>, Seq<char>)> {
        Seq::new(self.mappings@.len(), |i: int| (self.mappings@[i].0@, self.mappings@[i].1@))
    }
}

/// Whether `regex::Regex::new` accepts the pattern; a function of the
/// pattern alone.
pub uninterp spec fn regex_ok(pattern: Seq<char>) -> bool;

/// Whether `regex::Regex::is_match` finds the pattern somewhere in the text;
/// a function of the pattern and the text alone.
pub uninterp spec fn regex_matches(pattern: Seq<char>, text: Seq<char>) -> bool;

/// Relies on `regex::Regex::new` for pattern validity and on
/// `regex::Regex::is_match` for the substring match; both are deterministic
/// in the pattern and the text.
#[verifier::external_body]
fn regex_is_match(pattern: &str, text: &str) -> (r: Option<bool>)
    ensures
        r is Some <==> regex_ok(pattern@),
        r matches Some(b) ==> b == regex_matches(pattern@, text@),
{
    match regex::Regex::new(pattern) {
        Ok(re) => Some(re.is_match(text)),
        Err(_) => None,
    }
}

/// The first-match category policy: mappings are scanned in order; the first
/// whose pattern matches the text names the category and ends the scan; an
/// invalid pattern reached before that is the error. Patterns past the first
/// match are never examined.
pub open spec fn spec_match_category(maps: Seq<(Seq<char>, Seq<char>)>, text: Seq<char>) -> Result<
    Option<Seq<char>>,
    Seq<char>,
>
    decreases maps.len(),
{
    if maps.len() == 0 {
        Ok(None)
    } else if !regex_ok(maps[0].0) {
        Err(maps[0].0)
    } else if regex_matches(maps[0].0, text) {
        Ok(Some(maps[0].1))
    } else {
        spec_match_category(maps.drop_first(), text)
    }
}

/// A scan that has passed `n` valid, non-matching mappings continues as the
/// scan of the rest.
proof fn lemma_match_category_skip(maps: Seq<(Seq<char>, Seq<char>)>, text: Seq<char>, n: int)
    requires
        0 <= n <= maps.len(),
        forall|k: int|
            0 <= k < n ==> regex_ok((#[trigger] maps[k]).0) && !regex_matches(maps[k].0, text),
    ensures
        spec_match_category(maps, text) == spec_match_category(maps.skip(n), text),
    decreases n,
{
    if n > 0 {
        let t = maps.drop_first();
        assert(forall|k: int| 0 <= k < n - 1 ==> t[k] == maps[k + 1]);
        lemma_match_category_skip(t, text, n - 1);
        assert(t.skip(n - 1) =~= maps.skip(n));
    } else {
        assert(maps.skip(0) =~= maps);
    }
}

/// Scans the mappings in order and names the category of the first match.
///
/// Returns `Ok(None)` where no mapping matches, and fails with the offending
/// pattern where an invalid regex is reached before any match.
pub fn find_category(mappings: &Mappings, text: &str) -> (r: Result<Option<String>, BetlError>)
    ensures
        match spec_match_category(mappings@, text@) {
            Ok(cat) => r matches Ok(o) && (match cat {
                Some(lbl) => o matches Some(s) && s@ == lbl,
                None => o is None,
            }),
            Err(p) => r matches Err(e) && e matches BetlError::Pattern(ps) && ps@ == p,
        },
{
    proof {
        assert(mappings@.skip(0) =~= mappings@);
    }
    let mut i: usize = 0;
    while i < mappings.mappings.len()
        invariant
            i <= mappings.mappings@.len(),
            spec_match_category(mappings@, text@) == spec_match_category(
                mappings@.skip(i as int),
                text@,
            ),
        decreases mappings.mappings@.len() - i,
    {
        proof {
            assert(mappings@[i as int] == (mappings.mappings@[i as int].0@, mappings.mappings@[
                i as int].1@));
            assert(mappings@.skip(i as int)[0] == mappings@[i as int]);
        }
        let pair = &mappings.mappings[i];
        match regex_is_match(pair.0.as_str(), text) {
            None => {
                return Err(BetlError::Pattern(pair.0.clone()));
            },
            Some(true) => {
                return Ok(Some(pair.1.clone()));
            },
            Some(false) => {
                proof {
                    assert(mappings@.skip(i as int).drop_first() =~= mappings@.skip(i as int + 1));
                }
            },
        }
        i += 1;
    }
    proof {
        assert(mappings@.skip(i as int).len() == 0);
    }
    Ok(None)
}

/// The plain part of a ledger block: the dated header line and the indented
/// posting line with account, amount and currency symbol.
pub open spec fn spec_plain_block(t: TransactionV, account: Seq<char>, symbol: Seq<char>) -> Seq<
    char,
>
    recommends
        t.operation_date is Some,
{
    crate::date::spec_format_ymd(t.operation_date->Some_0) + " * "@ + t.description + "\n    "@
        + account + "               "@ + spec_format_amount(t.amount) + symbol + "\n"@
}

/// A whole ledger block: the plain part, an optional category line, and the
/// blank separator line.
pub open spec fn spec_block(
    t: TransactionV,
    cat: Option<Seq<char>>,
    account: Seq<char>,
    symbol: Seq<char>,
) -> Seq<char> {
    spec_plain_block(t, account, symbol) + (match cat {
        Some(c) => "    "@ + c + "\n"@,
        None => Seq::empty(),
    }) + "\n"@
}

/// What rendering one transaction yields: its block, with the category named
/// by the first matching mapping — or no category line where no mappings are
/// given or none matches — or the first invalid pattern reached.
pub open spec fn spec_build_transaction_string(
    t: TransactionV,
    maps: Option<Seq<(Seq<char>, Seq<char>)>>,
    account: Seq<char>,
    symbol: Seq<char>,
) -> Result<Seq<char>, Seq<char>> {
    match maps {
        None => Ok(spec_block(t, None, account, symbol)),
        Some(ms) => match spec_match_category(ms, t.description) {
            Ok(cat) => Ok(spec_block(t, cat, account, symbol)),
            Err(p) => Err(p),
        },
    }
}

/// The view of an optional mapping set.
pub open spec fn spec_mappings_view(config: Option<&Mappings>) -> Option<
    Seq<(Seq<char>, Seq<char>)>,
> {
    match config {
        Some(m) => Some(m@),
        None => None,
    }
}

/// Renders one transaction as a ledger block.
///
/// Absent mappings produce a block with no category line; so does a scan
/// that matches nothing. The one failure is an invalid regex pattern
/// reached during the scan.
pub fn build_transaction_string(
    transaction: &Transaction,
    config: Option<&Mappings>,
    base_account: &str,
    currency_symbol: &str,
) -> (r: Result<String, BetlError>)
    requires
        transaction@.operation_date is Some,
        transaction@.wf(),
    ensures
        match spec_build_transaction_string(
            transaction@,
            spec_mappings_view(config),
            base_account@,
            currency_symbol@,
        ) {
            Ok(s) => r matches Ok(x) && x@ == s,
            Err(p) => r matches Err(e) && e matches BetlError::Pattern(ps) && ps@ == p,
        },
{
    let cat: Option<String> = match config {
        Some(m) => match find_category(m, transaction.description.as_str()) {
            Ok(c) => c,
            Err(e) => {
                return Err(e);
            },
        },
        None => None,
    };
    let d = transaction.operation_date.unwrap();
    let mut s = d.format_ymd();
    s.append(" * ");
    s.append(transaction.description.as_str());
    s.append("\n    ");
    s.append(base_account);
    s.append("               ");
    let amt = format_amount(transaction.amount);
    s.append(amt.as_str());
    s.append(currency_symbol);
    s.append("\n");
    match &cat {
        Some(label) => {
            s.append("    ");
            s.append(label.as_str());
            s.append("\n");
        },
        None => {},
    }
    s.append("\n");
    proof {
        assert(s@ =~= spec_block(
            transaction@,
            match cat {
                Some(label) => Some(label@),
                None => None,
            },
            base_account@,
            currency_symbol@,
        ));
    }
    Ok(s)
}

/// What rendering a sequence yields: the concatenation of every block, or
/// the first invalid pattern reached.
pub open spec fn spec_render_transactions(
    ts: Seq<TransactionV>,
    maps: Option<Seq<(Seq<char>, Seq<char>)>>,
    account: Seq<char>,
    symbol: Seq<char>,
) -> Result<Seq<char>, Seq<char>>
    decreases ts.len(),
{
    if ts.len() == 0 {
        Ok(Seq::empty())
    } else {
        match spec_render_transactions(ts.drop_last(), maps, account, symbol) {
            Err(p) => Err(p),
            Ok(pre) => match spec_build_transaction_string(ts.last(), maps, account, symbol) {
                Ok(b) => Ok(pre + b),
                Err(p) => Err(p),
            },
        }
    }
}

/// Renders a whole transaction sequence, block after block, each separated
/// from the next by one blank line.
pub fn render_transactions(
    transactions: &Vec<Transaction>,
    config: Option<&Mappings>,
    base_account: &str,
    currency_symbol: &str,
) -> (r: Result<String, BetlError>)
    requires
        forall|k: int|
            0 <= k < transactions@.len() ==> (#[trigger] transactions@[k])@.operation_date is Some
                && transactions@[k]@.wf(),
    ensures
        match spec_render_transactions(
            transactions.deep_view(),
            spec_mappings_view(config),
            base_account@,
            currency_symbol@,
        ) {
            Ok(s) => r matches Ok(x) && x@ == s,
            Err(p) => r matches Err(e) && e matches BetlError::Pattern(ps) && ps@ == p,
        },
{
    let ghost tv = transactions.deep_view();
    let ghost mv = spec_mappings_view(config);
    let mut s = String::new();
    proof {
        assert(tv.take(0) =~= Seq::<TransactionV>::empty());
        assert(s@ =~= Seq::<char>::empty());
    }
    let mut i: usize = 0;
    while i < transactions.len()
        invariant
            i <= transactions@.len(),
            tv == transactions.deep_view(),
            mv == spec_mappings_view(config),
            forall|k: int|
                0 <= k < transactions@.len() ==> (#[trigger] transactions@[k])@.operation_date
                    is Some && transactions@[k]@.wf(),
            spec_render_transactions(tv.take(i as int), mv, base_account@, currency_symbol@)
                == Ok::<Seq<char>, Seq<char>>(s@),
        decreases transactions@.len() - i,
    {
        proof {
            assert(transactions@[i as int]@ == tv[i as int]);
        }
        match build_transaction_string(&transactions[i], config, base_account, currency_symbol) {
            Ok(block) => {
                s.append(block.as_str());
                proof {
                    assert(tv.take(i as int + 1).drop_last() =~= tv.take(i as int));
                    assert(tv.take(i as int + 1).last() == tv[i as int]);
                }
            },
            Err(e) => {
                proof {
                    lemma_render_first_err(tv, mv, base_account@, currency_symbol@, i as int);
                }
                return Err(e);
            },
        }
        i += 1;
    }
    proof {
        assert(tv.take(transactions@.len() as int) =~= tv);
    }
    Ok(s)
}

/// A render that passes the first `k` transactions and fails on transaction
/// `k` fails on the whole sequence with exactly that pattern.
proof fn lemma_render_first_err(
    ts: Seq<TransactionV>,
    maps: Option<Seq<(Seq<char>, Seq<char>)>>,
    account: Seq<char>,
    symbol: Seq<char>,
    k: int,
)
    requires
        0 <= k < ts.len(),
        spec_render_transactions(ts.take(k), maps, account, symbol) is Ok,
        spec_build_transaction_string(ts[k], maps, account, symbol) is Err,
    ensures
        spec_render_transactions(ts, maps, account, symbol) == Err::<Seq<char>, Seq<char>>(
            spec_build_transaction_string(ts[k], maps, account, symbol)->Err_0,
        ),
    decreases ts.len(),
{
    if k == ts.len() - 1 {
        assert(ts.drop_last() =~= ts.take(k));
        assert(ts.last() == ts[k]);
    } else {
        let pre = ts.drop_last();
        assert(pre.take(k) =~= ts.take(k));
        assert(pre[k] == ts[k]);
        lemma_render_first_err(pre, maps, account, symbol, k);
    }
}

} // verus!
