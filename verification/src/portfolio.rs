//! The paper-trading wallet and portfolio read accessors.

use vstd::prelude::*;
use vstd::string::*;
use crate::json::{
    jstr, push_json_string, skip_ws, expect_char, expect_key, parse_string, parse_number_token,
    parse_i64_at, str_eq,
};
use crate::store::StoreError;
use crate::text::{dec_str_int, i64_to_dec, is_decimal, is_decimal_str, to_chars};

verus! {

/// One asset position inside the paper wallet.
#[derive(Debug)]
pub struct Holding {
    pub asset: String,
    /// Decimal text, as persisted.
    pub amount: String,
    pub avg_buy_price: String,
    pub total_cost: String,
}

/// One named entry of the wallet's holdings map.
#[derive(Debug)]
pub struct HoldingEntry {
    pub name: String,
    pub holding: Holding,
}

/// The singleton paper-trading wallet.
#[derive(Debug)]
pub struct PaperWallet {
    pub version: i32,
    pub created_at: i64,
    /// The quote balance, as decimal text.
    pub usdt: String,
    pub holdings: Vec<HoldingEntry>,
}

/// A live-portfolio answer: a total value and the positions behind it.
#[derive(Debug)]
pub struct PortfolioData {
    pub total_value: String,
    pub holdings: Vec<Holding>,
}

/// The wallet created lazily on first read: version 1, stamped with the
/// given creation time, a fixed starting balance and no holdings.
pub fn default_wallet(now: i64) -> (r: PaperWallet)
    ensures
        r.version == 1,
        r.created_at == now,
        r.usdt@ == "10000.0"@,
        r.holdings@.len() == 0,
{
    PaperWallet {
        version: 1,
        created_at: now,
        usdt: String::from_str("10000.0"),
        holdings: Vec::new(),
    }
}

fn parse_holding(v: &Vec<char>, i: usize) -> (r: Result<(Holding, usize), usize>)
    requires
        i <= v@.len(),
    ensures
        r matches Ok(p) ==> i < p.1 <= v@.len(),
        r matches Ok(p) ==> is_decimal(p.0.amount@) && is_decimal(p.0.avg_buy_price@)
            && is_decimal(p.0.total_cost@),
{
    let i1 = match expect_char(v, i, '{') {
        Some(j) => j,
        None => {
            return Err(i);
        },
    };
    let i2 = match expect_key(v, i1, "asset") {
        Some(j) => j,
        None => {
            return Err(i1);
        },
    };
    let (asset, i3) = match parse_string(v, i2) {
        Some(p) => p,
        None => {
            return Err(i2);
        },
    };
    let i4 = match expect_char(v, i3, ',') {
        Some(j) => j,
        None => {
            return Err(i3);
        },
    };
    let i5 = match expect_key(v, i4, "amount") {
        Some(j) => j,
        None => {
            return Err(i4);
        },
    };
    let (amount, i6) = match parse_number_token(v, i5) {
        Some(p) => p,
        None => {
            return Err(i5);
        },
    };
    let i7 = match expect_char(v, i6, ',') {
        Some(j) => j,
        None => {
            return Err(i6);
        },
    };
    let i8 = match expect_key(v, i7, "avgBuyPrice") {
        Some(j) => j,
        None => {
            return Err(i7);
        },
    };
    let (avg_buy_price, i9) = match parse_number_token(v, i8) {
        Some(p) => p,
        None => {
            return Err(i8);
        },
    };
    let i10 = match expect_char(v, i9, ',') {
        Some(j) => j,
        None => {
            return Err(i9);
        },
    };
    let i11 = match expect_key(v, i10, "totalCost") {
        Some(j) => j,
        None => {
            return Err(i10);
        },
    };
    let (total_cost, i12) = match parse_number_token(v, i11) {
        Some(p) => p,
        None => {
            return Err(i11);
        },
    };
    let i13 = match expect_char(v, i12, '}') {
        Some(j) => j,
        None => {
            return Err(i12);
        },
    };
    if !is_decimal_str(amount.as_str()) || !is_decimal_str(avg_buy_price.as_str())
        || !is_decimal_str(total_cost.as_str()) {
        return Err(i12);
    }
    Ok((Holding { asset, amount, avg_buy_price, total_cost }, i13))
}

/// The rendering of one named holding inside the holdings object.
pub open spec fn render_holding_entry(e: HoldingEntry) -> Seq<char> {
    "\n    "@ + jstr(e.name@) + ": {\n      \"asset\": "@ + jstr(e.holding.asset@)
        + ",\n      \"amount\": "@ + e.holding.amount@ + ",\n      \"avgBuyPrice\": "@
        + e.holding.avg_buy_price@ + ",\n      \"totalCost\": "@ + e.holding.total_cost@
        + "\n    }"@
}

/// The comma-separated renderings of the holdings.
pub open spec fn render_holding_items(s: Seq<HoldingEntry>) -> Seq<char>
    decreases s.len(),
{
    if s.len() == 0 {
        Seq::empty()
    } else if s.len() == 1 {
        render_holding_entry(s[0])
    } else {
        render_holding_items(s.drop_last()) + ","@ + render_holding_entry(s.last())
    }
}

/// The whole paper wallet file's rendering.
pub open spec fn render_wallet_text(w: PaperWallet) -> Seq<char> {
    "{\n  \"version\": "@ + dec_str_int(w.version as int) + ",\n  \"createdAt\": "@
        + dec_str_int(w.created_at as int) + ",\n  \"usdt\": "@ + w.usdt@
        + ",\n  \"holdings\": {"@ + render_holding_items(w.holdings@) + (if w.holdings@.len()
        > 0 {
        "\n  "@
    } else {
        Seq::empty()
    }) + "}\n}"@
}

#[verifier::rlimit(80)]
fn push_holding_entry(out: &mut String, e: &HoldingEntry)
    ensures
        final(out)@ == old(out)@ + render_holding_entry(*e),
{
    out.append("\n    ");
    push_json_string(out, e.name.as_str());
    out.append(": {\n      \"asset\": ");
    push_json_string(out, e.holding.asset.as_str());
    out.append(",\n      \"amount\": ");
    out.append(e.holding.amount.as_str());
    out.append(",\n      \"avgBuyPrice\": ");
    out.append(e.holding.avg_buy_price.as_str());
    out.append(",\n      \"totalCost\": ");
    out.append(e.holding.total_cost.as_str());
    out.append("\n    }");
    proof {
        assert(final(out)@ =~= old(out)@ + render_holding_entry(*e));
    }
}

/// Renders the paper wallet as its JSON file text.
#[verifier::rlimit(80)]
pub fn render_wallet(w: &PaperWallet) -> (r: String)
    ensures
        r@ == render_wallet_text(*w),
{
    let mut out = String::from_str("{\n  \"version\": ");
    let d = i64_to_dec(w.version as i64);
    out.append(d.as_str());
    out.append(",\n  \"createdAt\": ");
    let d = i64_to_dec(w.created_at);
    out.append(d.as_str());
    out.append(",\n  \"usdt\": ");
    out.append(w.usdt.as_str());
    out.append(",\n  \"holdings\": {");
    let ghost head = out@;
    let ghost hs = w.holdings@;
    let mut i: usize = 0;
    while i < w.holdings.len()
        invariant
            i <= hs.len(),
            hs == w.holdings@,
            out@ == head + render_holding_items(hs.take(i as int)),
        decreases hs.len() - i,
    {
        if i > 0 {
            out.append(",");
        }
        push_holding_entry(&mut out, &w.holdings[i]);
        proof {
            assert(hs.take(i + 1).drop_last() =~= hs.take(i as int));
            assert(hs.take(i + 1).last() == hs[i as int]);
            if i == 0 {
                assert(hs.take(1) =~= seq![hs[0]]);
            }
            assert(out@ =~= head + render_holding_items(hs.take(i + 1)));
        }
        i += 1;
    }
    proof {
        assert(hs.take(hs.len() as int) =~= hs);
    }
    if w.holdings.len() > 0 {
        out.append("\n  ");
    }
    out.append("}\n}");
    proof {
        assert(out@ =~= render_wallet_text(*w));
    }
    out
}

/// Parses the paper wallet file. The file is canonical: it must be exactly
/// the rendering of the wallet it holds, and anything else is refused as
/// corrupt, so a successful parse pins the content completely.
pub fn parse_wallet(content: &str) -> (r: Result<PaperWallet, StoreError>)
    ensures
        r matches Ok(w) ==> content@ == render_wallet_text(w),
        r matches Ok(w) ==> is_decimal(w.usdt@),
        r matches Ok(w) ==> forall|k: int|
            0 <= k < w.holdings@.len() ==> {
                let h = (#[trigger] w.holdings@[k]).holding;
                is_decimal(h.amount@) && is_decimal(h.avg_buy_price@) && is_decimal(h.total_cost@)
            },
        r matches Err(e) ==> e is CorruptState,
{
    let v = to_chars(content);
    let i1 = match expect_char(&v, 0, '{') {
        Some(j) => j,
        None => {
            return Err(StoreError::CorruptState(0));
        },
    };
    let i2 = match expect_key(&v, i1, "version") {
        Some(j) => j,
        None => {
            return Err(StoreError::CorruptState(i1));
        },
    };
    let (version, i3) = match parse_i64_at(&v, i2) {
        Some((x, j)) => {
            if x < i32::MIN as i64 || x > i32::MAX as i64 {
                return Err(StoreError::CorruptState(i2));
            }
            (x as i32, j)
        },
        None => {
            return Err(StoreError::CorruptState(i2));
        },
    };
    let i4 = match expect_char(&v, i3, ',') {
        Some(j) => j,
        None => {
            return Err(StoreError::CorruptState(i3));
        },
    };
    let i5 = match expect_key(&v, i4, "createdAt") {
        Some(j) => j,
        None => {
            return Err(StoreError::CorruptState(i4));
        },
    };
    let (created_at, i6) = match parse_i64_at(&v, i5) {
        Some(p) => p,
        None => {
            return Err(StoreError::CorruptState(i5));
        },
    };
    let i7 = match expect_char(&v, i6, ',') {
        Some(j) => j,
        None => {
            return Err(StoreError::CorruptState(i6));
        },
    };
    let i8 = match expect_key(&v, i7, "usdt") {
        Some(j) => j,
        None => {
            return Err(StoreError::CorruptState(i7));
        },
    };
    let (usdt, i9) = match parse_number_token(&v, i8) {
        Some(p) => p,
        None => {
            return Err(StoreError::CorruptState(i8));
        },
    };
    if !is_decimal_str(usdt.as_str()) {
        return Err(StoreError::CorruptState(i8));
    }
    let i10 = match expect_char(&v, i9, ',') {
        Some(j) => j,
        None => {
            return Err(StoreError::CorruptState(i9));
        },
    };
    let i11 = match expect_key(&v, i10, "holdings") {
        Some(j) => j,
        None => {
            return Err(StoreError::CorruptState(i10));
        },
    };
    let i12 = match expect_char(&v, i11, '{') {
        Some(j) => j,
        None => {
            return Err(StoreError::CorruptState(i11));
        },
    };
    let mut holdings: Vec<HoldingEntry> = Vec::new();
    let mut pos = i12;
    let mut first = true;
    loop
        invariant
            pos <= v@.len(),
            forall|k: int|
                0 <= k < holdings@.len() ==> {
                    let h = (#[trigger] holdings@[k]).holding;
                    is_decimal(h.amount@) && is_decimal(h.avg_buy_price@) && is_decimal(
                        h.total_cost@,
                    )
                },
        decreases v@.len() - pos,
    {
        match expect_char(&v, pos, '}') {
            Some(j) => {
                pos = j;
                break;
            },
            None => {},
        }
        if !first {
            pos = match expect_char(&v, pos, ',') {
                Some(j) => j,
                None => {
                    return Err(StoreError::CorruptState(pos));
                },
            };
        }
        let (name, p1) = match parse_string(&v, pos) {
            Some(p) => p,
            None => {
                return Err(StoreError::CorruptState(pos));
            },
        };
        let p2 = match expect_char(&v, p1, ':') {
            Some(j) => j,
            None => {
                return Err(StoreError::CorruptState(p1));
            },
        };
        let (holding, p3) = match parse_holding(&v, p2) {
            Ok(p) => p,
            Err(at) => {
                return Err(StoreError::CorruptState(at));
            },
        };
        holdings.push(HoldingEntry { name, holding });
        pos = p3;
        first = false;
    }
    let end = match expect_char(&v, pos, '}') {
        Some(j) => j,
        None => {
            return Err(StoreError::CorruptState(pos));
        },
    };
    let tail = skip_ws(&v, end);
    if tail != v.len() {
        return Err(StoreError::CorruptState(tail));
    }
    let w = PaperWallet { version, created_at, usdt, holdings };
    let rendered = render_wallet(&w);
    if !str_eq(content, rendered.as_str()) {
        return Err(StoreError::CorruptState(0));
    }
    Ok(w)
}

/// Returns the paper wallet: a missing file yields a fresh default wallet
/// stamped with the given creation time, not an error.
pub fn get_paper_portfolio(content: Option<&str>, now: i64) -> (r: Result<PaperWallet, StoreError>)
    ensures
        content is None ==> (r matches Ok(w) && w.version == 1 && w.created_at == now && w.usdt@
            == "10000.0"@ && w.holdings@.len() == 0),
        content matches Some(t) ==> (r matches Ok(w) ==> t@ == render_wallet_text(w)),
        r matches Err(e) ==> content is Some && e is CorruptState,
{
    match content {
        None => Ok(default_wallet(now)),
        Some(text) => parse_wallet(text),
    }
}

/// Returns the live portfolio for an exchange. Exchange accounts are not
/// read yet: the answer is an empty portfolio with a zero total.
pub fn get_live_portfolio(_exchange: &str) -> (r: PortfolioData)
    ensures
        r.total_value@ == "0.0"@,
        r.holdings@.len() == 0,
{
    PortfolioData { total_value: String::from_str("0.0"), holdings: Vec::new() }
}

} // verus!
