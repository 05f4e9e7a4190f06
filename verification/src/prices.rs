//! Market data: symbol naming, the batched ticker request, parsing the
//! ticker response into snapshots, and the polling loop's cache decision.

use vstd::prelude::*;
use vstd::string::*;
use crate::ext::{url_encode, url_encoded};
use crate::json::{
    jstr, push_json_string, skip_ws, expect_char, parse_string, parse_number_token, parse_bool_at,
    expect_lit, str_eq,
};
use crate::text::{is_dec_digit, is_decimal, is_decimal_str, to_chars};

verus! {

/// One per-symbol price snapshot. The numeric fields hold decimal text, as
/// the ticker endpoint transmits them.
#[derive(Debug)]
pub struct PriceData {
    /// Normalized, e.g. `BTC/USDT`.
    pub symbol: String,
    pub price: String,
    pub change_24h: String,
    pub volume_24h: String,
}

impl Clone for PriceData {
    /// A clone holds the same value.
    fn clone(&self) -> (r: Self)
        ensures
            r.symbol@ == self.symbol@,
            r.price@ == self.price@,
            r.change_24h@ == self.change_24h@,
            r.volume_24h@ == self.volume_24h@,
    {
        PriceData {
            symbol: self.symbol.clone(),
            price: self.price.clone(),
            change_24h: self.change_24h.clone(),
            volume_24h: self.volume_24h.clone(),
        }
    }
}

/// A symbol with every `/` separator removed, e.g. `BTC/USDT` to `BTCUSDT`.
pub open spec fn strip_slash(s: Seq<char>) -> Seq<char>
    decreases s.len(),
{
    if s.len() == 0 {
        Seq::empty()
    } else if s.last() == '/' {
        strip_slash(s.drop_last())
    } else {
        strip_slash(s.drop_last()).push(s.last())
    }
}

/// Removes the `/` separator from a display symbol.
pub fn normalize_symbol(s: &str) -> (r: String)
    ensures
        r@ == strip_slash(s@),
{
    let v = to_chars(s);
    let mut r = String::new();
    let mut i: usize = 0;
    while i < v.len()
        invariant
            i <= v@.len(),
            v@ == s@,
            r@ == strip_slash(s@.take(i as int)),
        decreases v@.len() - i,
    {
        proof {
            assert(s@.take(i + 1).drop_last() =~= s@.take(i as int));
            assert(s@.take(i + 1).last() == s@[i as int]);
        }
        let c = v[i];
        if c != '/' {
            r.push(c);
        }
        i += 1;
    }
    proof {
        assert(s@.take(v@.len() as int) =~= s@);
    }
    r
}

/// The display form of an exchange symbol: a `USDT`-quoted pair gains the
/// `/` separator, anything else is kept as it is.
pub open spec fn format_symbol_spec(s: Seq<char>) -> Seq<char> {
    if s.len() >= 4 && s.subrange(s.len() - 4, s.len() as int) == "USDT"@ {
        s.subrange(0, s.len() - 4) + "/USDT"@
    } else {
        s
    }
}

/// Converts an exchange symbol such as `BTCUSDT` to its display form
/// `BTC/USDT`.
pub fn format_symbol(binance_symbol: &str) -> (r: String)
    ensures
        r@ == format_symbol_spec(binance_symbol@),
{
    proof {
        reveal_strlit("USDT");
    }
    let n = binance_symbol.unicode_len();
    if n >= 4 {
        let tail = binance_symbol.substring_char(n - 4, n);
        if str_eq(tail, "USDT") {
            let base = binance_symbol.substring_char(0, n - 4);
            let mut r = base.to_owned();
            r.append("/USDT");
            return r;
        }
    }
    binance_symbol.to_owned()
}

/// The comma-separated JSON string literals of the array items.
pub open spec fn str_array_items(s: Seq<Seq<char>>) -> Seq<char>
    decreases s.len(),
{
    if s.len() == 0 {
        Seq::empty()
    } else if s.len() == 1 {
        jstr(s[0])
    } else {
        str_array_items(s.drop_last()) + ","@ + jstr(s.last())
    }
}

/// The rendering of a JSON array of strings, as the ticker query carries
/// the requested symbols.
pub open spec fn render_str_array(s: Seq<Seq<char>>) -> Seq<char> {
    if s.len() == 0 {
        "[]"@
    } else {
        "["@ + str_array_items(s) + "]"@
    }
}

/// The views of a sequence of strings.
pub open spec fn strs(s: Seq<String>) -> Seq<Seq<char>> {
    s.map_values(|x: String| x@)
}

/// Renders a JSON array holding the given strings.
pub fn str_array_json(items: &Vec<String>) -> (r: String)
    ensures
        r@ == render_str_array(strs(items@)),
{
    let ghost vs = strs(items@);
    if items.len() == 0 {
        return String::from_str("[]");
    }
    let mut out = String::from_str("[");
    push_json_string(&mut out, items[0].as_str());
    proof {
        assert(vs.take(1) =~= seq![vs[0]]);
        assert(vs[0] == items@[0]@);
        assert(out@ =~= "["@ + str_array_items(vs.take(1)));
    }
    let mut i: usize = 1;
    while i < items.len()
        invariant
            1 <= i <= items@.len(),
            vs == strs(items@),
            out@ == "["@ + str_array_items(vs.take(i as int)),
        decreases items@.len() - i,
    {
        out.append(",");
        push_json_string(&mut out, items[i].as_str());
        proof {
            assert(vs.take(i + 1).drop_last() =~= vs.take(i as int));
            assert(vs.take(i + 1).last() == vs[i as int]);
            assert(vs[i as int] == items@[i as int]@);
            assert(out@ =~= "["@ + str_array_items(vs.take(i + 1)));
        }
        i += 1;
    }
    out.append("]");
    proof {
        assert(vs.take(items@.len() as int) =~= vs);
        assert(out@ =~= render_str_array(vs));
    }
    out
}

/// The batched ticker request for the given exchange symbols: the fixed
/// endpoint with the percent-encoded JSON array of symbols as its query.
pub fn ticker_url(symbols: &Vec<String>) -> (r: String)
    ensures
        r@ == "https://api.binance.com/api/v3/ticker/24hr?symbols="@ + url_encoded(
            render_str_array(strs(symbols@)),
        ),
{
    let json = str_array_json(symbols);
    let encoded = url_encode(json.as_str());
    let mut r = String::from_str("https://api.binance.com/api/v3/ticker/24hr?symbols=");
    r.append(encoded.as_str());
    r
}

/// A numeric text kept where it is a plain decimal and zero otherwise.
/// Exponent notation is not a plain decimal and also becomes zero; the
/// ticker endpoint transmits plain decimals only.
pub open spec fn norm_dec(s: Seq<char>) -> Seq<char> {
    if is_decimal(s) {
        s
    } else {
        "0"@
    }
}

/// A normalized numeric text is always a plain decimal.
pub proof fn lemma_norm_dec_decimal(s: Seq<char>)
    ensures
        is_decimal(norm_dec(s)),
{
    if !is_decimal(s) {
        reveal_strlit("0");
        assert("0"@ =~= seq!['0']);
        assert('0' as u32 == 48);
        assert(is_dec_digit(seq!['0'][0]));
        assert(seq!['0'].drop_last() =~= Seq::<char>::empty());
        assert(crate::text::dot_count(Seq::<char>::empty()) == 0);
        assert(crate::text::dot_count(seq!['0']) == 0);
        assert(crate::text::is_decimal_body(seq!['0']));
        assert(is_decimal(seq!['0']));
    }
}

/// Normalizes a numeric text: kept as it is where it is a plain decimal,
/// and replaced by zero where it is not, so an unparseable value yields
/// zero for that field only, never a whole-batch failure.
pub fn norm_decimal(s: String) -> (r: String)
    ensures
        r@ == norm_dec(s@),
        is_decimal(r@),
        is_decimal(s@) ==> r@ == s@,
        !is_decimal(s@) ==> r@ == "0"@,
{
    proof {
        lemma_norm_dec_decimal(s@);
    }
    if is_decimal_str(s.as_str()) {
        s
    } else {
        String::from_str("0")
    }
}

/// Builds the batched ticker request for display symbols: each symbol is
/// normalized by removing its `/` separator, and the set is carried as a
/// percent-encoded JSON array.
pub fn get_prices_request(symbols: &Vec<String>) -> (r: String)
    ensures
        r@ == "https://api.binance.com/api/v3/ticker/24hr?symbols="@ + url_encoded(
            render_str_array(strs(symbols@).map_values(|s: Seq<char>| strip_slash(s))),
        ),
{
    let ghost target = strs(symbols@).map_values(|s: Seq<char>| strip_slash(s));
    let mut normalized: Vec<String> = Vec::new();
    let mut i: usize = 0;
    while i < symbols.len()
        invariant
            i <= symbols@.len(),
            target == strs(symbols@).map_values(|s: Seq<char>| strip_slash(s)),
            target.len() == symbols@.len(),
            normalized@.len() == i,
            strs(normalized@) == target.take(i as int),
        decreases symbols@.len() - i,
    {
        let n = normalize_symbol(symbols[i].as_str());
        normalized.push(n);
        proof {
            assert(strs(symbols@)[i as int] == symbols@[i as int]@);
            assert(target[i as int] == strip_slash(strs(symbols@)[i as int]));
            assert(normalized@.len() == i + 1);
            assert(strs(normalized@)[i as int] == normalized@[i as int]@);
            assert(forall|k: int| 0 <= k < i ==> strs(normalized@)[k] == #[trigger] target.take(i as int)[k]);
            assert(strs(normalized@) =~~= target.take(i + 1));
        }
        i += 1;
    }
    proof {
        assert(target.take(symbols@.len() as int) =~= target);
    }
    ticker_url(&normalized)
}

/// One raw record of the batched ticker response: the exchange symbol and
/// the three numeric texts, exactly as transmitted.
#[derive(Debug)]
pub struct TickerRecord {
    pub symbol: String,
    pub last_price: String,
    pub price_change_percent: String,
    pub quote_volume: String,
}

/// Whether the snapshot `p` is built from a response record carrying the
/// raw strings `sym`, `lp`, `pc` and `qv`: the symbol gains its display
/// form and each numeric text is normalized, unparseable values becoming
/// zero for that field alone.
pub open spec fn snapshot_from(
    sym: Seq<char>,
    lp: Seq<char>,
    pc: Seq<char>,
    qv: Seq<char>,
    p: PriceData,
) -> bool {
    &&& p.symbol@ == format_symbol_spec(sym)
    &&& p.price@ == norm_dec(lp)
    &&& p.change_24h@ == norm_dec(pc)
    &&& p.volume_24h@ == norm_dec(qv)
}

/// Whether the snapshot is built from the given record.
pub open spec fn snapshot_of_record(rec: TickerRecord, p: PriceData) -> bool {
    snapshot_from(rec.symbol@, rec.last_price@, rec.price_change_percent@, rec.quote_volume@, p)
}

/// Converts one response record to its snapshot: the symbol gains its
/// display form and each numeric text is normalized.
pub fn ticker_snapshot(rec: &TickerRecord) -> (p: PriceData)
    ensures
        snapshot_of_record(*rec, p),
{
    PriceData {
        symbol: format_symbol(rec.symbol.as_str()),
        price: norm_decimal(rec.last_price.clone()),
        change_24h: norm_decimal(rec.price_change_percent.clone()),
        volume_24h: norm_decimal(rec.quote_volume.clone()),
    }
}

/// The fetch law of the batched ticker conversion: one snapshot per record,
/// in order, the symbol formatted for display and each numeric text kept
/// where it is a plain decimal and zeroed where it is not — an unparseable
/// value never fails the batch.
pub fn snapshots_from_records(recs: &Vec<TickerRecord>) -> (r: Vec<PriceData>)
    ensures
        r@.len() == recs@.len(),
        forall|k: int| 0 <= k < recs@.len() ==> snapshot_of_record(recs@[k], #[trigger] r@[k]),
{
    let mut r: Vec<PriceData> = Vec::new();
    let mut i: usize = 0;
    while i < recs.len()
        invariant
            i <= recs@.len(),
            r@.len() == i,
            forall|k: int| 0 <= k < i ==> snapshot_of_record(recs@[k], #[trigger] r@[k]),
        decreases recs@.len() - i,
    {
        let p = ticker_snapshot(&recs[i]);
        r.push(p);
        i += 1;
    }
    r
}

fn parse_ticker_obj(v: &Vec<char>, i: usize) -> (r: Result<(TickerRecord, usize), usize>)
    requires
        i <= v@.len(),
    ensures
        r matches Ok(p) ==> i < p.1 <= v@.len(),
{
    proof {
        reveal_strlit("null");
    }
    let mut pos = match expect_char(v, i, '{') {
        Some(j) => j,
        None => {
            return Err(i);
        },
    };
    let mut symbol: Option<String> = None;
    let mut last_price: Option<String> = None;
    let mut pcp: Option<String> = None;
    let mut qv: Option<String> = None;
    loop
        invariant
            i < pos <= v@.len(),
        decreases v@.len() - pos,
    {
        let (key, p1) = match parse_string(v, pos) {
            Some(p) => p,
            None => {
                return Err(pos);
            },
        };
        let p2 = match expect_char(v, p1, ':') {
            Some(j) => j,
            None => {
                return Err(p1);
            },
        };
        let p3 = skip_ws(v, p2);
        if p3 >= v.len() {
            return Err(p3);
        }
        let c = v[p3];
        let p4: usize;
        if c == '"' {
            let (val, j) = match parse_string(v, p3) {
                Some(p) => p,
                None => {
                    return Err(p3);
                },
            };
            p4 = j;
            if str_eq(key.as_str(), "symbol") {
                symbol = Some(val);
            } else if str_eq(key.as_str(), "lastPrice") {
                last_price = Some(val);
            } else if str_eq(key.as_str(), "priceChangePercent") {
                pcp = Some(val);
            } else if str_eq(key.as_str(), "quoteVolume") {
                qv = Some(val);
            }
        } else if c == 't' || c == 'f' {
            p4 = match parse_bool_at(v, p3) {
                Some((_b, j)) => j,
                None => {
                    return Err(p3);
                },
            };
        } else if c == 'n' {
            proof {
                reveal_strlit("null");
            }
            p4 = match expect_lit(v, p3, "null") {
                Some(j) => j,
                None => {
                    return Err(p3);
                },
            };
        } else {
            p4 = match parse_number_token(v, p3) {
                Some((_t, j)) => j,
                None => {
                    return Err(p3);
                },
            };
        }
        match expect_char(v, p4, ',') {
            Some(j) => {
                pos = j;
            },
            None => {
                let end = match expect_char(v, p4, '}') {
                    Some(j) => j,
                    None => {
                        return Err(p4);
                    },
                };
                pos = end;
                break;
            },
        }
    }
    let sym = match symbol {
        Some(s) => s,
        None => {
            return Err(pos);
        },
    };
    let lp = match last_price {
        Some(s) => s,
        None => {
            return Err(pos);
        },
    };
    let pc = match pcp {
        Some(s) => s,
        None => {
            return Err(pos);
        },
    };
    let q = match qv {
        Some(s) => s,
        None => {
            return Err(pos);
        },
    };
    Ok(
        (
            TickerRecord {
                symbol: sym,
                last_price: lp,
                price_change_percent: pc,
                quote_volume: q,
            },
            pos,
        ),
    )
}

/// Parses the batched ticker response into its raw records: a JSON array of
/// per-symbol objects whose symbol, last price, percent change and quote
/// volume are strings; unknown primitive members are skipped. A malformed
/// payload is refused as a whole with the offset where parsing stopped.
pub fn parse_ticker_records(body: &str) -> (r: Result<Vec<TickerRecord>, usize>) {
    let v = to_chars(body);
    let i1 = match expect_char(&v, 0, '[') {
        Some(j) => j,
        None => {
            return Err(0);
        },
    };
    let mut recs: Vec<TickerRecord> = Vec::new();
    let mut pos = i1;
    let mut first = true;
    loop
        invariant
            pos <= v@.len(),
        decreases v@.len() - pos,
    {
        match expect_char(&v, pos, ']') {
            Some(j) => {
                pos = j;
                break;
            },
            None => {},
        }
        if !first {
            pos = match expect_char(&v, pos, ',') {
                Some(j) => j,
                None => {
                    return Err(pos);
                },
            };
        }
        match parse_ticker_obj(&v, pos) {
            Ok((rec, j)) => {
                recs.push(rec);
                pos = j;
            },
            Err(at) => {
                return Err(at);
            },
        }
        first = false;
    }
    let tail = skip_ws(&v, pos);
    if tail != v.len() {
        return Err(tail);
    }
    Ok(recs)
}

/// Whether the snapshot list is, record for record and in order, the
/// converted form of some sequence of response records: the fetch law of
/// `snapshots_from_records` applied to each.
pub open spec fn snapshots_of_some_records(list: Seq<PriceData>) -> bool {
    exists|recs: Seq<TickerRecord>|
        recs.len() == list.len() && forall|k: int|
            0 <= k < list.len() ==> #[trigger] snapshot_of_record(recs[k], list[k])
}

/// Parses the batched ticker response and converts it: one snapshot per
/// record, in order, through `snapshots_from_records`, so a record's
/// unparseable numeric value becomes zero for that field only and every
/// snapshot's numeric fields are plain decimals. A malformed payload is
/// refused as a whole with the offset where parsing stopped.
pub fn parse_ticker_response(body: &str) -> (r: Result<Vec<PriceData>, usize>)
    ensures
        r matches Ok(list) ==> snapshots_of_some_records(list@),
        r matches Ok(list) ==> forall|k: int|
            0 <= k < list@.len() ==> is_decimal((#[trigger] list@[k]).price@) && is_decimal(
                list@[k].change_24h@,
            ) && is_decimal(list@[k].volume_24h@),
{
    let recs = match parse_ticker_records(body) {
        Ok(r) => r,
        Err(at) => {
            return Err(at);
        },
    };
    let list = snapshots_from_records(&recs);
    proof {
        assert(forall|k: int|
            0 <= k < list@.len() ==> #[trigger] snapshot_of_record(recs@[k], list@[k]));
        assert(snapshots_of_some_records(list@));
        assert forall|k: int|
            0 <= k < list@.len() implies is_decimal((#[trigger] list@[k]).price@) && is_decimal(
            list@[k].change_24h@,
        ) && is_decimal(list@[k].volume_24h@) by {
            lemma_norm_dec_decimal(recs@[k].last_price@);
            lemma_norm_dec_decimal(recs@[k].price_change_percent@);
            lemma_norm_dec_decimal(recs@[k].quote_volume@);
        }
    }
    Ok(list)
}

} // verus!
