//! Price alerts: the durable alerts collection, its JSON file rendering and
//! parsing, and the add/remove operations expressed as load, transform, save.

use vstd::prelude::*;
use vstd::string::*;
use crate::ext::{now_millis, now_nanos};
use crate::json::{
    jstr, push_json_string, skip_ws, expect_char, expect_lit, expect_key, parse_string,
    parse_number_token, parse_i64_at, parse_bool_at,
};
use crate::store::StoreError;
use crate::text::{dec_str_int, hex_str, i64_to_dec, is_decimal, is_decimal_str, to_chars, u64_to_hex};

verus! {

/// One price alert as persisted in the alerts collection.
#[derive(Debug)]
pub struct Alert {
    pub id: String,
    pub symbol: String,
    pub condition: String,
    /// The target price as its decimal text.
    pub target_price: String,
    pub created_at: i64,
    pub triggered: bool,
    pub triggered_at: Option<i64>,
    pub exchange: Option<String>,
}

/// The mathematical value of an alert.
#[verifier::ext_equal]
pub struct AlertV {
    pub id: Seq<char>,
    pub symbol: Seq<char>,
    pub condition: Seq<char>,
    pub target_price: Seq<char>,
    pub created_at: int,
    pub triggered: bool,
    pub triggered_at: Option<int>,
    pub exchange: Option<Seq<char>>,
}

impl View for Alert {
    type V = AlertV;

    open spec fn view(&self) -> AlertV {
        AlertV {
            id: self.id@,
            symbol: self.symbol@,
            condition: self.condition@,
            target_price: self.target_price@,
            created_at: self.created_at as int,
            triggered: self.triggered,
            triggered_at: match self.triggered_at {
                Some(t) => Some(t as int),
                None => None,
            },
            exchange: match self.exchange {
                Some(ref e) => Some(e@),
                None => None,
            },
        }
    }
}

impl Clone for Alert {
    /// A clone holds the same value.
    fn clone(&self) -> (r: Self)
        ensures
            r@ == self@,
    {
        let r = Alert {
            id: self.id.clone(),
            symbol: self.symbol.clone(),
            condition: self.condition.clone(),
            target_price: self.target_price.clone(),
            created_at: self.created_at,
            triggered: self.triggered,
            triggered_at: self.triggered_at,
            exchange: match &self.exchange {
                Some(e) => Some(e.clone()),
                None => None,
            },
        };
        proof {
            assert(r@ =~= self@);
        }
        r
    }
}

/// The views of a sequence of alerts.
pub open spec fn avs(s: Seq<Alert>) -> Seq<AlertV> {
    s.map_values(|a: Alert| a@)
}

/// The collection after removing every alert with the given id.
pub open spec fn remove_spec(s: Seq<AlertV>, id: Seq<char>) -> Seq<AlertV>
    decreases s.len(),
{
    if s.len() == 0 {
        Seq::empty()
    } else if s.last().id == id {
        remove_spec(s.drop_last(), id)
    } else {
        remove_spec(s.drop_last(), id).push(s.last())
    }
}

/// Removing an id that no alert carries leaves the collection unchanged.
pub proof fn lemma_remove_absent(s: Seq<AlertV>, id: Seq<char>)
    requires
        forall|k: int| 0 <= k < s.len() ==> (#[trigger] s[k]).id != id,
    ensures
        remove_spec(s, id) == s,
    decreases s.len(),
{
    if s.len() > 0 {
        assert(s.last() == s[s.len() - 1]);
        assert(forall|k: int| 0 <= k < s.drop_last().len() ==> #[trigger] s.drop_last()[k] == s[k]);
        lemma_remove_absent(s.drop_last(), id);
        assert(remove_spec(s, id) =~= s);
    } else {
        assert(remove_spec(s, id) =~= s);
    }
}

/// How removal relates to a just-added alert: removing that alert's id takes
/// it out again; removing another id keeps it at the end. With
/// `lemma_remove_absent`, this says the collection an add/remove sequence
/// leaves behind is the inserts minus the removed ids, in insertion order.
pub proof fn lemma_remove_push(s: Seq<AlertV>, a: AlertV, id: Seq<char>)
    ensures
        a.id == id ==> remove_spec(s.push(a), id) == remove_spec(s, id),
        a.id != id ==> remove_spec(s.push(a), id) == remove_spec(s, id).push(a),
{
    assert(s.push(a).drop_last() =~= s);
    assert(s.push(a).last() == a);
}

/// Removal distributes over concatenation: removing an id from a history
/// that first built `s` and then appended `t` removes it from both parts
/// independently. With `lemma_remove_push` and `lemma_remove_absent`, a
/// serial add/remove history therefore ends in exactly the inserts minus
/// the removed ids, in insertion order, wherever the removals fall.
pub proof fn lemma_remove_concat(s: Seq<AlertV>, t: Seq<AlertV>, id: Seq<char>)
    ensures
        remove_spec(s + t, id) == remove_spec(s, id) + remove_spec(t, id),
    decreases t.len(),
{
    if t.len() == 0 {
        assert(s + t =~= s);
        assert(remove_spec(s, id) + remove_spec(t, id) =~= remove_spec(s, id));
    } else {
        lemma_remove_concat(s, t.drop_last(), id);
        assert((s + t).drop_last() =~= s + t.drop_last());
        assert((s + t).last() == t.last());
        if t.last().id == id {
            assert(remove_spec(s + t, id) =~= remove_spec(s, id) + remove_spec(t, id));
        } else {
            assert(remove_spec(s + t, id) =~= remove_spec(s, id) + remove_spec(t, id));
        }
    }
}

/// One step of an alert-store history: an insertion or a removal by id.
pub enum AlertOp {
    Add(AlertV),
    Remove(Seq<char>),
}

/// The collection a history of operations leaves behind, applied in order.
pub open spec fn apply_ops(s: Seq<AlertV>, ops: Seq<AlertOp>) -> Seq<AlertV>
    decreases ops.len(),
{
    if ops.len() == 0 {
        s
    } else {
        let next = match ops[0] {
            AlertOp::Add(a) => s.push(a),
            AlertOp::Remove(id) => remove_spec(s, id),
        };
        apply_ops(next, ops.skip(1))
    }
}

/// Whether the history holds a removal of the given id.
pub open spec fn is_removed(ops: Seq<AlertOp>, id: Seq<char>) -> bool
    decreases ops.len(),
{
    if ops.len() == 0 {
        false
    } else {
        ops[0] == AlertOp::Remove(id) || is_removed(ops.skip(1), id)
    }
}

/// A starting collection with every id the history removes filtered out.
pub open spec fn purge(s: Seq<AlertV>, ops: Seq<AlertOp>) -> Seq<AlertV>
    decreases s.len(),
{
    if s.len() == 0 {
        Seq::empty()
    } else if is_removed(ops, s.last().id) {
        purge(s.drop_last(), ops)
    } else {
        purge(s.drop_last(), ops).push(s.last())
    }
}

/// The inserts of the history that no later removal takes out, in
/// insertion order.
pub open spec fn surviving(ops: Seq<AlertOp>) -> Seq<AlertV>
    decreases ops.len(),
{
    if ops.len() == 0 {
        Seq::empty()
    } else {
        match ops[0] {
            AlertOp::Add(a) => if is_removed(ops.skip(1), a.id) {
                surviving(ops.skip(1))
            } else {
                seq![a] + surviving(ops.skip(1))
            },
            AlertOp::Remove(id) => surviving(ops.skip(1)),
        }
    }
}

proof fn lemma_purge_nothing(s: Seq<AlertV>, ops: Seq<AlertOp>)
    requires
        forall|id: Seq<char>| !is_removed(ops, id),
    ensures
        purge(s, ops) == s,
    decreases s.len(),
{
    if s.len() > 0 {
        lemma_purge_nothing(s.drop_last(), ops);
        assert(!is_removed(ops, s.last().id));
        assert(purge(s, ops) =~= s);
    } else {
        assert(purge(s, ops) =~= s);
    }
}

proof fn lemma_purge_same_removals(s: Seq<AlertV>, ops1: Seq<AlertOp>, ops2: Seq<AlertOp>)
    requires
        forall|id: Seq<char>| is_removed(ops1, id) == is_removed(ops2, id),
    ensures
        purge(s, ops1) == purge(s, ops2),
    decreases s.len(),
{
    if s.len() > 0 {
        lemma_purge_same_removals(s.drop_last(), ops1, ops2);
        assert(is_removed(ops1, s.last().id) == is_removed(ops2, s.last().id));
        assert(purge(s, ops1) =~= purge(s, ops2));
    } else {
        assert(purge(s, ops1) =~= purge(s, ops2));
    }
}

proof fn lemma_purge_after_remove(s: Seq<AlertV>, id: Seq<char>, ops: Seq<AlertOp>)
    ensures
        purge(remove_spec(s, id), ops) == purge(s, seq![AlertOp::Remove(id)] + ops),
    decreases s.len(),
{
    let big = seq![AlertOp::Remove(id)] + ops;
    assert(big[0] == AlertOp::Remove(id));
    assert(big.skip(1) =~= ops);
    if s.len() == 0 {
        assert(purge(remove_spec(s, id), ops) =~= purge(s, big));
    } else {
        lemma_purge_after_remove(s.drop_last(), id, ops);
        if s.last().id == id {
            assert(is_removed(big, s.last().id));
            assert(purge(s, big) == purge(s.drop_last(), big));
            assert(remove_spec(s, id) == remove_spec(s.drop_last(), id));
        } else {
            assert(is_removed(big, s.last().id) == is_removed(ops, s.last().id));
            assert(remove_spec(s, id) == remove_spec(s.drop_last(), id).push(s.last()));
            assert(remove_spec(s, id).drop_last() =~= remove_spec(s.drop_last(), id));
            assert(remove_spec(s, id).last() == s.last());
            assert(purge(remove_spec(s, id), ops) =~= purge(s, big));
        }
    }
}

/// The store law for a whole serial history: starting from collection `s`,
/// any sequence of add and remove-by-id operations ends in the starting
/// alerts minus the removed ids, followed by exactly the inserts that no
/// later removal takes out, in insertion order. Removals of ids that are
/// never present fall out as no-ops.
pub proof fn lemma_history_yields_inserts_minus_removed(s: Seq<AlertV>, ops: Seq<AlertOp>)
    ensures
        apply_ops(s, ops) == purge(s, ops) + surviving(ops),
    decreases ops.len(),
{
    if ops.len() == 0 {
        assert(forall|id: Seq<char>| !is_removed(ops, id));
        lemma_purge_nothing(s, ops);
        assert(purge(s, ops) + surviving(ops) =~= s);
    } else {
        let rest = ops.skip(1);
        match ops[0] {
            AlertOp::Add(a) => {
                lemma_history_yields_inserts_minus_removed(s.push(a), rest);
                assert(s.push(a).drop_last() =~= s);
                assert(s.push(a).last() == a);
                assert forall|id: Seq<char>| is_removed(ops, id) == is_removed(rest, id) by {
                    assert(ops[0] != AlertOp::Remove(id));
                }
                lemma_purge_same_removals(s, ops, rest);
                if is_removed(rest, a.id) {
                    assert(purge(s.push(a), rest) == purge(s, rest));
                    assert(apply_ops(s, ops) =~= purge(s, ops) + surviving(ops));
                } else {
                    assert(purge(s.push(a), rest) == purge(s, rest).push(a));
                    assert(purge(s, rest).push(a) + surviving(rest) =~= purge(s, rest) + (seq![a]
                        + surviving(rest)));
                    assert(apply_ops(s, ops) =~= purge(s, ops) + surviving(ops));
                }
            },
            AlertOp::Remove(id) => {
                lemma_history_yields_inserts_minus_removed(remove_spec(s, id), rest);
                lemma_purge_after_remove(s, id, rest);
                assert(seq![AlertOp::Remove(id)] + rest =~= ops);
                assert(apply_ops(s, ops) =~= purge(s, ops) + surviving(ops));
            },
        }
    }
}

/// Removes every alert with the given id; removing an id that is not present
/// is a no-op.
pub fn remove_from(alerts: &Vec<Alert>, id: &str) -> (r: Vec<Alert>)
    ensures
        avs(r@) == remove_spec(avs(alerts@), id@),
{
    let ghost va = avs(alerts@);
    let mut r: Vec<Alert> = Vec::new();
    let mut i: usize = 0;
    while i < alerts.len()
        invariant
            i <= alerts@.len(),
            va == avs(alerts@),
            avs(r@) == remove_spec(va.take(i as int), id@),
        decreases alerts@.len() - i,
    {
        proof {
            assert(va.take(i + 1).drop_last() =~= va.take(i as int));
            assert(va.take(i + 1).last() == va[i as int]);
            assert(va[i as int] == alerts@[i as int]@);
        }
        let keep = !crate::json::str_eq(alerts[i].id.as_str(), id);
        if keep {
            let a = alerts[i].clone();
            r.push(a);
            proof {
                assert(avs(r@) =~= remove_spec(va.take(i + 1), id@));
            }
        }
        i += 1;
    }
    proof {
        assert(va.take(alerts@.len() as int) =~= va);
    }
    r
}

/// The rendering of an optional string: a JSON string or `null`.
pub open spec fn render_opt_str(o: Option<Seq<char>>) -> Seq<char> {
    match o {
        Some(s) => jstr(s),
        None => "null"@,
    }
}

/// The rendering of an optional integer: its decimal text or `null`.
pub open spec fn render_opt_int(o: Option<int>) -> Seq<char> {
    match o {
        Some(n) => dec_str_int(n),
        None => "null"@,
    }
}

/// The rendering of a boolean.
pub open spec fn render_bool(b: bool) -> Seq<char> {
    if b {
        "true"@
    } else {
        "false"@
    }
}

/// The first half of one alert's rendering, through its target price.
pub open spec fn render_alert_head(a: AlertV) -> Seq<char> {
    "    {\n      \"id\": "@ + jstr(a.id) + ",\n      \"symbol\": "@ + jstr(a.symbol)
        + ",\n      \"condition\": "@ + jstr(a.condition) + ",\n      \"targetPrice\": "@
        + a.target_price
}

/// The rendering of one alert as an object inside the alerts array.
pub open spec fn render_alert_obj(a: AlertV) -> Seq<char> {
    render_alert_head(a) + ",\n      \"createdAt\": "@ + dec_str_int(a.created_at)
        + ",\n      \"triggered\": "@ + render_bool(a.triggered) + ",\n      \"triggeredAt\": "@
        + render_opt_int(a.triggered_at) + ",\n      \"exchange\": "@ + render_opt_str(a.exchange)
        + "\n    }"@
}

/// The comma-separated renderings of the alerts.
pub open spec fn render_alert_items(s: Seq<AlertV>) -> Seq<char>
    decreases s.len(),
{
    if s.len() == 0 {
        Seq::empty()
    } else if s.len() == 1 {
        render_alert_obj(s[0])
    } else {
        render_alert_items(s.drop_last()) + ",\n"@ + render_alert_obj(s.last())
    }
}

/// The whole alerts collection file.
pub open spec fn render_alerts_file(s: Seq<AlertV>) -> Seq<char> {
    if s.len() == 0 {
        "{\n  \"alerts\": []\n}"@
    } else {
        "{\n  \"alerts\": [\n"@ + render_alert_items(s) + "\n  ]\n}"@
    }
}

pub(crate) fn push_opt_int(out: &mut String, o: &Option<i64>)
    ensures
        final(out)@ == old(out)@ + render_opt_int(match *o {
            Some(t) => Some(t as int),
            None => None,
        }),
{
    match o {
        Some(t) => {
            let d = i64_to_dec(*t);
            out.append(d.as_str());
        },
        None => {
            out.append("null");
        },
    }
}

#[verifier::rlimit(80)]
fn push_alert_obj(out: &mut String, a: &Alert)
    ensures
        final(out)@ == old(out)@ + render_alert_obj(a@),
{
    out.append("    {\n      \"id\": ");
    push_json_string(out, a.id.as_str());
    out.append(",\n      \"symbol\": ");
    push_json_string(out, a.symbol.as_str());
    out.append(",\n      \"condition\": ");
    push_json_string(out, a.condition.as_str());
    out.append(",\n      \"targetPrice\": ");
    out.append(a.target_price.as_str());
    proof {
        assert(out@ =~= old(out)@ + render_alert_head(a@));
    }
    out.append(",\n      \"createdAt\": ");
    let d = i64_to_dec(a.created_at);
    out.append(d.as_str());
    out.append(",\n      \"triggered\": ");
    if a.triggered {
        out.append("true");
    } else {
        out.append("false");
    }
    out.append(",\n      \"triggeredAt\": ");
    push_opt_int(out, &a.triggered_at);
    out.append(",\n      \"exchange\": ");
    match &a.exchange {
        Some(e) => {
            push_json_string(out, e.as_str());
        },
        None => {
            out.append("null");
        },
    }
    out.append("\n    }");
    proof {
        assert(final(out)@ =~= old(out)@ + render_alert_obj(a@));
    }
}

/// Renders the alerts collection as its JSON file text.
pub fn save_alerts(alerts: &Vec<Alert>) -> (r: String)
    ensures
        r@ == render_alerts_file(avs(alerts@)),
{
    let ghost va = avs(alerts@);
    if alerts.len() == 0 {
        return String::from_str("{\n  \"alerts\": []\n}");
    }
    let mut out = String::from_str("{\n  \"alerts\": [\n");
    push_alert_obj(&mut out, &alerts[0]);
    proof {
        assert(va.take(1) =~= seq![va[0]]);
        assert(va[0] == alerts@[0]@);
        assert(out@ =~= "{\n  \"alerts\": [\n"@ + render_alert_items(va.take(1)));
    }
    let mut i: usize = 1;
    while i < alerts.len()
        invariant
            1 <= i <= alerts@.len(),
            va == avs(alerts@),
            out@ == "{\n  \"alerts\": [\n"@ + render_alert_items(va.take(i as int)),
        decreases alerts@.len() - i,
    {
        out.append(",\n");
        push_alert_obj(&mut out, &alerts[i]);
        proof {
            assert(va.take(i + 1).drop_last() =~= va.take(i as int));
            assert(va.take(i + 1).last() == va[i as int]);
            assert(va[i as int] == alerts@[i as int]@);
            assert(out@ =~= "{\n  \"alerts\": [\n"@ + render_alert_items(va.take(i + 1)));
        }
        i += 1;
    }
    proof {
        assert(va.take(alerts@.len() as int) =~= va);
    }
    out.append("\n  ]\n}");
    proof {
        assert(out@ =~= render_alerts_file(va));
    }
    out
}

fn parse_alert_obj(v: &Vec<char>, i: usize) -> (r: Result<(Alert, usize), usize>)
    requires
        i <= v@.len(),
    ensures
        r matches Ok(p) ==> i < p.1 <= v@.len(),
        r matches Ok(p) ==> is_decimal(p.0.target_price@),
{
    proof {
        reveal_strlit("null");
    }
    let i1 = match expect_char(v, i, '{') {
        Some(j) => j,
        None => {
            return Err(i);
        },
    };
    let i2 = match expect_key(v, i1, "id") {
        Some(j) => j,
        None => {
            return Err(i1);
        },
    };
    let (id, i3) = match parse_string(v, i2) {
        Some(p) => p,
        None => {
            return Err(i2);
        },
    };
    let i4 = match expect_char(v, i3, ',') {
        Some(j) => j,
        None => {
            return Err(i3);
        },
    };
    let i5 = match expect_key(v, i4, "symbol") {
        Some(j) => j,
        None => {
            return Err(i4);
        },
    };
    let (symbol, i6) = match parse_string(v, i5) {
        Some(p) => p,
        None => {
            return Err(i5);
        },
    };
    let i7 = match expect_char(v, i6, ',') {
        Some(j) => j,
        None => {
            return Err(i6);
        },
    };
    let i8 = match expect_key(v, i7, "condition") {
        Some(j) => j,
        None => {
            return Err(i7);
        },
    };
    let (condition, i9) = match parse_string(v, i8) {
        Some(p) => p,
        None => {
            return Err(i8);
        },
    };
    let i10 = match expect_char(v, i9, ',') {
        Some(j) => j,
        None => {
            return Err(i9);
        },
    };
    let i11 = match expect_key(v, i10, "targetPrice") {
        Some(j) => j,
        None => {
            return Err(i10);
        },
    };
    let (target_price, i12) = match parse_number_token(v, i11) {
        Some(p) => p,
        None => {
            return Err(i11);
        },
    };
    if !is_decimal_str(target_price.as_str()) {
        return Err(i11);
    }
    let i13 = match expect_char(v, i12, ',') {
        Some(j) => j,
        None => {
            return Err(i12);
        },
    };
    let i14 = match expect_key(v, i13, "createdAt") {
        Some(j) => j,
        None => {
            return Err(i13);
        },
    };
    let (created_at, i15) = match parse_i64_at(v, i14) {
        Some(p) => p,
        None => {
            return Err(i14);
        },
    };
    let i16 = match expect_char(v, i15, ',') {
        Some(j) => j,
        None => {
            return Err(i15);
        },
    };
    let i17 = match expect_key(v, i16, "triggered") {
        Some(j) => j,
        None => {
            return Err(i16);
        },
    };
    let (triggered, i18) = match parse_bool_at(v, i17) {
        Some(p) => p,
        None => {
            return Err(i17);
        },
    };
    let i19 = match expect_char(v, i18, ',') {
        Some(j) => j,
        None => {
            return Err(i18);
        },
    };
    let i20 = match expect_key(v, i19, "triggeredAt") {
        Some(j) => j,
        None => {
            return Err(i19);
        },
    };
    let (triggered_at, i21) = match expect_lit(v, i20, "null") {
        Some(j) => (None, j),
        None => match parse_i64_at(v, i20) {
            Some((t, j)) => (Some(t), j),
            None => {
                return Err(i20);
            },
        },
    };
    let i22 = match expect_char(v, i21, ',') {
        Some(j) => j,
        None => {
            return Err(i21);
        },
    };
    let i23 = match expect_key(v, i22, "exchange") {
        Some(j) => j,
        None => {
            return Err(i22);
        },
    };
    let (exchange, i24) = match expect_lit(v, i23, "null") {
        Some(j) => (None, j),
        None => match parse_string(v, i23) {
            Some((e, j)) => (Some(e), j),
            None => {
                return Err(i23);
            },
        },
    };
    let i25 = match expect_char(v, i24, '}') {
        Some(j) => j,
        None => {
            return Err(i24);
        },
    };
    Ok(
        (
            Alert {
                id,
                symbol,
                condition,
                target_price,
                created_at,
                triggered,
                triggered_at,
                exchange,
            },
            i25,
        ),
    )
}

/// Parses the alerts collection file. The file is canonical: it must be
/// exactly the rendering of the collection it holds, and anything else is
/// refused as corrupt, so a successful parse pins the content completely.
pub fn parse_alerts(content: &str) -> (r: Result<Vec<Alert>, StoreError>)
    ensures
        r matches Ok(v) ==> content@ == render_alerts_file(avs(v@)),
        r matches Ok(v) ==> forall|k: int|
            0 <= k < v@.len() ==> is_decimal((#[trigger] v@[k]).target_price@),
        r matches Err(e) ==> e is CorruptState,
{
    let v = to_chars(content);
    let i1 = match expect_char(&v, 0, '{') {
        Some(j) => j,
        None => {
            return Err(StoreError::CorruptState(0));
        },
    };
    let i2 = match expect_key(&v, i1, "alerts") {
        Some(j) => j,
        None => {
            return Err(StoreError::CorruptState(i1));
        },
    };
    let i3 = match expect_char(&v, i2, '[') {
        Some(j) => j,
        None => {
            return Err(StoreError::CorruptState(i2));
        },
    };
    let mut alerts: Vec<Alert> = Vec::new();
    let mut pos = i3;
    let mut first = true;
    loop
        invariant
            pos <= v@.len(),
            forall|k: int|
                0 <= k < alerts@.len() ==> is_decimal((#[trigger] alerts@[k]).target_price@),
        decreases v@.len() - pos,
    {
        match expect_char(&v, pos, ']') {
            Some(j) => {
                pos = j;
                break;
            },
            None => {},
        }
        if !first {
            pos = match expect_char(&v, pos, ',') {
                Some(j) => j,
                None => {
                    return Err(StoreError::CorruptState(pos));
                },
            };
        }
        match parse_alert_obj(&v, pos) {
            Ok((a, j)) => {
                alerts.push(a);
                pos = j;
            },
            Err(at) => {
                return Err(StoreError::CorruptState(at));
            },
        }
        first = false;
    }
    let i4 = match expect_char(&v, pos, '}') {
        Some(j) => j,
        None => {
            return Err(StoreError::CorruptState(pos));
        },
    };
    let i5 = skip_ws(&v, i4);
    if i5 != v.len() {
        return Err(StoreError::CorruptState(i5));
    }
    let rendered = save_alerts(&alerts);
    if !crate::json::str_eq(content, rendered.as_str()) {
        return Err(StoreError::CorruptState(0));
    }
    Ok(alerts)
}

/// Loads the alerts collection from the file content, where the file
/// exists; a missing file is an empty collection, not an error.
pub fn load_alerts(content: Option<&str>) -> (r: Result<Vec<Alert>, StoreError>)
    ensures
        content is None ==> (r matches Ok(v) && v@.len() == 0),
        content matches Some(t) ==> (r matches Ok(v) ==> t@ == render_alerts_file(avs(v@))),
        r matches Err(e) ==> content is Some && e is CorruptState,
{
    match content {
        None => Ok(Vec::new()),
        Some(text) => parse_alerts(text),
    }
}

/// Returns the loaded alerts collection.
pub fn get_alerts(content: Option<&str>) -> (r: Result<Vec<Alert>, StoreError>)
    ensures
        content is None ==> (r matches Ok(v) && v@.len() == 0),
        content matches Some(t) ==> (r matches Ok(v) ==> t@ == render_alerts_file(avs(v@))),
        r matches Err(e) ==> content is Some && e is CorruptState,
{
    load_alerts(content)
}

/// The path of the alerts collection file.
pub fn get_alerts_path() -> (r: Result<String, StoreError>)
    ensures
        r matches Ok(p) ==> crate::store::str_ends_with(p@, "/.omnitrade/"@ + "alerts.json"@),
        r matches Err(e) ==> e == StoreError::NotFound,
{
    crate::store::data_path("alerts.json")
}

/// A short nonce drawn from the current clock: the low 24 bits of the
/// nanosecond timestamp, in hexadecimal.
pub fn generate_id() -> (r: String)
    ensures
        exists|n: nat| n < 0x100_0000 && r@ == #[trigger] hex_str(n),
        r@.len() >= 1,
{
    let n: u64 = match now_nanos() {
        Some(t) => (t as u64) % 0x100_0000,
        None => 0,
    };
    let r = u64_to_hex(n);
    proof {
        assert(hex_str(n as nat).len() >= 1);
        assert(n < 0x100_0000);
    }
    r
}

/// Builds a new, untriggered alert from its parts. The id is composed from
/// the creation time and the nonce; the exchange defaults to binance.
pub fn make_alert(symbol: String, condition: String, price: String, now: i64, nonce: &str) -> (a:
    Alert)
    requires
        is_decimal(price@),
    ensures
        a@.id == "alert_"@ + dec_str_int(now as int) + "_"@ + nonce@,
        a@.symbol == symbol@,
        a@.condition == condition@,
        a@.target_price == price@,
        a@.created_at == now as int,
        a@.triggered == false,
        a@.triggered_at is None,
        a@.exchange == Some("binance"@),
{
    let mut id = String::from_str("alert_");
    let d = i64_to_dec(now);
    id.append(d.as_str());
    id.append("_");
    id.append(nonce);
    Alert {
        id,
        symbol,
        condition,
        target_price: price,
        created_at: now,
        triggered: false,
        triggered_at: None,
        exchange: Some(String::from_str("binance")),
    }
}

/// Whether `out` is an alerts file `t` with the alert `a` appended: some
/// collection renders to `t`, and `out` renders that collection with `a`
/// pushed. The witness is pinned only up to rendering equality; tying it to
/// the unique collection `t` holds would need the rendering's injectivity,
/// which is not proved here.
pub open spec fn appends_alert(t: Seq<char>, out: Seq<char>, a: AlertV) -> bool {
    exists|v: Seq<AlertV>|
        t == render_alerts_file(v) && out == #[trigger] render_alerts_file(v.push(a))
}

/// Adds a new alert to the stored collection: loads the collection from the
/// given file content, appends a freshly built alert stamped with the
/// current time, and returns the new file text with the created alert.
/// Succeeds exactly on a missing file or one that parses; the new text is
/// the old collection's rendering with the new alert appended.
pub fn add_alert(content: Option<&str>, symbol: String, condition: String, price: String) -> (r:
    Result<(String, Alert), StoreError>)
    requires
        is_decimal(price@),
    ensures
        r matches Ok(p) ==> {
            &&& p.1@.symbol == symbol@
            &&& p.1@.condition == condition@
            &&& p.1@.target_price == price@
            &&& p.1@.triggered == false
            &&& p.1@.triggered_at is None
            &&& p.1@.exchange == Some("binance"@)
        },
        content is None ==> r is Ok,
        content is None ==> (r matches Ok(p) ==> p.0@ == render_alerts_file(seq![p.1@])),
        content matches Some(t) ==> (r matches Ok(p) ==> appends_alert(t@, p.0@, p.1@)),
        r matches Err(e) ==> content is Some && e is CorruptState,
{
    let mut alerts = match load_alerts(content) {
        Ok(a) => a,
        Err(e) => {
            return Err(e);
        },
    };
    let ghost loaded = avs(alerts@);
    let now = now_millis();
    let nonce = generate_id();
    let alert = make_alert(symbol, condition, price, now, nonce.as_str());
    let out = alert.clone();
    alerts.push(alert);
    proof {
        assert(avs(alerts@) =~= loaded.push(out@));
        if loaded.len() == 0 {
            assert(avs(alerts@) =~= seq![out@]);
        }
    }
    let text = save_alerts(&alerts);
    proof {
        if content is Some {
            assert(appends_alert(content->Some_0@, text@, out@));
        }
    }
    Ok((text, out))
}

/// Whether `out` is an alerts file `t` with every alert carrying `id`
/// removed: some collection renders to `t`, and `out` renders it after
/// `remove_spec`. Where no alert of the witness carries the id the
/// collection is unchanged (`lemma_remove_absent`). The witness is pinned
/// only up to rendering equality.
pub open spec fn removes_alert(t: Seq<char>, out: Seq<char>, id: Seq<char>) -> bool {
    exists|v: Seq<AlertV>|
        t == render_alerts_file(v) && out == #[trigger] render_alerts_file(remove_spec(v, id))
}

/// Removes an alert by id from the stored collection: loads the collection
/// from the given file content, drops every alert with that id, and returns
/// the new file text. Removing an id that is not present is a no-op success.
pub fn remove_alert(content: Option<&str>, id: &str) -> (r: Result<String, StoreError>)
    ensures
        content is None ==> (r matches Ok(text) && text@ == render_alerts_file(Seq::empty())),
        content matches Some(t) ==> (r matches Ok(text) ==> removes_alert(t@, text@, id@)),
        r matches Err(e) ==> content is Some && e is CorruptState,
{
    let alerts = match load_alerts(content) {
        Ok(a) => a,
        Err(e) => {
            return Err(e);
        },
    };
    let kept = remove_from(&alerts, id);
    proof {
        if content is None {
            assert(avs(alerts@) =~= Seq::<AlertV>::empty());
            assert(remove_spec(avs(alerts@), id@) =~= Seq::<AlertV>::empty());
        }
    }
    let text = save_alerts(&kept);
    proof {
        if content is Some {
            assert(removes_alert(content->Some_0@, text@, id@));
        }
    }
    Ok(text)
}

} // verus!
