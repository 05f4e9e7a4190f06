//! Recurring-purchase schedules: the durable collection, its JSON file
//! rendering and parsing, and the enable/disable toggle.

use vstd::prelude::*;
use vstd::string::*;
use crate::json::{
    jstr, push_json_string, skip_ws, expect_char, expect_lit, expect_key, parse_string,
    parse_number_token, parse_i64_at, parse_bool_at, str_eq,
};
use crate::store::StoreError;
use crate::text::{dec_str, is_decimal, is_decimal_str, to_chars, u64_to_dec};

verus! {

/// One recurring-purchase schedule as persisted in the collection.
#[derive(Debug)]
pub struct DCAConfig {
    pub id: String,
    pub asset: String,
    /// The purchase amount as its decimal text.
    pub amount: String,
    /// One of `daily`, `weekly`, `monthly`.
    pub frequency: String,
    pub enabled: bool,
    pub last_run: Option<i64>,
    pub next_run: Option<i64>,
    pub executions: u32,
}

/// The mathematical value of a schedule.
#[verifier::ext_equal]
pub struct DCAV {
    pub id: Seq<char>,
    pub asset: Seq<char>,
    pub amount: Seq<char>,
    pub frequency: Seq<char>,
    pub enabled: bool,
    pub last_run: Option<int>,
    pub next_run: Option<int>,
    pub executions: int,
}

impl View for DCAConfig {
    type V = DCAV;

    open spec fn view(&self) -> DCAV {
        DCAV {
            id: self.id@,
            asset: self.asset@,
            amount: self.amount@,
            frequency: self.frequency@,
            enabled: self.enabled,
            last_run: match self.last_run {
                Some(t) => Some(t as int),
                None => None,
            },
            next_run: match self.next_run {
                Some(t) => Some(t as int),
                None => None,
            },
            executions: self.executions as int,
        }
    }
}

impl Clone for DCAConfig {
    /// A clone holds the same value.
    fn clone(&self) -> (r: Self)
        ensures
            r@ == self@,
    {
        let r = DCAConfig {
            id: self.id.clone(),
            asset: self.asset.clone(),
            amount: self.amount.clone(),
            frequency: self.frequency.clone(),
            enabled: self.enabled,
            last_run: self.last_run,
            next_run: self.next_run,
            executions: self.executions,
        };
        proof {
            assert(r@ =~= self@);
        }
        r
    }
}

/// The views of a sequence of schedules.
pub open spec fn dvs(s: Seq<DCAConfig>) -> Seq<DCAV> {
    s.map_values(|c: DCAConfig| c@)
}

/// The index of the first schedule with the given id, or -1.
pub open spec fn first_match(s: Seq<DCAV>, id: Seq<char>) -> int
    decreases s.len(),
{
    if s.len() == 0 {
        -1
    } else if s[0].id == id {
        0
    } else {
        let t = first_match(s.skip(1), id);
        if t == -1 {
            -1
        } else {
            t + 1
        }
    }
}

/// Where the first j elements hold no match and s[j] matches, the first
/// match is at j.
pub proof fn lemma_first_match_at(s: Seq<DCAV>, id: Seq<char>, j: int)
    requires
        0 <= j < s.len(),
        s[j].id == id,
        forall|k: int| 0 <= k < j ==> (#[trigger] s[k]).id != id,
    ensures
        first_match(s, id) == j,
    decreases j,
{
    if j > 0 {
        assert(s.skip(1).len() == s.len() - 1);
        assert(forall|k: int| 0 <= k < j - 1 ==> (#[trigger] s.skip(1)[k]) == s[k + 1]);
        assert(s.skip(1)[j - 1] == s[j]);
        lemma_first_match_at(s.skip(1), id, j - 1);
    }
}

/// Where no element matches, there is no first match.
pub proof fn lemma_first_match_none(s: Seq<DCAV>, id: Seq<char>)
    requires
        forall|k: int| 0 <= k < s.len() ==> (#[trigger] s[k]).id != id,
    ensures
        first_match(s, id) == -1,
    decreases s.len(),
{
    if s.len() > 0 {
        assert(forall|k: int| 0 <= k < s.skip(1).len() ==> (#[trigger] s.skip(1)[k]) == s[k + 1]);
        lemma_first_match_none(s.skip(1), id);
    }
}

/// A first match, where there is one, lies inside the collection.
pub proof fn lemma_first_match_range(s: Seq<DCAV>, id: Seq<char>)
    ensures
        first_match(s, id) == -1 || (0 <= first_match(s, id) < s.len()),
    decreases s.len(),
{
    if s.len() > 0 && s[0].id != id {
        lemma_first_match_range(s.skip(1), id);
    }
}

/// A schedule with its enabled flag replaced.
pub open spec fn set_enabled(c: DCAV, enabled: bool) -> DCAV {
    DCAV { enabled, ..c }
}

/// Sets the enabled flag on the first schedule with the given id; an id
/// that is not present leaves the collection unchanged (a silent no-op).
pub fn toggle_in(configs: &Vec<DCAConfig>, id: &str, enabled: bool) -> (r: Vec<DCAConfig>)
    ensures
        r@.len() == configs@.len(),
        forall|k: int|
            0 <= k < configs@.len() && k != first_match(dvs(configs@), id@) ==> dvs(r@)[k] == dvs(
                configs@,
            )[k],
        first_match(dvs(configs@), id@) >= 0 ==> dvs(r@)[first_match(dvs(configs@), id@)]
            == set_enabled(dvs(configs@)[first_match(dvs(configs@), id@)], enabled),
{
    let ghost vc = dvs(configs@);
    let mut r: Vec<DCAConfig> = Vec::new();
    let mut found: bool = false;
    let ghost mut found_at: int = -1;
    let mut i: usize = 0;
    while i < configs.len()
        invariant
            i <= configs@.len(),
            vc == dvs(configs@),
            r@.len() == i,
            !found ==> forall|k: int| 0 <= k < i ==> (#[trigger] vc[k]).id != id@,
            !found ==> forall|k: int| 0 <= k < i ==> dvs(r@)[k] == vc[k],
            found ==> 0 <= found_at < i && vc[found_at].id == id@ && (forall|k: int|
                0 <= k < found_at ==> (#[trigger] vc[k]).id != id@),
            found ==> dvs(r@)[found_at] == set_enabled(vc[found_at], enabled),
            found ==> forall|k: int| 0 <= k < i && k != found_at ==> dvs(r@)[k] == vc[k],
        decreases configs@.len() - i,
    {
        proof {
            assert(vc[i as int] == configs@[i as int]@);
        }
        let matches_id = str_eq(configs[i].id.as_str(), id);
        if matches_id && !found {
            let mut c = configs[i].clone();
            c.enabled = enabled;
            r.push(c);
            found = true;
            proof {
                found_at = i as int;
                assert(dvs(r@)[found_at] =~= set_enabled(vc[found_at], enabled));
            }
        } else {
            let c = configs[i].clone();
            r.push(c);
        }
        i += 1;
    }
    proof {
        if found {
            lemma_first_match_at(vc, id@, found_at);
        } else {
            lemma_first_match_none(vc, id@);
        }
    }
    r
}

/// The first half of one schedule's rendering, through its frequency.
pub open spec fn render_dca_head(c: DCAV) -> Seq<char> {
    "    {\n      \"id\": "@ + jstr(c.id) + ",\n      \"asset\": "@ + jstr(c.asset)
        + ",\n      \"amount\": "@ + c.amount + ",\n      \"frequency\": "@ + jstr(c.frequency)
}

/// The rendering of one schedule as an object inside the configs array.
pub open spec fn render_dca_obj(c: DCAV) -> Seq<char> {
    render_dca_head(c) + ",\n      \"enabled\": "@ + crate::alerts::render_bool(c.enabled)
        + ",\n      \"lastRun\": "@ + crate::alerts::render_opt_int(c.last_run)
        + ",\n      \"nextRun\": "@ + crate::alerts::render_opt_int(c.next_run)
        + ",\n      \"executions\": "@ + dec_str(c.executions as nat) + "\n    }"@
}

/// The comma-separated renderings of the schedules.
pub open spec fn render_dca_items(s: Seq<DCAV>) -> Seq<char>
    decreases s.len(),
{
    if s.len() == 0 {
        Seq::empty()
    } else if s.len() == 1 {
        render_dca_obj(s[0])
    } else {
        render_dca_items(s.drop_last()) + ",\n"@ + render_dca_obj(s.last())
    }
}

/// The whole schedules collection file.
pub open spec fn render_dca_file(s: Seq<DCAV>) -> Seq<char> {
    if s.len() == 0 {
        "{\n  \"configs\": []\n}"@
    } else {
        "{\n  \"configs\": [\n"@ + render_dca_items(s) + "\n  ]\n}"@
    }
}

#[verifier::rlimit(100)]
fn push_dca_obj(out: &mut String, c: &DCAConfig)
    ensures
        final(out)@ == old(out)@ + render_dca_obj(c@),
{
    out.append("    {\n      \"id\": ");
    push_json_string(out, c.id.as_str());
    out.append(",\n      \"asset\": ");
    push_json_string(out, c.asset.as_str());
    out.append(",\n      \"amount\": ");
    out.append(c.amount.as_str());
    out.append(",\n      \"frequency\": ");
    push_json_string(out, c.frequency.as_str());
    proof {
        assert(out@ =~= old(out)@ + render_dca_head(c@));
    }
    out.append(",\n      \"enabled\": ");
    if c.enabled {
        out.append("true");
    } else {
        out.append("false");
    }
    out.append(",\n      \"lastRun\": ");
    crate::alerts::push_opt_int(out, &c.last_run);
    out.append(",\n      \"nextRun\": ");
    crate::alerts::push_opt_int(out, &c.next_run);
    out.append(",\n      \"executions\": ");
    let d = u64_to_dec(c.executions as u64);
    out.append(d.as_str());
    out.append("\n    }");
    proof {
        assert(final(out)@ =~= old(out)@ + render_dca_obj(c@));
    }
}

/// Renders the schedules collection as its JSON file text.
pub fn save_dca_configs(configs: &Vec<DCAConfig>) -> (r: String)
    ensures
        r@ == render_dca_file(dvs(configs@)),
{
    let ghost vc = dvs(configs@);
    if configs.len() == 0 {
        return String::from_str("{\n  \"configs\": []\n}");
    }
    let mut out = String::from_str("{\n  \"configs\": [\n");
    push_dca_obj(&mut out, &configs[0]);
    proof {
        assert(vc.take(1) =~= seq![vc[0]]);
        assert(vc[0] == configs@[0]@);
        assert(out@ =~= "{\n  \"configs\": [\n"@ + render_dca_items(vc.take(1)));
    }
    let mut i: usize = 1;
    while i < configs.len()
        invariant
            1 <= i <= configs@.len(),
            vc == dvs(configs@),
            out@ == "{\n  \"configs\": [\n"@ + render_dca_items(vc.take(i as int)),
        decreases configs@.len() - i,
    {
        out.append(",\n");
        push_dca_obj(&mut out, &configs[i]);
        proof {
            assert(vc.take(i + 1).drop_last() =~= vc.take(i as int));
            assert(vc.take(i + 1).last() == vc[i as int]);
            assert(vc[i as int] == configs@[i as int]@);
            assert(out@ =~= "{\n  \"configs\": [\n"@ + render_dca_items(vc.take(i + 1)));
        }
        i += 1;
    }
    proof {
        assert(vc.take(configs@.len() as int) =~= vc);
    }
    out.append("\n  ]\n}");
    proof {
        assert(out@ =~= render_dca_file(vc));
    }
    out
}

fn parse_dca_obj(v: &Vec<char>, i: usize) -> (r: Result<(DCAConfig, usize), usize>)
    requires
        i <= v@.len(),
    ensures
        r matches Ok(p) ==> i < p.1 <= v@.len(),
        r matches Ok(p) ==> is_decimal(p.0.amount@),
{
    proof {
        reveal_strlit("null");
    }
    let i1 = match expect_char(v, i, '{') {
        Some(j) => j,
        None => {
            return Err(i);
        },
    };
    let i2 = match expect_key(v, i1, "id") {
        Some(j) => j,
        None => {
            return Err(i1);
        },
    };
    let (id, i3) = match parse_string(v, i2) {
        Some(p) => p,
        None => {
            return Err(i2);
        },
    };
    let i4 = match expect_char(v, i3, ',') {
        Some(j) => j,
        None => {
            return Err(i3);
        },
    };
    let i5 = match expect_key(v, i4, "asset") {
        Some(j) => j,
        None => {
            return Err(i4);
        },
    };
    let (asset, i6) = match parse_string(v, i5) {
        Some(p) => p,
        None => {
            return Err(i5);
        },
    };
    let i7 = match expect_char(v, i6, ',') {
        Some(j) => j,
        None => {
            return Err(i6);
        },
    };
    let i8 = match expect_key(v, i7, "amount") {
        Some(j) => j,
        None => {
            return Err(i7);
        },
    };
    let (amount, i9) = match parse_number_token(v, i8) {
        Some(p) => p,
        None => {
            return Err(i8);
        },
    };
    if !is_decimal_str(amount.as_str()) {
        return Err(i8);
    }
    let i10 = match expect_char(v, i9, ',') {
        Some(j) => j,
        None => {
            return Err(i9);
        },
    };
    let i11 = match expect_key(v, i10, "frequency") {
        Some(j) => j,
        None => {
            return Err(i10);
        },
    };
    let (frequency, i12) = match parse_string(v, i11) {
        Some(p) => p,
        None => {
            return Err(i11);
        },
    };
    let i13 = match expect_char(v, i12, ',') {
        Some(j) => j,
        None => {
            return Err(i12);
        },
    };
    let i14 = match expect_key(v, i13, "enabled") {
        Some(j) => j,
        None => {
            return Err(i13);
        },
    };
    let (enabled, i15) = match parse_bool_at(v, i14) {
        Some(p) => p,
        None => {
            return Err(i14);
        },
    };
    let i16 = match expect_char(v, i15, ',') {
        Some(j) => j,
        None => {
            return Err(i15);
        },
    };
    let i17 = match expect_key(v, i16, "lastRun") {
        Some(j) => j,
        None => {
            return Err(i16);
        },
    };
    let (last_run, i18) = match expect_lit(v, i17, "null") {
        Some(j) => (None, j),
        None => match parse_i64_at(v, i17) {
            Some((t, j)) => (Some(t), j),
            None => {
                return Err(i17);
            },
        },
    };
    let i19 = match expect_char(v, i18, ',') {
        Some(j) => j,
        None => {
            return Err(i18);
        },
    };
    let i20 = match expect_key(v, i19, "nextRun") {
        Some(j) => j,
        None => {
            return Err(i19);
        },
    };
    let (next_run, i21) = match expect_lit(v, i20, "null") {
        Some(j) => (None, j),
        None => match parse_i64_at(v, i20) {
            Some((t, j)) => (Some(t), j),
            None => {
                return Err(i20);
            },
        },
    };
    let i22 = match expect_char(v, i21, ',') {
        Some(j) => j,
        None => {
            return Err(i21);
        },
    };
    let i23 = match expect_key(v, i22, "executions") {
        Some(j) => j,
        None => {
            return Err(i22);
        },
    };
    let (executions, i24) = match parse_i64_at(v, i23) {
        Some((x, j)) => {
            if x < 0 || x > u32::MAX as i64 {
                return Err(i23);
            }
            (x as u32, j)
        },
        None => {
            return Err(i23);
        },
    };
    let i25 = match expect_char(v, i24, '}') {
        Some(j) => j,
        None => {
            return Err(i24);
        },
    };
    Ok(
        (
            DCAConfig {
                id,
                asset,
                amount,
                frequency,
                enabled,
                last_run,
                next_run,
                executions,
            },
            i25,
        ),
    )
}

/// Parses the schedules collection file. The file is canonical: it must be
/// exactly the rendering of the collection it holds, and anything else is
/// refused as corrupt, so a successful parse pins the content completely.
pub fn parse_dca_configs(content: &str) -> (r: Result<Vec<DCAConfig>, StoreError>)
    ensures
        r matches Ok(v) ==> content@ == render_dca_file(dvs(v@)),
        r matches Ok(v) ==> forall|k: int|
            0 <= k < v@.len() ==> is_decimal((#[trigger] v@[k]).amount@),
        r matches Err(e) ==> e is CorruptState,
{
    let v = to_chars(content);
    let i1 = match expect_char(&v, 0, '{') {
        Some(j) => j,
        None => {
            return Err(StoreError::CorruptState(0));
        },
    };
    let i2 = match expect_key(&v, i1, "configs") {
        Some(j) => j,
        None => {
            return Err(StoreError::CorruptState(i1));
        },
    };
    let i3 = match expect_char(&v, i2, '[') {
        Some(j) => j,
        None => {
            return Err(StoreError::CorruptState(i2));
        },
    };
    let mut configs: Vec<DCAConfig> = Vec::new();
    let mut pos = i3;
    let mut first = true;
    loop
        invariant
            pos <= v@.len(),
            forall|k: int| 0 <= k < configs@.len() ==> is_decimal((#[trigger] configs@[k]).amount@),
        decreases v@.len() - pos,
    {
        match expect_char(&v, pos, ']') {
            Some(j) => {
                pos = j;
                break;
            },
            None => {},
        }
        if !first {
            pos = match expect_char(&v, pos, ',') {
                Some(j) => j,
                None => {
                    return Err(StoreError::CorruptState(pos));
                },
            };
        }
        match parse_dca_obj(&v, pos) {
            Ok((c, j)) => {
                configs.push(c);
                pos = j;
            },
            Err(at) => {
                return Err(StoreError::CorruptState(at));
            },
        }
        first = false;
    }
    let i4 = match expect_char(&v, pos, '}') {
        Some(j) => j,
        None => {
            return Err(StoreError::CorruptState(pos));
        },
    };
    let i5 = skip_ws(&v, i4);
    if i5 != v.len() {
        return Err(StoreError::CorruptState(i5));
    }
    let rendered = save_dca_configs(&configs);
    if !str_eq(content, rendered.as_str()) {
        return Err(StoreError::CorruptState(0));
    }
    Ok(configs)
}

/// Loads the schedules collection from the file content, where the file
/// exists; a missing file is an empty collection, not an error.
pub fn load_dca_configs(content: Option<&str>) -> (r: Result<Vec<DCAConfig>, StoreError>)
    ensures
        content is None ==> (r matches Ok(v) && v@.len() == 0),
        content matches Some(t) ==> (r matches Ok(v) ==> t@ == render_dca_file(dvs(v@))),
        r matches Err(e) ==> content is Some && e is CorruptState,
{
    match content {
        None => Ok(Vec::new()),
        Some(text) => parse_dca_configs(text),
    }
}

/// Returns the loaded schedules collection.
pub fn get_dca_configs(content: Option<&str>) -> (r: Result<Vec<DCAConfig>, StoreError>)
    ensures
        content is None ==> (r matches Ok(v) && v@.len() == 0),
        content matches Some(t) ==> (r matches Ok(v) ==> t@ == render_dca_file(dvs(v@))),
        r matches Err(e) ==> content is Some && e is CorruptState,
{
    load_dca_configs(content)
}

/// The collection with its first `id`-matching schedule's enabled flag set,
/// and unchanged where no schedule matches.
pub open spec fn toggle_view(v: Seq<DCAV>, id: Seq<char>, enabled: bool) -> Seq<DCAV> {
    let j = first_match(v, id);
    if j >= 0 {
        v.update(j, set_enabled(v[j], enabled))
    } else {
        v
    }
}

/// Whether `out` is a schedules file `t` with the first `id`-matching
/// schedule's enabled flag set: some collection renders to `t`, and `out`
/// renders its `toggle_view`. An id not present in the witness leaves it
/// unchanged, a silent no-op. The witness is pinned only up to rendering
/// equality.
pub open spec fn toggles_schedule(t: Seq<char>, out: Seq<char>, id: Seq<char>, enabled: bool) -> bool {
    exists|v: Seq<DCAV>|
        t == render_dca_file(v) && out == #[trigger] render_dca_file(toggle_view(v, id, enabled))
}

/// Toggles a schedule in the stored collection: loads the collection from
/// the given file content, sets the enabled flag on the first schedule with
/// that id, and returns the new file text. An id that is not present is a
/// silent no-op success.
pub fn toggle_dca(content: Option<&str>, id: &str, enabled: bool) -> (r: Result<
    String,
    StoreError,
>)
    ensures
        content is None ==> (r matches Ok(text) && text@ == render_dca_file(Seq::empty())),
        content matches Some(t) ==> (r matches Ok(text) ==> toggles_schedule(t@, text@, id@, enabled)),
        r matches Err(e) ==> content is Some && e is CorruptState,
{
    let configs = match load_dca_configs(content) {
        Ok(c) => c,
        Err(e) => {
            return Err(e);
        },
    };
    let toggled = toggle_in(&configs, id, enabled);
    proof {
        if content is None {
            assert(dvs(toggled@) =~= Seq::<DCAV>::empty());
        }
        lemma_first_match_range(dvs(configs@), id@);
        assert(dvs(toggled@).len() == configs@.len());
        assert(dvs(toggled@) =~= toggle_view(dvs(configs@), id@, enabled));
    }
    let text = save_dca_configs(&toggled);
    proof {
        if content is Some {
            assert(toggles_schedule(content->Some_0@, text@, id@, enabled));
        }
    }
    Ok(text)
}

/// The path of the schedules collection file.
pub fn get_dca_path() -> (r: Result<String, StoreError>)
    ensures
        r matches Ok(p) ==> crate::store::str_ends_with(p@, "/.omnitrade/"@ + "dca.json"@),
        r matches Err(e) ==> e == StoreError::NotFound,
{
    crate::store::data_path("dca.json")
}

} // verus!
