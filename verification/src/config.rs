//! Exchange credentials and application configuration: the credential map,
//! secret redaction, the upsert used to save an exchange entry, and the
//! config file's JSON rendering and parsing.

use vstd::prelude::*;
use vstd::string::*;
use crate::json::{
    push_json_string, skip_ws, expect_char, expect_lit, expect_key, parse_string,
    parse_number_token, parse_bool_at, str_eq,
};
use crate::store::StoreError;
use crate::text::{is_decimal, is_decimal_str, to_chars};

verus! {

/// One exchange's API credentials, as stored or as redacted for display.
#[derive(Debug)]
pub struct ExchangeConfig {
    pub api_key: String,
    pub secret: String,
    pub testnet: bool,
}

/// One named entry of the credential map. Entries keep their insertion
/// order, and the upsert keeps names unique.
#[derive(Debug)]
pub struct ExchangeEntry {
    pub name: String,
    pub config: ExchangeConfig,
}

/// Trade-safety settings, passed through unchanged.
#[derive(Debug)]
pub struct SecurityConfig {
    /// The largest order size, as decimal text.
    pub max_order_size: String,
    pub confirm_trades: bool,
}

/// Telegram notification settings, passed through unchanged.
#[derive(Debug)]
pub struct TelegramConfig {
    pub enabled: bool,
    pub bot_token: Option<String>,
    pub chat_id: Option<String>,
}

/// Discord notification settings, passed through unchanged.
#[derive(Debug)]
pub struct DiscordConfig {
    pub enabled: bool,
    pub webhook_url: Option<String>,
}

/// Notification settings, passed through unchanged.
#[derive(Debug)]
pub struct NotificationConfig {
    pub native: Option<bool>,
    pub telegram: Option<TelegramConfig>,
    pub discord: Option<DiscordConfig>,
}

/// The whole application configuration file.
#[derive(Debug)]
pub struct Config {
    pub exchanges: Vec<ExchangeEntry>,
    pub security: Option<SecurityConfig>,
    pub notifications: Option<NotificationConfig>,
}

/// The redacted form of an API key: a key of fewer than 10 characters
/// collapses to a fixed placeholder; a longer one reveals exactly its first
/// five and last five characters around an ellipsis marker.
pub open spec fn mask_spec(key: Seq<char>) -> Seq<char> {
    if key.len() < 10 {
        "***"@
    } else {
        key.take(5) + "..."@ + key.skip(key.len() - 5)
    }
}

/// Redacts an API key for display.
pub fn mask_key(key: &str) -> (r: String)
    ensures
        r@ == mask_spec(key@),
{
    let n = key.unicode_len();
    if n < 10 {
        String::from_str("***")
    } else {
        let head = key.substring_char(0, 5);
        let tail = key.substring_char(n - 5, n);
        let r = head.to_owned().concat("...").concat(tail);
        proof {
            assert(r@ =~= mask_spec(key@));
        }
        r
    }
}

/// Whether two credential entries hold the same value.
pub open spec fn entry_like(a: ExchangeEntry, b: ExchangeEntry) -> bool {
    &&& a.name@ == b.name@
    &&& a.config.api_key@ == b.config.api_key@
    &&& a.config.secret@ == b.config.secret@
    &&& a.config.testnet == b.config.testnet
}

/// Redacts every credential entry for display: the API key is masked and
/// the secret fully replaced, so secrets never leave the store verbatim.
pub fn redact_config(c: Config) -> (r: Config)
    ensures
        r.exchanges@.len() == c.exchanges@.len(),
        forall|k: int|
            0 <= k < c.exchanges@.len() ==> {
                &&& (#[trigger] r.exchanges@[k]).name@ == c.exchanges@[k].name@
                &&& r.exchanges@[k].config.api_key@ == mask_spec(c.exchanges@[k].config.api_key@)
                &&& r.exchanges@[k].config.secret@ == "********"@
                &&& r.exchanges@[k].config.testnet == c.exchanges@[k].config.testnet
            },
        r.security == c.security,
        r.notifications == c.notifications,
{
    let Config { exchanges, security, notifications } = c;
    let mut masked: Vec<ExchangeEntry> = Vec::new();
    let mut i: usize = 0;
    while i < exchanges.len()
        invariant
            i <= exchanges@.len(),
            masked@.len() == i,
            forall|k: int|
                0 <= k < i ==> {
                    &&& (#[trigger] masked@[k]).name@ == exchanges@[k].name@
                    &&& masked@[k].config.api_key@ == mask_spec(exchanges@[k].config.api_key@)
                    &&& masked@[k].config.secret@ == "********"@
                    &&& masked@[k].config.testnet == exchanges@[k].config.testnet
                },
        decreases exchanges@.len() - i,
    {
        let e = &exchanges[i];
        let entry = ExchangeEntry {
            name: e.name.clone(),
            config: ExchangeConfig {
                api_key: mask_key(e.config.api_key.as_str()),
                secret: String::from_str("********"),
                testnet: e.config.testnet,
            },
        };
        masked.push(entry);
        i += 1;
    }
    Config { exchanges: masked, security, notifications }
}

/// The index of the first entry with the given name, or -1.
pub open spec fn first_name_match(s: Seq<ExchangeEntry>, name: Seq<char>) -> int
    decreases s.len(),
{
    if s.len() == 0 {
        -1
    } else if s[0].name@ == name {
        0
    } else {
        let t = first_name_match(s.skip(1), name);
        if t == -1 {
            -1
        } else {
            t + 1
        }
    }
}

proof fn lemma_name_match_at(s: Seq<ExchangeEntry>, name: Seq<char>, j: int)
    requires
        0 <= j < s.len(),
        s[j].name@ == name,
        forall|k: int| 0 <= k < j ==> (#[trigger] s[k]).name@ != name,
    ensures
        first_name_match(s, name) == j,
    decreases j,
{
    if j > 0 {
        assert(forall|k: int| 0 <= k < j - 1 ==> (#[trigger] s.skip(1)[k]) == s[k + 1]);
        assert(s.skip(1)[j - 1] == s[j]);
        lemma_name_match_at(s.skip(1), name, j - 1);
    }
}

proof fn lemma_name_match_none(s: Seq<ExchangeEntry>, name: Seq<char>)
    requires
        forall|k: int| 0 <= k < s.len() ==> (#[trigger] s[k]).name@ != name,
    ensures
        first_name_match(s, name) == -1,
    decreases s.len(),
{
    if s.len() > 0 {
        assert(forall|k: int| 0 <= k < s.skip(1).len() ==> (#[trigger] s.skip(1)[k]) == s[k + 1]);
        lemma_name_match_none(s.skip(1), name);
    }
}

/// Upserts a credential entry by name: the first entry with that name is
/// replaced in place, and a name not yet present is appended at the end.
pub fn upsert_exchange(c: Config, name: String, api_key: String, secret: String, testnet: bool) -> (
    r: Config)
    ensures
        r.security == c.security,
        r.notifications == c.notifications,
        first_name_match(c.exchanges@, name@) == -1 ==> {
            &&& r.exchanges@.len() == c.exchanges@.len() + 1
            &&& (forall|k: int|
                0 <= k < c.exchanges@.len() ==> entry_like(
                    #[trigger] r.exchanges@[k],
                    c.exchanges@[k],
                ))
            &&& r.exchanges@.last().name@ == name@
            &&& r.exchanges@.last().config.api_key@ == api_key@
            &&& r.exchanges@.last().config.secret@ == secret@
            &&& r.exchanges@.last().config.testnet == testnet
        },
        first_name_match(c.exchanges@, name@) >= 0 ==> {
            let j = first_name_match(c.exchanges@, name@);
            &&& r.exchanges@.len() == c.exchanges@.len()
            &&& (forall|k: int|
                0 <= k < c.exchanges@.len() && k != j ==> entry_like(
                    #[trigger] r.exchanges@[k],
                    c.exchanges@[k],
                ))
            &&& r.exchanges@[j].name@ == name@
            &&& r.exchanges@[j].config.api_key@ == api_key@
            &&& r.exchanges@[j].config.secret@ == secret@
            &&& r.exchanges@[j].config.testnet == testnet
        },
{
    let Config { exchanges, security, notifications } = c;
    let mut out: Vec<ExchangeEntry> = Vec::new();
    let mut found: bool = false;
    let ghost mut found_at: int = -1;
    let mut i: usize = 0;
    while i < exchanges.len()
        invariant
            i <= exchanges@.len(),
            out@.len() == i,
            !found ==> forall|k: int| 0 <= k < i ==> (#[trigger] exchanges@[k]).name@ != name@,
            !found ==> forall|k: int|
                0 <= k < i ==> entry_like(#[trigger] out@[k], exchanges@[k]),
            found ==> 0 <= found_at < i && exchanges@[found_at].name@ == name@ && (forall|k: int|
                0 <= k < found_at ==> (#[trigger] exchanges@[k]).name@ != name@),
            found ==> out@[found_at].name@ == name@ && out@[found_at].config.api_key@ == api_key@
                && out@[found_at].config.secret@ == secret@ && out@[found_at].config.testnet
                == testnet,
            found ==> forall|k: int|
                0 <= k < i && k != found_at ==> entry_like(#[trigger] out@[k], exchanges@[k]),
        decreases exchanges@.len() - i,
    {
        let e = &exchanges[i];
        let matches_name = str_eq(e.name.as_str(), name.as_str());
        if matches_name && !found {
            out.push(
                ExchangeEntry {
                    name: e.name.clone(),
                    config: ExchangeConfig {
                        api_key: api_key.clone(),
                        secret: secret.clone(),
                        testnet,
                    },
                },
            );
            found = true;
            proof {
                found_at = i as int;
            }
        } else {
            out.push(
                ExchangeEntry {
                    name: e.name.clone(),
                    config: ExchangeConfig {
                        api_key: e.config.api_key.clone(),
                        secret: e.config.secret.clone(),
                        testnet: e.config.testnet,
                    },
                },
            );
        }
        i += 1;
    }
    proof {
        if found {
            lemma_name_match_at(exchanges@, name@, found_at);
        } else {
            lemma_name_match_none(exchanges@, name@);
        }
    }
    if !found {
        out.push(
            ExchangeEntry {
                name,
                config: ExchangeConfig { api_key, secret, testnet },
            },
        );
    }
    Config { exchanges: out, security, notifications }
}

/// The configuration used when no file exists yet: no exchanges, default
/// trade safety, no notification settings.
pub fn default_config() -> (r: Config)
    ensures
        r.exchanges@.len() == 0,
        r.security matches Some(s) && s.max_order_size@ == "100.0"@ && s.confirm_trades == true,
        r.notifications is None,
{
    Config {
        exchanges: Vec::new(),
        security: Some(SecurityConfig { max_order_size: String::from_str("100.0"), confirm_trades: true }),
        notifications: None,
    }
}

/// The rendering of a boolean.
pub open spec fn render_bool(b: bool) -> Seq<char> {
    if b {
        "true"@
    } else {
        "false"@
    }
}

/// The rendering of an optional string: a JSON string or `null`.
pub open spec fn render_opt_string(o: Option<String>) -> Seq<char> {
    match o {
        Some(s) => crate::json::jstr(s@),
        None => "null"@,
    }
}

/// The rendering of one credential entry inside the exchanges object.
pub open spec fn render_exchange_entry(e: ExchangeEntry) -> Seq<char> {
    "\n    "@ + crate::json::jstr(e.name@) + ": {\n      \"apiKey\": "@ + crate::json::jstr(
        e.config.api_key@,
    ) + ",\n      \"secret\": "@ + crate::json::jstr(e.config.secret@)
        + ",\n      \"testnet\": "@ + render_bool(e.config.testnet) + "\n    }"@
}

/// The comma-separated renderings of the credential entries.
pub open spec fn render_exchange_items(s: Seq<ExchangeEntry>) -> Seq<char>
    decreases s.len(),
{
    if s.len() == 0 {
        Seq::empty()
    } else if s.len() == 1 {
        render_exchange_entry(s[0])
    } else {
        render_exchange_items(s.drop_last()) + ","@ + render_exchange_entry(s.last())
    }
}

/// The rendering of the trade-safety settings, or `null`.
pub open spec fn render_security(o: Option<SecurityConfig>) -> Seq<char> {
    match o {
        Some(sc) => "{\n    \"maxOrderSize\": "@ + sc.max_order_size@
            + ",\n    \"confirmTrades\": "@ + render_bool(sc.confirm_trades) + "\n  }"@,
        None => "null"@,
    }
}

/// The rendering of the Telegram settings.
pub open spec fn render_telegram(t: TelegramConfig) -> Seq<char> {
    "{\n      \"enabled\": "@ + render_bool(t.enabled) + ",\n      \"botToken\": "@
        + render_opt_string(t.bot_token) + ",\n      \"chatId\": "@ + render_opt_string(
        t.chat_id,
    ) + "\n    }"@
}

/// The rendering of the Discord settings.
pub open spec fn render_discord(d: DiscordConfig) -> Seq<char> {
    "{\n      \"enabled\": "@ + render_bool(d.enabled) + ",\n      \"webhookUrl\": "@
        + render_opt_string(d.webhook_url) + "\n    }"@
}

/// The rendering of the notification settings, or `null`.
pub open spec fn render_notifications(o: Option<NotificationConfig>) -> Seq<char> {
    match o {
        Some(n) => "{\n    \"native\": "@ + (match n.native {
            Some(true) => "true"@,
            Some(false) => "false"@,
            None => "null"@,
        }) + ",\n    \"telegram\": "@ + (match n.telegram {
            Some(t) => render_telegram(t),
            None => "null"@,
        }) + ",\n    \"discord\": "@ + (match n.discord {
            Some(d) => render_discord(d),
            None => "null"@,
        }) + "\n  }"@,
        None => "null"@,
    }
}

/// The whole configuration file's rendering.
pub open spec fn render_config_text(c: Config) -> Seq<char> {
    "{\n  \"exchanges\": {"@ + render_exchange_items(c.exchanges@) + (if c.exchanges@.len() > 0 {
        "\n  "@
    } else {
        Seq::empty()
    }) + "},\n  \"security\": "@ + render_security(c.security) + ",\n  \"notifications\": "@
        + render_notifications(c.notifications) + "\n}"@
}

fn push_opt_json_string(out: &mut String, o: &Option<String>)
    ensures
        final(out)@ == old(out)@ + render_opt_string(*o),
{
    match o {
        Some(s) => push_json_string(out, s.as_str()),
        None => out.append("null"),
    }
}

#[verifier::rlimit(80)]
fn push_exchange_entry(out: &mut String, e: &ExchangeEntry)
    ensures
        final(out)@ == old(out)@ + render_exchange_entry(*e),
{
    out.append("\n    ");
    push_json_string(out, e.name.as_str());
    out.append(": {\n      \"apiKey\": ");
    push_json_string(out, e.config.api_key.as_str());
    out.append(",\n      \"secret\": ");
    push_json_string(out, e.config.secret.as_str());
    out.append(",\n      \"testnet\": ");
    out.append(if e.config.testnet {
        "true"
    } else {
        "false"
    });
    out.append("\n    }");
    proof {
        assert(final(out)@ =~= old(out)@ + render_exchange_entry(*e));
    }
}

#[verifier::rlimit(80)]
fn push_telegram(out: &mut String, t: &TelegramConfig)
    ensures
        final(out)@ == old(out)@ + render_telegram(*t),
{
    out.append("{\n      \"enabled\": ");
    out.append(if t.enabled {
        "true"
    } else {
        "false"
    });
    out.append(",\n      \"botToken\": ");
    push_opt_json_string(out, &t.bot_token);
    out.append(",\n      \"chatId\": ");
    push_opt_json_string(out, &t.chat_id);
    out.append("\n    }");
    proof {
        assert(final(out)@ =~= old(out)@ + render_telegram(*t));
    }
}

#[verifier::rlimit(80)]
fn push_discord(out: &mut String, d: &DiscordConfig)
    ensures
        final(out)@ == old(out)@ + render_discord(*d),
{
    out.append("{\n      \"enabled\": ");
    out.append(if d.enabled {
        "true"
    } else {
        "false"
    });
    out.append(",\n      \"webhookUrl\": ");
    push_opt_json_string(out, &d.webhook_url);
    out.append("\n    }");
    proof {
        assert(final(out)@ =~= old(out)@ + render_discord(*d));
    }
}

#[verifier::rlimit(80)]
fn push_notifications(out: &mut String, o: &Option<NotificationConfig>)
    ensures
        final(out)@ == old(out)@ + render_notifications(*o),
{
    match o {
        Some(n) => {
            out.append("{\n    \"native\": ");
            match n.native {
                Some(true) => out.append("true"),
                Some(false) => out.append("false"),
                None => out.append("null"),
            }
            out.append(",\n    \"telegram\": ");
            match &n.telegram {
                Some(t) => push_telegram(out, t),
                None => out.append("null"),
            }
            out.append(",\n    \"discord\": ");
            match &n.discord {
                Some(d) => push_discord(out, d),
                None => out.append("null"),
            }
            out.append("\n  }");
            proof {
                assert(final(out)@ =~= old(out)@ + render_notifications(*o));
            }
        },
        None => {
            out.append("null");
        },
    }
}

/// Renders the configuration as its JSON file text.
#[verifier::rlimit(80)]
pub fn render_config(c: &Config) -> (r: String)
    ensures
        r@ == render_config_text(*c),
{
    let mut out = String::from_str("{\n  \"exchanges\": {");
    let ghost ex = c.exchanges@;
    let mut i: usize = 0;
    while i < c.exchanges.len()
        invariant
            i <= ex.len(),
            ex == c.exchanges@,
            out@ == "{\n  \"exchanges\": {"@ + render_exchange_items(ex.take(i as int)),
        decreases ex.len() - i,
    {
        if i > 0 {
            out.append(",");
        }
        push_exchange_entry(&mut out, &c.exchanges[i]);
        proof {
            assert(ex.take(i + 1).drop_last() =~= ex.take(i as int));
            assert(ex.take(i + 1).last() == ex[i as int]);
            if i == 0 {
                assert(ex.take(1) =~= seq![ex[0]]);
            }
            assert(out@ =~= "{\n  \"exchanges\": {"@ + render_exchange_items(ex.take(i + 1)));
        }
        i += 1;
    }
    proof {
        assert(ex.take(ex.len() as int) =~= ex);
    }
    if c.exchanges.len() > 0 {
        out.append("\n  ");
    }
    out.append("},\n  \"security\": ");
    match &c.security {
        Some(s) => {
            out.append("{\n    \"maxOrderSize\": ");
            out.append(s.max_order_size.as_str());
            out.append(",\n    \"confirmTrades\": ");
            out.append(if s.confirm_trades {
                "true"
            } else {
                "false"
            });
            out.append("\n  }");
        },
        None => out.append("null"),
    }
    out.append(",\n  \"notifications\": ");
    push_notifications(&mut out, &c.notifications);
    out.append("\n}");
    proof {
        assert(out@ =~= render_config_text(*c));
    }
    out
}

fn parse_opt_string(v: &Vec<char>, i: usize) -> (r: Result<(Option<String>, usize), usize>)
    requires
        i <= v@.len(),
    ensures
        r matches Ok(p) ==> i < p.1 <= v@.len(),
{
    proof {
        reveal_strlit("null");
    }
    match expect_lit(v, i, "null") {
        Some(j) => Ok((None, j)),
        None => match parse_string(v, i) {
            Some((s, j)) => Ok((Some(s), j)),
            None => Err(i),
        },
    }
}

fn parse_telegram(v: &Vec<char>, i: usize) -> (r: Result<(TelegramConfig, usize), usize>)
    requires
        i <= v@.len(),
    ensures
        r matches Ok(p) ==> i < p.1 <= v@.len(),
{
    let i1 = match expect_char(v, i, '{') {
        Some(j) => j,
        None => {
            return Err(i);
        },
    };
    let i2 = match expect_key(v, i1, "enabled") {
        Some(j) => j,
        None => {
            return Err(i1);
        },
    };
    let (enabled, i3) = match parse_bool_at(v, i2) {
        Some(p) => p,
        None => {
            return Err(i2);
        },
    };
    let i4 = match expect_char(v, i3, ',') {
        Some(j) => j,
        None => {
            return Err(i3);
        },
    };
    let i5 = match expect_key(v, i4, "botToken") {
        Some(j) => j,
        None => {
            return Err(i4);
        },
    };
    let (bot_token, i6) = match parse_opt_string(v, i5) {
        Ok(p) => p,
        Err(at) => {
            return Err(at);
        },
    };
    let i7 = match expect_char(v, i6, ',') {
        Some(j) => j,
        None => {
            return Err(i6);
        },
    };
    let i8 = match expect_key(v, i7, "chatId") {
        Some(j) => j,
        None => {
            return Err(i7);
        },
    };
    let (chat_id, i9) = match parse_opt_string(v, i8) {
        Ok(p) => p,
        Err(at) => {
            return Err(at);
        },
    };
    let i10 = match expect_char(v, i9, '}') {
        Some(j) => j,
        None => {
            return Err(i9);
        },
    };
    Ok((TelegramConfig { enabled, bot_token, chat_id }, i10))
}

fn parse_discord(v: &Vec<char>, i: usize) -> (r: Result<(DiscordConfig, usize), usize>)
    requires
        i <= v@.len(),
    ensures
        r matches Ok(p) ==> i < p.1 <= v@.len(),
{
    let i1 = match expect_char(v, i, '{') {
        Some(j) => j,
        None => {
            return Err(i);
        },
    };
    let i2 = match expect_key(v, i1, "enabled") {
        Some(j) => j,
        None => {
            return Err(i1);
        },
    };
    let (enabled, i3) = match parse_bool_at(v, i2) {
        Some(p) => p,
        None => {
            return Err(i2);
        },
    };
    let i4 = match expect_char(v, i3, ',') {
        Some(j) => j,
        None => {
            return Err(i3);
        },
    };
    let i5 = match expect_key(v, i4, "webhookUrl") {
        Some(j) => j,
        None => {
            return Err(i4);
        },
    };
    let (webhook_url, i6) = match parse_opt_string(v, i5) {
        Ok(p) => p,
        Err(at) => {
            return Err(at);
        },
    };
    let i7 = match expect_char(v, i6, '}') {
        Some(j) => j,
        None => {
            return Err(i6);
        },
    };
    Ok((DiscordConfig { enabled, webhook_url }, i7))
}

/// Parses the configuration file. The file is canonical: it must be exactly
/// the rendering of the configuration it holds, with unique exchange names
/// as the credential map's keys were unique; anything else is refused as
/// corrupt, so a successful parse pins the content completely.
pub fn parse_config(content: &str) -> (r: Result<Config, StoreError>)
    ensures
        r matches Ok(c) ==> content@ == render_config_text(c),
        r matches Ok(c) ==> (c.security matches Some(sc) ==> is_decimal(sc.max_order_size@)),
        r matches Err(e) ==> e is CorruptState,
{
    proof {
        reveal_strlit("null");
    }
    let v = to_chars(content);
    let i1 = match expect_char(&v, 0, '{') {
        Some(j) => j,
        None => {
            return Err(StoreError::CorruptState(0));
        },
    };
    let i2 = match expect_key(&v, i1, "exchanges") {
        Some(j) => j,
        None => {
            return Err(StoreError::CorruptState(i1));
        },
    };
    let i3 = match expect_char(&v, i2, '{') {
        Some(j) => j,
        None => {
            return Err(StoreError::CorruptState(i2));
        },
    };
    let mut exchanges: Vec<ExchangeEntry> = Vec::new();
    let mut pos = i3;
    let mut first = true;
    loop
        invariant
            pos <= v@.len(),
        decreases v@.len() - pos,
    {
        match expect_char(&v, pos, '}') {
            Some(j) => {
                pos = j;
                break;
            },
            None => {},
        }
        if !first {
            pos = match expect_char(&v, pos, ',') {
                Some(j) => j,
                None => {
                    return Err(StoreError::CorruptState(pos));
                },
            };
        }
        let (name, p1) = match parse_string(&v, pos) {
            Some(p) => p,
            None => {
                return Err(StoreError::CorruptState(pos));
            },
        };
        let p2 = match expect_char(&v, p1, ':') {
            Some(j) => j,
            None => {
                return Err(StoreError::CorruptState(p1));
            },
        };
        let p3 = match expect_char(&v, p2, '{') {
            Some(j) => j,
            None => {
                return Err(StoreError::CorruptState(p2));
            },
        };
        let p4 = match expect_key(&v, p3, "apiKey") {
            Some(j) => j,
            None => {
                return Err(StoreError::CorruptState(p3));
            },
        };
        let (api_key, p5) = match parse_string(&v, p4) {
            Some(p) => p,
            None => {
                return Err(StoreError::CorruptState(p4));
            },
        };
        let p6 = match expect_char(&v, p5, ',') {
            Some(j) => j,
            None => {
                return Err(StoreError::CorruptState(p5));
            },
        };
        let p7 = match expect_key(&v, p6, "secret") {
            Some(j) => j,
            None => {
                return Err(StoreError::CorruptState(p6));
            },
        };
        let (secret, p8) = match parse_string(&v, p7) {
            Some(p) => p,
            None => {
                return Err(StoreError::CorruptState(p7));
            },
        };
        let p9 = match expect_char(&v, p8, ',') {
            Some(j) => j,
            None => {
                return Err(StoreError::CorruptState(p8));
            },
        };
        let p10 = match expect_key(&v, p9, "testnet") {
            Some(j) => j,
            None => {
                return Err(StoreError::CorruptState(p9));
            },
        };
        let (testnet, p11) = match parse_bool_at(&v, p10) {
            Some(p) => p,
            None => {
                return Err(StoreError::CorruptState(p10));
            },
        };
        let p12 = match expect_char(&v, p11, '}') {
            Some(j) => j,
            None => {
                return Err(StoreError::CorruptState(p11));
            },
        };
        exchanges.push(
            ExchangeEntry { name, config: ExchangeConfig { api_key, secret, testnet } },
        );
        pos = p12;
        first = false;
    }
    let s1 = match expect_char(&v, pos, ',') {
        Some(j) => j,
        None => {
            return Err(StoreError::CorruptState(pos));
        },
    };
    let s2 = match expect_key(&v, s1, "security") {
        Some(j) => j,
        None => {
            return Err(StoreError::CorruptState(s1));
        },
    };
    let (security, s3) = match expect_lit(&v, s2, "null") {
        Some(j) => (None, j),
        None => {
            let q1 = match expect_char(&v, s2, '{') {
                Some(j) => j,
                None => {
                    return Err(StoreError::CorruptState(s2));
                },
            };
            let q2 = match expect_key(&v, q1, "maxOrderSize") {
                Some(j) => j,
                None => {
                    return Err(StoreError::CorruptState(q1));
                },
            };
            let (max_order_size, q3) = match parse_number_token(&v, q2) {
                Some(p) => p,
                None => {
                    return Err(StoreError::CorruptState(q2));
                },
            };
            if !is_decimal_str(max_order_size.as_str()) {
                return Err(StoreError::CorruptState(q2));
            }
            let q4 = match expect_char(&v, q3, ',') {
                Some(j) => j,
                None => {
                    return Err(StoreError::CorruptState(q3));
                },
            };
            let q5 = match expect_key(&v, q4, "confirmTrades") {
                Some(j) => j,
                None => {
                    return Err(StoreError::CorruptState(q4));
                },
            };
            let (confirm_trades, q6) = match parse_bool_at(&v, q5) {
                Some(p) => p,
                None => {
                    return Err(StoreError::CorruptState(q5));
                },
            };
            let q7 = match expect_char(&v, q6, '}') {
                Some(j) => j,
                None => {
                    return Err(StoreError::CorruptState(q6));
                },
            };
            (Some(SecurityConfig { max_order_size, confirm_trades }), q7)
        },
    };
    let n1 = match expect_char(&v, s3, ',') {
        Some(j) => j,
        None => {
            return Err(StoreError::CorruptState(s3));
        },
    };
    let n2 = match expect_key(&v, n1, "notifications") {
        Some(j) => j,
        None => {
            return Err(StoreError::CorruptState(n1));
        },
    };
    let (notifications, n3) = match expect_lit(&v, n2, "null") {
        Some(j) => (None, j),
        None => {
            let q1 = match expect_char(&v, n2, '{') {
                Some(j) => j,
                None => {
                    return Err(StoreError::CorruptState(n2));
                },
            };
            let q2 = match expect_key(&v, q1, "native") {
                Some(j) => j,
                None => {
                    return Err(StoreError::CorruptState(q1));
                },
            };
            let (native, q3) = match expect_lit(&v, q2, "null") {
                Some(j) => (None, j),
                None => match parse_bool_at(&v, q2) {
                    Some((b, j)) => (Some(b), j),
                    None => {
                        return Err(StoreError::CorruptState(q2));
                    },
                },
            };
            let q4 = match expect_char(&v, q3, ',') {
                Some(j) => j,
                None => {
                    return Err(StoreError::CorruptState(q3));
                },
            };
            let q5 = match expect_key(&v, q4, "telegram") {
                Some(j) => j,
                None => {
                    return Err(StoreError::CorruptState(q4));
                },
            };
            let (telegram, q6) = match expect_lit(&v, q5, "null") {
                Some(j) => (None, j),
                None => match parse_telegram(&v, q5) {
                    Ok((t, j)) => (Some(t), j),
                    Err(at) => {
                        return Err(StoreError::CorruptState(at));
                    },
                },
            };
            let q7 = match expect_char(&v, q6, ',') {
                Some(j) => j,
                None => {
                    return Err(StoreError::CorruptState(q6));
                },
            };
            let q8 = match expect_key(&v, q7, "discord") {
                Some(j) => j,
                None => {
                    return Err(StoreError::CorruptState(q7));
                },
            };
            let (discord, q9) = match expect_lit(&v, q8, "null") {
                Some(j) => (None, j),
                None => match parse_discord(&v, q8) {
                    Ok((d, j)) => (Some(d), j),
                    Err(at) => {
                        return Err(StoreError::CorruptState(at));
                    },
                },
            };
            let q10 = match expect_char(&v, q9, '}') {
                Some(j) => j,
                None => {
                    return Err(StoreError::CorruptState(q9));
                },
            };
            (Some(NotificationConfig { native, telegram, discord }), q10)
        },
    };
    let end = match expect_char(&v, n3, '}') {
        Some(j) => j,
        None => {
            return Err(StoreError::CorruptState(n3));
        },
    };
    let tail = skip_ws(&v, end);
    if tail != v.len() {
        return Err(StoreError::CorruptState(tail));
    }
    let c = Config { exchanges, security, notifications };
    let mut i: usize = 0;
    while i < c.exchanges.len()
        invariant
            i <= c.exchanges@.len(),
        decreases c.exchanges@.len() - i,
    {
        let mut j: usize = i + 1;
        while j < c.exchanges.len()
            invariant
                i < j <= c.exchanges@.len(),
            decreases c.exchanges@.len() - j,
        {
            if str_eq(c.exchanges[i].name.as_str(), c.exchanges[j].name.as_str()) {
                return Err(StoreError::CorruptState(0));
            }
            j += 1;
        }
        i += 1;
    }
    let rendered = render_config(&c);
    if !str_eq(content, rendered.as_str()) {
        return Err(StoreError::CorruptState(0));
    }
    Ok(c)
}

/// Whether `c` is the default configuration used when no file exists.
pub open spec fn is_default_config(c: Config) -> bool {
    &&& c.exchanges@.len() == 0
    &&& (c.security matches Some(s) && s.max_order_size@ == "100.0"@ && s.confirm_trades == true)
    &&& c.notifications is None
}

/// Whether `r` is `c` with every credential entry redacted: names and the
/// testnet flags kept, each API key masked, each secret fully replaced, and
/// the pass-through settings unchanged.
pub open spec fn redacts(c: Config, r: Config) -> bool {
    &&& r.exchanges@.len() == c.exchanges@.len()
    &&& (forall|k: int|
        0 <= k < c.exchanges@.len() ==> {
            &&& (#[trigger] r.exchanges@[k]).name@ == c.exchanges@[k].name@
            &&& r.exchanges@[k].config.api_key@ == mask_spec(c.exchanges@[k].config.api_key@)
            &&& r.exchanges@[k].config.secret@ == "********"@
            &&& r.exchanges@[k].config.testnet == c.exchanges@[k].config.testnet
        })
    &&& r.security == c.security
    &&& r.notifications == c.notifications
}

/// Returns the configuration for display: a missing file yields the default
/// configuration, and every credential entry is redacted — the key masked,
/// the secret fully replaced — so a secret never reaches a reader verbatim.
pub fn get_config(content: Option<&str>) -> (r: Result<Config, StoreError>)
    ensures
        content is None ==> (r matches Ok(c) && is_default_config(c)),
        content matches Some(t) ==> (r matches Ok(c) ==> exists|c0: Config|
            t@ == #[trigger] render_config_text(c0) && redacts(c0, c)),
        r matches Ok(c) ==> forall|k: int|
            0 <= k < c.exchanges@.len() ==> (#[trigger] c.exchanges@[k]).config.secret@
                == "********"@,
        r matches Err(e) ==> content is Some && e is CorruptState,
{
    let loaded = match content {
        None => {
            return Ok(default_config());
        },
        Some(text) => match parse_config(text) {
            Ok(c) => c,
            Err(e) => {
                return Err(e);
            },
        },
    };
    let ghost loaded0 = loaded;
    let masked = redact_config(loaded);
    proof {
        assert(redacts(loaded0, masked));
    }
    Ok(masked)
}

/// Whether `r` is `c` with the credential entry upserted under `name`: the
/// first entry with that name replaced in place, or the entry appended
/// where the name is new, with everything else unchanged.
pub open spec fn upserts(
    c: Config,
    r: Config,
    name: Seq<char>,
    api_key: Seq<char>,
    secret: Seq<char>,
    testnet: bool,
) -> bool {
    &&& r.security == c.security
    &&& r.notifications == c.notifications
    &&& (first_name_match(c.exchanges@, name) == -1 ==> {
        &&& r.exchanges@.len() == c.exchanges@.len() + 1
        &&& (forall|k: int|
            0 <= k < c.exchanges@.len() ==> entry_like(#[trigger] r.exchanges@[k], c.exchanges@[k]))
        &&& r.exchanges@.last().name@ == name
        &&& r.exchanges@.last().config.api_key@ == api_key
        &&& r.exchanges@.last().config.secret@ == secret
        &&& r.exchanges@.last().config.testnet == testnet
    })
    &&& (first_name_match(c.exchanges@, name) >= 0 ==> {
        let j = first_name_match(c.exchanges@, name);
        &&& r.exchanges@.len() == c.exchanges@.len()
        &&& (forall|k: int|
            0 <= k < c.exchanges@.len() && k != j ==> entry_like(
                #[trigger] r.exchanges@[k],
                c.exchanges@[k],
            ))
        &&& r.exchanges@[j].name@ == name
        &&& r.exchanges@[j].config.api_key@ == api_key
        &&& r.exchanges@[j].config.secret@ == secret
        &&& r.exchanges@[j].config.testnet == testnet
    })
}

/// Whether `out` is a configuration file `t` (or the default, where no
/// file existed) with the credential entry upserted: some configuration
/// renders to `t`, and `out` renders its upsert. The witness is pinned only
/// up to rendering equality.
pub open spec fn saves_to(
    t: Option<Seq<char>>,
    out: Seq<char>,
    name: Seq<char>,
    api_key: Seq<char>,
    secret: Seq<char>,
    testnet: bool,
) -> bool {
    exists|c0: Config, c1: Config|
        {
            &&& match t {
                Some(text) => text == #[trigger] render_config_text(c0),
                None => is_default_config(c0),
            }
            &&& upserts(c0, c1, name, api_key, secret, testnet)
            &&& out == #[trigger] render_config_text(c1)
        }
}

/// Saves a credential entry: loads the configuration from the given file
/// content (the default where no file exists), upserts the entry under its
/// exchange name, and returns the new file text: the loaded configuration's
/// rendering with the entry replaced or appended.
pub fn save_exchange(
    content: Option<&str>,
    name: String,
    api_key: String,
    secret: String,
    testnet: bool,
) -> (r: Result<String, StoreError>)
    ensures
        content is None ==> r is Ok,
        r matches Err(e) ==> content is Some && e is CorruptState,
        r matches Ok(text) ==> saves_to(
            match content {
                Some(t) => Some(t@),
                None => None,
            },
            text@,
            name@,
            api_key@,
            secret@,
            testnet,
        ),
{
    let loaded = match content {
        None => default_config(),
        Some(text) => match parse_config(text) {
            Ok(c) => c,
            Err(e) => {
                return Err(e);
            },
        },
    };
    let ghost loaded0 = loaded;
    let updated = upsert_exchange(loaded, name, api_key, secret, testnet);
    let text = render_config(&updated);
    proof {
        assert(upserts(loaded0, updated, name@, api_key@, secret@, testnet));
        let ghost before_text = render_config_text(loaded0);
        let ghost after_text = render_config_text(updated);
        assert(saves_to(
            match content {
                Some(t) => Some(t@),
                None => None,
            },
            text@,
            name@,
            api_key@,
            secret@,
            testnet,
        ));
    }
    Ok(text)
}

/// The path of the configuration file.
pub fn get_config_path() -> (r: Result<String, StoreError>)
    ensures
        r matches Ok(p) ==> crate::store::str_ends_with(p@, "/.omnitrade/"@ + "config.json"@),
        r matches Err(e) ==> e == StoreError::NotFound,
{
    crate::store::data_path("config.json")
}

} // verus!
