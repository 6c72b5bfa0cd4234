//! The key auth plugin: a request must carry, in a header or a query
//! parameter, one of the configured keys.
use vstd::prelude::*;
use vstd::utf8::encode_utf8;
use crate::config::{category_text, Error, PluginCategory, PluginConf, PluginStep};
use crate::response::{HttpResponse, State};
use crate::text::{split_on, split_text};
use http::header::{HeaderName, InvalidHeaderName};

verus! {

#[verifier::external_type_specification]
#[verifier::external_body]
pub struct ExHeaderName(HeaderName);

#[verifier::external_type_specification]
#[verifier::external_body]
pub struct ExInvalidHeaderName(InvalidHeaderName);

/// A character that HTTP allows in a header name (a token character).
pub open spec fn is_token_char(c: char) -> bool {
    ('a' <= c && c <= 'z') || ('A' <= c && c <= 'Z') || ('0' <= c && c <= '9') || c == '!' || c
        == '#' || c == '$' || c == '%' || c == '&' || c == '\'' || c == '*' || c == '+' || c
        == '-' || c == '.' || c == '^' || c == '_' || c == '`' || c == '|' || c == '~'
}

/// A name that `http` accepts for a header: 1 to 65535 token characters.
pub open spec fn is_header_name(s: Seq<char>) -> bool {
    1 <= s.len() <= 65535 && forall|i: int| 0 <= i < s.len() ==> is_token_char(#[trigger] s[i])
}

/// Relies on `HeaderName::from_str` of `http`: it accepts exactly the
/// non-empty names of at most 65535 token characters.
#[verifier::external_body]
fn header_name_from(s: &str) -> (r: Result<HeaderName, InvalidHeaderName>)
    ensures
        r is Ok <==> is_header_name(s@),
{
    <HeaderName as std::str::FromStr>::from_str(s)
}

/// Relies on `Display` for `InvalidHeaderName` of `http`, which writes a
/// fixed text.
#[verifier::external_body]
fn invalid_header_text(e: &InvalidHeaderName) -> (r: String)
    ensures
        r@ == "invalid HTTP header name"@,
{
    e.to_string()
}

/// Relies on `Substring::substring(1, s.len())` of `substring`: every
/// character but the first.
#[verifier::external_body]
fn after_first_char(s: &str) -> (r: String)
    ensures
        r@ == (if s@.len() == 0 {
            Seq::<char>::empty()
        } else {
            s@.subrange(1, s@.len() as int)
        }),
{
    substring::Substring::substring(s, 1, s.len()).to_string()
}

/// The query parameter name a `?name` or a field-form name stands for.
pub open spec fn after_first(s: Seq<char>) -> Seq<char> {
    if s.len() == 0 {
        Seq::empty()
    } else {
        s.subrange(1, s.len() as int)
    }
}

pub open spec fn key_auth_step_message() -> Seq<char> {
    "Key auth plugin should be executed at request or proxy upstream step"@
}

pub open spec fn key_auth_value_message() -> Seq<char> {
    "Value for key auth is invalid"@
}

pub open spec fn key_auth_header_message() -> Seq<char> {
    "invalid header name, invalid HTTP header name"@
}

/// The keys as bytes.
pub open spec fn key_bytes(keys: Seq<Seq<char>>) -> Seq<Seq<u8>> {
    keys.map_values(|k: Seq<char>| encode_utf8(k))
}

/// Where the credential is read: `1` a query parameter, anything else a header.
pub open spec fn category_of(conf: PluginConf) -> u8 {
    let v = conf.str_of("value"@);
    if v.len() > 0 {
        if split_on(v, ' ')[0].len() > 0 && split_on(v, ' ')[0][0] == '?' {
            1
        } else {
            0
        }
    } else {
        conf.int_of("category"@) as u8
    }
}

/// The name of the header or query parameter, as configured.
pub open spec fn location_of(conf: PluginConf) -> Seq<char> {
    let v = conf.str_of("value"@);
    if v.len() > 0 {
        split_on(v, ' ')[0]
    } else {
        conf.str_of("name"@)
    }
}

/// The accepted keys, as configured.
pub open spec fn keys_of(conf: PluginConf) -> Seq<Seq<u8>> {
    let v = conf.str_of("value"@);
    if v.len() > 0 {
        key_bytes(split_on(split_on(v, ' ')[1], ','))
    } else {
        key_bytes(conf.list_of("keys"@))
    }
}

/// The error, if any, that building the plugin from `conf` ends in.
pub open spec fn key_auth_error(conf: PluginConf) -> Option<Seq<char>> {
    let v = conf.str_of("value"@);
    if v.len() > 0 && split_on(v, ' ').len() != 2 {
        Some(key_auth_value_message())
    } else if category_of(conf) != 1 && !is_header_name(location_of(conf)) {
        Some(key_auth_header_message())
    } else if conf.step_of() != PluginStep::Request && conf.step_of() != PluginStep::ProxyUpstream {
        Some(key_auth_step_message())
    } else {
        None
    }
}

pub struct KeyAuth {
    pub category: u8,
    pub plugin_step: PluginStep,
    /// The header the credential is read from, as configured and validated.
    pub header_name: Option<String>,
    pub query_name: Option<String>,
    pub keys: Vec<Vec<u8>>,
    pub miss_authorization_resp: HttpResponse,
    pub unauthorized_resp: HttpResponse,
}

fn keys_from(items: &Vec<String>) -> (r: Vec<Vec<u8>>)
    ensures
        r@.map_values(|k: Vec<u8>| k@) == key_bytes(items@.map_values(|x: String| x@)),
{
    let mut keys: Vec<Vec<u8>> = Vec::new();
    let n = items.len();
    let mut i: usize = 0;
    while i < n
        invariant
            n == items@.len(),
            i <= n,
            keys@.len() == i,
            forall|k: int| 0 <= k < i ==> #[trigger] keys@[k]@ == encode_utf8(items@[k]@),
        decreases n - i,
    {
        keys.push(items[i].as_str().as_bytes_vec());
        i = i + 1;
    }
    assert(keys@.map_values(|k: Vec<u8>| k@) =~= key_bytes(items@.map_values(|x: String| x@)));
    keys
}

impl KeyAuth {
    /// The credential `c` is one of the configured keys.
    pub open spec fn accepts(&self, c: Seq<u8>) -> bool {
        exists|i: int| 0 <= i < self.keys@.len() && #[trigger] self.keys@[i]@ == c
    }

    /// Builds the plugin from either `value` (`"<location> <key>,<key>..."`,
    /// where a location `?name` is a query parameter and any other a header)
    /// or `category`, `name` and `keys`; only the request and proxy-upstream
    /// stages are accepted.
    pub fn new(params: &PluginConf) -> (r: Result<KeyAuth, Error>)
        ensures
            r is Err <==> key_auth_error(*params) is Some,
            r matches Err(e) ==> e->category@ == category_text(PluginCategory::KeyAuth)
                && e->message@ == key_auth_error(*params)->0,
            r matches Ok(p) ==> {
                &&& p.category == category_of(*params)
                &&& p.plugin_step == params.step_of()
                &&& p.header_name is Some <==> p.category != 1
                &&& p.header_name matches Some(h) ==> h@ == location_of(*params)
                &&& p.query_name is Some <==> p.category == 1
                &&& p.query_name matches Some(q) ==> q@ == after_first(location_of(*params))
                &&& p.keys@.map_values(|k: Vec<u8>| k@) == keys_of(*params)
                &&& p.miss_authorization_resp.status == 401
                &&& p.miss_authorization_resp.body@ == encode_utf8("Key missing"@)
                &&& p.unauthorized_resp.status == 401
                &&& p.unauthorized_resp.body@ == encode_utf8("Key auth fail"@)
            },
    {
        let step = params.get_step();
        let all_params = params.get_str("value");
        let category: u8;
        let name: String;
        let keys: Vec<Vec<u8>>;
        if all_params.as_str().unicode_len() > 0 {
            let arr = split_text(all_params.as_str(), ' ');
            if arr.len() != 2 {
                return Err(Error::invalid(PluginCategory::KeyAuth, "Value for key auth is invalid"));
            }
            let first = arr[0].as_str();
            category = if first.unicode_len() > 0 && first.get_char(0) == '?' {
                1
            } else {
                0
            };
            name = arr[0].clone();
            let items = split_text(arr[1].as_str(), ',');
            assert(items@.map_values(|x: String| x@) =~= split_on(arr@[1]@, ','));
            keys = keys_from(&items);
        } else {
            category = params.get_int("category") as u8;
            name = params.get_str("name");
            let items = params.get_str_list("keys");
            keys = keys_from(&items);
        }
        let mut query_name: Option<String> = None;
        let mut header_name: Option<String> = None;
        if category == 1 {
            query_name = Some(after_first_char(name.as_str()));
        } else {
            match header_name_from(name.as_str()) {
                Ok(_) => {
                    header_name = Some(name.clone());
                },
                Err(e) => {
                    let text = invalid_header_text(&e);
                    let message = String::from_str("invalid header name, ").concat(text.as_str());
                    proof {
                        reveal_strlit("invalid header name, ");
                        reveal_strlit("invalid HTTP header name");
                        reveal_strlit("invalid header name, invalid HTTP header name");
                        assert(message@ =~= key_auth_header_message());
                    }
                    return Err(Error::invalid(PluginCategory::KeyAuth, message.as_str()));
                },
            }
        }
        if step != PluginStep::Request && step != PluginStep::ProxyUpstream {
            return Err(
                Error::invalid(
                    PluginCategory::KeyAuth,
                    "Key auth plugin should be executed at request or proxy upstream step",
                ),
            );
        }
        Ok(
            KeyAuth {
                category,
                plugin_step: step,
                header_name,
                query_name,
                keys,
                miss_authorization_resp: HttpResponse::with_text(401, "Key missing"),
                unauthorized_resp: HttpResponse::with_text(401, "Key auth fail"),
            },
        )
    }

    /// The stage the plugin runs at.
    pub fn step(&self) -> (r: PluginStep)
        ensures
            r == self.plugin_step,
    {
        self.plugin_step
    }

    pub fn category(&self) -> (r: PluginCategory)
        ensures
            r == PluginCategory::KeyAuth,
    {
        PluginCategory::KeyAuth
    }

    /// Judges the credential the request carries at the configured location
    /// (`None` when it carries none): a missing one gives `401 Key missing`,
    /// one that is not a configured key `401 Key auth fail`, and a configured
    /// key lets the request go on.
    pub fn handle(&self, credential: Option<&[u8]>, ctx: &mut State) -> (r: Option<HttpResponse>)
        ensures
            *final(ctx) == *old(ctx),
            credential is None ==> r is Some && r->0.status == self.miss_authorization_resp.status
                && r->0.body@ == self.miss_authorization_resp.body@,
            credential is Some ==> (r is None <==> self.accepts(credential->0@)),
            credential is Some && r is Some ==> r->0.status == self.unauthorized_resp.status
                && r->0.body@ == self.unauthorized_resp.body@,
    {
        let value = match credential {
            None => {
                return Some(self.miss_authorization_resp.duplicate());
            },
            Some(v) => v,
        };
        let n = self.keys.len();
        let mut i: usize = 0;
        while i < n
            invariant
                n == self.keys@.len(),
                i <= n,
                credential == Some(value),
                forall|k: int| 0 <= k < i ==> #[trigger] self.keys@[k]@ != value@,
            decreases n - i,
        {
            if bytes_eq(self.keys[i].as_slice(), value) {
                assert(self.keys@[i as int]@ == value@);
                return None;
            }
            i = i + 1;
        }
        Some(self.unauthorized_resp.duplicate())
    }
}

/// Whether two byte strings are equal.
pub fn bytes_eq(a: &[u8], b: &[u8]) -> (r: bool)
    ensures
        r == (a@ == b@),
{
    let n = a.len();
    if n != b.len() {
        return false;
    }
    let mut i: usize = 0;
    while i < n
        invariant
            n == a@.len() == b@.len(),
            i <= n,
            forall|k: int| 0 <= k < i ==> a@[k] == b@[k],
        decreases n - i,
    {
        if a[i] != b[i] {
            return false;
        }
        i = i + 1;
    }
    assert(a@ =~= b@);
    true
}

} // verus!
