//! The IP restriction plugin: lets a request through or rejects it by the
//! client's address, against a rule set in `allow` or `deny` mode.
use vstd::prelude::*;
use crate::config::{category_text, entries_text, Error, PluginCategory, PluginConf, PluginStep};
use crate::ip_rules::{literals_of, nets6_of, nets_of, IpRules};
use crate::response::{HttpResponse, State};
use crate::text::{split_on, split_text, text_eq, trim_text, trimmed};
use vstd::utf8::encode_utf8;

verus! {

/// The message of the configuration error for a stage other than request.
pub open spec fn ip_step_message() -> Seq<char> {
    "Ip restriction plugin should be executed at request or proxy upstream step"@
}

/// The body of the rejection: the configured message, else a fixed one.
pub open spec fn forbidden_message(configured: Seq<char>) -> Seq<char> {
    if configured.len() == 0 {
        "Request is forbidden"@
    } else {
        configured
    }
}

/// The address a request is judged by: the one already resolved, else the
/// one the session gives.
pub open spec fn resolved_ip(ctx: State, session_ip: Seq<char>) -> Seq<char> {
    match ctx.client_ip {
        Some(ip) => ip@,
        None => session_ip,
    }
}

/// The address a session names for its client: the first entry of
/// `X-Forwarded-For`, else `X-Real-Ip`, else the peer's address.
pub open spec fn client_ip_of(forwarded: Option<Seq<char>>, real_ip: Option<Seq<char>>, peer: Seq<
    char,
>) -> Seq<char> {
    match forwarded {
        Some(f) => trimmed(split_on(f, ',')[0]),
        None => match real_ip {
            Some(r) => r,
            None => peer,
        },
    }
}

/// Picks the client address out of what a session carries.
pub fn client_ip_from(forwarded: Option<&str>, real_ip: Option<&str>, peer: &str) -> (r: String)
    ensures
        r@ == client_ip_of(
            match forwarded {
                Some(f) => Some(f@),
                None => None,
            },
            match real_ip {
                Some(x) => Some(x@),
                None => None,
            },
            peer@,
        ),
{
    match forwarded {
        Some(f) => {
            let parts = split_text(f, ',');
            proof {
                crate::text::lemma_split_on_nonempty(f@, ',');
            }
            String::from_str(trim_text(parts[0].as_str()))
        },
        None => match real_ip {
            Some(x) => String::from_str(x),
            None => String::from_str(peer),
        },
    }
}

/// Whether a mode lets a request through, given whether its address matched:
/// `deny` lets through what did not match, any other mode what did.
pub open spec fn permits(mode: Seq<char>, found: bool) -> bool {
    if mode == "deny"@ {
        !found
    } else {
        found
    }
}

pub struct IpRestriction {
    pub plugin_step: PluginStep,
    pub ip_rules: IpRules,
    pub restriction_category: String,
    pub forbidden_resp: HttpResponse,
    pub hash_value: String,
}

impl IpRestriction {
    pub open spec fn wf(&self) -> bool {
        self.ip_rules.wf()
    }

    /// Whether a request from `ip` goes on: its address can be read and the
    /// mode permits the match result.
    pub open spec fn lets_through(&self, ip: Seq<char>) -> bool {
        self.ip_rules.matches(ip) is Some && permits(
            self.restriction_category@,
            self.ip_rules.matches(ip)->0,
        )
    }

    /// Builds the plugin from `ip_list`, `type`, `message` and `step`; only the
    /// request stage is accepted.
    pub fn try_from(value: &PluginConf) -> (r: Result<IpRestriction, Error>)
        ensures
            r is Ok <==> value.step_of() == PluginStep::Request,
            r matches Ok(p) ==> {
                &&& p.wf()
                &&& p.plugin_step == PluginStep::Request
                &&& p.ip_rules.ip_net_list@ == nets_of(value.list_of("ip_list"@))
                &&& p.ip_rules.nets6() == nets6_of(value.list_of("ip_list"@))
                &&& p.ip_rules.literals() == literals_of(value.list_of("ip_list"@))
                &&& p.restriction_category@ == value.str_of("type"@)
                &&& p.forbidden_resp.status == 403
                &&& p.forbidden_resp.body@ == encode_utf8(forbidden_message(value.str_of("message"@)))
                &&& p.hash_value@ == entries_text(value.entries@)
            },
            r matches Err(e) ==> e->category@ == category_text(PluginCategory::IpRestriction)
                && e->message@ == ip_step_message(),
    {
        let step = value.get_step();
        if step != PluginStep::Request {
            return Err(
                Error::invalid(
                    PluginCategory::IpRestriction,
                    "Ip restriction plugin should be executed at request or proxy upstream step",
                ),
            );
        }
        let list = value.get_str_list("ip_list");
        let ip_rules = IpRules::new(&list);
        let message = value.get_str("message");
        let forbidden_resp = if message.as_str().unicode_len() == 0 {
            HttpResponse::with_text(403, "Request is forbidden")
        } else {
            HttpResponse::with_text(403, message.as_str())
        };
        Ok(
            IpRestriction {
                plugin_step: step,
                ip_rules,
                restriction_category: value.get_str("type"),
                forbidden_resp,
                hash_value: value.to_text(),
            },
        )
    }

    pub fn new(params: &PluginConf) -> (r: Result<IpRestriction, Error>)
        ensures
            r is Ok <==> params.step_of() == PluginStep::Request,
            r matches Ok(p) ==> {
                &&& p.wf()
                &&& p.plugin_step == PluginStep::Request
                &&& p.ip_rules.ip_net_list@ == nets_of(params.list_of("ip_list"@))
                &&& p.ip_rules.nets6() == nets6_of(params.list_of("ip_list"@))
                &&& p.ip_rules.literals() == literals_of(params.list_of("ip_list"@))
                &&& p.restriction_category@ == params.str_of("type"@)
                &&& p.forbidden_resp.status == 403
                &&& p.forbidden_resp.body@ == encode_utf8(forbidden_message(params.str_of("message"@)))
                &&& p.hash_value@ == entries_text(params.entries@)
            },
            r matches Err(e) ==> e->category@ == category_text(PluginCategory::IpRestriction)
                && e->message@ == ip_step_message(),
    {
        IpRestriction::try_from(params)
    }

    /// The identity of the configuration the plugin was built from: equal
    /// records give equal keys.
    pub fn hash_key(&self) -> (r: String)
        ensures
            r@ == self.hash_value@,
    {
        self.hash_value.clone()
    }

    /// Judges a request at stage `step`. At another stage than the plugin's it
    /// does nothing. Otherwise the address already in `ctx`, else
    /// `session_ip`, is recorded in `ctx` and matched: an unreadable address
    /// gives `400` with the parse error, a request the mode does not permit
    /// gives the configured `403`, and a permitted one goes on (`None`).
    pub fn handle_request(&self, step: PluginStep, session_ip: &str, ctx: &mut State) -> (r:
        Option<HttpResponse>)
        requires
            self.wf(),
        ensures
            step != self.plugin_step ==> r is None && *final(ctx) == *old(ctx),
            step == self.plugin_step ==> {
                let ip = resolved_ip(*old(ctx), session_ip@);
                &&& final(ctx).client_ip matches Some(c) && c@ == ip
                &&& final(ctx).request_id == old(ctx).request_id
                &&& (r is None <==> self.lets_through(ip))
                &&& self.ip_rules.matches(ip) is None ==> (r matches Some(resp) && resp.status
                    == 400 && resp.body@ == encode_utf8("invalid IP address syntax"@))
                &&& (self.ip_rules.matches(ip) is Some && r is Some) ==> (r matches Some(resp)
                    && resp.status == self.forbidden_resp.status && resp.body@
                    == self.forbidden_resp.body@)
            },
    {
        if step != self.plugin_step {
            return None;
        }
        let ip = match &ctx.client_ip {
            Some(ip) => ip.clone(),
            None => {
                let ip = String::from_str(session_ip);
                ctx.client_ip = Some(ip.clone());
                ip
            },
        };
        let found = match self.ip_rules.matched(ip.as_str()) {
            Ok(found) => found,
            Err(e) => {
                let text = e.to_string();
                return Some(HttpResponse::bad_request(text.as_str()));
            },
        };
        let allow = if text_eq(self.restriction_category.as_str(), "deny") {
            !found
        } else {
            found
        };
        if !allow {
            return Some(self.forbidden_resp.duplicate());
        }
        None
    }
}

/// Deny mode is the complement of allow mode: for the same rule set and an
/// address the rules can read, exactly one of the two modes lets a request
/// from it through.
pub proof fn lemma_deny_complements_allow(
    allow_mode: IpRestriction,
    deny_mode: IpRestriction,
    ip: Seq<char>,
)
    requires
        allow_mode.restriction_category@ == "allow"@,
        deny_mode.restriction_category@ == "deny"@,
        allow_mode.ip_rules.literals() == deny_mode.ip_rules.literals(),
        allow_mode.ip_rules.ip_net_list@ == deny_mode.ip_rules.ip_net_list@,
        allow_mode.ip_rules.nets6() == deny_mode.ip_rules.nets6(),
        allow_mode.ip_rules.matches(ip) is Some,
    ensures
        allow_mode.lets_through(ip) != deny_mode.lets_through(ip),
{
    reveal_strlit("allow");
    reveal_strlit("deny");
    assert("allow"@ != "deny"@) by {
        assert("allow"@[0] != "deny"@[0]);
    }
}

} // verus!
