//! Plugin configuration: the stage a plugin runs at, its category, the
//! untyped key/value record it is built from, and the construction error.
use vstd::prelude::*;
use crate::text::{i64_text, int_text, quoted_list, quoted_text, text_eq};

verus! {

/// A point in request processing where plugins may run.
#[derive(Clone, Copy, Debug, PartialEq, Eq, Structural)]
pub enum PluginStep {
    Request,
    ProxyUpstream,
    Response,
}

/// The stage named by a configuration string; anything unrecognised is the
/// request stage.
pub open spec fn step_named(s: Seq<char>) -> PluginStep {
    if s == "proxy_upstream"@ {
        PluginStep::ProxyUpstream
    } else if s == "response"@ {
        PluginStep::Response
    } else {
        PluginStep::Request
    }
}

pub open spec fn step_text(step: PluginStep) -> Seq<char> {
    match step {
        PluginStep::Request => "request"@,
        PluginStep::ProxyUpstream => "proxy_upstream"@,
        PluginStep::Response => "response"@,
    }
}

impl PluginStep {
    pub fn from_text(s: &str) -> (r: PluginStep)
        ensures
            r == step_named(s@),
    {
        if text_eq(s, "proxy_upstream") {
            PluginStep::ProxyUpstream
        } else if text_eq(s, "response") {
            PluginStep::Response
        } else {
            PluginStep::Request
        }
    }

    pub fn to_string(&self) -> (r: String)
        ensures
            r@ == step_text(*self),
    {
        match self {
            PluginStep::Request => String::from_str("request"),
            PluginStep::ProxyUpstream => String::from_str("proxy_upstream"),
            PluginStep::Response => String::from_str("response"),
        }
    }
}

/// The kinds of plugin this library provides.
#[derive(Clone, Copy, Debug, PartialEq, Eq, Structural)]
pub enum PluginCategory {
    IpRestriction,
    KeyAuth,
    RequestId,
}

pub open spec fn category_text(c: PluginCategory) -> Seq<char> {
    match c {
        PluginCategory::IpRestriction => "ip_restriction"@,
        PluginCategory::KeyAuth => "key_auth"@,
        PluginCategory::RequestId => "request_id"@,
    }
}

impl PluginCategory {
    pub fn to_string(&self) -> (r: String)
        ensures
            r@ == category_text(*self),
    {
        match self {
            PluginCategory::IpRestriction => String::from_str("ip_restriction"),
            PluginCategory::KeyAuth => String::from_str("key_auth"),
            PluginCategory::RequestId => String::from_str("request_id"),
        }
    }
}

/// A plugin could not be built from its configuration.
#[derive(Clone, Debug)]
pub enum Error {
    Invalid { category: String, message: String },
}

impl Error {
    /// The error for plugin category `c` with the given reason.
    pub fn invalid(c: PluginCategory, message: &str) -> (r: Error)
        ensures
            r->category@ == category_text(c),
            r->message@ == message@,
    {
        Error::Invalid { category: c.to_string(), message: String::from_str(message) }
    }

    /// `Plugin <category> invalid, message: <message>`.
    pub fn to_string(&self) -> (r: String)
        ensures
            r@ == "Plugin "@ + self->category@ + " invalid, message: "@ + self->message@,
    {
        match self {
            Error::Invalid { category, message } => {
                let s = String::from_str("Plugin ");
                let s = s.concat(category.as_str());
                let s = s.concat(" invalid, message: ");
                s.concat(message.as_str())
            },
        }
    }
}

/// A value of the configuration record.
#[derive(Clone, Debug)]
pub enum ConfValue {
    Str(String),
    Int(i64),
    List(Vec<String>),
}

/// The value stored under `key`: the first entry that carries that key.
pub open spec fn lookup_in(entries: Seq<(String, ConfValue)>, key: Seq<char>) -> Option<ConfValue>
    decreases entries.len(),
{
    if entries.len() == 0 {
        None
    } else if entries[0].0@ == key {
        Some(entries[0].1)
    } else {
        lookup_in(entries.drop_first(), key)
    }
}

proof fn lemma_lookup_skip(entries: Seq<(String, ConfValue)>, key: Seq<char>, i: int)
    requires
        0 <= i < entries.len(),
        entries[i].0@ != key,
    ensures
        lookup_in(entries.skip(i), key) == lookup_in(entries.skip(i + 1), key),
{
    assert(entries.skip(i).drop_first() =~= entries.skip(i + 1));
}

/// A value written out: a string quoted, an integer in decimal, a list in
/// brackets.
pub open spec fn value_text(v: ConfValue) -> Seq<char> {
    match v {
        ConfValue::Str(s) => "\""@ + s@ + "\""@,
        ConfValue::Int(n) => int_text(n as int),
        ConfValue::List(l) => "["@ + quoted_text(l@.map_values(|x: String| x@)) + "]"@,
    }
}

/// The entries written one per line as `key = value`, in order.
pub open spec fn entries_text(entries: Seq<(String, ConfValue)>) -> Seq<char>
    decreases entries.len(),
{
    if entries.len() == 0 {
        Seq::empty()
    } else {
        entries_text(entries.drop_last()) + entries.last().0@ + " = "@ + value_text(
            entries.last().1,
        ) + "\n"@
    }
}

/// An ordered record from keys to values, read by plugin constructors.
#[derive(Clone, Debug)]
pub struct PluginConf {
    pub entries: Vec<(String, ConfValue)>,
}

impl PluginConf {
    pub open spec fn get(&self, key: Seq<char>) -> Option<ConfValue> {
        lookup_in(self.entries@, key)
    }

    /// The string under `key`, or the empty string.
    pub open spec fn str_of(&self, key: Seq<char>) -> Seq<char> {
        match self.get(key) {
            Some(ConfValue::Str(s)) => s@,
            _ => Seq::empty(),
        }
    }

    /// The integer under `key`, or zero.
    pub open spec fn int_of(&self, key: Seq<char>) -> i64 {
        match self.get(key) {
            Some(ConfValue::Int(n)) => n,
            _ => 0,
        }
    }

    /// The strings under `key`, or none.
    pub open spec fn list_of(&self, key: Seq<char>) -> Seq<Seq<char>> {
        match self.get(key) {
            Some(ConfValue::List(v)) => v@.map_values(|x: String| x@),
            _ => Seq::empty(),
        }
    }

    /// The stage the record asks for under `step`.
    pub open spec fn step_of(&self) -> PluginStep {
        step_named(self.str_of("step"@))
    }

    pub fn new() -> (r: PluginConf)
        ensures
            r.entries@.len() == 0,
    {
        PluginConf { entries: Vec::new() }
    }

    /// Sets `key` to `value`; the new entry hides any earlier one.
    pub fn insert(&mut self, key: &str, value: ConfValue)
        ensures
            final(self).get(key@) == Some(value),
            forall|k: Seq<char>| k != key@ ==> #[trigger] final(self).get(k) == old(self).get(k),
    {
        let name = String::from_str(key);
        self.entries.insert(0, (name, value));
        assert(self.entries@.drop_first() =~= old(self).entries@);
    }

    fn find(&self, key: &str) -> (r: Option<usize>)
        ensures
            match r {
                Some(i) => i < self.entries@.len() && self.get(key@) == Some(self.entries@[i as int].1),
                None => self.get(key@) is None,
            },
    {
        let n = self.entries.len();
        let mut i: usize = 0;
        assert(self.entries@.skip(0) =~= self.entries@);
        while i < n
            invariant
                n == self.entries@.len(),
                i <= n,
                lookup_in(self.entries@, key@) == lookup_in(self.entries@.skip(i as int), key@),
            decreases n - i,
        {
            if text_eq(self.entries[i].0.as_str(), key) {
                return Some(i);
            }
            proof {
                lemma_lookup_skip(self.entries@, key@, i as int);
            }
            i = i + 1;
        }
        None
    }

    /// The string under `key`, or the empty string.
    pub fn get_str(&self, key: &str) -> (r: String)
        ensures
            r@ == self.str_of(key@),
    {
        match self.find(key) {
            Some(i) => match &self.entries[i].1 {
                ConfValue::Str(s) => s.clone(),
                _ => String::new(),
            },
            None => String::new(),
        }
    }

    /// The integer under `key`, or zero.
    pub fn get_int(&self, key: &str) -> (r: i64)
        ensures
            r == self.int_of(key@),
    {
        match self.find(key) {
            Some(i) => match &self.entries[i].1 {
                ConfValue::Int(n) => *n,
                _ => 0,
            },
            None => 0,
        }
    }

    /// The strings under `key`, or an empty list.
    pub fn get_str_list(&self, key: &str) -> (r: Vec<String>)
        ensures
            r@.map_values(|x: String| x@) == self.list_of(key@),
    {
        let mut out: Vec<String> = Vec::new();
        match self.find(key) {
            Some(i) => match &self.entries[i].1 {
                ConfValue::List(v) => {
                    let n = v.len();
                    let mut j: usize = 0;
                    while j < n
                        invariant
                            n == v@.len(),
                            j <= n,
                            out@.len() == j,
                            forall|k: int| 0 <= k < j ==> #[trigger] out@[k]@ == v@[k]@,
                        decreases n - j,
                    {
                        out.push(v[j].clone());
                        j = j + 1;
                    }
                    assert(out@.map_values(|x: String| x@) =~= v@.map_values(|x: String| x@));
                },
                _ => {},
            },
            None => {},
        }
        assert(out@.map_values(|x: String| x@) =~= self.list_of(key@));
        out
    }

    /// The record written out, one `key = value` line per entry: the same
    /// record always gives the same text, so it identifies the configuration.
    pub fn to_text(&self) -> (r: String)
        ensures
            r@ == entries_text(self.entries@),
    {
        let mut out = String::new();
        let n = self.entries.len();
        let mut i: usize = 0;
        while i < n
            invariant
                n == self.entries@.len(),
                i <= n,
                out@ == entries_text(self.entries@.take(i as int)),
            decreases n - i,
        {
            proof {
                assert(self.entries@.take(i + 1).drop_last() =~= self.entries@.take(i as int));
            }
            out.append(self.entries[i].0.as_str());
            out.append(" = ");
            match &self.entries[i].1 {
                ConfValue::Str(s) => {
                    out.append("\"");
                    out.append(s.as_str());
                    out.append("\"");
                },
                ConfValue::Int(v) => {
                    out.append(i64_text(*v).as_str());
                },
                ConfValue::List(l) => {
                    out.append("[");
                    out.append(quoted_list(l).as_str());
                    out.append("]");
                },
            }
            out.append("\n");
            i = i + 1;
        }
        proof {
            assert(self.entries@.take(n as int) =~= self.entries@);
        }
        out
    }

    /// The stage named under `step`, the request stage by default.
    pub fn get_step(&self) -> (r: PluginStep)
        ensures
            r == self.step_of(),
    {
        let s = self.get_str("step");
        PluginStep::from_text(s.as_str())
    }
}

} // verus!
