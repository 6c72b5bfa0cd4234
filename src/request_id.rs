//! The request id plugin: makes sure every request carries a correlation id,
//! adopting the caller's or generating one.
use vstd::prelude::*;
use crate::config::{category_text, Error, PluginCategory, PluginStep};
use crate::response::State;
use crate::text::{
    decimal_value, is_decimal_usize, parse_usize, split_on, split_text, text_eq, trim_text, trimmed,
};

verus! {

/// A character of nanoid's default alphabet: ASCII letters, digits, `_`, `-`.
pub open spec fn is_nanoid_char(c: char) -> bool {
    ('a' <= c && c <= 'z') || ('A' <= c && c <= 'Z') || ('0' <= c && c <= '9') || c == '_' || c
        == '-'
}

/// A lower-case hexadecimal digit.
pub open spec fn is_lower_hex(c: char) -> bool {
    ('0' <= c && c <= '9') || ('a' <= c && c <= 'f')
}

/// The hyphenated form of a UUID: 36 characters, hyphens at 8, 13, 18, 23,
/// lower-case hexadecimal digits elsewhere.
pub open spec fn is_hyphenated_uuid(s: Seq<char>) -> bool {
    &&& s.len() == 36
    &&& forall|i: int|
        0 <= i < 36 ==> if i == 8 || i == 13 || i == 18 || i == 23 {
            #[trigger] s[i] == '-'
        } else {
            is_lower_hex(s[i])
        }
}

/// Relies on `nanoid::format` with nanoid's default random source and its
/// `SAFE` alphabet: `size` characters drawn from that alphabet. It loops for
/// ever on a size of zero and computes `8 * size`, hence the bounds.
#[verifier::external_body]
fn nanoid_text(size: usize) -> (r: String)
    requires
        0 < size <= usize::MAX / 8,
    ensures
        r@.len() == size,
        forall|i: int| 0 <= i < r@.len() ==> is_nanoid_char(#[trigger] r@[i]),
{
    nanoid::format(nanoid::rngs::default, &nanoid::alphabet::SAFE, size)
}

/// Relies on `uuid::Uuid::new_v4` and `Display` for `Uuid`: a random
/// version-4 UUID in hyphenated lower-case form, whose version digit is `4`.
#[verifier::external_body]
fn uuid_v4_text() -> (r: String)
    ensures
        is_hyphenated_uuid(r@),
        r@[14] == '4',
{
    uuid::Uuid::new_v4().to_string()
}

/// The message of the configuration error for a stage the plugin refuses.
pub open spec fn request_id_step_message() -> Seq<char> {
    "Request id should be executed at request or proxy upstream step"@
}

/// The message of the configuration error for a size that is no number.
pub open spec fn request_id_size_message() -> Seq<char> {
    "Request id size is invalid"@
}

/// The digits of a size text: what follows an optional leading `+`.
pub open spec fn size_digits(text: Seq<char>) -> Seq<char> {
    if text.len() > 0 && text[0] == '+' {
        text.drop_first()
    } else {
        text
    }
}

/// The size a configured size text asks for: `None` when it is not a usable
/// number, else the number, where zero keeps the default of eight.
pub open spec fn size_of(text: Seq<char>) -> Option<usize> {
    let d = size_digits(text);
    if !is_decimal_usize(d) || decimal_value(d) > usize::MAX / 8 {
        None
    } else if decimal_value(d) == 0 {
        Some(8)
    } else {
        Some(decimal_value(d) as usize)
    }
}

pub struct RequestId {
    pub proxy_step: PluginStep,
    pub algorithm: String,
    pub size: usize,
}

impl RequestId {
    pub open spec fn wf(&self) -> bool {
        0 < self.size <= usize::MAX / 8
    }

    /// Builds the plugin from `"<algorithm> [size]"` for stage `proxy_step`,
    /// which must be the request or the proxy-upstream stage.
    pub fn new(value: &str, proxy_step: PluginStep) -> (r: Result<RequestId, Error>)
        ensures
            ({
                let parts = split_on(value@, ' ');
                let step_ok = proxy_step == PluginStep::Request || proxy_step
                    == PluginStep::ProxyUpstream;
                &&& r is Ok <==> step_ok && (parts.len() < 2 || size_of(parts[1]) is Some)
                &&& r matches Ok(p) ==> {
                    &&& p.wf()
                    &&& p.proxy_step == proxy_step
                    &&& p.algorithm@ == trimmed(parts[0])
                    &&& p.size == if parts.len() < 2 {
                        8
                    } else {
                        size_of(parts[1])->0
                    }
                }
                &&& r matches Err(e) ==> e->category@ == category_text(PluginCategory::RequestId)
                    && e->message@ == if step_ok {
                    request_id_size_message()
                } else {
                    request_id_step_message()
                }
            }),
    {
        if proxy_step != PluginStep::Request && proxy_step != PluginStep::ProxyUpstream {
            return Err(
                Error::invalid(
                    PluginCategory::RequestId,
                    "Request id should be executed at request or proxy upstream step",
                ),
            );
        }
        let arr = split_text(value, ' ');
        proof {
            crate::text::lemma_split_on_nonempty(value@, ' ');
        }
        let algorithm = String::from_str(trim_text(arr[0].as_str()));
        let mut size: usize = 8;
        if arr.len() >= 2 {
            let text = arr[1].as_str();
            let n = text.unicode_len();
            let digits = if n > 0 && text.get_char(0) == '+' {
                text.substring_char(1, n)
            } else {
                text
            };
            proof {
                if n > 0 && text@[0] == '+' {
                    assert(digits@ =~= text@.drop_first());
                }
            }
            match parse_usize(digits) {
                Some(v) => {
                    if v > usize::MAX / 8 {
                        return Err(
                            Error::invalid(PluginCategory::RequestId, "Request id size is invalid"),
                        );
                    }
                    if v > 0 {
                        size = v;
                    }
                },
                None => {
                    return Err(
                        Error::invalid(PluginCategory::RequestId, "Request id size is invalid"),
                    );
                },
            }
        }
        Ok(RequestId { proxy_step, algorithm, size })
    }

    /// The stage the plugin runs at.
    pub fn step(&self) -> (r: PluginStep)
        ensures
            r == self.proxy_step,
    {
        self.proxy_step
    }

    pub fn category(&self) -> (r: PluginCategory)
        ensures
            r == PluginCategory::RequestId,
    {
        PluginCategory::RequestId
    }

    /// A fresh id: `size` characters of nanoid's alphabet when the algorithm
    /// is `nanoid`, else a random UUID in hyphenated form.
    pub fn generate(&self) -> (r: String)
        requires
            self.wf(),
        ensures
            self.algorithm@ == "nanoid"@ ==> r@.len() == self.size && forall|i: int|
                0 <= i < r@.len() ==> is_nanoid_char(#[trigger] r@[i]),
            self.algorithm@ != "nanoid"@ ==> is_hyphenated_uuid(r@) && r@[14] == '4',
    {
        if text_eq(self.algorithm.as_str(), "nanoid") {
            nanoid_text(self.size)
        } else {
            uuid_v4_text()
        }
    }

    /// Gives the request its correlation id. An id the caller sent
    /// (`inbound`) is adopted as it is and nothing is returned; otherwise a
    /// fresh one is generated, recorded, and returned to be set as the
    /// request's header.
    pub fn handle(&self, inbound: Option<&str>, ctx: &mut State) -> (r: Option<String>)
        requires
            self.wf(),
        ensures
            final(ctx).client_ip == old(ctx).client_ip,
            inbound is Some ==> r is None && final(ctx).request_id is Some
                && final(ctx).request_id->0@ == inbound->0@,
            inbound is None ==> r is Some && final(ctx).request_id is Some
                && final(ctx).request_id->0@ == r->0@,
            inbound is None && self.algorithm@ == "nanoid"@ ==> r->0@.len() == self.size && forall|
                i: int,
            | 0 <= i < r->0@.len() ==> is_nanoid_char(#[trigger] r->0@[i]),
            inbound is None && self.algorithm@ != "nanoid"@ ==> is_hyphenated_uuid(r->0@) && r->0@[14]
                == '4',
    {
        match inbound {
            Some(v) => {
                ctx.request_id = Some(String::from_str(v));
                None
            },
            None => {
                let id = self.generate();
                ctx.request_id = Some(id.clone());
                Some(id)
            },
        }
    }
}

} // verus!
