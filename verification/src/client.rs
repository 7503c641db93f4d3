//! Configuration for talking to the service: credential and endpoint captured
//! at construction, the derived header values, and the URL of a request.
//!
//! The transport itself (the HTTP round trip) lives outside this crate; it
//! reads the prepared values from [`Client`].

use vstd::prelude::*;
use vstd::string::*;

verus! {

/// The strings, comma-separated.
pub open spec fn comma_join(items: Seq<Seq<char>>) -> Seq<char>
    decreases items.len(),
{
    if items.len() == 0 {
        Seq::empty()
    } else if items.len() == 1 {
        items[0]
    } else {
        comma_join(items.drop_last()) + seq![','] + items.last()
    }
}

/// The string without its trailing `/` characters.
pub open spec fn trim_end_slashes(s: Seq<char>) -> Seq<char>
    decreases s.len(),
{
    if s.len() > 0 && s.last() == '/' {
        trim_end_slashes(s.drop_last())
    } else {
        s
    }
}

/// The string without its leading `/` characters.
pub open spec fn trim_start_slashes(s: Seq<char>) -> Seq<char>
    decreases s.len(),
{
    if s.len() > 0 && s[0] == '/' {
        trim_start_slashes(s.drop_first())
    } else {
        s
    }
}

/// A builder for [`Client`]: credential, endpoint override and opt-in beta
/// feature flags.
pub struct ClientBuilder<'a> {
    api_key: &'a str,
    base_url: &'a str,
    betas: Option<Vec<&'a str>>,
}

/// What a [`ClientBuilder`] holds.
pub struct ClientBuilderV {
    pub api_key: Seq<char>,
    pub base_url: Seq<char>,
    pub betas: Option<Seq<Seq<char>>>,
}

impl<'a> View for ClientBuilder<'a> {
    type V = ClientBuilderV;

    closed spec fn view(&self) -> ClientBuilderV {
        ClientBuilderV {
            api_key: self.api_key@,
            base_url: self.base_url@,
            betas: match self.betas {
                Some(bs) => Some(bs@.map_values(|b: &str| b@)),
                None => None,
            },
        }
    }
}

/// Client configuration: the endpoint's base address and the header values
/// derived from the credential and the beta flags. The transport layer sends
/// `auth_header_value` as the authorization header on every request and
/// `beta_header_value`, when set, as the beta-features header.
pub struct Client {
    pub base_url: String,
    pub auth_header_value: String,
    pub beta_header_value: Option<String>,
}

/// "Bearer " followed by the credential.
fn bearer_value(api_key: &str) -> (r: String)
    ensures
        r@ == "Bearer "@ + api_key@,
{
    let mut s = String::new();
    s.append("Bearer ");
    s.append(api_key);
    proof {
        assert(s@ =~= "Bearer "@ + api_key@);
    }
    s
}

/// The strings joined with a comma between each two.
#[verifier::loop_isolation(false)]
fn join_comma(items: &Vec<&str>) -> (r: String)
    ensures
        r@ == comma_join(items@.map_values(|b: &str| b@)),
{
    let ghost m = items@.map_values(|b: &str| b@);
    let mut out = String::new();
    let mut i: usize = 0;
    proof {
        assert(m.take(0) =~= Seq::<Seq<char>>::empty());
    }
    while i < items.len()
        invariant
            i <= items@.len(),
            out@ == comma_join(m.take(i as int)),
        decreases items@.len() - i as int,
    {
        if i > 0 {
            out.append(",");
            proof {
                reveal_strlit(",");
                assert(","@ =~= seq![',']);
            }
        }
        out.append(items[i]);
        proof {
            assert(m.take(i + 1).drop_last() =~= m.take(i as int));
            assert(m.take(i + 1).last() == m[i as int]);
        }
        i = i + 1;
    }
    proof {
        assert(m.take(items@.len() as int) =~= m);
    }
    out
}

impl Client {
    /// Configuration from a credential, a base address and optional beta
    /// flags: the base address is kept, the credential becomes a bearer
    /// authorization value, the flags a comma-joined header value.
    pub fn new(api_key: &str, base_url: &str, betas: Option<Vec<&str>>) -> (r: Self)
        ensures
            r.base_url@ == base_url@,
            r.auth_header_value@ == "Bearer "@ + api_key@,
            match betas {
                Some(bs) => r.beta_header_value matches Some(h) && h@ == comma_join(
                    bs@.map_values(|b: &str| b@),
                ),
                None => r.beta_header_value is None,
            },
    {
        let beta_header_value = match betas {
            Some(bs) => Some(join_comma(&bs)),
            None => None,
        };
        Client {
            base_url: base_url.to_owned(),
            auth_header_value: bearer_value(api_key),
            beta_header_value,
        }
    }

    /// The URL a request for `path` is sent to: the base address without
    /// trailing slashes, one slash, the path without leading slashes.
    #[verifier::loop_isolation(false)]
    pub fn request_url(&self, path: &str) -> (r: String)
        ensures
            r@ == trim_end_slashes(self.base_url@) + seq!['/'] + trim_start_slashes(path@),
    {
        let base = self.base_url.as_str();
        let mut e: usize = base.unicode_len();
        proof {
            assert(base@.subrange(0, base@.len() as int) =~= base@);
        }
        while e > 0 && base.get_char(e - 1) == '/'
            invariant
                e <= base@.len(),
                trim_end_slashes(base@.subrange(0, e as int)) == trim_end_slashes(base@),
            decreases e,
        {
            proof {
                assert(base@.subrange(0, e as int).drop_last() =~= base@.subrange(
                    0,
                    e as int - 1,
                ));
            }
            e = e - 1;
        }
        let plen = path.unicode_len();
        let mut b: usize = 0;
        proof {
            assert(path@.subrange(0, path@.len() as int) =~= path@);
        }
        while b < plen && path.get_char(b) == '/'
            invariant
                b <= path@.len(),
                trim_start_slashes(path@.subrange(b as int, path@.len() as int))
                    == trim_start_slashes(path@),
            decreases plen - b,
        {
            proof {
                assert(path@.subrange(b as int, path@.len() as int).drop_first() =~= path@.subrange(
                    b as int + 1,
                    path@.len() as int,
                ));
            }
            b = b + 1;
        }
        let mut out = base.substring_char(0, e).to_owned();
        out.append("/");
        out.append(path.substring_char(b, plen));
        proof {
            reveal_strlit("/");
            assert("/"@ =~= seq!['/']);
            assert(base@.subrange(0, base@.len() as int) =~= base@);
            assert(trim_end_slashes(base@.subrange(0, e as int)) == base@.subrange(0, e as int));
            assert(trim_start_slashes(path@.subrange(b as int, path@.len() as int))
                == path@.subrange(b as int, path@.len() as int));
        }
        out
    }
}

impl Client {
    /// The completion adapter for `model` over a copy of this configuration.
    pub fn completion_model(&self, model: &str) -> (r: crate::completion::CompletionModel)
        ensures
            r.client.base_url == self.base_url,
            r.client.auth_header_value == self.auth_header_value,
            r.client.beta_header_value == self.beta_header_value,
            r.model@ == model@,
    {
        let client = Client {
            base_url: self.base_url.clone(),
            auth_header_value: self.auth_header_value.clone(),
            beta_header_value: match &self.beta_header_value {
                Some(h) => Some(h.clone()),
                None => None,
            },
        };
        crate::completion::CompletionModel::new(client, model)
    }
}

impl<'a> ClientBuilder<'a> {
    /// A builder holding the credential, the default base address and no beta
    /// flags.
    pub fn new(api_key: &'a str) -> (r: Self)
        ensures
            r@.api_key == api_key@,
            r@.base_url == crate::completion::DEEPSEEK_API_BASE_URL@,
            r@.betas is None,
    {
        Self { api_key, base_url: crate::completion::DEEPSEEK_API_BASE_URL, betas: None }
    }

    /// The same configuration with the base address replaced.
    pub fn base_url(self, url: &'a str) -> (r: Self)
        ensures
            r@.api_key == self@.api_key,
            r@.base_url == url@,
            r@.betas == self@.betas,
    {
        Self { api_key: self.api_key, base_url: url, betas: self.betas }
    }

    /// The same configuration with one beta flag appended.
    pub fn beta(self, beta: &'a str) -> (r: Self)
        ensures
            r@.api_key == self@.api_key,
            r@.base_url == self@.base_url,
            r@.betas matches Some(bs) && bs == (match self@.betas {
                Some(prev) => prev.push(beta@),
                None => seq![beta@],
            }),
    {
        let mut betas = match self.betas {
            Some(bs) => bs,
            None => Vec::new(),
        };
        betas.push(beta);
        proof {
            assert(betas@.map_values(|b: &str| b@) =~= match self@.betas {
                Some(prev) => prev.push(beta@),
                None => seq![beta@],
            });
        }
        Self { api_key: self.api_key, base_url: self.base_url, betas: Some(betas) }
    }

    /// The configured [`Client`].
    pub fn build(self) -> (r: Client)
        ensures
            r.base_url@ == self@.base_url,
            r.auth_header_value@ == "Bearer "@ + self@.api_key,
            match self@.betas {
                Some(bs) => r.beta_header_value matches Some(h) && h@ == comma_join(bs),
                None => r.beta_header_value is None,
            },
    {
        Client::new(self.api_key, self.base_url, self.betas)
    }
}

} // verus!
