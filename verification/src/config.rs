//! Server configuration: where AnythingLLM lives, which key to send, and how
//! the MCP server itself is reached (stdio or HTTP).

use vstd::prelude::*;
use vstd::string::StringSliceAdditionalSpecFns;
use vstd::utf8::{encode_utf8, is_ascii_chars};
use crate::text::{decimal, push_decimal, push_str, str_eq};

verus! {

/// How the MCP server is exposed to its clients.
#[derive(Debug, Clone, PartialEq, Eq, Default)]
pub enum TransportConfig {
    #[default]
    Stdio,
    Http { host: String, port: u16 },
}

/// Everything the gateway needs to talk to AnythingLLM and to its own clients.
#[derive(Debug, Clone)]
pub struct ServerConfig {
    pub anythingllm_base_url: String,
    pub anythingllm_api_key: String,
    pub transport: TransportConfig,
}

/// The port the HTTP transport listens on when none (or an unparsable one) is given.
pub fn default_http_port() -> (p: u16)
    ensures
        p == 8080,
{
    8080
}

/// The base URL used when none is configured.
pub open spec fn default_base_url() -> Seq<char> {
    "http://anythingllm:3001"@
}

/// The host the HTTP transport binds to when none is configured.
pub open spec fn default_http_host() -> Seq<char> {
    "0.0.0.0"@
}

impl Default for ServerConfig {
    fn default() -> (r: Self)
        ensures
            r.anythingllm_base_url@ == default_base_url(),
            r.anythingllm_api_key@ == Seq::<char>::empty(),
            r.transport == TransportConfig::Stdio,
    {
        ServerConfig {
            anythingllm_base_url: "http://anythingllm:3001".to_owned(),
            anythingllm_api_key: String::new(),
            transport: TransportConfig::Stdio,
        }
    }
}

/// Unicode lower-casing of a string, as `str::to_lowercase` computes it.
pub uninterp spec fn unicode_lowercase(s: Seq<char>) -> Seq<char>;

/// ASCII lower-casing of one character: `A`-`Z` become `a`-`z`, every other
/// character is kept.
pub open spec fn ascii_lower(c: char) -> char {
    if 'A' <= c <= 'Z' {
        ((c as u32) + 32) as char
    } else {
        c
    }
}

/// Calls `str::to_lowercase`. The result is named by `unicode_lowercase` of
/// the argument; on ASCII input it is the ASCII lower-casing, character by
/// character, as std documents. Beyond ASCII, nothing of the Unicode case
/// mapping is stated.
#[verifier::external_body]
fn to_lowercase(s: &str) -> (r: String)
    ensures
        r@ == unicode_lowercase(s@),
        is_ascii_chars(s@) ==> r@ == s@.map_values(|c: char| ascii_lower(c)),
{
    s.to_lowercase()
}

/// Whether the transport setting selects the HTTP transport: its lower-cased
/// form is exactly `http`. For ASCII settings this is an ASCII
/// case-insensitive comparison with `http`.
pub open spec fn selects_http(setting: Seq<char>) -> bool {
    if is_ascii_chars(setting) {
        setting.map_values(|c: char| ascii_lower(c)) == "http"@
    } else {
        unicode_lowercase(setting) == "http"@
    }
}

/// Whether a transport setting selects the HTTP transport.
pub fn transport_selects_http(setting: &str) -> (r: bool)
    ensures
        r == selects_http(setting@),
{
    let lower = to_lowercase(setting);
    str_eq(lower.as_str(), "http")
}

/// The transport setting is read without regard to ASCII case: two ASCII
/// settings that agree up to case select the same transport.
pub proof fn lemma_transport_case_insensitive(a: Seq<char>, b: Seq<char>)
    requires
        is_ascii_chars(a),
        is_ascii_chars(b),
        a.len() == b.len(),
        forall|i: int| 0 <= i < a.len() ==> ascii_lower(#[trigger] a[i]) == ascii_lower(b[i]),
    ensures
        selects_http(a) == selects_http(b),
{
    assert(a.map_values(|c: char| ascii_lower(c)) =~= b.map_values(|c: char| ascii_lower(c)));
}

/// Whether a byte is an ASCII decimal digit.
pub open spec fn is_digit_byte(b: u8) -> bool {
    48 <= b <= 57
}

/// Whether every byte of `s` is an ASCII decimal digit.
pub open spec fn all_digits(s: Seq<u8>) -> bool {
    forall|i: int| 0 <= i < s.len() ==> is_digit_byte(#[trigger] s[i])
}

/// The number written by a sequence of decimal digits.
pub open spec fn digits_value(s: Seq<u8>) -> nat
    decreases s.len(),
{
    if s.len() == 0 {
        0
    } else {
        digits_value(s.drop_last()) * 10 + (s.last() - 48) as nat
    }
}

/// What `u16::from_str` accepts: an optional `+` followed by one or more
/// decimal digits whose value fits in 16 bits.
pub open spec fn spec_parse_u16(s: Seq<u8>) -> Option<u16> {
    let digits = if s.len() > 0 && s[0] == 43u8 {
        s.skip(1)
    } else {
        s
    };
    if digits.len() > 0 && all_digits(digits) && digits_value(digits) <= 65535 {
        Some(digits_value(digits) as u16)
    } else {
        None
    }
}

/// The ASCII bytes of the decimal rendering of any number are digits, one
/// at least, and spell that number.
proof fn lemma_decimal_bytes_spell(m: nat)
    ensures
        decimal(m).len() > 0,
        all_digits(decimal(m).map_values(|c: char| c as u8)),
        digits_value(decimal(m).map_values(|c: char| c as u8)) == m,
    decreases m,
{
    let b = decimal(m).map_values(|c: char| c as u8);
    if m < 10 {
        assert(b =~= seq![(m + 48) as u8]);
        assert(b.drop_last() =~= Seq::<u8>::empty());
        assert(b.last() == (m + 48) as u8);
        assert(digits_value(b) == digits_value(b.drop_last()) * 10 + (b.last() - 48) as nat);
    } else {
        lemma_decimal_bytes_spell(m / 10);
        let a = decimal(m / 10).map_values(|c: char| c as u8);
        assert(b =~= a.push((m % 10 + 48) as u8));
        assert(b.drop_last() =~= a);
        assert forall|i: int| 0 <= i < b.len() implies is_digit_byte(#[trigger] b[i]) by {
            if i < a.len() {
                assert(b[i] == a[i]);
            }
        }
        assert(b.last() == (m % 10 + 48) as u8);
        assert(digits_value(b) == digits_value(a) * 10 + (b.last() - 48) as nat);
        assert((m / 10) * 10 + m % 10 == m) by (nonlinear_arith);
    }
}

/// Every port number reads back from its own decimal rendering: what
/// `parse_port` accepts includes the way each port is written.
pub proof fn lemma_port_round_trip(n: u16)
    ensures
        spec_parse_u16(decimal(n as nat).map_values(|c: char| c as u8)) == Some(n),
{
    lemma_decimal_bytes_spell(n as nat);
    let b = decimal(n as nat).map_values(|c: char| c as u8);
    assert(is_digit_byte(b[0]));
}

/// Parses a port number the way `u16::from_str` does.
pub fn parse_port(s: &str) -> (r: Option<u16>)
    ensures
        r == spec_parse_u16(s.spec_bytes()),
{
    let b = s.as_bytes();
    let start: usize = if b.len() > 0 && b[0] == 43u8 {
        1
    } else {
        0
    };
    let ghost digits = b@.skip(start as int);
    assert(b@.skip(0) =~= b@);
    assert(digits == (if b@.len() > 0 && b@[0] == 43u8 {
        b@.skip(1)
    } else {
        b@
    }));
    if start >= b.len() {
        return None;
    }
    let mut value: u32 = 0;
    let mut i: usize = start;
    while i < b.len()
        invariant
            b@ == s.spec_bytes(),
            start <= i <= b@.len(),
            digits == b@.skip(start as int),
            digits == (if b@.len() > 0 && b@[0] == 43u8 {
                b@.skip(1)
            } else {
                b@
            }),
            all_digits(digits.take(i - start)),
            value as nat == if digits_value(digits.take(i - start)) <= 65536 {
                digits_value(digits.take(i - start))
            } else {
                65536
            },
        decreases b@.len() - i,
    {
        let c = b[i];
        if c < 48 || c > 57 {
            assert(digits[i - start] == c);
            return None;
        }
        proof {
            let k = i - start;
            assert(digits.take(k + 1).drop_last() =~= digits.take(k));
            assert(digits.take(k + 1).last() == c);
            assert(all_digits(digits.take(k + 1))) by {
                assert forall|j: int| 0 <= j < k + 1 implies is_digit_byte(
                    #[trigger] digits.take(k + 1)[j],
                ) by {
                    if j < k {
                        assert(digits.take(k + 1)[j] == digits.take(k)[j]);
                    }
                }
            }
        }
        let next: u32 = value * 10 + (c - 48) as u32;
        value = if next > 65536 {
            65536
        } else {
            next
        };
        i = i + 1;
    }
    assert(digits.take(i - start) =~= digits);
    if value > 65535 {
        None
    } else {
        Some(value as u16)
    }
}

/// The transport a configuration ends up with, given the transport setting
/// and the HTTP host and port settings.
pub open spec fn transport_matches(
    t: TransportConfig,
    transport: Option<Seq<char>>,
    host: Option<Seq<char>>,
    port: Option<Seq<u8>>,
) -> bool {
    match transport {
        Some(setting) if selects_http(setting) => match t {
            TransportConfig::Http { host: h, port: p } => {
                &&& h@ == (match host {
                    Some(v) => v,
                    None => default_http_host(),
                })
                &&& p == (match port {
                    Some(v) => match spec_parse_u16(v) {
                        Some(n) => n,
                        None => 8080u16,
                    },
                    None => 8080u16,
                })
            },
            TransportConfig::Stdio => false,
        },
        _ => t == TransportConfig::Stdio,
    }
}

impl ServerConfig {
    /// Builds the configuration from the values of the environment settings
    /// `ANYTHINGLLM_BASE_URL`, `ANYTHINGLLM_API_KEY`, `MCP_ANYTHINGLLM_TRANSPORT`,
    /// `MCP_ANYTHINGLLM_HTTP_HOST` and `MCP_ANYTHINGLLM_HTTP_PORT` (`None`
    /// where a setting is absent). An unknown transport falls back to stdio and
    /// an unparsable port to the default port.
    pub fn from_env_values(
        base_url: Option<String>,
        api_key: Option<String>,
        transport: Option<String>,
        http_host: Option<String>,
        http_port: Option<String>,
    ) -> (r: Self)
        ensures
            r.anythingllm_base_url@ == (match base_url {
                Some(v) => v@,
                None => default_base_url(),
            }),
            r.anythingllm_api_key@ == (match api_key {
                Some(v) => v@,
                None => Seq::<char>::empty(),
            }),
            transport_matches(
                r.transport,
                match transport {
                    Some(v) => Some(v@),
                    None => None,
                },
                match http_host {
                    Some(v) => Some(v@),
                    None => None,
                },
                match http_port {
                    Some(v) => Some(encode_utf8(v@)),
                    None => None,
                },
            ),
    {
        let mut config = Self::default();
        if let Some(val) = base_url {
            config.anythingllm_base_url = val;
        }
        if let Some(val) = api_key {
            config.anythingllm_api_key = val;
        }
        if let Some(val) = transport {
            if transport_selects_http(val.as_str()) {
                let host = match http_host {
                    Some(h) => h,
                    None => "0.0.0.0".to_owned(),
                };
                let port = match http_port {
                    Some(p) => match parse_port(p.as_str()) {
                        Some(n) => n,
                        None => default_http_port(),
                    },
                    None => default_http_port(),
                };
                config.transport = TransportConfig::Http { host, port };
            } else {
                config.transport = TransportConfig::Stdio;
            }
        }
        config
    }
}

/// Whether the API key is configured: `"SET"` when it is non-empty, `"UNSET"`
/// otherwise.
pub fn api_key_status(config: &ServerConfig) -> (r: &'static str)
    ensures
        r@ == (if config.anythingllm_api_key@.len() == 0 {
            "UNSET"@
        } else {
            "SET"@
        }),
{
    if config.anythingllm_api_key.as_str().is_empty() {
        "UNSET"
    } else {
        "SET"
    }
}

/// The `host:port` address the HTTP transport binds to.
pub fn bind_address(host: &str, port: u16) -> (r: String)
    ensures
        r@ == host@ + ":"@ + decimal(port as nat),
{
    let mut s = host.to_owned();
    push_str(&mut s, ":");
    push_decimal(&mut s, port as u64);
    s
}

} // verus!
