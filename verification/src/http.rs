//! What a request's headers say: the client's address as the proxy saw it,
//! the protocol, the TLS version and whether the client is a command-line tool.
use vstd::prelude::*;

use crate::ip::UNKNOWN;
use crate::text::{chars_of, occurs_at, push_char, starts_with};

verus! {

/// The header in which the proxy passes the client's address.
pub const X_REAL_IP: &'static str = "X-Real-Ip";

/// The header in which the proxy passes the client's HTTP version.
pub const X_REAL_PROTO: &'static str = "X-Real-Proto";

/// The header in which the proxy passes the client's TLS version.
pub const X_TLS_VERSION: &'static str = "X-Tls-Version";

/// What the proxy sends as the TLS version when it did not fill in its
/// placeholder (a plain-HTTP request).
pub const TLS_PLACEHOLDER: &'static str = "{http.request.tls.version}";

/// The HTTP facts shown about a request.
#[derive(Debug, Clone)]
pub struct Http {
    pub version: String,
    pub tls: String,
    pub user_agent: Option<String>,
}

impl Http {
    pub fn new(version: String, tls: String, user_agent: Option<String>) -> (r: Self)
        ensures
            r.version == version,
            r.tls == tls,
            r.user_agent == user_agent,
    {
        Http { version, tls, user_agent }
    }
}

/// The user agent names a command-line client (curl, Wget or HTTPie), which
/// is answered in JSON rather than HTML.
pub open spec fn spec_is_automated(user_agent: Option<Seq<char>>) -> bool {
    match user_agent {
        None => false,
        Some(ua) => starts_with(ua, "curl/"@) || starts_with(ua, "Wget/"@) || starts_with(
            ua,
            "HTTPie/"@,
        ),
    }
}

/// Whether the user agent is a command-line client: it starts with `curl/`,
/// `Wget/` or `HTTPie/`.
pub fn is_user_agent_automated(user_agent: &Option<String>) -> (b: bool)
    ensures
        b == spec_is_automated(match user_agent {
            Some(ua) => Some(ua@),
            None => None,
        }),
{
    match user_agent {
        None => false,
        Some(ua) => {
            let chars = chars_of(ua.as_str());
            assert(chars@.skip(0) =~= chars@);
            occurs_at(&chars, &chars_of("curl/"), 0) || occurs_at(&chars, &chars_of("Wget/"), 0)
                || occurs_at(&chars, &chars_of("HTTPie/"), 0)
        },
    }
}

/// A header byte that may stand in header text: visible ASCII or a tab.
pub open spec fn is_visible_ascii(b: u8) -> bool {
    (32 <= b && b < 127) || b == 9
}

/// The text of a header value: its characters where every byte is visible
/// ASCII, else the empty text (as `HeaderValue::to_str`, with the empty text
/// in place of its error).
pub open spec fn header_str(value: Seq<u8>) -> Seq<char> {
    if forall|i: int| 0 <= i < value.len() ==> is_visible_ascii(#[trigger] value[i]) {
        value.map_values(|b: u8| b as char)
    } else {
        Seq::empty()
    }
}

/// The text of a header value, or the empty text where it holds a byte that
/// is not visible ASCII.
pub fn header_text(value: &[u8]) -> (s: String)
    ensures
        s@ == header_str(value@),
{
    let mut s = String::new();
    let mut i: usize = 0;
    while i < value.len()
        invariant
            i <= value.len(),
            forall|j: int| 0 <= j < i ==> is_visible_ascii(#[trigger] value@[j]),
            s@ == value@.take(i as int).map_values(|b: u8| b as char),
        decreases value.len() - i,
    {
        let b: u8 = value[i];
        if !((32 <= b && b < 127) || b == 9) {
            return String::new();
        }
        push_char(&mut s, b as char);
        i = i + 1;
        assert(value@.take(i as int).map_values(|b: u8| b as char) =~= value@.take(
            (i - 1) as int,
        ).map_values(|b: u8| b as char).push(b as char));
    }
    assert(value@.take(i as int) =~= value@);
    s
}

/// The header's text where the header is present, else `fallback`.
pub open spec fn header_or(header: Option<Seq<u8>>, fallback: Seq<char>) -> Seq<char> {
    match header {
        Some(v) => header_str(v),
        None => fallback,
    }
}

/// The view of an optional header value.
pub open spec fn header_view(header: Option<&[u8]>) -> Option<Seq<u8>> {
    match header {
        Some(v) => Some(v@),
        None => None,
    }
}

/// The header's text where the header is present, else `fallback`.
fn text_or(header: Option<&[u8]>, fallback: String) -> (s: String)
    ensures
        s@ == header_or(header_view(header), fallback@),
{
    match header {
        Some(value) => header_text(value),
        None => fallback,
    }
}

/// The client's address: the text of the proxy's `X-Real-Ip` header where
/// there is one, else the address the connection came from.
pub fn extract_ip(ip_header: Option<&[u8]>, fallback_ip: String) -> (s: String)
    ensures
        s@ == header_or(header_view(ip_header), fallback_ip@),
{
    text_or(ip_header, fallback_ip)
}

/// The user agent's text, where the request names one.
pub fn user_agent_of(header: Option<&[u8]>) -> (r: Option<String>)
    ensures
        header is None ==> r is None,
        header matches Some(v) ==> (r matches Some(s) && s@ == header_str(v@)),
{
    match header {
        Some(value) => Some(header_text(value)),
        None => None,
    }
}

/// The TLS version that the proxy reports, or `UNKNOWN` where it reports
/// none or left its placeholder unfilled.
pub open spec fn spec_tls_version(header: Option<Seq<u8>>) -> Seq<char> {
    let text = header_or(header, UNKNOWN@);
    if text == TLS_PLACEHOLDER@ {
        UNKNOWN@
    } else {
        text
    }
}

/// The TLS version that the proxy reports in `X-Tls-Version`.
pub fn tls_version(header: Option<&[u8]>) -> (s: String)
    ensures
        s@ == spec_tls_version(header_view(header)),
{
    let text = text_or(header, String::from_str(UNKNOWN));
    if text == String::from_str(TLS_PLACEHOLDER) {
        String::from_str(UNKNOWN)
    } else {
        text
    }
}

impl Http {
    /// The HTTP facts of a request: the version from `X-Real-Proto`, else the
    /// version the connection spoke (`fallback_version`); the TLS version from
    /// `X-Tls-Version`; the user agent.
    pub fn from_headers(
        proto: Option<&[u8]>,
        fallback_version: String,
        tls: Option<&[u8]>,
        user_agent: Option<&[u8]>,
    ) -> (r: Http)
        ensures
            r.version@ == header_or(header_view(proto), fallback_version@),
            r.tls@ == spec_tls_version(header_view(tls)),
            user_agent is None ==> r.user_agent is None,
            user_agent matches Some(v) ==> (r.user_agent matches Some(s) && s@ == header_str(
                v@,
            )),
    {
        Http::new(text_or(proto, fallback_version), tls_version(tls), user_agent_of(user_agent))
    }
}

/// A header value whose bytes are all printable ASCII (space through `~`) or
/// tabs reads as exactly those bytes, one character each; a value with any
/// other byte reads as the empty text.
pub proof fn lemma_header_text_bytes(value: Seq<u8>)
    ensures
        (forall|i: int| 0 <= i < value.len() ==> (0x20 <= #[trigger] value[i] <= 0x7e || value[i]
            == 0x09)) ==> {
            &&& header_str(value).len() == value.len()
            &&& forall|i: int| 0 <= i < value.len() ==> #[trigger] header_str(value)[i] == value[i] as char
        },
        (exists|i: int| 0 <= i < value.len() && !(0x20 <= #[trigger] value[i] <= 0x7e || value[i]
            == 0x09)) ==> header_str(value) == Seq::<char>::empty(),
{
    if exists|i: int| 0 <= i < value.len() && !(0x20 <= #[trigger] value[i] <= 0x7e || value[i] == 0x09) {
        let i = choose|i: int| 0 <= i < value.len() && !(0x20 <= #[trigger] value[i] <= 0x7e || value[i] == 0x09);
        assert(!is_visible_ascii(value[i]));
    }
}

/// The proxy's address header is the client's address exactly where its
/// bytes are printable ASCII or tabs (as every IPv4 and IPv6 text is); the
/// connection's address is used only when the header is absent.
pub proof fn lemma_extract_ip_keeps_header(value: Seq<u8>, fallback: Seq<char>)
    ensures
        (forall|i: int| 0 <= i < value.len() ==> (0x20 <= #[trigger] value[i] <= 0x7e || value[i]
            == 0x09)) ==> header_or(Some(value), fallback) == value.map_values(|b: u8| b as char),
        header_or(None, fallback) == fallback,
{
    lemma_header_text_bytes(value);
    if forall|i: int| 0 <= i < value.len() ==> (0x20 <= #[trigger] value[i] <= 0x7e || value[i] == 0x09) {
        assert(header_str(value) =~= value.map_values(|b: u8| b as char));
    }
}

/// A client is taken for a command-line tool exactly when it sends a user
/// agent that begins with `curl/`, `Wget/` or `HTTPie/`.
pub proof fn lemma_automated_clients(ua: Seq<char>)
    ensures
        !spec_is_automated(None),
        spec_is_automated(Some(ua)) == (ua.take(5) == "curl/"@ && ua.len() >= 5
            || ua.take(5) == "Wget/"@ && ua.len() >= 5 || ua.take(7) == "HTTPie/"@ && ua.len()
            >= 7),
{
    reveal_strlit("curl/");
    reveal_strlit("Wget/");
    reveal_strlit("HTTPie/");
}

/// The TLS version shown is `unknown` when the header is absent or holds the
/// proxy's unfilled placeholder, and the header's text otherwise.
pub proof fn lemma_tls_version_text(value: Seq<u8>)
    ensures
        spec_tls_version(None) == UNKNOWN@,
        header_str(value) == TLS_PLACEHOLDER@ ==> spec_tls_version(Some(value)) == UNKNOWN@,
        header_str(value) != TLS_PLACEHOLDER@ ==> spec_tls_version(Some(value)) == header_str(
            value,
        ),
{
    reveal_strlit("unknown");
    reveal_strlit("{http.request.tls.version}");
}

} // verus!
