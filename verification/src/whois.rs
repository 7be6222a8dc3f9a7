//! The whois protocol: which server to ask, what to send it, how to read its
//! reply, and when to follow a referral. The network exchange itself is left
//! to the caller, which hands each reply back as its lines.
use vstd::prelude::*;

use crate::ip::{known_or_unknown, opt_view, or_unknown, UNKNOWN};
use crate::text::{chars_of, remove_all, remove_all_from, starts_with, trim, trim_from, occurs_at};

verus! {

/// The registry server that names the whois server of every address.
pub const WHOIS_SERVER: &'static str = "whois.iana.org";

/// The whois TCP port.
pub const WHOIS_PORT: u16 = 43;

/// The registry whose server wants its queries prefixed by `n `.
pub const ARIN_SERVER: &'static str = "whois.arin.net";

/// The network block and the organisation that holds an address.
#[derive(Debug, Clone)]
pub struct Whois {
    pub cidr: String,
    pub org: String,
}

impl Default for Whois {
    fn default() -> (r: Self)
        ensures
            r.cidr@ == UNKNOWN@,
            r.org@ == UNKNOWN@,
    {
        Whois { cidr: String::from_str(UNKNOWN), org: String::from_str(UNKNOWN) }
    }
}

impl Whois {
    /// A copy of this record.
    pub fn duplicate(&self) -> (r: Whois)
        ensures
            r == *self,
    {
        Whois { cidr: self.cidr.clone(), org: self.org.clone() }
    }
}

/// The characters of each line.
pub open spec fn line_views(lines: Seq<String>) -> Seq<Seq<char>> {
    lines.map_values(|l: String| l@)
}

/// The trimmed text after `prefix`, where `line` starts with it.
pub open spec fn field_after(line: Seq<char>, prefix: Seq<char>) -> Option<Seq<char>> {
    if starts_with(line, prefix) {
        Some(trim(line.skip(prefix.len() as int)))
    } else {
        None
    }
}

/// The whois server that a registry line names (`whois:`).
pub open spec fn server_of(line: Seq<char>) -> Option<Seq<char>> {
    field_after(line, "whois:"@)
}

/// The network block that a line names: ARIN's `CIDR:`, RIPE's `route:` and `route6:`.
pub open spec fn cidr_of(line: Seq<char>) -> Option<Seq<char>> {
    if starts_with(line, "CIDR:"@) {
        field_after(line, "CIDR:"@)
    } else if starts_with(line, "route:"@) {
        field_after(line, "route:"@)
    } else {
        field_after(line, "route6:"@)
    }
}

/// The organisation that a line names: ARIN's `Organization:`, RIPE's `netname:`.
pub open spec fn org_of(line: Seq<char>) -> Option<Seq<char>> {
    if starts_with(line, "Organization:"@) {
        field_after(line, "Organization:"@)
    } else {
        field_after(line, "netname:"@)
    }
}

/// The server that a referral line (`ReferralServer:`) points to, without its
/// `whois://` scheme.
pub open spec fn referral_of(line: Seq<char>) -> Option<Seq<char>> {
    match field_after(line, "ReferralServer:"@) {
        Some(v) => Some(remove_all(v, "whois://"@)),
        None => None,
    }
}

/// The fields that whois replies are read for.
pub enum Field {
    Server,
    Cidr,
    Org,
    Referral,
}

/// The value of `field` that `line` gives, if it gives one.
pub open spec fn field_of(field: Field, line: Seq<char>) -> Option<Seq<char>> {
    match field {
        Field::Server => server_of(line),
        Field::Cidr => cidr_of(line),
        Field::Org => org_of(line),
        Field::Referral => referral_of(line),
    }
}

/// The value of `f` on the first line that gives one.
pub open spec fn first_value(lines: Seq<Seq<char>>, f: Field) -> Option<Seq<char>>
    decreases lines.len(),
{
    if lines.len() == 0 {
        None
    } else {
        match field_of(f, lines[0]) {
            Some(v) => Some(v),
            None => first_value(lines.drop_first(), f),
        }
    }
}

/// The value of `f` on the last line that gives one.
pub open spec fn last_value(lines: Seq<Seq<char>>, f: Field) -> Option<Seq<char>>
    decreases lines.len(),
{
    if lines.len() == 0 {
        None
    } else {
        match field_of(f, lines.last()) {
            Some(v) => Some(v),
            None => last_value(lines.drop_last(), f),
        }
    }
}

/// The whois server named by the registry's reply.
pub open spec fn spec_whois_server(lines: Seq<Seq<char>>) -> Option<Seq<char>> {
    first_value(lines, Field::Server)
}

/// What is sent to `server` to ask about the address `addr`: ARIN wants
/// `n ` before the address to return the network address space.
pub open spec fn spec_whois_query(server: Seq<char>, addr: Seq<char>) -> Seq<char> {
    if server == ARIN_SERVER@ {
        "n "@ + addr + "\n"@
    } else {
        addr + "\n"@
    }
}

/// The network block named by a reply, or `UNKNOWN`.
pub open spec fn spec_reply_cidr(lines: Seq<Seq<char>>) -> Seq<char> {
    known_or_unknown(last_value(lines, Field::Cidr))
}

/// The organisation named by a reply, or `UNKNOWN`.
pub open spec fn spec_reply_org(lines: Seq<Seq<char>>) -> Seq<char> {
    known_or_unknown(last_value(lines, Field::Org))
}

/// The server a reply refers the query on to, if any.
pub open spec fn spec_reply_referral(lines: Seq<Seq<char>>) -> Option<Seq<char>> {
    last_value(lines, Field::Referral)
}

/// What a whois server's reply says.
#[derive(Debug)]
pub struct WhoisReply {
    pub cidr: String,
    pub org: String,
    pub referral: Option<String>,
}

/// The trimmed text after `prefix`, where `line` starts with it.
fn field_value(line: &Vec<char>, prefix: &Vec<char>) -> (r: Option<String>)
    ensures
        opt_view(r) == field_after(line@, prefix@),
{
    if occurs_at(line, prefix, 0) {
        assert(line@.skip(0) =~= line@);
        Some(trim_from(line, prefix.len()))
    } else {
        assert(line@.skip(0) =~= line@);
        None
    }
}

/// The whois server named in the registry's reply: the trimmed text after
/// `whois:` on the first line that starts with it.
pub fn find_whois_server(lines: &Vec<String>) -> (r: Option<String>)
    ensures
        opt_view(r) == spec_whois_server(line_views(lines@)),
{
    let ghost all = line_views(lines@);
    let prefix = chars_of("whois:");
    assert(all.skip(0) =~= all);
    let mut i: usize = 0;
    while i < lines.len()
        invariant
            i <= lines.len(),
            all == line_views(lines@),
            prefix@ == "whois:"@,
            first_value(all, Field::Server) == first_value(all.skip(i as int), Field::Server),
        decreases lines.len() - i,
    {
        let line = chars_of(lines[i].as_str());
        let v = field_value(&line, &prefix);
        assert(all.skip(i as int)[0] == line@);
        assert(all.skip(i as int).drop_first() =~= all.skip(i + 1));
        if v.is_some() {
            return v;
        }
        i = i + 1;
    }
    assert(all.skip(i as int) =~= Seq::<Seq<char>>::empty());
    None
}

/// What is sent to `server` to ask about the address text `addr`.
pub fn whois_query(server: &String, addr: &String) -> (q: String)
    ensures
        q@ == spec_whois_query(server@, addr@),
{
    let arin = String::from_str(ARIN_SERVER);
    if *server == arin {
        String::from_str("n ").concat(addr.as_str()).concat("\n")
    } else {
        addr.clone().concat("\n")
    }
}

/// The network block named by one line, if it names one.
fn line_cidr(line: &Vec<char>, cidr: &Vec<char>, route: &Vec<char>, route6: &Vec<char>) -> (r: Option<String>)
    requires
        cidr@ == "CIDR:"@,
        route@ == "route:"@,
        route6@ == "route6:"@,
    ensures
        opt_view(r) == cidr_of(line@),
{
    assert(line@.skip(0) =~= line@);
    if occurs_at(line, cidr, 0) {
        field_value(line, cidr)
    } else if occurs_at(line, route, 0) {
        field_value(line, route)
    } else {
        field_value(line, route6)
    }
}

/// The organisation named by one line, if it names one.
fn line_org(line: &Vec<char>, organization: &Vec<char>, netname: &Vec<char>) -> (r: Option<String>)
    requires
        organization@ == "Organization:"@,
        netname@ == "netname:"@,
    ensures
        opt_view(r) == org_of(line@),
{
    assert(line@.skip(0) =~= line@);
    if occurs_at(line, organization, 0) {
        field_value(line, organization)
    } else {
        field_value(line, netname)
    }
}

/// The referral server named by one line, if it names one.
fn line_referral(line: &Vec<char>, referral: &Vec<char>, scheme: &Vec<char>) -> (r: Option<String>)
    requires
        referral@ == "ReferralServer:"@,
        scheme@ == "whois://"@,
    ensures
        opt_view(r) == referral_of(line@),
{
    match field_value(line, referral) {
        Some(v) => {
            proof {
                reveal_strlit("whois://");
            }
            let chars = chars_of(v.as_str());
            assert(chars@.skip(0) =~= chars@);
            Some(remove_all_from(&chars, 0, scheme))
        },
        None => None,
    }
}

/// Keeps the later of two readings of a field.
fn later(current: Option<String>, found: Option<String>) -> (r: Option<String>)
    ensures
        r == (if found is Some { found } else { current }),
{
    if found.is_some() {
        found
    } else {
        current
    }
}

proof fn lemma_last_value_step(lines: Seq<Seq<char>>, i: int, f: Field)
    requires
        0 <= i < lines.len(),
    ensures
        last_value(lines.take(i + 1), f) == (match field_of(f, lines[i]) {
            Some(v) => Some(v),
            None => last_value(lines.take(i), f),
        }),
{
    assert(lines.take(i + 1).drop_last() =~= lines.take(i));
    assert(lines.take(i + 1).last() == lines[i]);
}

/// Reads a whois server's reply: the last network block (`CIDR:`, `route:`,
/// `route6:`), the last organisation (`Organization:`, `netname:`) and the
/// last referral (`ReferralServer:`, without `whois://`), each trimmed.
pub fn parse_whois_reply(lines: &Vec<String>) -> (r: WhoisReply)
    ensures
        r.cidr@ == spec_reply_cidr(line_views(lines@)),
        r.org@ == spec_reply_org(line_views(lines@)),
        opt_view(r.referral) == spec_reply_referral(line_views(lines@)),
{
    let ghost all = line_views(lines@);
    let p_cidr = chars_of("CIDR:");
    let p_route = chars_of("route:");
    let p_route6 = chars_of("route6:");
    let p_org = chars_of("Organization:");
    let p_netname = chars_of("netname:");
    let p_referral = chars_of("ReferralServer:");
    let scheme = chars_of("whois://");
    let mut cidr: Option<String> = None;
    let mut org: Option<String> = None;
    let mut referral: Option<String> = None;
    let mut i: usize = 0;
    while i < lines.len()
        invariant
            i <= lines.len(),
            all == line_views(lines@),
            p_cidr@ == "CIDR:"@,
            p_route@ == "route:"@,
            p_route6@ == "route6:"@,
            p_org@ == "Organization:"@,
            p_netname@ == "netname:"@,
            p_referral@ == "ReferralServer:"@,
            scheme@ == "whois://"@,
            opt_view(cidr) == last_value(all.take(i as int), Field::Cidr),
            opt_view(org) == last_value(all.take(i as int), Field::Org),
            opt_view(referral) == last_value(all.take(i as int), Field::Referral),
        decreases lines.len() - i,
    {
        let line = chars_of(lines[i].as_str());
        assert(all[i as int] == line@);
        proof {
            lemma_last_value_step(all, i as int, Field::Cidr);
            lemma_last_value_step(all, i as int, Field::Org);
            lemma_last_value_step(all, i as int, Field::Referral);
        }
        let c = line_cidr(&line, &p_cidr, &p_route, &p_route6);
        assert(opt_view(c) == field_of(Field::Cidr, all[i as int]));
        cidr = later(cidr, c);
        let o = line_org(&line, &p_org, &p_netname);
        assert(opt_view(o) == field_of(Field::Org, all[i as int]));
        org = later(org, o);
        let r = line_referral(&line, &p_referral, &scheme);
        assert(opt_view(r) == field_of(Field::Referral, all[i as int]));
        referral = later(referral, r);
        i = i + 1;
    }
    assert(all.take(i as int) =~= all);
    WhoisReply { cidr: or_unknown(cidr), org: or_unknown(org), referral }
}

/// Why a whois lookup gave no record.
#[derive(Debug, Clone, PartialEq, Eq)]
pub enum WhoisError {
    /// A server could not be reached or its reply could not be read; the
    /// text says why.
    Connection(String),
    /// The registry named no whois server for the address (its text).
    NoWhoisServer(String),
}

/// The message that reports an error.
pub open spec fn spec_error_message(error: WhoisError) -> Seq<char> {
    match error {
        WhoisError::Connection(reason) => reason@,
        WhoisError::NoWhoisServer(addr) => "No whois server found for IP "@ + addr@,
    }
}

impl WhoisError {
    /// The message that reports the error: the reason a connection failed,
    /// or "No whois server found for IP " and the address.
    pub fn message(&self) -> (s: String)
        ensures
            s@ == spec_error_message(*self),
    {
        match self {
            WhoisError::Connection(reason) => reason.clone(),
            WhoisError::NoWhoisServer(addr) => String::from_str("No whois server found for IP ").concat(
                addr.as_str(),
            ),
        }
    }
}

/// Who a lookup is waiting to hear from.
#[derive(Debug, Clone, Copy, PartialEq, Eq)]
pub enum WhoisPhase {
    /// The registry (`WHOIS_SERVER`), which names the address's whois server.
    Registry,
    /// A whois server, which answers with the record or a referral.
    Server,
}

/// What came back from the last request.
#[derive(Debug)]
pub enum WhoisEvent {
    /// The lines of the reply.
    Reply(Vec<String>),
    /// The server could not be reached or read, for the reason given.
    Failed(String),
}

/// What the caller is to do next.
#[derive(Debug)]
pub enum WhoisAction {
    /// Send `query` to `server` on `WHOIS_PORT` and report the reply.
    Ask { server: String, query: String },
    /// The lookup is over.
    Finish(Result<Whois, WhoisError>),
}

/// A whois lookup in progress: first the registry is asked which server holds
/// the address, then that server, following its referrals.
#[derive(Debug)]
pub struct WhoisLookup {
    /// The address text, as sent in queries.
    pub addr: String,
    pub phase: WhoisPhase,
}

/// The action asks `server` for `addr` with the matching query.
pub open spec fn asks(action: WhoisAction, server: Seq<char>, addr: Seq<char>) -> bool {
    &&& action matches WhoisAction::Ask { server: s, query: q }
    &&& s@ == server
    &&& q@ == spec_whois_query(server, addr)
}

impl WhoisLookup {
    /// Starts a lookup of the address text `addr`: the first action asks the
    /// registry, with the address and a newline.
    pub fn new(addr: String) -> (r: (WhoisLookup, WhoisAction))
        ensures
            r.0.addr == addr,
            r.0.phase == WhoisPhase::Registry,
            (r.1 matches WhoisAction::Ask { server, query } && server@ == WHOIS_SERVER@
                && query@ == addr@ + "\n"@),
    {
        let query = addr.clone().concat("\n");
        let server = String::from_str(WHOIS_SERVER);
        (WhoisLookup { addr, phase: WhoisPhase::Registry }, WhoisAction::Ask { server, query })
    }

    /// Takes in what came back from the last request and says what to do next.
    /// A failure ends the lookup with `Connection` and its reason. The
    /// registry's reply names the server to ask next, or ends the lookup with
    /// `NoWhoisServer` and the address. A
    /// server's reply that refers elsewhere sends the query on to the referral
    /// server; one that does not ends the lookup with the record it gives.
    pub fn step(&mut self, event: WhoisEvent) -> (action: WhoisAction)
        ensures
            final(self).addr == old(self).addr,
            event matches WhoisEvent::Failed(reason) ==> (action matches WhoisAction::Finish(
                Err(WhoisError::Connection(r)),
            ) && r == reason && final(self).phase == old(self).phase),
            event matches WhoisEvent::Reply(lines) ==> {
                let ls = line_views(lines@);
                let addr = old(self).addr@;
                match old(self).phase {
                    WhoisPhase::Registry => match spec_whois_server(ls) {
                        Some(server) => asks(action, server, addr) && final(self).phase
                            == WhoisPhase::Server,
                        None => (action matches WhoisAction::Finish(
                            Err(WhoisError::NoWhoisServer(a)),
                        ) && a@ == addr && final(self).phase == WhoisPhase::Registry),
                    },
                    WhoisPhase::Server => final(self).phase == WhoisPhase::Server && match spec_reply_referral(ls) {
                        Some(server) => asks(action, server, addr),
                        None => (action matches WhoisAction::Finish(Ok(w)) && w.cidr@
                            == spec_reply_cidr(ls) && w.org@ == spec_reply_org(ls)),
                    },
                }
            },
    {
        match event {
            WhoisEvent::Failed(reason) => WhoisAction::Finish(Err(WhoisError::Connection(reason))),
            WhoisEvent::Reply(lines) => match self.phase {
                WhoisPhase::Registry => match find_whois_server(&lines) {
                    Some(server) => {
                        let query = whois_query(&server, &self.addr);
                        self.phase = WhoisPhase::Server;
                        WhoisAction::Ask { server, query }
                    },
                    None => WhoisAction::Finish(Err(WhoisError::NoWhoisServer(self.addr.clone()))),
                },
                WhoisPhase::Server => {
                    let reply = parse_whois_reply(&lines);
                    match reply.referral {
                        Some(server) => {
                            let query = whois_query(&server, &self.addr);
                            WhoisAction::Ask { server, query }
                        },
                        None => WhoisAction::Finish(Ok(Whois { cidr: reply.cidr, org: reply.org })),
                    }
                },
            },
        }
    }
}

/// The query sent to a whois server is the address and a newline, with `n `
/// in front exactly when the server is `whois.arin.net`.
pub proof fn lemma_query_prefix_only_for_arin(server: Seq<char>, addr: Seq<char>)
    ensures
        server != "whois.arin.net"@ ==> spec_whois_query(server, addr) == addr + "\n"@,
        server == "whois.arin.net"@ ==> spec_whois_query(server, addr) == "n "@ + addr + "\n"@,
{
}

proof fn lemma_reveal_prefixes()
    ensures
        "CIDR:"@ == seq!['C', 'I', 'D', 'R', ':'],
        "route:"@ == seq!['r', 'o', 'u', 't', 'e', ':'],
        "route6:"@ == seq!['r', 'o', 'u', 't', 'e', '6', ':'],
        "Organization:"@ == seq!['O', 'r', 'g', 'a', 'n', 'i', 'z', 'a', 't', 'i', 'o', 'n', ':'],
        "netname:"@ == seq!['n', 'e', 't', 'n', 'a', 'm', 'e', ':'],
        "ReferralServer:"@.len() == 15,
        "whois:"@.len() == 6,
{
    reveal_strlit("CIDR:");
    reveal_strlit("route:");
    reveal_strlit("route6:");
    reveal_strlit("Organization:");
    reveal_strlit("netname:");
    reveal_strlit("ReferralServer:");
    reveal_strlit("whois:");
}

proof fn lemma_push_last(lines: Seq<Seq<char>>, line: Seq<char>, f: Field)
    ensures
        last_value(lines.push(line), f) == (match field_of(f, line) {
            Some(v) => Some(v),
            None => last_value(lines, f),
        }),
{
    assert(lines.push(line).drop_last() =~= lines);
    assert(lines.push(line).last() == line);
}

/// A reply's network block is the trimmed text after the prefix of its last
/// line that starts with `CIDR:`, `route:` or `route6:`; other lines do not
/// count, and a reply with no such line gives `unknown`.
pub proof fn lemma_reply_cidr_lines(lines: Seq<Seq<char>>, line: Seq<char>)
    ensures
        spec_reply_cidr(Seq::empty()) == UNKNOWN@,
        starts_with(line, "CIDR:"@) ==> spec_reply_cidr(lines.push(line)) == trim(line.skip(5)),
        starts_with(line, "route:"@) ==> spec_reply_cidr(lines.push(line)) == trim(line.skip(6)),
        starts_with(line, "route6:"@) ==> spec_reply_cidr(lines.push(line)) == trim(line.skip(7)),
        !starts_with(line, "CIDR:"@) && !starts_with(line, "route:"@) && !starts_with(
            line,
            "route6:"@,
        ) ==> spec_reply_cidr(lines.push(line)) == spec_reply_cidr(lines),
{
    lemma_reveal_prefixes();
    lemma_push_last(lines, line, Field::Cidr);
    if starts_with(line, "route:"@) {
        assert(line[0] == "route:"@[0]);
        assert(!starts_with(line, "CIDR:"@)) by {
            if starts_with(line, "CIDR:"@) {
                assert(line[0] == "CIDR:"@[0]);
            }
        }
    }
    if starts_with(line, "route6:"@) {
        assert(line[0] == "route6:"@[0]);
        assert(line[5] == "route6:"@[5]);
        assert(!starts_with(line, "CIDR:"@)) by {
            if starts_with(line, "CIDR:"@) {
                assert(line[0] == "CIDR:"@[0]);
            }
        }
        assert(!starts_with(line, "route:"@)) by {
            if starts_with(line, "route:"@) {
                assert(line[5] == "route:"@[5]);
            }
        }
    }
}

/// A reply's organisation is the trimmed text after the prefix of its last
/// line that starts with `Organization:` or `netname:`; other lines do not
/// count, and a reply with no such line gives `unknown`.
pub proof fn lemma_reply_org_lines(lines: Seq<Seq<char>>, line: Seq<char>)
    ensures
        spec_reply_org(Seq::empty()) == UNKNOWN@,
        starts_with(line, "Organization:"@) ==> spec_reply_org(lines.push(line)) == trim(
            line.skip(13),
        ),
        starts_with(line, "netname:"@) ==> spec_reply_org(lines.push(line)) == trim(line.skip(8)),
        !starts_with(line, "Organization:"@) && !starts_with(line, "netname:"@) ==> spec_reply_org(
            lines.push(line),
        ) == spec_reply_org(lines),
{
    lemma_reveal_prefixes();
    lemma_push_last(lines, line, Field::Org);
    if starts_with(line, "netname:"@) {
        assert(line[0] == "netname:"@[0]);
        assert(!starts_with(line, "Organization:"@)) by {
            if starts_with(line, "Organization:"@) {
                assert(line[0] == "Organization:"@[0]);
            }
        }
    }
}

/// A reply refers on to the server named by its last `ReferralServer:` line,
/// trimmed and without `whois://`; other lines do not count.
pub proof fn lemma_reply_referral_lines(lines: Seq<Seq<char>>, line: Seq<char>)
    ensures
        spec_reply_referral(Seq::empty()) is None,
        starts_with(line, "ReferralServer:"@) ==> spec_reply_referral(lines.push(line)) == Some(
            remove_all(trim(line.skip(15)), "whois://"@),
        ),
        !starts_with(line, "ReferralServer:"@) ==> spec_reply_referral(lines.push(line))
            == spec_reply_referral(lines),
{
    lemma_reveal_prefixes();
    lemma_push_last(lines, line, Field::Referral);
}

/// The registry's reply names the server of its first line that starts with
/// `whois:`, trimmed; other lines do not count, and a reply with no such line
/// names none.
pub proof fn lemma_registry_server_lines(line: Seq<char>, lines: Seq<Seq<char>>)
    ensures
        spec_whois_server(Seq::empty()) is None,
        starts_with(line, "whois:"@) ==> spec_whois_server(seq![line] + lines) == Some(
            trim(line.skip(6)),
        ),
        !starts_with(line, "whois:"@) ==> spec_whois_server(seq![line] + lines)
            == spec_whois_server(lines),
{
    lemma_reveal_prefixes();
    assert((seq![line] + lines).drop_first() =~= lines);
    assert((seq![line] + lines)[0] == line);
}

} // verus!
