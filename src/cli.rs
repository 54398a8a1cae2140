//! Command-line settings: the subcommands, and how to reach the network.
use vstd::prelude::*;
use crate::text::{join, push_joined, push_str, string_from_chars};

verus! {

/// What the program does when a subcommand is given; without one it opens the dashboard.
pub enum Subcommands {
    /// Sends an empty write followed by a delete for a key expression.
    Clean { keyexpr: String, dry_run: bool },
    /// Prints the events on the key expressions, as text or as JSON lines.
    Log { keyexpr: Vec<String>, json: bool },
    /// Waits for the first written value and prints its payload.
    ReadOne { keyexpr: Vec<String>, pretty: bool },
    /// Publishes one value.
    Publish { keyexpr: String, payload: Option<String> },
}

pub struct Cli {
    pub subcommands: Option<Subcommands>,
    /// Key expressions to watch.
    pub keyexpr: Vec<String>,
    /// Payloads are kept up to this many bytes.
    pub payload_size_limit: usize,
    pub zenoh_connection: ZenohConnection,
}

/// How to reach the network.
pub struct ZenohConnection {
    /// Endpoints to connect to.
    pub peer: Vec<String>,
    /// Endpoints to listen on.
    pub listen: Vec<String>,
    pub mode: SessionMode,
}

#[derive(Clone, Copy, Debug, PartialEq, Eq, Structural)]
pub enum SessionMode {
    Client,
    Peer,
    Router,
}

pub open spec fn mode_name(mode: SessionMode) -> Seq<char> {
    match mode {
        SessionMode::Client => seq!['c', 'l', 'i', 'e', 'n', 't'],
        SessionMode::Peer => seq!['p', 'e', 'e', 'r'],
        SessionMode::Router => seq!['r', 'o', 'u', 't', 'e', 'r'],
    }
}

impl SessionMode {
    pub fn as_str(self) -> (r: &'static str)
        ensures
            r@ == mode_name(self),
    {
        proof {
            reveal_strlit("client");
            reveal_strlit("peer");
            reveal_strlit("router");
        }
        match self {
            SessionMode::Client => "client",
            SessionMode::Peer => "peer",
            SessionMode::Router => "router",
        }
    }
}

/// `name=` followed by the endpoints joined by commas, after a space; nothing
/// when there are no endpoints.
pub open spec fn endpoint_part(name: Seq<char>, endpoints: Seq<Seq<char>>) -> Seq<char> {
    if endpoints.len() == 0 {
        Seq::empty()
    } else {
        seq![' '] + name + seq!['='] + join(endpoints, seq![','])
    }
}

pub open spec fn describe_text(c: &ZenohConnection) -> Seq<char> {
    seq!['m', 'o', 'd', 'e', '='] + mode_name(c.mode)
        + endpoint_part(seq!['p', 'e', 'e', 'r'], c.peer@.map_values(|s: String| s@))
        + endpoint_part(seq!['l', 'i', 's', 't', 'e', 'n'], c.listen@.map_values(|s: String| s@))
}

impl ZenohConnection {
    /// A one-line summary such as `mode=client peer=tcp/10.0.0.1:7447`.
    pub fn describe(&self) -> (r: String)
        ensures
            r@ == describe_text(self),
    {
        proof {
            reveal_strlit("mode=");
            reveal_strlit(" peer=");
            reveal_strlit(" listen=");
            reveal_strlit(",");
            assert(" peer="@ =~= seq![' '] + seq!['p', 'e', 'e', 'r'] + seq!['=']);
            assert(" listen="@ =~= seq![' '] + seq!['l', 'i', 's', 't', 'e', 'n'] + seq!['=']);
            assert(","@ =~= seq![',']);
            assert("mode="@ =~= seq!['m', 'o', 'd', 'e', '=']);
        }
        let mut out: Vec<char> = Vec::new();
        push_str(&mut out, "mode=");
        push_str(&mut out, self.mode.as_str());
        let ghost a = out@;
        if self.peer.len() > 0 {
            push_str(&mut out, " peer=");
            push_joined(&mut out, &self.peer, ",");
        }
        assert(out@ =~= a + endpoint_part(seq!['p', 'e', 'e', 'r'], self.peer@.map_values(|s: String| s@)));
        let ghost b = out@;
        if self.listen.len() > 0 {
            push_str(&mut out, " listen=");
            push_joined(&mut out, &self.listen, ",");
        }
        assert(out@ =~= b + endpoint_part(seq!['l', 'i', 's', 't', 'e', 'n'], self.listen@.map_values(|s: String| s@)));
        assert(out@ =~= describe_text(self));
        string_from_chars(&out)
    }
}

/// A string in double quotes.
pub open spec fn quoted(s: Seq<char>) -> Seq<char> {
    seq!['"'] + s + seq!['"']
}

/// A JSON5 list of the strings, each quoted, separated by `, `.
pub open spec fn quoted_list(items: Seq<Seq<char>>) -> Seq<char> {
    seq!['['] + join(items.map_values(|e: Seq<char>| quoted(e)), seq![',', ' ']) + seq![']']
}

/// Writes `items` as a JSON5 list of strings.
pub fn quoted_list_exec(items: &Vec<String>) -> (r: String)
    ensures
        r@ == quoted_list(items@.map_values(|s: String| s@)),
{
    proof {
        reveal_strlit(", ");
        assert(", "@ =~= seq![',', ' ']);
    }
    let ghost ps = items@.map_values(|s: String| s@).map_values(|e: Seq<char>| quoted(e));
    let mut out: Vec<char> = Vec::new();
    out.push('[');
    let mut i: usize = 0;
    while i < items.len()
        invariant
            i <= items@.len(),
            ps == items@.map_values(|s: String| s@).map_values(|e: Seq<char>| quoted(e)),
            out@ == seq!['['] + join(ps.subrange(0, i as int), seq![',', ' ']),
        decreases items@.len() - i,
    {
        let ghost before = out@;
        proof {
            reveal_strlit(", ");
            assert(", "@ =~= seq![',', ' ']);
        }
        if i > 0 {
            push_str(&mut out, ", ");
        }
        let ghost mid = out@;
        out.push('"');
        push_str(&mut out, items[i].as_str());
        out.push('"');
        assert(ps.subrange(0, i + 1 as int).drop_last() =~= ps.subrange(0, i as int));
        assert(ps[i as int] =~= seq!['"'] + items@[i as int]@ + seq!['"']);
        assert(out@ =~= mid + ps[i as int]);
        if i == 0 {
            assert(join(ps.subrange(0, 1), seq![',', ' ']) == ps[0]);
            assert(out@ =~= seq!['['] + join(ps.subrange(0, 1), seq![',', ' ']));
        } else {
            assert(ps.subrange(0, i + 1 as int).last() == ps[i as int]);
            assert(join(ps.subrange(0, i + 1 as int), seq![',', ' ']) == join(ps.subrange(0, i as int), seq![',', ' ']) + seq![',', ' '] + ps[i as int]);
            assert(out@ =~= seq!['['] + join(ps.subrange(0, i + 1 as int), seq![',', ' ']));
        }
        i = i + 1;
    }
    assert(ps.subrange(0, i as int) =~= ps);
    out.push(']');
    string_from_chars(&out)
}

/// The endpoint a session connects to when none is given.
pub const DEFAULT_ENDPOINT: &'static str = "tcp/127.0.0.1:7447";

/// The settings a session is opened with, as keys and JSON5 values, in the
/// order they are applied: the mode; the endpoints to connect to and those to
/// listen on, where given; the default endpoint when neither is.
pub open spec fn config_entries(c: &ZenohConnection) -> Seq<(Seq<char>, Seq<char>)> {
    let peer = c.peer@.map_values(|s: String| s@);
    let listen = c.listen@.map_values(|s: String| s@);
    seq![("mode"@, quoted(mode_name(c.mode)))]
        + (if peer.len() > 0 { seq![("connect/endpoints"@, quoted_list(peer))] } else { Seq::empty() })
        + (if listen.len() > 0 { seq![("listen/endpoints"@, quoted_list(listen))] } else { Seq::empty() })
        + (if peer.len() == 0 && listen.len() == 0 {
            seq![("connect/endpoints"@, quoted_list(seq![DEFAULT_ENDPOINT@]))]
        } else {
            Seq::empty()
        })
}

pub open spec fn entries_view(v: Seq<(String, String)>) -> Seq<(Seq<char>, Seq<char>)> {
    v.map_values(|e: (String, String)| (e.0@, e.1@))
}

fn push_entry(v: &mut Vec<(String, String)>, key: &str, value: String)
    ensures
        entries_view(final(v)@) == entries_view(old(v)@).push((key@, value@)),
{
    let ghost value_view = value@;
    v.push((key.to_owned(), value));
    assert(entries_view(v@) =~= entries_view(old(v)@).push((key@, value_view)));
}

impl ZenohConnection {
    /// The settings to open a session with; see `config_entries`.
    pub fn config_entries(&self) -> (r: Vec<(String, String)>)
        ensures
            entries_view(r@) == config_entries(self),
    {
        let mut r: Vec<(String, String)> = Vec::new();
        let mut mode: Vec<char> = Vec::new();
        mode.push('"');
        push_str(&mut mode, self.mode.as_str());
        mode.push('"');
        let mode = string_from_chars(&mode);
        assert(mode@ =~= quoted(mode_name(self.mode)));
        push_entry(&mut r, "mode", mode);
        let ghost a = entries_view(r@);
        if self.peer.len() > 0 {
            push_entry(&mut r, "connect/endpoints", quoted_list_exec(&self.peer));
        }
        let ghost b = entries_view(r@);
        if self.listen.len() > 0 {
            push_entry(&mut r, "listen/endpoints", quoted_list_exec(&self.listen));
        }
        let ghost c = entries_view(r@);
        if self.peer.len() == 0 && self.listen.len() == 0 {
            let mut d: Vec<String> = Vec::new();
            d.push(DEFAULT_ENDPOINT.to_owned());
            assert(d@.map_values(|s: String| s@) =~= seq![DEFAULT_ENDPOINT@]);
            push_entry(&mut r, "connect/endpoints", quoted_list_exec(&d));
        }
        assert(entries_view(r@) =~= config_entries(self));
        r
    }
}

/// What is known of the open session, for display.
pub struct SessionInfo {
    pub description: String,
}

} // verus!
