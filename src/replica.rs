use vstd::prelude::*;

use url::{Host, Url};

verus! {

/// The target of a poll replica.
#[derive(Debug)]
pub enum ReplicaURL {
    ICMP(String),
    TCP(String, u16),
    HTTP(String),
    HTTPS(String),
}

/// What a replica target is read from once its text parses as a URL.
pub struct UrlParts {
    pub scheme: String,
    /// The host; an IPv6 address is written without brackets.
    pub host: Option<String>,
    /// The port, when the text gives one other than the scheme's default.
    pub port: Option<u16>,
    /// The path, as written in the serialised URL.
    pub path: String,
    /// The URL written back out.
    pub text: String,
}

pub open spec fn opt_text(s: Option<String>) -> Option<Seq<char>> {
    match s {
        Some(t) => Some(t@),
        None => None,
    }
}

/// The parts of the URL that `raw` parses as: scheme, host, port, path and
/// the serialised URL; `None` when it does not parse.
pub uninterp spec fn url_parts_of(raw: Seq<char>) -> Option<(Seq<char>, Option<Seq<char>>, Option<u16>, Seq<char>, Seq<char>)>;

/// A path made of segments: one that starts with `/`.
pub open spec fn has_segments(path: Seq<char>) -> bool {
    path.len() > 0 && path[0] == '/'
}

/// Relies on url::Url::parse, and on the accessors of the parsed URL to
/// hand its parts out as plain values.
#[verifier::external_body]
fn parse_url(raw: &str) -> (r: Option<UrlParts>)
    ensures
        match r {
            Some(p) => url_parts_of(raw@) == Some((p.scheme@, opt_text(p.host), p.port, p.path@, p.text@)),
            None => url_parts_of(raw@) is None,
        },
{
    match Url::parse(raw) {
        Ok(u) => {
            let host = match u.host() {
                Some(Host::Domain(d)) => Some(d.to_string()),
                Some(Host::Ipv4(a)) => Some(a.to_string()),
                Some(Host::Ipv6(a)) => Some(a.to_string()),
                None => None,
            };
            let (scheme, port, path) = (u.scheme().to_string(), u.port(), u.path().to_string());
            Some(UrlParts { scheme, host, port, path, text: u.into() })
        },
        Err(_) => None,
    }
}

/// Whether parsed URL parts make a replica target: `icmp://host`,
/// `tcp://host:port` (neither with a path), or any `http` or `https` URL.
pub open spec fn target_accepted(p: Option<(Seq<char>, Option<Seq<char>>, Option<u16>, Seq<char>, Seq<char>)>) -> bool {
    match p {
        Some(t) => (t.0 == "icmp"@ && t.1 is Some && t.2 is None && !has_segments(t.3))
            || (t.0 == "tcp"@ && t.1 is Some && t.2 is Some && !has_segments(t.3))
            || t.0 == "http"@ || t.0 == "https"@,
        None => false,
    }
}

/// `u` is the target that `raw` gives.
pub open spec fn target_of(raw: Seq<char>, u: ReplicaURL) -> bool {
    let p = url_parts_of(raw);
    match u {
        ReplicaURL::ICMP(h) => p matches Some(t) && t.0 == "icmp"@ && t.1 == Some(h@) && t.2 is None && !has_segments(t.3),
        ReplicaURL::TCP(h, port) => p matches Some(t) && t.0 == "tcp"@ && t.1 == Some(h@) && t.2 == Some(port) && !has_segments(t.3),
        ReplicaURL::HTTP(s) => p matches Some(t) && t.0 == "http"@ && s@ == t.4,
        ReplicaURL::HTTPS(s) => p matches Some(t) && t.0 == "https"@ && s@ == t.4,
    }
}

/// Whether two strings hold the same characters.
pub fn str_eq(a: &str, b: &str) -> (r: bool)
    ensures
        r == (a@ == b@),
{
    let n = a.unicode_len();
    if n != b.unicode_len() {
        return false;
    }
    let mut i: usize = 0;
    while i < n
        invariant
            i <= n,
            n == a@.len(),
            n == b@.len(),
            forall|k: int| 0 <= k < i ==> a@[k] == b@[k],
        decreases n - i,
    {
        if a.get_char(i) != b.get_char(i) {
            return false;
        }
        i = i + 1;
    }
    assert(a@ =~= b@);
    true
}

fn starts_with_slash(path: &str) -> (r: bool)
    ensures
        r == has_segments(path@),
{
    path.unicode_len() > 0 && path.get_char(0) == '/'
}

impl ReplicaURL {
    /// Reads a replica target from its configured text.
    pub fn parse_from(raw_url: &str) -> (r: Result<ReplicaURL, ()>)
        ensures
            r is Ok <==> target_accepted(url_parts_of(raw_url@)),
            r matches Ok(u) ==> target_of(raw_url@, u),
    {
        proof {
            reveal_strlit("icmp");
            reveal_strlit("tcp");
            reveal_strlit("http");
            reveal_strlit("https");
            assert("icmp"@[0] != "http"@[0] && "icmp"@[0] != "https"@[0] && "icmp"@.len() != "tcp"@.len());
            assert("tcp"@.len() != "http"@.len() && "tcp"@[0] != "https"@[0]);
            assert("http"@.len() != "https"@.len());
        }
        match parse_url(raw_url) {
            None => Err(()),
            Some(p) => {
                let scheme = p.scheme.as_str();
                let segmented = starts_with_slash(p.path.as_str());
                if str_eq(scheme, "icmp") {
                    match (p.host, p.port, segmented) {
                        (Some(host), None, false) => Ok(ReplicaURL::ICMP(host)),
                        _ => Err(()),
                    }
                } else if str_eq(scheme, "tcp") {
                    match (p.host, p.port, segmented) {
                        (Some(host), Some(port), false) => Ok(ReplicaURL::TCP(host, port)),
                        _ => Err(()),
                    }
                } else if str_eq(scheme, "http") {
                    Ok(ReplicaURL::HTTP(p.text))
                } else if str_eq(scheme, "https") {
                    Ok(ReplicaURL::HTTPS(p.text))
                } else {
                    Err(())
                }
            },
        }
    }

    /// A copy of this target.
    pub fn duplicate(&self) -> (r: ReplicaURL)
        ensures
            r == *self,
    {
        match self {
            ReplicaURL::ICMP(host) => ReplicaURL::ICMP(host.clone()),
            ReplicaURL::TCP(host, port) => ReplicaURL::TCP(host.clone(), *port),
            ReplicaURL::HTTP(url) => ReplicaURL::HTTP(url.clone()),
            ReplicaURL::HTTPS(url) => ReplicaURL::HTTPS(url.clone()),
        }
    }
}

} // verus!
