use vstd::prelude::*;
use vstd::string::*;

verus! {

// ---------------------------------------------------------------------------
// Signaling exchange, the decision half.
//
// One offer/answer round trip is performed over HTTP: POST the offer, follow
// any 3xx response that carries a Location header by re-issuing the same POST
// (same headers, same body) to the new URL, accept exactly 201 Created, and
// treat every other outcome as fatal. The POSTing itself is I/O and lives
// outside the library; these functions fix the headers of the request and the
// verdict on each response.
// ---------------------------------------------------------------------------

/// The redirect-hop bound: signaling gives up rather than follow more.
pub const MAX_REDIRECT_HOPS: u8 = 8;

/// One HTTP header.
#[derive(Debug)]
pub struct Header {
    pub name: String,
    pub value: String,
}

/// Header list as character sequences, for contracts.
pub open spec fn headers_view(hs: Seq<Header>) -> Seq<(Seq<char>, Seq<char>)> {
    hs.map(|i: int, h: Header| (h.name@, h.value@))
}

pub open spec fn token_view(token: Option<String>) -> Option<Seq<char>> {
    match token {
        Some(t) => Some(t@),
        None => None,
    }
}

/// The headers of every signaling POST: an Authorization bearer header when a
/// token is present, then the SDP content type, accept, and user agent.
pub open spec fn whip_headers_spec(token: Option<Seq<char>>) -> Seq<(Seq<char>, Seq<char>)> {
    let base = seq![
        ("Content-Type"@, "application/sdp"@),
        ("Accept"@, "application/sdp"@),
        ("User-Agent"@, "bitwhip"@),
    ];
    match token {
        Some(t) => seq![("Authorization"@, "Bearer "@ + t)] + base,
        None => base,
    }
}

/// Build the signaling request headers.
pub fn build_whip_headers(token: &Option<String>) -> (r: Vec<Header>)
    ensures
        headers_view(r@) =~= whip_headers_spec(token_view(*token)),
{
    let mut r: Vec<Header> = Vec::new();
    match token {
        Some(t) => {
            let mut value = String::from_str("Bearer ");
            value.append(t.as_str());
            r.push(Header { name: String::from_str("Authorization"), value });
        },
        None => {},
    }
    r.push(
        Header {
            name: String::from_str("Content-Type"),
            value: String::from_str("application/sdp"),
        },
    );
    r.push(
        Header { name: String::from_str("Accept"), value: String::from_str("application/sdp") },
    );
    r.push(Header { name: String::from_str("User-Agent"), value: String::from_str("bitwhip") });
    r
}

/// What to do with one signaling response.
#[derive(Debug)]
pub enum SignalVerdict {
    /// A redirect: re-issue the identical POST to this URL.
    Follow(String),
    /// 201 Created: the body is the answer.
    Accept,
    /// Anything else is fatal; carries the status.
    Reject(u16),
}

/// Classify one signaling response: any 3xx carrying a Location is followed,
/// exactly 201 succeeds, and everything else — a 3xx without Location
/// included — is fatal with its status.
pub fn classify_response(status: u16, location: Option<String>) -> (r: SignalVerdict)
    ensures
        300 <= status <= 399 && location is Some ==> r is Follow && r->Follow_0@
            == location->Some_0@,
        status == 201 ==> r is Accept,
        !(300 <= status <= 399 && location is Some) && status != 201 ==> r == SignalVerdict::Reject(
            status,
        ),
{
    if 300 <= status && status <= 399 {
        match location {
            Some(url) => SignalVerdict::Follow(url),
            None => SignalVerdict::Reject(status),
        }
    } else if status == 201 {
        SignalVerdict::Accept
    } else {
        SignalVerdict::Reject(status)
    }
}

/// The server-side signaling response to an accepted offer.
#[derive(Debug)]
pub struct HttpResponse {
    pub status: u16,
    pub location: String,
    pub body: Vec<u8>,
}

/// An accepted offer is answered `201 Created` with `Location: /` and the
/// answer SDP as body.
pub fn build_server_response(answer: Vec<u8>) -> (r: HttpResponse)
    ensures
        r.status == 201,
        r.location@ == "/"@,
        r.body@ == answer@,
{
    HttpResponse { status: 201, location: String::from_str("/"), body: answer }
}

} // verus!
