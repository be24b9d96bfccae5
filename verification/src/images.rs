//! Image-proxy request building.
//!
//! The instance proxies image uploads, views and deletions to its image
//! server.  The transport work is the process edge's; what is decided here
//! is the exact URL each request goes to, and which inbound headers are
//! not forwarded.

use vstd::prelude::*;

verus! {

/// Why an image request cannot be served.
#[derive(Clone, Copy, Debug, PartialEq, Eq, Structural)]
pub enum ImagesError {
    /// No image server is configured.
    ImagesDisabled,
}

/// The image server's base URL, or the error an image request is answered
/// with when image hosting is not configured.
pub fn pictrs_url(configured: Option<String>) -> (r: Result<String, ImagesError>)
    ensures
        match r {
            Ok(u) => configured matches Some(s) && u@ == s@,
            Err(e) => configured is None && e == ImagesError::ImagesDisabled,
        },
{
    match configured {
        Some(u) => Ok(u),
        None => Err(ImagesError::ImagesDisabled),
    }
}

/// The URL an upload is forwarded to.
pub fn image_upload_url(base: &str) -> (r: String)
    ensures
        r@ == base@ + "/image"@,
{
    let mut u = base.to_owned();
    u.append("/image");
    u
}

/// The URL that serves one image at full resolution, in its stored format.
pub fn image_original_url(base: &str, name: &str) -> (r: String)
    ensures
        r@ == base@ + "/image/original/"@ + name@,
{
    let mut u = base.to_owned();
    u.append("/image/original/");
    u.append(name);
    u
}

/// The URL a view request is forwarded to.  Without query parameters the
/// original is served; otherwise the image is processed into the requested
/// format — `jpg` when none is given — and thumbnail size.
pub open spec fn full_res_url_spec(
    base: Seq<char>,
    name: Seq<char>,
    format: Option<String>,
    thumbnail: Option<String>,
) -> Seq<char> {
    if format is None && thumbnail is None {
        base + "/image/original/"@ + name
    } else {
        let f = match format {
            Some(f) => f@,
            None => "jpg"@,
        };
        let u = base + "/image/process."@ + f + "?src="@ + name;
        match thumbnail {
            Some(t) => u + "&thumbnail="@ + t@,
            None => u,
        }
    }
}

/// Builds the view URL; exactly [`full_res_url_spec`].
pub fn full_res_url(base: &str, name: &str, format: Option<String>, thumbnail: Option<String>) -> (r:
    String)
    ensures
        r@ == full_res_url_spec(base@, name@, format, thumbnail),
{
    if format.is_none() && thumbnail.is_none() {
        image_original_url(base, name)
    } else {
        let mut u = base.to_owned();
        u.append("/image/process.");
        match &format {
            Some(f) => u.append(f.as_str()),
            None => u.append("jpg"),
        }
        u.append("?src=");
        u.append(name);
        match &thumbnail {
            Some(t) => {
                u.append("&thumbnail=");
                u.append(t.as_str());
            },
            None => {},
        }
        u
    }
}

/// The URL a deletion is forwarded to.
pub fn image_delete_url(base: &str, token: &str, file: &str) -> (r: String)
    ensures
        r@ == base@ + "/image/delete/"@ + token@ + "/"@ + file@,
{
    let mut u = base.to_owned();
    u.append("/image/delete/");
    u.append(token);
    u.append("/");
    u.append(file);
    u
}

/// Header names that are stripped before a request is forwarded to the
/// image server, so the response is not compressed and the upstream host
/// is not leaked; names are compared as the transport normalizes them,
/// lower-case.
pub open spec fn hop_header(name: Seq<char>) -> bool {
    name == "accept-encoding"@ || name == "host"@
}

/// The headers that are forwarded: every one whose name is not stripped,
/// in their original order.
pub open spec fn strip_spec(hs: Seq<(String, String)>) -> Seq<(String, String)>
    decreases hs.len(),
{
    if hs.len() == 0 {
        Seq::empty()
    } else {
        let rest = strip_spec(hs.drop_last());
        if hop_header(hs.last().0@) {
            rest
        } else {
            rest.push(hs.last())
        }
    }
}

/// Drops the headers that must not reach the image server.
pub fn strip_hop_headers(headers: Vec<(String, String)>) -> (r: Vec<(String, String)>)
    ensures
        r@ == strip_spec(headers@),
{
    let accept_encoding = "accept-encoding".to_owned();
    let host = "host".to_owned();
    let mut r: Vec<(String, String)> = Vec::new();
    let n = headers.len();
    let mut i: usize = 0;
    while i < n
        invariant
            n == headers@.len(),
            i <= n,
            accept_encoding@ == "accept-encoding"@,
            host@ == "host"@,
            r@ == strip_spec(headers@.take(i as int)),
        decreases n - i,
    {
        let keep = !(headers[i].0 == accept_encoding || headers[i].0 == host);
        if keep {
            let h0 = headers[i].0.clone();
            let h1 = headers[i].1.clone();
            proof {
                assert((h0, h1) == headers@[i as int]);
            }
            r.push((h0, h1));
        }
        proof {
            let pre = headers@.take(i as int);
            let now = headers@.take(i + 1 as int);
            assert(now.drop_last() =~= pre);
            assert(now.last() == headers@[i as int]);
        }
        i += 1;
    }
    proof {
        assert(headers@.take(n as int) =~= headers@);
    }
    r
}

/// How the image server's answer to a view request is relayed to the
/// client.
#[derive(Clone, Copy, Debug, PartialEq, Eq, Structural)]
pub enum RelayAction {
    /// A missing image is answered with a bare not-found status; nothing
    /// of the upstream response is mirrored.
    NotFoundOnly,
    /// Any other answer is mirrored: its status, its headers (less the
    /// hop-by-hop ones) and its body.
    Mirror,
}

/// Decides from the image server's status code how its answer is relayed.
pub fn relay_action(status: u16) -> (r: RelayAction)
    ensures
        r == (if status == 404 {
            RelayAction::NotFoundOnly
        } else {
            RelayAction::Mirror
        }),
{
    if status == 404 {
        RelayAction::NotFoundOnly
    } else {
        RelayAction::Mirror
    }
}

/// The one response header that is not mirrored back to the client when a
/// fetched image is served: the connection-management header, which is
/// meaningful only hop by hop.
pub open spec fn response_hop_header(name: Seq<char>) -> bool {
    name == "connection"@
}

/// The response headers that are mirrored: every one whose name is not
/// hop-by-hop, in their original order.
pub open spec fn response_strip_spec(hs: Seq<(String, String)>) -> Seq<(String, String)>
    decreases hs.len(),
{
    if hs.len() == 0 {
        Seq::empty()
    } else {
        let rest = response_strip_spec(hs.drop_last());
        if response_hop_header(hs.last().0@) {
            rest
        } else {
            rest.push(hs.last())
        }
    }
}

/// Drops the headers of an image server's response that must not be
/// mirrored back to the client.
pub fn strip_response_headers(headers: Vec<(String, String)>) -> (r: Vec<(String, String)>)
    ensures
        r@ == response_strip_spec(headers@),
{
    let connection = "connection".to_owned();
    let mut r: Vec<(String, String)> = Vec::new();
    let n = headers.len();
    let mut i: usize = 0;
    while i < n
        invariant
            n == headers@.len(),
            i <= n,
            connection@ == "connection"@,
            r@ == response_strip_spec(headers@.take(i as int)),
        decreases n - i,
    {
        let keep = !(headers[i].0 == connection);
        if keep {
            let h0 = headers[i].0.clone();
            let h1 = headers[i].1.clone();
            proof {
                assert((h0, h1) == headers@[i as int]);
            }
            r.push((h0, h1));
        }
        proof {
            let pre = headers@.take(i as int);
            let now = headers@.take(i + 1 as int);
            assert(now.drop_last() =~= pre);
            assert(now.last() == headers@[i as int]);
        }
        i += 1;
    }
    proof {
        assert(headers@.take(n as int) =~= headers@);
    }
    r
}

} // verus!
