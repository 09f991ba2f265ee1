//! What the response and request fairings decide: cache lifetimes of static
//! assets, gzip compression of bodies, and which parts of an API request are
//! logged.
use std::io::Write;
use vstd::prelude::*;

use crate::guards::bearer_key;
use crate::text::{opt_str_view, opt_string_view, parse_i32, starts_with, str_eq, str_parse_i32};

verus! {

/// Sets cache lifetimes on static assets.
pub struct CacheControlFairing;

/// The kinds of response body whose caching is decided.
#[derive(Clone, Copy, Debug, PartialEq, Eq, Structural)]
pub enum AssetKind {
    Woff2,
    JavaScript,
    Css,
    Other,
}

/// The `Cache-Control` value for a kind of response, if one is set: a year
/// for web fonts, ten minutes for scripts and style sheets.
pub open spec fn cache_policy(kind: AssetKind) -> Option<Seq<char>> {
    match kind {
        AssetKind::Woff2 => Some("max-age=31536000, public"@),
        AssetKind::JavaScript => Some("max-age=600, public"@),
        AssetKind::Css => Some("max-age=600, public"@),
        AssetKind::Other => None,
    }
}

impl CacheControlFairing {
    /// The `Cache-Control` header value to set on a response of this kind.
    pub fn cache_control(&self, kind: AssetKind) -> (r: Option<&'static str>)
        ensures
            match r {
                Some(v) => cache_policy(kind) == Some(v@),
                None => cache_policy(kind) is None,
            },
    {
        match kind {
            AssetKind::Woff2 => Some("max-age=31536000, public"),
            AssetKind::JavaScript => Some("max-age=600, public"),
            AssetKind::Css => Some("max-age=600, public"),
            AssetKind::Other => None,
        }
    }
}

/// Compresses response bodies with gzip.
pub struct Gzip;

/// The gzip stream that flate2's default encoder writes for `data`.
pub uninterp spec fn gzip_stream(data: Seq<u8>) -> Seq<u8>;

/// The fixed header of flate2's default gzip stream: magic, deflate, no
/// flags, no time stamp, default level, unknown system.
pub open spec fn gzip_header() -> Seq<u8> {
    seq![0x1fu8, 0x8bu8, 8u8, 0u8, 0u8, 0u8, 0u8, 0u8, 0u8, 255u8]
}

/// Compresses `data` with `flate2::write::GzEncoder` at the default level
/// (`new`, `write_all`, `finish`). The stream is named `gzip_stream(data)`; as
/// flate2's source shows, it begins with the fixed default header and ends
/// with the 8-byte CRC and length trailer. Writing into a `Vec` cannot fail.
#[verifier::external_body]
fn gzip_encode(data: &[u8]) -> (r: Vec<u8>)
    ensures
        r@ == gzip_stream(data@),
        r@.len() >= 18,
        r@.subrange(0, 10) == gzip_header(),
{
    let mut encoder = flate2::write::GzEncoder::new(Vec::new(), flate2::Compression::default());
    match encoder.write_all(data) {
        Ok(()) => {},
        Err(_) => {},
    }
    match encoder.finish() {
        Ok(v) => v,
        Err(_) => Vec::new(),
    }
}

/// A compressed response: its new body and the header announcing it.
#[derive(Debug)]
pub struct Compressed {
    pub body: Vec<u8>,
    pub header: (String, String),
}

impl Gzip {
    /// The compressed form of a response body, with `Content-Encoding: gzip`.
    pub fn compress(&self, body: &Vec<u8>) -> (r: Compressed)
        ensures
            r.body@ == gzip_stream(body@),
            r.header.0@ == "Content-Encoding"@,
            r.header.1@ == "gzip"@,
    {
        let compressed = gzip_encode(body.as_slice());
        Compressed {
            body: compressed,
            header: (String::from_str("Content-Encoding"), String::from_str("gzip")),
        }
    }
}

/// Logs API requests and responses.
pub struct ApiLogFairing;

/// What an API request's log records before its key is looked up.
#[derive(Debug)]
pub struct RequestLogPlan {
    /// The API key the request presents.
    pub token: String,
    /// The request's headers but `Authorization`, in order.
    pub headers: Vec<(String, String)>,
    pub content_type: Option<String>,
    pub content_length: Option<i32>,
}

/// The headers that are not `Authorization`, in order.
pub open spec fn loggable_headers(h: Seq<(Seq<char>, Seq<char>)>) -> Seq<(Seq<char>, Seq<char>)>
    decreases h.len(),
{
    if h.len() == 0 {
        seq![]
    } else {
        let rest = loggable_headers(h.drop_last());
        if h.last().0 == "Authorization"@ {
            rest
        } else {
            rest.push(h.last())
        }
    }
}

/// A declared length that is a decimal `i32`.
pub open spec fn declared_length(v: Option<Seq<char>>) -> Option<i32> {
    match v {
        Some(s) => parse_i32(s),
        None => None,
    }
}

/// The length a `Content-Length` header declares, when it is a decimal `i32`.
pub fn content_length_of(header: Option<&str>) -> (r: Option<i32>)
    ensures
        r == declared_length(opt_str_view(header)),
{
    match header {
        Some(s) => str_parse_i32(s),
        None => None,
    }
}

impl ApiLogFairing {
    /// What to log of a request: only requests with a bearer `Authorization`
    /// are logged, with the key it carries, every other header, the content
    /// type and the declared length.
    pub fn plan_request_log(
        &self,
        authorization: Option<&str>,
        headers: &Vec<(String, String)>,
        content_type: Option<&str>,
        content_length: Option<&str>,
    ) -> (r: Option<RequestLogPlan>)
        ensures
            match authorization {
                Some(a) => if starts_with(a@, "Bearer "@) {
                    r matches Some(p) && p.token@ == bearer_key(a@) && crate::meltdown::entries_view(p.headers@)
                        == loggable_headers(crate::meltdown::entries_view(headers@)) && opt_str_view(content_type)
                        == opt_string_view(p.content_type) && p.content_length == declared_length(
                        opt_str_view(content_length),
                    )
                } else {
                    r is None
                },
                None => r is None,
            },
    {
        let a = match authorization {
            Some(a) => a,
            None => {
                return None;
            },
        };
        if !crate::text::str_starts_with(a, "Bearer ") {
            return None;
        }
        let key = crate::guards::bearer_token(a);
        let mut kept: Vec<(String, String)> = Vec::new();
        let mut i: usize = 0;
        while i < headers.len()
            invariant
                i <= headers@.len(),
                crate::meltdown::entries_view(kept@) == loggable_headers(
                    crate::meltdown::entries_view(headers@.subrange(0, i as int)),
                ),
            decreases headers@.len() - i,
        {
            proof {
                let s = crate::meltdown::entries_view(headers@.subrange(0, i + 1));
                assert(s.drop_last() =~= crate::meltdown::entries_view(headers@.subrange(0, i as int)));
                assert(s.last() == (headers@[i as int].0@, headers@[i as int].1@));
            }
            if !str_eq(headers[i].0.as_str(), "Authorization") {
                let ghost before = crate::meltdown::entries_view(kept@);
                kept.push((headers[i].0.clone(), headers[i].1.clone()));
                assert(crate::meltdown::entries_view(kept@) =~= before.push(
                    (headers@[i as int].0@, headers@[i as int].1@),
                ));
            }
            i = i + 1;
        }
        assert(headers@.subrange(0, headers@.len() as int) =~= headers@);
        let ct = match content_type {
            Some(c) => Some(String::from_str(c)),
            None => None,
        };
        Some(RequestLogPlan { token: key, headers: kept, content_type: ct, content_length: content_length_of(content_length) })
    }
}

} // verus!
