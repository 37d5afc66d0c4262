//! Byte-range semantics of the asset streaming endpoint.
//!
//! A request may carry a header of the form `bytes=<start>-<end>` or
//! `bytes=<start>-`. The endpoint answers with the full buffer, an
//! inclusive slice of it ("partial content"), or "range not satisfiable",
//! exactly as `range_request_spec` says.

use vstd::prelude::*;
use vstd::slice::{slice_subrange, slice_to_vec};

use crate::errors::VaultError;
use crate::strutil::{find_dash, first_dash, lemma_first_dash_bounds, parse_u64, parse_u64_spec,
    str_matches_at};
use vstd::string::StrSliceExecFns;

verus! {

/// The status of a streaming response.
#[derive(Debug, Clone, Copy, PartialEq, Eq, Structural)]
pub enum HttpStatus {
    /// The whole asset is returned.
    Okay,
    /// An inclusive byte slice of the asset is returned.
    PartialContent,
    /// The requested range lies outside the asset.
    RangeNotSatisfiable,
    /// No asset with the requested id exists.
    NotFound,
    /// The vault is locked.
    Forbidden,
    /// Reading or decrypting the blob failed.
    InternalServerError,
}

impl HttpStatus {
    /// The numeric status code.
    pub open spec fn code_spec(self) -> u16 {
        match self {
            HttpStatus::Okay => 200,
            HttpStatus::PartialContent => 206,
            HttpStatus::RangeNotSatisfiable => 416,
            HttpStatus::NotFound => 404,
            HttpStatus::Forbidden => 403,
            HttpStatus::InternalServerError => 500,
        }
    }

    /// The numeric status code.
    pub fn code(&self) -> (r: u16)
        ensures
            r == self.code_spec(),
    {
        match self {
            HttpStatus::Okay => 200,
            HttpStatus::PartialContent => 206,
            HttpStatus::RangeNotSatisfiable => 416,
            HttpStatus::NotFound => 404,
            HttpStatus::Forbidden => 403,
            HttpStatus::InternalServerError => 500,
        }
    }
}

/// The status a failed asset lookup or load is reported with.
pub fn status_for_error(e: &VaultError) -> (r: HttpStatus)
    ensures
        e == VaultError::VaultLocked ==> r == HttpStatus::Forbidden,
        e == VaultError::NotFound ==> r == HttpStatus::NotFound,
        !(e == VaultError::VaultLocked || e == VaultError::NotFound) ==> r
            == HttpStatus::InternalServerError,
{
    match e {
        VaultError::VaultLocked => HttpStatus::Forbidden,
        VaultError::NotFound => HttpStatus::NotFound,
        _ => HttpStatus::InternalServerError,
    }
}

/// The `Content-Range` header of a response, kept structured.
#[derive(Debug, Clone, Copy, PartialEq, Eq, Structural)]
pub enum ContentRange {
    /// `bytes <start>-<end>/<total>`.
    Span { start: u64, end: u64, total: u64 },
    /// `bytes */<total>`: no satisfiable range.
    Unbound { total: u64 },
}

/// How a request's range header applies to an asset of a given length.
#[derive(Debug, Clone, Copy, PartialEq, Eq, Structural)]
pub enum RangeDecision {
    /// No range header: the whole asset is returned.
    Full,
    /// The inclusive byte slice `[start, end]` is returned.
    Partial { start: u64, end: u64 },
    /// The range lies outside the asset.
    Unsatisfiable,
}

/// The parsed value of a range bound, zero when it does not parse.
pub open spec fn parse_or_zero(s: Seq<char>) -> u64 {
    match parse_u64_spec(s) {
        Some(v) => v,
        None => 0,
    }
}

/// How the text after `bytes=` applies to an asset of `total` bytes:
/// the start bound is the first dash-separated field (zero when it does
/// not parse), the end bound the second (the last byte of the asset when
/// absent, empty or unparsable). A start past the end bound or past the
/// asset is unsatisfiable; otherwise the end bound is clamped to the
/// asset's last byte.
pub open spec fn range_decision_of(r: Seq<char>, total: nat) -> RangeDecision {
    let fd = first_dash(r);
    let start = parse_or_zero(r.take(fd)) as int;
    let end: int = if fd < r.len() {
        let rest = r.skip(fd + 1);
        let seg1 = rest.take(first_dash(rest));
        if seg1.len() > 0 {
            match parse_u64_spec(seg1) {
                Some(v) => v as int,
                None => total - 1,
            }
        } else {
            total - 1
        }
    } else {
        total - 1
    };
    if start <= end && start < total {
        RangeDecision::Partial {
            start: start as u64,
            end: (if end <= total - 1 {
                end
            } else {
                total - 1
            }) as u64,
        }
    } else {
        RangeDecision::Unsatisfiable
    }
}

/// The view of an optional header value.
pub open spec fn opt_str_view(h: Option<&str>) -> Option<Seq<char>> {
    match h {
        Some(s) => Some(s@),
        None => None,
    }
}

/// How a request's optional range header applies to an asset of `total`
/// bytes: a missing header, or one not of the form `bytes=...`, asks for
/// the whole asset.
pub open spec fn range_request_spec(header: Option<Seq<char>>, total: nat) -> RangeDecision {
    match header {
        Some(h) => if h.len() >= 6 && h.subrange(0, 6) == "bytes="@ {
            range_decision_of(h.skip(6), total)
        } else {
            RangeDecision::Full
        },
        None => RangeDecision::Full,
    }
}

/// A partial decision always lies inside the asset.
pub proof fn lemma_partial_in_bounds(header: Option<Seq<char>>, total: nat)
    requires
        total <= u64::MAX,
    ensures
        match range_request_spec(header, total) {
            RangeDecision::Partial { start, end } => start <= end < total,
            _ => true,
        },
{
}

/// Evaluate an optional range header against an asset of `total_len` bytes.
pub fn evaluate_range(header: Option<&str>, total_len: u64) -> (r: RangeDecision)
    ensures
        r == range_request_spec(opt_str_view(header), total_len as nat),
{
    let h = match header {
        Some(h) => h,
        None => {
            return RangeDecision::Full;
        },
    };
    let hn = h.unicode_len();
    proof {
        reveal_strlit("bytes=");
    }
    if hn < 6 {
        return RangeDecision::Full;
    }
    if !str_matches_at(h, 0, "bytes=") {
        return RangeDecision::Full;
    }
    let rs = h.substring_char(6, hn);
    proof {
        assert(rs@ =~= h@.skip(6));
        lemma_first_dash_bounds(rs@);
    }
    let rsn = rs.unicode_len();
    let fd = find_dash(rs);
    let seg0 = rs.substring_char(0, fd);
    proof {
        assert(seg0@ =~= rs@.take(fd as int));
    }
    let start: u64 = match parse_u64(seg0) {
        Some(v) => v,
        None => 0,
    };
    let explicit_end: Option<u64> = if fd < rsn {
        let rest = rs.substring_char(fd + 1, rsn);
        proof {
            assert(rest@ =~= rs@.skip(fd + 1));
            lemma_first_dash_bounds(rest@);
        }
        let fd2 = find_dash(rest);
        let seg1 = rest.substring_char(0, fd2);
        proof {
            assert(seg1@ =~= rest@.take(fd2 as int));
        }
        if seg1.unicode_len() > 0 {
            parse_u64(seg1)
        } else {
            None
        }
    } else {
        None
    };
    match explicit_end {
        Some(e) => {
            if start <= e && start < total_len {
                let cap = total_len - 1;
                RangeDecision::Partial {
                    start,
                    end: if e < cap {
                        e
                    } else {
                        cap
                    },
                }
            } else {
                RangeDecision::Unsatisfiable
            }
        },
        None => {
            if start < total_len {
                RangeDecision::Partial { start, end: total_len - 1 }
            } else {
                RangeDecision::Unsatisfiable
            }
        },
    }
}

/// A response of the streaming endpoint: a status, a body, and the
/// headers the endpoint sets, kept structured.
#[derive(Debug, Clone)]
pub struct AssetResponse {
    /// Response status.
    pub status: HttpStatus,
    /// Response body: the whole asset, a slice of it, or empty.
    pub body: Vec<u8>,
    /// `Content-Type`, absent on an unsatisfiable range.
    pub mime_type: Option<String>,
    /// `Content-Range`, present on partial and unsatisfiable responses.
    pub content_range: Option<ContentRange>,
    /// `Content-Length`, set explicitly only on partial responses.
    pub content_length: Option<u64>,
    /// Whether `Accept-Ranges: bytes` is set.
    pub accept_ranges: bool,
}

/// What `apply_range` returns for a buffer, a mime type and a header.
pub open spec fn apply_range_ensures(
    r: AssetResponse,
    data: Seq<u8>,
    mime_type: Seq<char>,
    header: Option<Seq<char>>,
) -> bool {
    match range_request_spec(header, data.len()) {
        RangeDecision::Full => {
            &&& r.status == HttpStatus::Okay
            &&& r.body@ == data
            &&& r.mime_type matches Some(m) && m@ == mime_type
            &&& r.content_range is None
            &&& r.content_length is None
            &&& r.accept_ranges
        },
        RangeDecision::Partial { start, end } => {
            &&& r.status == HttpStatus::PartialContent
            &&& r.body@ == data.subrange(start as int, end + 1)
            &&& r.mime_type matches Some(m) && m@ == mime_type
            &&& r.content_range == Some(
                ContentRange::Span { start, end, total: data.len() as u64 },
            )
            &&& r.content_length == Some((end + 1 - start) as u64)
            &&& r.accept_ranges
        },
        RangeDecision::Unsatisfiable => {
            &&& r.status == HttpStatus::RangeNotSatisfiable
            &&& r.body@.len() == 0
            &&& r.mime_type is None
            &&& r.content_range == Some(ContentRange::Unbound { total: data.len() as u64 })
            &&& r.content_length is None
            &&& !r.accept_ranges
        },
    }
}

/// Answer a request for `data` under an optional range header: the whole
/// buffer, the requested inclusive slice, or "range not satisfiable".
pub fn apply_range(data: Vec<u8>, mime_type: String, range_header: Option<&str>) -> (r:
    AssetResponse)
    ensures
        apply_range_ensures(r, data@, mime_type@, opt_str_view(range_header)),
{
    let total_len: u64 = data.len() as u64;
    let decision = evaluate_range(range_header, total_len);
    proof {
        lemma_partial_in_bounds(opt_str_view(range_header), data@.len());
    }
    match decision {
        RangeDecision::Full => AssetResponse {
            status: HttpStatus::Okay,
            body: data,
            mime_type: Some(mime_type),
            content_range: None,
            content_length: None,
            accept_ranges: true,
        },
        RangeDecision::Partial { start, end } => {
            let chunk = slice_to_vec(
                slice_subrange(data.as_slice(), start as usize, (end + 1) as usize),
            );
            AssetResponse {
                status: HttpStatus::PartialContent,
                body: chunk,
                mime_type: Some(mime_type),
                content_range: Some(ContentRange::Span { start, end, total: total_len }),
                content_length: Some(end + 1 - start),
                accept_ranges: true,
            }
        },
        RangeDecision::Unsatisfiable => AssetResponse {
            status: HttpStatus::RangeNotSatisfiable,
            body: Vec::new(),
            mime_type: None,
            content_range: Some(ContentRange::Unbound { total: total_len }),
            content_length: None,
            accept_ranges: false,
        },
    }
}

} // verus!
