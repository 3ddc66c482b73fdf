//! Paging of listings: page, page size and offset, as a request states them.
use vstd::prelude::*;

use crate::codec::{parse_i64, parse_i64_spec};

verus! {

/// A number as a request may carry it: text or integer.
#[derive(Debug, Clone)]
pub enum JsonNum {
    S(String),
    I(i64),
    U(u64),
}

#[derive(Debug, Clone, Copy, PartialEq, Eq, Structural, Default)]
pub enum SortDirection {
    #[default]
    Asc,
    Desc,
}

/// Paging parameters of a listing request; each may be absent.
#[derive(Debug, Clone, Default)]
pub struct Paging {
    pub page: Option<JsonNum>,
    pub limit: Option<JsonNum>,
    pub offset: Option<JsonNum>,
}

/// One page of a listing.
#[derive(Debug, Clone, Default)]
pub struct PaginatedResult<T> {
    pub page: i64,
    pub limit: i64,
    pub total: i64,
    pub data: Vec<T>,
}

/// The value of a paging parameter: an integer as it is, text read as a
/// decimal integer (1 where it is not one), `fallback` where the parameter
/// is absent or an unsigned integer.
pub open spec fn num_or(n: Option<JsonNum>, fallback: i64) -> i64 {
    match n {
        Some(JsonNum::I(i)) => i,
        Some(JsonNum::S(s)) => match parse_i64_spec(s@) {
            Some(v) => v,
            None => 1,
        },
        _ => fallback,
    }
}

pub open spec fn page_spec(p: Paging) -> i64 {
    num_or(p.page, 1)
}

pub open spec fn limit_spec(p: Paging) -> i64 {
    num_or(p.limit, 100)
}

/// `v` held to the range of `i64`.
pub open spec fn clamp_i64(v: int) -> i64 {
    if v > i64::MAX {
        i64::MAX
    } else if v < i64::MIN {
        i64::MIN
    } else {
        v as i64
    }
}

pub open spec fn abs_int(v: int) -> int {
    if v < 0 {
        -v
    } else {
        v
    }
}

/// The offset: as given, else the rows of the pages before the requested
/// one (page 0 and page 1 both start at row 0), held to the range of `i64`.
pub open spec fn offset_spec(p: Paging) -> i64 {
    match p.offset {
        Some(JsonNum::I(i)) => i,
        Some(JsonNum::S(s)) => match parse_i64_spec(s@) {
            Some(v) => v,
            None => 1,
        },
        _ => {
            let page = page_spec(p) as int;
            let before = if page == 0 {
                0
            } else {
                abs_int(page - 1)
            };
            clamp_i64(limit_spec(p) as int * before)
        },
    }
}

fn num_or_default(n: &Option<JsonNum>, fallback: i64) -> (r: i64)
    ensures
        r == num_or(*n, fallback),
{
    match n {
        Some(JsonNum::I(i)) => *i,
        Some(JsonNum::S(s)) => match parse_i64(s.as_str()) {
            Some(v) => v,
            None => 1,
        },
        _ => fallback,
    }
}

impl Paging {
    /// The requested page; 1 when absent.
    pub fn page(&self) -> (r: i64)
        ensures
            r == page_spec(*self),
    {
        num_or_default(&self.page, 1)
    }

    /// The page size; 100 when absent.
    pub fn limit(&self) -> (r: i64)
        ensures
            r == limit_spec(*self),
    {
        num_or_default(&self.limit, 100)
    }

    /// The number of rows to skip.
    pub fn offset(&self) -> (r: i64)
        ensures
            r == offset_spec(*self),
    {
        match &self.offset {
            Some(JsonNum::I(i)) => *i,
            Some(JsonNum::S(s)) => match parse_i64(s.as_str()) {
                Some(v) => v,
                None => 1,
            },
            _ => {
                let page = self.page() as i128;
                let before: i128 = if page == 0 {
                    0
                } else if page - 1 < 0 {
                    1 - page
                } else {
                    page - 1
                };
                let limit = self.limit() as i128;
                assert(-0x4000_0000_0000_0000_8000_0000_0000_0000 <= limit * before <= 0x4000_0000_0000_0000_8000_0000_0000_0000) by (nonlinear_arith)
                    requires
                        -0x8000_0000_0000_0000 <= limit <= 0x7fff_ffff_ffff_ffff,
                        0 <= before <= 0x8000_0000_0000_0001,
                ;
                let rows = limit * before;
                if rows > i64::MAX as i128 {
                    i64::MAX
                } else if rows < i64::MIN as i128 {
                    i64::MIN
                } else {
                    rows as i64
                }
            },
        }
    }
}

/// A page of `data` for the request's paging, with `total` rows in all
/// (0 where unknown).
pub fn paginated_result<T>(data: Vec<T>, total: Option<i64>, paging: &Paging) -> (r: PaginatedResult<T>)
    ensures
        r.page == page_spec(*paging),
        r.limit == limit_spec(*paging),
        r.total == match total {
            Some(t) => t,
            None => 0,
        },
        r.data@ == data@,
{
    PaginatedResult {
        page: paging.page(),
        limit: paging.limit(),
        total: match total {
            Some(t) => t,
            None => 0,
        },
        data,
    }
}

} // verus!
