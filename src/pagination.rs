//! Splitting a long list into pages.
use vstd::prelude::*;
use vstd::string::StringExecFns;

use crate::decimal::{dec, write_decimal};
use crate::util::{is_ceil_div, DivCeilPolyfill};

verus! {

/// Page sizes that a request may ask for: 1 to 100.
pub open spec fn valid_page_size(n: u32) -> bool {
    1 <= n && n < 101
}

/// The number of pages that `entries` entries fill at `size` per page; an
/// empty list still has one page.
pub open spec fn page_count(entries: int, size: int) -> int {
    let c = -((-entries) / size);
    if c < 1 {
        1
    } else {
        c
    }
}

/// The rounded-up quotient is `-((-a) / b)` for a positive `b`.
pub proof fn lemma_ceil_div_unique(a: int, b: int, c: int)
    requires
        b > 0,
        is_ceil_div(a, b, c),
    ensures
        c == -((-a) / b),
{
    vstd::arithmetic::div_mod::lemma_fundamental_div_mod(-a, b);
    let q = (-a) / b;
    let r = (-a) % b;
    assert(c == -q) by (nonlinear_arith)
        requires
            -a == b * q + r,
            0 <= r < b,
            (c - 1) * b < a,
            a <= c * b,
            b > 0,
    ;
}

/// The page and page size asked for by a request, before a default page size
/// is chosen.
#[derive(Debug, Clone, Copy)]
pub struct RawPagination {
    page: u32,
    page_size: Option<u32>,
}

impl RawPagination {
    #[verifier::type_invariant]
    spec fn inv(&self) -> bool {
        self.page_size matches Some(n) ==> valid_page_size(n)
    }

    pub closed spec fn spec_page(&self) -> u32 {
        self.page
    }

    pub closed spec fn spec_page_size(&self) -> Option<u32> {
        self.page_size
    }

    /// The pagination asked for by the query parameters `page` and
    /// `page_size`; the first page when none is given. A page size outside
    /// 1 to 100 is refused with a message for the user.
    pub fn from_query(page: Option<u32>, page_size: Option<u32>) -> (r: Result<RawPagination, String>)
        ensures
            r is Ok <==> (page_size matches Some(n) ==> valid_page_size(n)),
            r matches Ok(p) ==> p.spec_page() == (match page {
                Some(n) => n,
                None => 0,
            }) && p.spec_page_size() == page_size,
            r matches Err(m) ==> m@ == "Page size is out of range; valid range is 1..101"@,
    {
        match page_size {
            Some(n) => {
                if !(1 <= n && n < 101) {
                    return Err(String::from_str("Page size is out of range; valid range is 1..101"));
                }
            },
            None => {},
        }
        let page = match page {
            Some(n) => n,
            None => 0,
        };
        Ok(RawPagination { page, page_size })
    }

    /// The pagination with `default_page_size` where no page size was asked
    /// for.
    pub fn with_default_page_size(self, default_page_size: u32) -> (r: Pagination)
        requires
            valid_page_size(default_page_size),
        ensures
            r.spec_page() == self.spec_page(),
            r.spec_page_size() == match self.spec_page_size() {
                Some(n) => n,
                None => default_page_size,
            },
    {
        proof {
            use_type_invariant(&self);
        }
        Pagination {
            page: self.page,
            page_size: match self.page_size {
                Some(n) => n,
                None => default_page_size,
            },
        }
    }
}

/// A page of a list: the page number, counted from zero, and the number of
/// entries per page.
#[derive(Debug, Clone, Copy)]
pub struct Pagination {
    page: u32,
    page_size: u32,
}

impl Pagination {
    #[verifier::type_invariant]
    spec fn inv(&self) -> bool {
        valid_page_size(self.page_size)
    }

    pub closed spec fn spec_page(&self) -> u32 {
        self.page
    }

    pub closed spec fn spec_page_size(&self) -> u32 {
        self.page_size
    }

    /// The page number shown to people, counted from one.
    pub fn display_page(self) -> (r: i64)
        ensures
            r == self.spec_page() + 1,
    {
        self.page as i64 + 1
    }

    /// The number of entries on a page.
    pub fn limit(self) -> (r: i64)
        ensures
            r == self.spec_page_size(),
    {
        self.page_size as i64
    }

    /// The number of entries before this page.
    pub fn offset(self) -> (r: i64)
        ensures
            r == self.spec_page() * self.spec_page_size(),
    {
        proof {
            use_type_invariant(&self);
        }
        let page_size = self.page_size as i64;
        let page = self.page as i64;
        assert(page * page_size <= u32::MAX * 100) by (nonlinear_arith)
            requires
                0 <= page <= u32::MAX,
                0 <= page_size <= 100,
        ;
        page * page_size
    }

    /// The number of pages that `num_entries` entries fill.
    pub fn num_pages(self, num_entries: i64) -> (r: i64)
        ensures
            r == page_count(num_entries as int, self.spec_page_size() as int),
            r >= 1,
    {
        proof {
            use_type_invariant(&self);
        }
        let c = num_entries.div_ceil_p(self.limit());
        proof {
            lemma_ceil_div_unique(num_entries as int, self.page_size as int, c as int);
        }
        if c < 1 {
            1
        } else {
            c
        }
    }

    /// The page before this one: the last page when this one lies past the
    /// end of a non-empty list, none on the first page.
    pub fn prev(self, num_entries: i64) -> (r: Option<Pagination>)
        ensures
            r matches Some(p) ==> p.spec_page_size() == self.spec_page_size(),
            num_entries != 0 && self.spec_page() * self.spec_page_size() >= num_entries ==> (r matches Some(p)
                && p.spec_page() == (if page_count(num_entries as int, self.spec_page_size() as int)
                <= u32::MAX {
                page_count(num_entries as int, self.spec_page_size() as int) - 1
            } else {
                u32::MAX as int
            })),
            !(num_entries != 0 && self.spec_page() * self.spec_page_size() >= num_entries) ==> (
            if self.spec_page() == 0 {
                r is None
            } else {
                r matches Some(p) && p.spec_page() == self.spec_page() - 1
            }),
    {
        proof {
            use_type_invariant(&self);
        }
        if num_entries != 0 && self.offset() >= num_entries {
            let pages = self.num_pages(num_entries);
            let page = if pages <= u32::MAX as i64 {
                (pages - 1) as u32
            } else {
                u32::MAX
            };
            return Some(Pagination { page, page_size: self.page_size });
        }
        if self.page == 0 {
            None
        } else {
            Some(Pagination { page: self.page - 1, page_size: self.page_size })
        }
    }

    /// The page after this one, if it holds any of `num_entries` entries.
    pub fn next(self, num_entries: i64) -> (r: Option<Pagination>)
        ensures
            r is Some <==> (self.spec_page() < u32::MAX && (self.spec_page() + 1)
                * self.spec_page_size() < num_entries),
            r matches Some(p) ==> p.spec_page() == self.spec_page() + 1 && p.spec_page_size()
                == self.spec_page_size(),
    {
        proof {
            use_type_invariant(&self);
        }
        if self.page == u32::MAX {
            return None;
        }
        let next = Pagination { page: self.page + 1, page_size: self.page_size };
        if next.offset() < num_entries {
            Some(next)
        } else {
            None
        }
    }

    /// The query string that asks for this page.
    pub fn query(self) -> (r: String)
        ensures
            r@ == "page="@ + dec(self.spec_page() as nat) + "&page_size="@ + dec(
                self.spec_page_size() as nat,
            ),
    {
        let mut out = String::from_str("page=");
        write_decimal(&mut out, self.page as u64);
        out.append("&page_size=");
        write_decimal(&mut out, self.page_size as u64);
        proof {
            reveal_strlit("page=");
            reveal_strlit("&page_size=");
        }
        out
    }
}

} // verus!
