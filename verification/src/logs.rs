//! Paging through the execution logs, and their retention.
use vstd::prelude::*;

use crate::models::{LogsAutomation, LogsInput, LogsList};
use crate::text::{non_blank, opt_view, spec_non_blank};

verus! {

/// The page asked for, at least 1.
pub open spec fn spec_page(page: Option<u32>) -> u32 {
    match page {
        Some(p) if p >= 1 => p,
        _ => 1,
    }
}

/// The page size asked for (50 by default), kept between 5 and 100.
pub open spec fn spec_page_size(page_size: Option<u32>) -> u32 {
    let s = match page_size {
        Some(s) => s,
        None => 50,
    };
    if s < 5 {
        5
    } else if s > 100 {
        100
    } else {
        s
    }
}

/// `list_logs`, the window: page, page size and the number of rows to
/// skip.
pub fn log_page(input: &LogsInput) -> (r: (u32, u32, u32))
    requires
        (spec_page(input.page) - 1) * spec_page_size(input.page_size) <= u32::MAX,
    ensures
        r.0 == spec_page(input.page),
        r.1 == spec_page_size(input.page_size),
        r.2 == (r.0 - 1) * r.1,
{
    let page = match input.page {
        Some(p) => if p >= 1 {
            p
        } else {
            1
        },
        None => 1,
    };
    let size = match input.page_size {
        Some(s) => s,
        None => 50,
    };
    let page_size = if size < 5 {
        5
    } else if size > 100 {
        100
    } else {
        size
    };
    (page, page_size, (page - 1) * page_size)
}

/// `list_logs`, the filter: the trimmed rule id, when not blank.
pub fn log_rule_filter(input: &LogsInput) -> (r: Option<String>)
    ensures
        opt_view(r) == spec_non_blank(opt_view(input.rule_id)),
{
    non_blank(&input.rule_id)
}

/// `list_logs`, the page count: at least one page, enough pages for all
/// rows.
pub fn total_pages(total: u32, page_size: u32) -> (r: u32)
    requires
        page_size > 0,
    ensures
        total == 0 ==> r == 1,
        total > 0 ==> r == (total + page_size - 1) / (page_size as int),
        total > 0 ==> (r - 1) * page_size < total <= r * page_size,
{
    if total == 0 {
        1
    } else {
        let q = total / page_size;
        let m = total % page_size;
        proof {
            assert(q * page_size + m == total && 0 <= m < page_size) by (nonlinear_arith)
                requires
                    page_size > 0,
                    q == total / page_size,
                    m == total % page_size,
            ;
            if m != 0 {
                assert(q < total) by (nonlinear_arith)
                    requires
                        page_size > 1,
                        q * page_size + m == total,
                        0 < m,
                        q >= 0,
                ;
            }
        }
        let r = if m == 0 {
            q
        } else {
            q + 1
        };
        proof {
            assert((total + page_size - 1) / (page_size as int) == r) by (nonlinear_arith)
                requires
                    page_size > 0,
                    total == q * page_size + m,
                    0 <= m < page_size,
                    r == q + (if m == 0 {
                        0int
                    } else {
                        1int
                    }),
            ;
            assert((r - 1) * page_size < total <= r * page_size) by (nonlinear_arith)
                requires
                    page_size > 0,
                    total > 0,
                    total == q * page_size + m,
                    0 <= m < page_size,
                    r == q + (if m == 0 {
                        0int
                    } else {
                        1int
                    }),
            ;
        }
        r
    }
}

/// `list_logs`, the result: the rows with the page figures.
pub fn logs_list(items: Vec<LogsAutomation>, page: u32, page_size: u32, total: u32) -> (r:
    LogsList)
    requires
        page_size > 0,
    ensures
        r.items == items,
        r.page == page,
        r.page_size == page_size,
        r.total == total,
        total == 0 ==> r.total_pages == 1,
        total > 0 ==> r.total_pages == (total + page_size - 1) / (page_size as int),
{
    let total_pages = total_pages(total, page_size);
    LogsList { items, page, page_size, total, total_pages }
}

/// Milliseconds in a day.
pub const DAY_MS: i64 = 86_400_000;

/// `cleanup_logs`, the cutoff: logs older than `retention_days` days
/// before `now` (in milliseconds) are removed.
pub fn log_cutoff(now: i64, retention_days: u32) -> (r: i64)
    ensures
        r == if now - retention_days * DAY_MS < i64::MIN {
            i64::MIN as int
        } else {
            now - retention_days * DAY_MS
        },
{
    let retention: i64 = (retention_days as i64) * DAY_MS;
    if now < i64::MIN + retention {
        i64::MIN
    } else {
        now - retention
    }
}

} // verus!
