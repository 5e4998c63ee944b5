//! The cursor-pagination engine: reading one page of the remote answer,
//! accumulating actor identifiers without duplicates, deciding whether to
//! continue, and bounding the number of pages walked.
use vstd::prelude::*;

use crate::errors::MetricsError;
use crate::json::{json_get, obj_get, JsonValue};
use crate::platform::{day_label_of, format_day_label, format_rfc3339, rfc3339_of};
use crate::wallets::{seq_contains_str, wallets_insert, wallets_unique};
use crate::MAX_PAGES;

verus! {

/// The connection object of a transfers page, if the answer has one.
pub open spec fn doc_connection(doc: JsonValue) -> Option<JsonValue> {
    match json_get(doc, "data"@) {
        Some(d) => json_get(d, "transfersConnection"@),
        None => None,
    }
}

/// The edge array of a connection, if it has one.
pub open spec fn conn_edges(conn: JsonValue) -> Option<Seq<JsonValue>> {
    match json_get(conn, "edges"@) {
        Some(JsonValue::Arr(v)) => Some(v@),
        _ => None,
    }
}

/// The page-info object of a connection, if it has one.
pub open spec fn conn_page_info(conn: JsonValue) -> Option<JsonValue> {
    match json_get(conn, "pageInfo"@) {
        Some(info) => if info matches JsonValue::Obj(_) {
            Some(info)
        } else {
            None
        },
        None => None,
    }
}

/// Whether the page info announces further pages; anything but `true` means no.
pub open spec fn info_has_next(info: JsonValue) -> bool {
    match json_get(info, "hasNextPage"@) {
        Some(JsonValue::Bool(b)) => b,
        _ => false,
    }
}

/// The next-page cursor, when the page info carries one as a string.
pub open spec fn info_cursor(info: JsonValue) -> Option<String> {
    match json_get(info, "endCursor"@) {
        Some(JsonValue::Str(s)) => Some(s),
        _ => None,
    }
}

/// The actor identifier on one side of a transfer edge, if present.
pub open spec fn edge_id(edge: JsonValue, side: Seq<char>) -> Option<String> {
    match json_get(edge, "node"@) {
        Some(node) => match json_get(node, side) {
            Some(endpoint) => match json_get(endpoint, "id"@) {
                Some(JsonValue::Str(id)) => Some(id),
                _ => None,
            },
            None => None,
        },
        None => None,
    }
}

/// The identifiers one edge contributes: sender first, then receiver.
pub open spec fn edge_wallets(edge: JsonValue) -> Seq<String> {
    (match edge_id(edge, "from"@) {
        Some(id) => seq![id],
        None => Seq::empty(),
    }) + (match edge_id(edge, "to"@) {
        Some(id) => seq![id],
        None => Seq::empty(),
    })
}

/// The identifiers of all edges of a page, in order.
pub open spec fn pages_wallets(edges: Seq<JsonValue>) -> Seq<String>
    decreases edges.len(),
{
    if edges.len() == 0 {
        Seq::empty()
    } else {
        pages_wallets(edges.drop_last()) + edge_wallets(edges.last())
    }
}

/// What one well-formed transfers page says.
pub struct PageModel {
    /// Did the server announce more pages?
    pub has_next: bool,
    /// The cursor for the next request, if one came.
    pub cursor: Option<String>,
    /// The actor identifiers of this page, in document order.
    pub wallets: Seq<String>,
}

/// How a parsed answer reads as a transfers page: an embedded error payload
/// or a missing required field is a protocol violation.
pub open spec fn parse_page_spec(doc: JsonValue) -> Result<PageModel, MetricsError> {
    if json_get(doc, "errors"@) is Some {
        Err(MetricsError::Protocol)
    } else {
        match doc_connection(doc) {
            None => Err(MetricsError::Protocol),
            Some(conn) => match conn_edges(conn) {
                None => Err(MetricsError::Protocol),
                Some(edges) => match conn_page_info(conn) {
                    None => Err(MetricsError::Protocol),
                    Some(info) => Ok(
                        PageModel {
                            has_next: info_has_next(info),
                            cursor: info_cursor(info),
                            wallets: pages_wallets(edges),
                        },
                    ),
                },
            },
        }
    }
}

/// One parsed transfers page, as plain values.
pub struct PageData {
    /// Did the server announce more pages?
    pub has_next: bool,
    /// The cursor for the next request, if one came.
    pub end_cursor: Option<String>,
    /// The actor identifiers of this page, in document order.
    pub wallet_ids: Vec<String>,
}

/// Reads one transfers page out of a parsed answer.
pub fn parse_transfers_page(doc: &JsonValue) -> (r: Result<PageData, MetricsError>)
    ensures
        r matches Ok(p) ==> (parse_page_spec(*doc) matches Ok(m) && p.has_next == m.has_next
            && p.end_cursor == m.cursor && p.wallet_ids@ == m.wallets),
        r matches Err(e) ==> parse_page_spec(*doc) == Err::<PageModel, MetricsError>(e),
{
    if let Some(_) = obj_get(doc, "errors") {
        return Err(MetricsError::Protocol);
    }
    let data = match obj_get(doc, "data") {
        Some(d) => d,
        None => return Err(MetricsError::Protocol),
    };
    let conn = match obj_get(data, "transfersConnection") {
        Some(c) => c,
        None => return Err(MetricsError::Protocol),
    };
    let edges = match obj_get(conn, "edges") {
        Some(JsonValue::Arr(v)) => v,
        _ => return Err(MetricsError::Protocol),
    };
    let mut ids: Vec<String> = Vec::new();
    let mut i: usize = 0;
    proof {
        assert(edges@.take(0) =~= Seq::<JsonValue>::empty());
        assert(ids@ =~= pages_wallets(edges@.take(0)));
    }
    while i < edges.len()
        invariant
            0 <= i <= edges@.len(),
            ids@ == pages_wallets(edges@.take(i as int)),
        decreases edges@.len() - i,
    {
        let edge = &edges[i];
        let ghost before = ids@;
        if let Some(node) = obj_get(edge, "node") {
            match obj_get(node, "from") {
                Some(endpoint) => match obj_get(endpoint, "id") {
                    Some(JsonValue::Str(s)) => ids.push(s.clone()),
                    _ => (),
                },
                None => (),
            }
            match obj_get(node, "to") {
                Some(endpoint) => match obj_get(endpoint, "id") {
                    Some(JsonValue::Str(s)) => ids.push(s.clone()),
                    _ => (),
                },
                None => (),
            }
        }
        proof {
            assert(edges@.take(i + 1).drop_last() =~= edges@.take(i as int));
            assert(edges@.take(i + 1).last() == edges@[i as int]);
            assert(ids@ =~= before + edge_wallets(edges@[i as int]));
        }
        i = i + 1;
    }
    proof {
        assert(edges@.take(edges@.len() as int) =~= edges@);
    }
    let page_info = match obj_get(conn, "pageInfo") {
        Some(info) => match info {
            JsonValue::Obj(_) => info,
            _ => return Err(MetricsError::Protocol),
        },
        None => return Err(MetricsError::Protocol),
    };
    let has_next = match obj_get(page_info, "hasNextPage") {
        Some(JsonValue::Bool(b)) => *b,
        _ => false,
    };
    let end_cursor = match obj_get(page_info, "endCursor") {
        Some(JsonValue::Str(s)) => Some(s.clone()),
        _ => None,
    };
    Ok(PageData { has_next, end_cursor, wallet_ids: ids })
}

/// How a parsed answer reads as an extrinsics count.
pub open spec fn extrinsics_count_spec(doc: JsonValue) -> Result<u64, MetricsError> {
    if json_get(doc, "errors"@) is Some {
        Err(MetricsError::Protocol)
    } else {
        match json_get(doc, "data"@) {
            Some(d) => match json_get(d, "extrinsicsConnection"@) {
                Some(c) => match json_get(c, "totalCount"@) {
                    Some(JsonValue::UInt(n)) => Ok(n),
                    _ => Err(MetricsError::Protocol),
                },
                None => Err(MetricsError::Protocol),
            },
            None => Err(MetricsError::Protocol),
        }
    }
}

/// Reads the total extrinsics count out of a parsed answer.
pub fn parse_extrinsics_count(doc: &JsonValue) -> (r: Result<u64, MetricsError>)
    ensures
        r == extrinsics_count_spec(*doc),
{
    if let Some(_) = obj_get(doc, "errors") {
        return Err(MetricsError::Protocol);
    }
    let data = match obj_get(doc, "data") {
        Some(d) => d,
        None => return Err(MetricsError::Protocol),
    };
    let conn = match obj_get(data, "extrinsicsConnection") {
        Some(c) => c,
        None => return Err(MetricsError::Protocol),
    };
    match obj_get(conn, "totalCount") {
        Some(JsonValue::UInt(n)) => Ok(*n),
        _ => Err(MetricsError::Protocol),
    }
}

/// A transport answer is acceptable only with a success status.
pub fn check_status(status: u16) -> (r: Result<(), MetricsError>)
    ensures
        r is Ok <==> status == 200,
        r is Err ==> (r matches Err(e) && e == MetricsError::Network),
{
    if status == 200 {
        Ok(())
    } else {
        Err(MetricsError::Network)
    }
}

/// Adds `id` unless an equal identifier is present.
pub open spec fn insert_unique(set: Seq<String>, id: String) -> Seq<String> {
    if seq_contains_str(set, id@) {
        set
    } else {
        set.push(id)
    }
}

/// Folds a page's identifiers into the accumulated set, first to last.
pub open spec fn acc_wallets(set: Seq<String>, ids: Seq<String>) -> Seq<String>
    decreases ids.len(),
{
    if ids.len() == 0 {
        set
    } else {
        acc_wallets(insert_unique(set, ids[0]), ids.drop_first())
    }
}

/// The pagination state machine: pages walked so far, the cursor for the
/// next request, and the accumulated identifier set.
pub struct Pagination {
    /// Pages accepted so far.
    pub pages: usize,
    /// Cursor to send with the next request; absent on the first page.
    pub cursor: Option<String>,
    /// Identifiers seen so far, without duplicates.
    pub wallets: Vec<String>,
}

impl Pagination {
    /// Ready to request the first page.
    pub fn new() -> (r: Pagination)
        ensures
            r.pages == 0,
            r.cursor is None,
            r.wallets@ == Seq::<String>::empty(),
            wallets_unique(r.wallets@),
    {
        let r = Pagination { pages: 0, cursor: None, wallets: Vec::new() };
        proof {
            assert(r.wallets@ =~= Seq::<String>::empty());
        }
        r
    }

    /// Accepts one fetched page: checks the page bound, folds the page's
    /// identifiers in, and reports whether another page must be requested.
    /// "More pages" without a cursor is a protocol violation — continuing
    /// would repeat the same request forever.
    pub fn step(&mut self, doc: &JsonValue) -> (r: Result<bool, MetricsError>)
        ensures
            old(self).pages >= MAX_PAGES ==> r == Err::<bool, MetricsError>(
                MetricsError::PageLimitExceeded) && *final(self) == *old(self),
            old(self).pages < MAX_PAGES ==> match parse_page_spec(*doc) {
                Err(e) => r == Err::<bool, MetricsError>(e) && *final(self) == *old(self),
                Ok(m) => if m.has_next && m.cursor is None {
                    r == Err::<bool, MetricsError>(MetricsError::Protocol) && *final(self) == *old(self)
                } else {
                    r == Ok::<bool, MetricsError>(m.has_next)
                    && final(self).pages == old(self).pages + 1
                    && final(self).wallets@ == acc_wallets(old(self).wallets@, m.wallets)
                    && final(self).cursor == (if m.has_next { m.cursor } else { old(self).cursor })
                },
            },
            wallets_unique(old(self).wallets@) ==> wallets_unique(final(self).wallets@),
    {
        if self.pages >= MAX_PAGES {
            return Err(MetricsError::PageLimitExceeded);
        }
        let page = match parse_transfers_page(doc) {
            Ok(p) => p,
            Err(e) => return Err(e),
        };
        if page.has_next && page.end_cursor.is_none() {
            return Err(MetricsError::Protocol);
        }
        self.pages = self.pages + 1;
        let ghost w0 = self.wallets@;
        let ghost all = page.wallet_ids@;
        let mut ids = page.wallet_ids;
        while ids.len() > 0
            invariant
                acc_wallets(self.wallets@, ids@) == acc_wallets(w0, all),
                wallets_unique(w0) ==> wallets_unique(self.wallets@),
                self.pages == old(self).pages + 1,
                self.cursor == old(self).cursor,
            decreases ids@.len(),
        {
            let ghost remaining = ids@;
            let id = ids.remove(0);
            proof {
                assert(remaining.remove(0) =~= remaining.drop_first());
                assert(remaining[0] == id);
            }
            wallets_insert(&mut self.wallets, id);
        }
        if page.has_next {
            self.cursor = page.end_cursor;
            Ok(true)
        } else {
            Ok(false)
        }
    }
}

/// The outcome of walking a whole finite stream of page answers, starting
/// from an accumulated set at a given page number.
pub open spec fn run_fetch_from(pages: Seq<JsonValue>, set: Seq<String>, page_no: int) -> Result<Seq<String>, MetricsError>
    decreases pages.len(),
{
    if page_no >= MAX_PAGES {
        Err(MetricsError::PageLimitExceeded)
    } else if pages.len() == 0 {
        Err(MetricsError::Protocol)
    } else {
        match parse_page_spec(pages[0]) {
            Err(e) => Err(e),
            Ok(m) => if m.has_next && m.cursor is None {
                Err(MetricsError::Protocol)
            } else if m.has_next {
                run_fetch_from(pages.drop_first(), acc_wallets(set, m.wallets), page_no + 1)
            } else {
                Ok(acc_wallets(set, m.wallets))
            },
        }
    }
}

/// The outcome of a fresh walk over a finite stream of page answers.
pub open spec fn run_fetch(pages: Seq<JsonValue>) -> Result<Seq<String>, MetricsError> {
    run_fetch_from(pages, Seq::empty(), 0)
}

/// Walks a finite stream of page answers through the state machine and
/// returns the accumulated identifier set. The walk always ends: it accepts
/// at most one page per answer and never more than the page bound.
pub fn collect_active_wallets(pages: &Vec<JsonValue>) -> (r: Result<Vec<String>, MetricsError>)
    ensures
        r matches Ok(w) ==> (run_fetch(pages@) matches Ok(ws) && w@ == ws && wallets_unique(w@)),
        r matches Err(e) ==> run_fetch(pages@) == Err::<Seq<String>, MetricsError>(e),
{
    let mut pag = Pagination::new();
    let mut i: usize = 0;
    proof {
        assert(pages@.skip(0) =~= pages@);
        assert(pag.wallets@ =~= Seq::<String>::empty());
    }
    while i < pages.len()
        invariant
            0 <= i <= pages@.len(),
            pag.pages == i,
            wallets_unique(pag.wallets@),
            run_fetch(pages@) == run_fetch_from(pages@.skip(i as int), pag.wallets@, i as int),
        decreases pages@.len() - i,
    {
        proof {
            assert(pages@.skip(i as int)[0] == pages@[i as int]);
            assert(pages@.skip(i as int).drop_first() =~= pages@.skip(i + 1));
        }
        let more = match pag.step(&pages[i]) {
            Ok(b) => b,
            Err(e) => return Err(e),
        };
        if !more {
            return Ok(pag.wallets);
        }
        i = i + 1;
    }
    if pag.pages >= MAX_PAGES {
        Err(MetricsError::PageLimitExceeded)
    } else {
        Err(MetricsError::Protocol)
    }
}

/// The time window one refresh queries, rendered for the remote API, and the
/// calendar-day label under which the result is recorded.
pub struct RefreshWindow {
    /// Start of the trailing day, RFC 3339.
    pub from_iso: String,
    /// End of the trailing day — now — RFC 3339.
    pub to_iso: String,
    /// Calendar-day label of now.
    pub day_label: String,
}

/// Whole seconds of a nanosecond clock reading.
pub open spec fn window_secs(now_nanos: u64) -> int {
    now_nanos as int / 1_000_000_000
}

/// Nanoseconds within the second of a nanosecond clock reading.
pub open spec fn window_subsec(now_nanos: u64) -> int {
    now_nanos as int % 1_000_000_000
}

/// Renders the trailing 24-hour window ending now, and now's day label.
/// Every nanosecond clock value lands within the calendar years 1969
/// through 2554, where the formatters accept, so the window is always
/// returned: the timestamp error is unreachable here.
pub fn refresh_window(now_nanos: u64) -> (r: Result<RefreshWindow, MetricsError>)
    ensures
        r matches Ok(w) && w.to_iso@ == rfc3339_of(window_secs(now_nanos) as i64, window_subsec(now_nanos) as u32)
            && w.from_iso@ == rfc3339_of((window_secs(now_nanos) - 86400) as i64, window_subsec(now_nanos) as u32)
            && w.day_label@ == day_label_of(window_secs(now_nanos) as i64),
{
    proof {
        assert(now_nanos / 1_000_000_000 <= 18446744073) by (nonlinear_arith);
        assert(now_nanos % 1_000_000_000 < 1_000_000_000) by (nonlinear_arith);
    }
    let secs = (now_nanos / 1_000_000_000) as i64;
    let sub = (now_nanos % 1_000_000_000) as u32;
    let start_secs = secs - 86400;
    let to_iso = match format_rfc3339(secs, sub) {
        Some(s) => s,
        None => return Err(MetricsError::Timestamp),
    };
    let from_iso = match format_rfc3339(start_secs, sub) {
        Some(s) => s,
        None => return Err(MetricsError::Timestamp),
    };
    let day_label = match format_day_label(secs) {
        Some(s) => s,
        None => return Err(MetricsError::Timestamp),
    };
    Ok(RefreshWindow { from_iso, to_iso, day_label })
}

} // verus!
