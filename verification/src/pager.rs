//! The paginator: one request per page, the cursor moved by what each page
//! held, until the total that the server reports is reached.

use crate::decimal::{parse_u64, unsigned_number};
use crate::error::{Error, ErrorView};
use crate::outside::{parse_url, url_parsed};
use crate::query::Query;
use crate::status::{push_status, status_shown};
use vstd::prelude::*;

verus! {

/// The response header in which the server reports the total number of
/// records.
pub const RECORD_TOTAL_HEADER: &'static str = "Record-Total";

/// A request for one page, to be posted to the data endpoint.
#[derive(Debug, PartialEq, Eq)]
pub struct PageRequest {
    /// The address the request is posted to.
    pub url: String,
    /// The value of its `Accept` header: pages come as delimited text.
    pub accept: &'static str,
    /// The value of its `Content-Type` header: the query goes as JSON.
    pub content_type: &'static str,
    /// The body: the query, with its cursor at the page asked for.
    pub body: String,
}

/// Where a walk through the pages of a result set stands.
pub struct PagerState<C, Q: Query> {
    /// The client that sends the requests.
    pub client: C,
    /// The address of the data endpoint.
    pub url: String,
    /// The query, with its cursor at the next page.
    pub query: Q,
    /// Whether the last page has been seen.
    pub end: bool,
}

/// How the failure of a request is named by the class of its status: a
/// client error, a server error, or any other status that is no success.
pub open spec fn status_class(status: u16) -> Seq<char> {
    if 400 <= status < 500 {
        "HTTP status client error"@
    } else if 500 <= status < 600 {
        "HTTP status server error"@
    } else {
        "HTTP status error"@
    }
}

/// What the answer to a page request means, by its status code: `true` for
/// a page of records, `false` for a success without content, which ends the
/// sequence cleanly, and an error for every status that is no success.  The
/// error names the class of the status, the status, and the address `url`
/// that answered.
pub open spec fn status_outcome(status: u16, url: Seq<char>) -> Result<bool, ErrorView> {
    if status == 200 {
        Ok(true)
    } else if 200 <= status < 300 {
        Ok(false)
    } else {
        Err(
            ErrorView::HttpError(
                status_class(status) + " ("@ + status_shown(status) + ") for url ("@ + url
                    + ")"@,
            ),
        )
    }
}

/// Tells by its status code what the answer to a page request means; `url`
/// is the address that answered.
pub fn check_status(status: u16, url: &str) -> (r: Result<bool, Error>)
    ensures
        match r {
            Ok(page) => status_outcome(status, url@) == Ok::<bool, ErrorView>(page),
            Err(e) => status_outcome(status, url@) == Err::<bool, ErrorView>(e@),
        },
{
    if status == 200 {
        Ok(true)
    } else if 200 <= status && status < 300 {
        Ok(false)
    } else {
        let mut cause = if 400 <= status && status < 500 {
            "HTTP status client error".to_owned()
        } else if 500 <= status && status < 600 {
            "HTTP status server error".to_owned()
        } else {
            "HTTP status error".to_owned()
        };
        cause.append(" (");
        push_status(&mut cause, status);
        cause.append(") for url (");
        cause.append(url);
        cause.append(")");
        Err(Error::HttpError(cause))
    }
}

/// The total that a response reports in its `Record-Total` header: the
/// number that the header spells, and 0 where the header is missing or spells
/// none.
pub open spec fn reported_total(header: Option<Seq<u8>>) -> u64 {
    match header {
        Some(bytes) => match unsigned_number(bytes) {
            Ok(total) => total,
            Err(_) => 0,
        },
        None => 0,
    }
}

/// The bytes of a header, where there is one.
pub open spec fn header_bytes(header: Option<&[u8]>) -> Option<Seq<u8>> {
    match header {
        Some(bytes) => Some(bytes@),
        None => None,
    }
}

/// Reads the total that a response reports in its `Record-Total` header.
pub fn read_total(header: Option<&[u8]>) -> (total: u64)
    ensures
        total == reported_total(header_bytes(header)),
{
    match header {
        Some(bytes) => match parse_u64(bytes) {
            Ok(total) => total,
            Err(_) => 0,
        },
        None => 0,
    }
}

/// What a parsed address is good for: a walk goes to the address as the
/// parsed URL writes it, and an address that is no URL, or a URL without a
/// host, is refused.
pub open spec fn parsed_outcome(parsed: Option<(Seq<char>, bool)>) -> Result<
    Seq<char>,
    ErrorView,
> {
    match parsed {
        None => Err(ErrorView::HttpError("builder error"@)),
        Some((address, has_host)) => if has_host {
            Ok(address)
        } else {
            Err(ErrorView::HttpError("builder error for url ("@ + address + ")"@))
        },
    }
}

/// What an address is good for, by what the HTTP library makes of it.
pub open spec fn address_outcome(url: Seq<char>) -> Result<Seq<char>, ErrorView> {
    parsed_outcome(url_parsed(url))
}

/// What `parsed` holds, as a mathematical value.
pub open spec fn parsed_view(parsed: Option<(String, bool)>) -> Option<(Seq<char>, bool)> {
    match parsed {
        Some((address, has_host)) => Some((address@, has_host)),
        None => None,
    }
}

/// Starts a walk at a parsed address: `parsed` holds the address as the
/// parsed URL writes it and whether it has a host, or nothing where the
/// address is no URL.
pub fn start_walk<C, Q: Query>(client: C, parsed: Option<(String, bool)>, query: Q) -> (r: Result<
    PagerState<C, Q>,
    Error,
>)
    ensures
        match r {
            Ok(state) => {
                &&& parsed_outcome(parsed_view(parsed)) == Ok::<Seq<char>, ErrorView>(state.url@)
                &&& state.client == client
                &&& state.query == query
                &&& !state.end
            },
            Err(e) => parsed_outcome(parsed_view(parsed)) == Err::<Seq<char>, ErrorView>(e@),
        },
{
    match parsed {
        None => Err(Error::HttpError("builder error".to_owned())),
        Some((address, has_host)) => {
            if has_host {
                Ok(PagerState { client, url: address, query, end: false })
            } else {
                let mut cause = "builder error for url (".to_owned();
                cause.append(address.as_str());
                cause.append(")");
                Err(Error::HttpError(cause))
            }
        },
    }
}

/// Starts a walk through all the results of `query`, at the cursor that the
/// query holds.  The address is checked first: no walk starts at an address
/// that no request can be sent to.
pub fn all_results<C, Q: Query>(client: C, url: &str, query: Q) -> (r: Result<
    PagerState<C, Q>,
    Error,
>)
    ensures
        match r {
            Ok(state) => {
                &&& address_outcome(url@) == Ok::<Seq<char>, ErrorView>(state.url@)
                &&& state.client == client
                &&& state.query == query
                &&& !state.end
            },
            Err(e) => address_outcome(url@) == Err::<Seq<char>, ErrorView>(e@),
        },
{
    let parsed = parse_url(url);
    start_walk(client, parsed, query)
}

impl<C, Q: Query> PagerState<C, Q> {
    /// The state after the sequence has ended.
    pub open spec fn finished(self) -> Self {
        PagerState { end: true, ..self }
    }

    /// The state after a page of `count` records, with `total` reported:
    /// the cursor has moved by `count`, and the sequence has ended where the
    /// total does not exceed the new offset.
    pub open spec fn advanced(self, total: u64, count: u64) -> Self {
        PagerState {
            query: self.query.at_offset((self.query.page_offset() + count) as u64),
            end: total <= self.query.page_offset() + count,
            ..self
        }
    }

    /// Whether `request` asks for the page at the cursor of this walk.
    pub open spec fn asks_for_next_page(self, request: PageRequest) -> bool {
        &&& request.url@ == self.url@
        &&& request.accept@ == "text/plain"@
        &&& request.content_type@ == "application/json"@
        &&& self.query.body() == Ok::<Seq<char>, ErrorView>(request.body@)
    }

    /// The next page request, or `None` once the sequence has ended.  Where
    /// the body cannot be composed, that error comes out.
    pub fn request(&self) -> (r: Result<Option<PageRequest>, Error>)
        ensures
            self.end ==> r matches Ok(None),
            !self.end ==> match r {
                Ok(Some(request)) => self.asks_for_next_page(request),
                Ok(None) => false,
                Err(e) => self.query.body() == Err::<Seq<char>, ErrorView>(e@),
            },
    {
        if self.end {
            return Ok(None);
        }
        match self.query.request_body() {
            Ok(body) => Ok(
                Some(
                    PageRequest {
                        url: self.url.clone(),
                        accept: "text/plain",
                        content_type: "application/json",
                        body,
                    },
                ),
            ),
            Err(e) => Err(e),
        }
    }

    /// Ends the sequence: no further page is asked for.
    pub fn finish(self) -> (r: Self)
        ensures
            r == self.finished(),
    {
        PagerState { client: self.client, url: self.url, query: self.query, end: true }
    }

    /// Takes note of a page of `count` records that came with the given
    /// `Record-Total` header.
    pub fn advance(self, record_total: Option<&[u8]>, count: u64) -> (r: Self)
        requires
            self.query.page_offset() + count <= u64::MAX,
        ensures
            r == self.advanced(reported_total(header_bytes(record_total)), count),
            r.query.page_offset() == self.query.page_offset() + count,
            r.query.page_limit() == self.query.page_limit(),
    {
        let total = read_total(record_total);
        proof {
            self.query.lemma_at_offset((self.query.page_offset() + count) as u64);
        }
        let query = self.query.move_cursor(count);
        let end = total <= query.offset();
        PagerState { client: self.client, url: self.url, query, end }
    }
}

/// What the paginator learns from one page: the total that came with it,
/// and the number of records it held.
pub struct Page {
    pub total: u64,
    pub count: u64,
}

/// The number of records that `pages` held together.
pub open spec fn records_in(pages: Seq<Page>) -> nat
    decreases pages.len(),
{
    if pages.len() == 0 {
        0
    } else {
        records_in(pages.drop_last()) + pages.last().count as nat
    }
}

impl<C, Q: Query> PagerState<C, Q> {
    /// The state after the given pages, one after the other.
    pub open spec fn after(self, pages: Seq<Page>) -> Self
        decreases pages.len(),
    {
        if pages.len() == 0 {
            self
        } else {
            self.after(pages.drop_last()).advanced(pages.last().total, pages.last().count)
        }
    }

    /// After any sequence of pages the offset of the cursor is the offset at
    /// the start plus the number of records that the pages held, and the
    /// sequence has ended exactly where the total reported with the last page
    /// does not exceed that offset.  Client, address and page size stay as
    /// they were.  This holds as long as the offset fits its type.
    pub proof fn lemma_offset_counts_records(self, pages: Seq<Page>)
        requires
            self.query.page_offset() + records_in(pages) <= u64::MAX,
        ensures
            self.after(pages).query.page_offset() == self.query.page_offset() + records_in(pages),
            self.after(pages).query.page_limit() == self.query.page_limit(),
            self.after(pages).client == self.client,
            self.after(pages).url == self.url,
            pages.len() > 0 ==> (self.after(pages).end <==> pages.last().total
                <= self.query.page_offset() + records_in(pages)),
        decreases pages.len(),
    {
        if pages.len() > 0 {
            let before = self.after(pages.drop_last());
            self.lemma_offset_counts_records(pages.drop_last());
            before.query.lemma_at_offset(
                (before.query.page_offset() + pages.last().count) as u64,
            );
        }
    }

    /// The offset of the cursor never decreases: after more pages it is at
    /// least what it was after fewer.
    pub proof fn lemma_offset_never_decreases(self, pages: Seq<Page>, seen: int)
        requires
            0 <= seen <= pages.len(),
            self.query.page_offset() + records_in(pages) <= u64::MAX,
        ensures
            self.after(pages.take(seen)).query.page_offset() <= self.after(
                pages,
            ).query.page_offset(),
    {
        lemma_records_grow(pages, seen);
        self.lemma_offset_counts_records(pages);
        self.lemma_offset_counts_records(pages.take(seen));
    }
}

/// The first pages of a sequence hold no more records than all of them.
pub proof fn lemma_records_grow(pages: Seq<Page>, seen: int)
    requires
        0 <= seen <= pages.len(),
    ensures
        records_in(pages.take(seen)) <= records_in(pages),
    decreases pages.len(),
{
    if seen == pages.len() {
        assert(pages.take(seen) =~= pages);
    } else {
        assert(pages.drop_last().take(seen) =~= pages.take(seen));
        lemma_records_grow(pages.drop_last(), seen);
    }
}

} // verus!
