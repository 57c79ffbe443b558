//! The record stream: the pages of a walk, flattened into their records.

use crate::error::{Error, ErrorView};
use crate::pager::{
    check_status, header_bytes, reported_total, status_outcome, PageRequest, PagerState,
};
use crate::query::Query;
use std::collections::VecDeque;
use vstd::prelude::*;

verus! {

/// A lazy, forward-only sequence of records.  It asks for a page only when
/// the records of the pages before have all been handed out.
pub struct RecordStream<T, C, Q: Query> {
    /// The walk through the pages.
    pub pager: PagerState<C, Q>,
    /// The records that were received and not yet handed out, oldest first.
    pub pending: VecDeque<T>,
}

/// What a record stream does next.
pub enum Step<T> {
    /// It hands out this record.
    Record(T),
    /// It needs the next page: this request is to be sent.
    Fetch(PageRequest),
    /// It has ended.
    Done,
}

impl<T, C, Q: Query> RecordStream<T, C, Q> {
    /// The number of records handed out since the cursor stood at zero:
    /// what the cursor has passed, less what is still pending.
    pub open spec fn delivered(self) -> int {
        self.pager.query.page_offset() - self.pending@.len()
    }

    /// A stream over the walk `pager`, with no record received yet.
    pub fn new(pager: PagerState<C, Q>) -> (stream: Self)
        ensures
            stream.pager == pager,
            stream.pending@ == Seq::<T>::empty(),
    {
        RecordStream { pager, pending: VecDeque::new() }
    }

    /// Says what comes next.  A pending record comes first.  With none
    /// pending, the stream is done where the walk has ended, and asks for the
    /// next page otherwise; where the request cannot be composed, that error
    /// comes out and the walk has ended.
    pub fn next_step(self) -> (r: (Result<Step<T>, Error>, Self))
        ensures
            self.pending@.len() > 0 ==> {
                &&& r.0 matches Ok(Step::Record(record))
                &&& record == self.pending@[0]
                &&& r.1.pending@ == self.pending@.drop_first()
                &&& r.1.pager == self.pager
                &&& r.1.delivered() == self.delivered() + 1
            },
            self.pending@.len() == 0 ==> r.1.pending@ == self.pending@ && r.1.delivered()
                == self.delivered(),
            self.pending@.len() == 0 && self.pager.end ==> {
                &&& r.0 matches Ok(Step::Done)
                &&& r.1.pager == self.pager
            },
            self.pending@.len() == 0 && !self.pager.end ==> match r.0 {
                Ok(Step::Fetch(request)) => self.pager.asks_for_next_page(request) && r.1.pager
                    == self.pager,
                Err(e) => self.pager.query.body() == Err::<Seq<char>, ErrorView>(e@)
                    && r.1.pager == self.pager.finished(),
                _ => false,
            },
    {
        let RecordStream { pager, mut pending } = self;
        match pending.pop_front() {
            Some(record) => (Ok(Step::Record(record)), RecordStream { pager, pending }),
            None => match pager.request() {
                Ok(None) => (Ok(Step::Done), RecordStream { pager, pending }),
                Ok(Some(request)) => (Ok(Step::Fetch(request)), RecordStream { pager, pending }),
                Err(e) => (Err(e), RecordStream { pager: pager.finish(), pending }),
            },
        }
    }

    /// Takes note of the status code of the answer to a page request, and of
    /// the address `url` that answered.  The result is `true` where a page of
    /// records follows; in every other case the walk has ended.
    pub fn receive_status(self, status: u16, url: &str) -> (r: (Result<bool, Error>, Self))
        ensures
            match r.0 {
                Ok(page) => status_outcome(status, url@) == Ok::<bool, ErrorView>(page),
                Err(e) => status_outcome(status, url@) == Err::<bool, ErrorView>(e@),
            },
            r.1.pending@ == self.pending@,
            r.1.pager == if status == 200 {
                self.pager
            } else {
                self.pager.finished()
            },
            r.1.delivered() == self.delivered(),
    {
        let RecordStream { pager, pending } = self;
        match check_status(status, url) {
            Ok(true) => (Ok(true), RecordStream { pager, pending }),
            Ok(false) => (Ok(false), RecordStream { pager: pager.finish(), pending }),
            Err(e) => (Err(e), RecordStream { pager: pager.finish(), pending }),
        }
    }

    /// Takes in the records of a page and the `Record-Total` header that
    /// came with it.  The records queue up behind those pending, in their
    /// order, and the cursor moves by their number.
    pub fn receive_page(self, record_total: Option<&[u8]>, records: Vec<T>) -> (r: Self)
        requires
            self.pager.query.page_offset() + records@.len() <= u64::MAX,
        ensures
            r.pending@ == self.pending@ + records@,
            r.pager == self.pager.advanced(
                reported_total(header_bytes(record_total)),
                records@.len() as u64,
            ),
            r.pager.query.page_offset() == self.pager.query.page_offset() + records@.len(),
            r.delivered() == self.delivered(),
    {
        let RecordStream { pager, mut pending } = self;
        let ghost before = pending@;
        let count = records.len() as u64;
        let mut records = records;
        let ghost page = records@;
        // the tail of the page, taken off its end one by one
        let mut tail: VecDeque<T> = VecDeque::new();
        while records.len() > 0
            invariant
                records@.len() <= page.len(),
                records@ == page.take(records@.len() as int),
                tail@ == page.skip(records@.len() as int),
            decreases records@.len(),
        {
            let ghost n = records@.len();
            match records.pop() {
                Some(record) => {
                    tail.push_front(record);
                },
                None => {},
            }
            assert(records@ =~= page.take(n - 1));
            assert(tail@ =~= page.skip(n - 1));
        }
        assert(tail@ =~= page);
        pending.append(&mut tail);
        RecordStream { pager: pager.advance(record_total, count), pending }
    }

    /// Takes note that the transfer of a page failed, for the given cause:
    /// the error to hand out is an HTTP error with that cause, and the walk
    /// has ended.
    pub fn receive_failure(self, cause: String) -> (r: (Error, Self))
        ensures
            r.0@ == ErrorView::HttpError(cause@),
            r.1.pending@ == self.pending@,
            r.1.pager == self.pager.finished(),
            r.1.delivered() == self.delivered(),
    {
        let RecordStream { pager, pending } = self;
        (Error::HttpError(cause), RecordStream { pager: pager.finish(), pending })
    }
}

/// What happens to the queue of a record stream: the records of a page
/// come in, or the record at its head is taken.
pub enum Event<T> {
    Page(Seq<T>),
    Take,
}

/// The records of the pages among `events`, page after page.
pub open spec fn received<T>(events: Seq<Event<T>>) -> Seq<T>
    decreases events.len(),
{
    if events.len() == 0 {
        Seq::empty()
    } else {
        match events.last() {
            Event::Page(records) => received(events.drop_last()) + records,
            Event::Take => received(events.drop_last()),
        }
    }
}

/// The queue after `events`, from an empty one: a page queues up behind
/// what is pending, as [`RecordStream::receive_page`] has it, and a take
/// removes the head, as [`RecordStream::next_step`] has it.
pub open spec fn pending_after<T>(events: Seq<Event<T>>) -> Seq<T>
    decreases events.len(),
{
    if events.len() == 0 {
        Seq::empty()
    } else {
        let pending = pending_after(events.drop_last());
        match events.last() {
            Event::Page(records) => pending + records,
            Event::Take => if pending.len() > 0 {
                pending.drop_first()
            } else {
                pending
            },
        }
    }
}

/// The records that were taken in the course of `events`, in the order in
/// which they were taken.
pub open spec fn handed_out<T>(events: Seq<Event<T>>) -> Seq<T>
    decreases events.len(),
{
    if events.len() == 0 {
        Seq::empty()
    } else {
        let pending = pending_after(events.drop_last());
        let out = handed_out(events.drop_last());
        match events.last() {
            Event::Page(_) => out,
            Event::Take => if pending.len() > 0 {
                out.push(pending[0])
            } else {
                out
            },
        }
    }
}

/// Records keep their order: however pages and takes alternate, what was
/// handed out, followed by what is pending, is the records of the pages in
/// the order of the pages, each page in its own order.
pub proof fn lemma_records_keep_their_order<T>(events: Seq<Event<T>>)
    ensures
        handed_out(events) + pending_after(events) == received(events),
    decreases events.len(),
{
    if events.len() > 0 {
        lemma_records_keep_their_order(events.drop_last());
        let pending = pending_after(events.drop_last());
        let out = handed_out(events.drop_last());
        match events.last() {
            Event::Page(records) => {
                assert(out + (pending + records) =~= (out + pending) + records);
            },
            Event::Take => {
                if pending.len() > 0 {
                    assert(out.push(pending[0]) + pending.drop_first() =~= out + pending);
                }
            },
        }
    } else {
        assert(handed_out(events) + pending_after(events) =~= received(events));
    }
}

} // verus!
