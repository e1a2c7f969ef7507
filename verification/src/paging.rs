//! Fetching a paginated source under a rate limit: which request comes next,
//! how long to wait before it, and when to give up.
//!
//! The caller sends the requests and reports each reply; the decisions are
//! made here.

use vstd::prelude::*;

verus! {

/// How many times one page is asked for before the source is given up.
pub const MAX_ATTEMPTS: u32 = 3;

/// The wait before the first retry is twice this many seconds.
pub const BACKOFF_BASE_SECONDS: u64 = 5;

/// The pause between two pages, in seconds.
pub const PAGE_GAP_SECONDS: u64 = 2;

/// Why a fetch failed.
#[derive(Clone, Copy, Debug, PartialEq, Eq, Structural)]
pub enum FetchError {
    /// The source refused or could not be reached.
    UpstreamUnavailable,
    /// The source kept throttling until the retry budget was used up.
    Exhausted,
}

/// What the source answered to a request.
#[derive(Clone, Copy, Debug, PartialEq, Eq, Structural)]
pub enum PageReply {
    /// The source asked us to slow down.
    Throttled,
    /// The request failed for any other reason.
    Refused,
    /// A page arrived, with this many rows and the cursor of the next page,
    /// if there is one.
    Page { rows: u64, next_cursor: Option<u64> },
}

/// What to do next.
#[derive(Clone, Copy, Debug, PartialEq, Eq, Structural)]
pub enum PageStep {
    /// Wait, then ask for the page at `cursor`.
    Request { wait_seconds: u64, cursor: Option<u64> },
    /// Every page has arrived.
    Finished,
    /// The fetch has failed; the source is left alone until the next cycle.
    Failed(FetchError),
}

/// Where a fetch stands.
#[derive(Clone, Copy, Debug, PartialEq, Eq, Structural)]
pub enum FetchPhase {
    Requesting,
    Finished,
    Failed(FetchError),
}

/// The progress of one paginated fetch.
#[derive(Clone, Copy, Debug, PartialEq, Eq, Structural)]
pub struct PagedFetch {
    /// The cursor of the page being asked for.
    pub cursor: Option<u64>,
    /// How often the current page was answered by throttling.
    pub attempts: u32,
    /// Pages received so far.
    pub pages: u64,
    /// Rows received so far.
    pub rows: u64,
    pub phase: FetchPhase,
}

/// The wait before retry number `attempt`, in seconds: the base doubled
/// `attempt` times, which is 10 s before the first retry and 20 s before
/// the second.
pub open spec fn backoff_seconds(attempt: nat) -> nat
    decreases attempt,
{
    if attempt == 0 {
        BACKOFF_BASE_SECONDS as nat
    } else {
        2 * backoff_seconds((attempt - 1) as nat)
    }
}

/// `a + b`, held at the largest `u64`.
pub open spec fn capped_sum(a: int, b: int) -> int {
    if a + b > u64::MAX {
        u64::MAX as int
    } else {
        a + b
    }
}

/// Computes the wait before retry number `attempt`.
fn backoff(attempt: u32) -> (seconds: u64)
    requires
        attempt < MAX_ATTEMPTS,
    ensures
        seconds == backoff_seconds(attempt as nat),
{
    let mut seconds: u64 = BACKOFF_BASE_SECONDS;
    let mut i: u32 = 0;
    while i < attempt
        invariant
            i <= attempt < MAX_ATTEMPTS,
            seconds == backoff_seconds(i as nat),
            seconds <= 5 * 4,
        decreases attempt - i,
    {
        assert(backoff_seconds((i + 1) as nat) == 2 * backoff_seconds(i as nat));
        assert(i < 2);
        assert(backoff_seconds(0) == 5);
        assert(backoff_seconds(1) == 2 * backoff_seconds(0));
        seconds = seconds * 2;
        i = i + 1;
    }
    seconds
}

impl PagedFetch {
    /// The fetch is in a state that `begin` and `advance` can reach.
    pub open spec fn well_formed(self) -> bool {
        self.attempts < MAX_ATTEMPTS
    }

    /// The state after a reply, and the step that the reply calls for.
    ///
    /// A throttled page is asked for again after a wait that doubles, until
    /// it has been throttled `MAX_ATTEMPTS` times. A page with rows and a
    /// next cursor is followed by the next page; a page without either ends
    /// the fetch. A fetch that has ended stays as it is.
    pub open spec fn after(self, reply: PageReply) -> (PagedFetch, PageStep) {
        match self.phase {
            FetchPhase::Finished => (self, PageStep::Finished),
            FetchPhase::Failed(e) => (self, PageStep::Failed(e)),
            FetchPhase::Requesting => match reply {
                PageReply::Refused => (
                    PagedFetch { phase: FetchPhase::Failed(FetchError::UpstreamUnavailable), ..self },
                    PageStep::Failed(FetchError::UpstreamUnavailable),
                ),
                PageReply::Throttled => if self.attempts + 1 >= MAX_ATTEMPTS {
                    (
                        PagedFetch { phase: FetchPhase::Failed(FetchError::Exhausted), ..self },
                        PageStep::Failed(FetchError::Exhausted),
                    )
                } else {
                    (
                        PagedFetch { attempts: (self.attempts + 1) as u32, ..self },
                        PageStep::Request {
                            wait_seconds: backoff_seconds((self.attempts + 1) as nat) as u64,
                            cursor: self.cursor,
                        },
                    )
                },
                PageReply::Page { rows, next_cursor } => {
                    let received = PagedFetch {
                        cursor: next_cursor,
                        attempts: 0,
                        pages: capped_sum(self.pages as int, 1) as u64,
                        rows: capped_sum(self.rows as int, rows as int) as u64,
                        phase: self.phase,
                    };
                    if next_cursor is None || rows == 0 {
                        (PagedFetch { phase: FetchPhase::Finished, ..received }, PageStep::Finished)
                    } else {
                        (
                            received,
                            PageStep::Request { wait_seconds: PAGE_GAP_SECONDS, cursor: next_cursor },
                        )
                    }
                },
            },
        }
    }

    /// Starts a fetch. The first request asks for the first page at once:
    /// `PageStep::Request { wait_seconds: 0, cursor: None }`.
    pub fn begin() -> (f: PagedFetch)
        ensures
            f == (PagedFetch {
                cursor: None,
                attempts: 0,
                pages: 0,
                rows: 0,
                phase: FetchPhase::Requesting,
            }),
            f.well_formed(),
    {
        PagedFetch { cursor: None, attempts: 0, pages: 0, rows: 0, phase: FetchPhase::Requesting }
    }

    /// Takes the reply to the last request and says what to do next.
    pub fn advance(&mut self, reply: PageReply) -> (step: PageStep)
        ensures
            (*final(self), step) == old(self).after(reply),
            old(self).well_formed() ==> final(self).well_formed(),
            step is Request <==> final(self).phase is Requesting,
    {
        match self.phase {
            FetchPhase::Finished => PageStep::Finished,
            FetchPhase::Failed(e) => PageStep::Failed(e),
            FetchPhase::Requesting => match reply {
                PageReply::Refused => {
                    self.phase = FetchPhase::Failed(FetchError::UpstreamUnavailable);
                    PageStep::Failed(FetchError::UpstreamUnavailable)
                },
                PageReply::Throttled => {
                    if self.attempts >= MAX_ATTEMPTS - 1 {
                        self.phase = FetchPhase::Failed(FetchError::Exhausted);
                        PageStep::Failed(FetchError::Exhausted)
                    } else {
                        self.attempts = self.attempts + 1;
                        PageStep::Request { wait_seconds: backoff(self.attempts), cursor: self.cursor }
                    }
                },
                PageReply::Page { rows, next_cursor } => {
                    self.cursor = next_cursor;
                    self.attempts = 0;
                    self.pages = self.pages.saturating_add(1);
                    self.rows = self.rows.saturating_add(rows);
                    if next_cursor.is_none() || rows == 0 {
                        self.phase = FetchPhase::Finished;
                        PageStep::Finished
                    } else {
                        PageStep::Request { wait_seconds: PAGE_GAP_SECONDS, cursor: next_cursor }
                    }
                },
            },
        }
    }
}

/// A page that is throttled `MAX_ATTEMPTS` times in a row fails the fetch
/// with `Exhausted`, whatever was fetched before; it is asked for
/// `MAX_ATTEMPTS` times and no more.
pub proof fn lemma_throttling_exhausts(f: PagedFetch)
    requires
        f.phase is Requesting,
        f.attempts == 0,
    ensures
        ({
            let (f1, s1) = f.after(PageReply::Throttled);
            let (f2, s2) = f1.after(PageReply::Throttled);
            let (f3, s3) = f2.after(PageReply::Throttled);
            &&& s1 == (PageStep::Request { wait_seconds: 10, cursor: f.cursor })
            &&& s2 == (PageStep::Request { wait_seconds: 20, cursor: f.cursor })
            &&& s3 == PageStep::Failed(FetchError::Exhausted)
            &&& f3.phase == FetchPhase::Failed(FetchError::Exhausted)
        }),
{
    assert(backoff_seconds(0) == 5);
    assert(backoff_seconds(1) == 2 * backoff_seconds(0));
    assert(backoff_seconds(2) == 2 * backoff_seconds(1));
}

/// Once a fetch has ended it stays ended: no reply starts it again.
pub proof fn lemma_ended_fetch_stays(f: PagedFetch, reply: PageReply)
    requires
        !(f.phase is Requesting),
    ensures
        f.after(reply).0 == f,
        !(f.after(reply).1 is Request),
{
}

} // verus!
