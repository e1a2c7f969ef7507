//! The refresh orchestrator: which sources to call in a cycle, and what a
//! cycle leaves behind.
//!
//! The orchestrator is a value that the caller threads through its ticks.
//! `begin_cycle` says which calls to make, the caller makes them, and
//! `finish_cycle` takes their outcomes. A tick that comes while a cycle is
//! running is dropped.

use crate::history::{any_match, FilterView, MatchFilter};
use crate::models::{FetchCursor, Match, Sport};
use vstd::prelude::*;
use vstd::string::*;

verus! {

/// The full roster of a source is refreshed in every cycle whose number is a
/// multiple of this.
pub const ROSTER_EVERY: u64 = 10;

/// An external source of data, and the budget that its quota allows.
#[derive(Debug)]
pub struct Source {
    pub key: String,
    pub sport: Sport,
    /// The least time between two fetches, in seconds.
    pub min_interval: i64,
    /// How far ahead a match may lie to make a fetch worth its quota, in
    /// seconds.
    pub lookahead: i64,
    /// The pause between two calls to the source, in seconds.
    pub call_gap: u64,
}

/// What is asked of a source.
#[derive(Clone, Copy, Debug, PartialEq, Eq, Structural)]
pub enum Refresh {
    /// The cheap refresh of current statuses and scores.
    Status,
    /// The refresh of the full roster.
    Roster,
}

/// One call of a cycle.
#[derive(Clone, Copy, Debug, PartialEq, Eq, Structural)]
pub struct Call {
    /// The row of the source among the orchestrator's sources.
    pub source_row: usize,
    pub refresh: Refresh,
    /// The pause before the call, in seconds.
    pub wait_seconds: u64,
}

/// `a + b` as an instant: held within the range of instants.
pub open spec fn held_instant(sum: int) -> int {
    if sum > i64::MAX {
        i64::MAX as int
    } else if sum < i64::MIN {
        i64::MIN as int
    } else {
        sum
    }
}

/// A source is due when it was never fetched, or when its last fetch lies
/// further back than its least interval.
pub open spec fn is_due(last_fetched: Option<i64>, now: i64, min_interval: i64) -> bool {
    match last_fetched {
        None => true,
        Some(t) => now - t > min_interval,
    }
}

/// Tells whether a source is due.
pub fn is_stale(last_fetched: Option<i64>, now: i64, min_interval: i64) -> (b: bool)
    ensures
        b == is_due(last_fetched, now, min_interval),
{
    match last_fetched {
        None => true,
        Some(t) => now as i128 - t as i128 > min_interval as i128,
    }
}

/// The matches that make a fetch worth its quota: the scheduled matches of
/// the sport that kick off after `now` and within the lookahead.
pub open spec fn upcoming_window(sport: Sport, now: i64, lookahead: i64) -> FilterView {
    FilterView::Upcoming { sport, after: now, before: held_instant(now + lookahead) as i64 }
}

/// There is a scheduled match of the sport within the lookahead.
pub open spec fn has_upcoming_match(matches: Seq<Match>, sport: Sport, now: i64, lookahead: i64) -> bool {
    exists|i: int|
        0 <= i < matches.len() && upcoming_window(sport, now, lookahead).selects(
            #[trigger] matches[i],
        )
}

/// Tells whether there is a scheduled match of the sport within the
/// lookahead.
pub fn has_upcoming(matches: &Vec<Match>, sport: Sport, now: i64, lookahead: i64) -> (b: bool)
    ensures
        b == has_upcoming_match(matches@, sport, now, lookahead),
{
    let end: i128 = now as i128 + lookahead as i128;
    let before: i64 = if end > i64::MAX as i128 {
        i64::MAX
    } else if end < i64::MIN as i128 {
        i64::MIN
    } else {
        end as i64
    };
    let filter: MatchFilter = MatchFilter::Upcoming { sport, after: now, before };
    assert(filter@ == upcoming_window(sport, now, lookahead));
    any_match(matches, &filter)
}

/// A source is fetched in a cycle when it is due and a match lies within
/// its lookahead: otherwise the quota is not worth spending.
pub open spec fn worth_fetching(
    source: Source,
    last_fetched: Option<i64>,
    matches: Seq<Match>,
    now: i64,
) -> bool {
    is_due(last_fetched, now, source.min_interval) && has_upcoming_match(
        matches,
        source.sport,
        now,
        source.lookahead,
    )
}

/// The calls that a cycle makes to one source: the status refresh, and in
/// every `ROSTER_EVERY`-th cycle the roster refresh after the source's
/// pause.
pub open spec fn calls_to(row: int, source: Source, cycle: u64) -> Seq<Call> {
    let status = Call { source_row: row as usize, refresh: Refresh::Status, wait_seconds: 0 };
    if cycle % ROSTER_EVERY == 0 {
        seq![
            status,
            Call { source_row: row as usize, refresh: Refresh::Roster, wait_seconds: source.call_gap },
        ]
    } else {
        seq![status]
    }
}

/// The calls of a cycle to the first `n` sources, source by source.
pub open spec fn calls_upto(
    sources: Seq<Source>,
    cursors: Seq<Option<i64>>,
    matches: Seq<Match>,
    now: i64,
    cycle: u64,
    n: int,
) -> Seq<Call>
    decreases n,
{
    if n <= 0 {
        Seq::empty()
    } else {
        let before = calls_upto(sources, cursors, matches, now, cycle, n - 1);
        if worth_fetching(sources[n - 1], cursors[n - 1], matches, now) {
            before + calls_to(n - 1, sources[n - 1], cycle)
        } else {
            before
        }
    }
}

/// Call `j` of a cycle succeeded. A call without a reported outcome did not.
pub open spec fn succeeded_at(succeeded: Seq<bool>, j: int) -> bool {
    0 <= j < succeeded.len() && succeeded[j]
}

/// The fetch of a source succeeded fully: the cycle called it, and every
/// call to it succeeded.
pub open spec fn fully_fetched(calls: Seq<Call>, succeeded: Seq<bool>, row: int) -> bool {
    &&& exists|j: int| 0 <= j < calls.len() && (#[trigger] calls[j]).source_row == row
    &&& forall|j: int|
        0 <= j < calls.len() && (#[trigger] calls[j]).source_row == row ==> succeeded_at(
            succeeded,
            j,
        )
}

/// The cursor of a source after a cycle: moved to `now` where the fetch of
/// the source succeeded fully, left alone otherwise.
pub open spec fn cursor_after(
    cursor: Option<i64>,
    calls: Seq<Call>,
    succeeded: Seq<bool>,
    row: int,
    now: i64,
) -> Option<i64> {
    if fully_fetched(calls, succeeded, row) {
        Some(now)
    } else {
        cursor
    }
}

/// Some call of the cycle succeeded: the ratings and the forecasts are to
/// be recomputed.
pub open spec fn any_succeeded(calls: Seq<Call>, succeeded: Seq<bool>) -> bool {
    exists|j: int| 0 <= j < calls.len() && #[trigger] succeeded_at(succeeded, j)
}

/// `n + 1`, held at the largest cycle number.
pub open spec fn next_cycle(n: u64) -> u64 {
    if n == u64::MAX {
        n
    } else {
        (n + 1) as u64
    }
}

/// What is to be done after the calls of a cycle.
#[derive(Clone, Copy, Debug, PartialEq, Eq, Structural)]
pub struct CycleOutcome {
    /// Rebuild the ratings, then forecast the scheduled matches.
    pub recompute: bool,
}

/// The state of the refresh loop: its sources, when each was last fetched
/// with success, the number of the cycle, and whether a cycle is running.
pub struct Orchestrator {
    sources: Vec<Source>,
    last_fetched: Vec<Option<i64>>,
    cycle: u64,
    busy: bool,
}

impl Orchestrator {
    #[verifier::type_invariant]
    spec fn consistent(self) -> bool {
        self.last_fetched@.len() == self.sources@.len()
    }

    /// The sources.
    pub closed spec fn sources(self) -> Seq<Source> {
        self.sources@
    }

    /// When each source was last fetched with success.
    pub closed spec fn cursors(self) -> Seq<Option<i64>> {
        self.last_fetched@
    }

    /// The number of the last cycle that was begun.
    pub closed spec fn cycle(self) -> u64 {
        self.cycle
    }

    /// A cycle is running.
    pub closed spec fn is_busy(self) -> bool {
        self.busy
    }

    /// Sets up the refresh loop. `last_fetched` gives, source by source,
    /// when the source was last fetched; a source without an entry was
    /// never fetched.
    pub fn new(sources: Vec<Source>, last_fetched: &Vec<Option<i64>>) -> (o: Orchestrator)
        ensures
            o.sources() == sources@,
            o.cursors().len() == sources@.len(),
            forall|i: int|
                0 <= i < sources@.len() ==> #[trigger] o.cursors()[i] == if i < last_fetched@.len() {
                    last_fetched@[i]
                } else {
                    None
                },
            o.cycle() == 0,
            !o.is_busy(),
    {
        let n: usize = sources.len();
        let mut cursors: Vec<Option<i64>> = Vec::new();
        let mut i: usize = 0;
        while i < n
            invariant
                n == sources@.len(),
                i <= n,
                cursors@.len() == i,
                forall|j: int|
                    0 <= j < i ==> #[trigger] cursors@[j] == if j < last_fetched@.len() {
                        last_fetched@[j]
                    } else {
                        None
                    },
            decreases n - i,
        {
            if i < last_fetched.len() {
                cursors.push(last_fetched[i]);
            } else {
                cursors.push(None);
            }
            i = i + 1;
        }
        Orchestrator { sources, last_fetched: cursors, cycle: 0, busy: false }
    }

    /// The number of the last cycle that was begun.
    pub fn cycle_number(&self) -> (n: u64)
        ensures
            n == self.cycle(),
    {
        self.cycle
    }

    /// Tells whether a cycle is running.
    pub fn busy(&self) -> (b: bool)
        ensures
            b == self.is_busy(),
    {
        self.busy
    }

    /// The cursor of a source, as it is to be stored; nothing for a source
    /// that was never fetched, or for a row without a source.
    pub fn cursor(&self, row: usize) -> (c: Option<FetchCursor>)
        ensures
            match c {
                Some(cursor) => row < self.sources().len() && self.cursors()[row as int] == Some(
                    cursor.last_fetched,
                ) && cursor.source_key@ == self.sources()[row as int].key@,
                None => row >= self.sources().len() || self.cursors()[row as int] is None,
            },
    {
        proof {
            use_type_invariant(self);
        }
        if row < self.sources.len() {
            match self.last_fetched[row] {
                Some(t) => Some(
                    FetchCursor { source_key: self.sources[row].key.clone(), last_fetched: t },
                ),
                None => None,
            }
        } else {
            None
        }
    }

    /// Begins a cycle at the tick `now`. While a cycle is running the tick
    /// is dropped: nothing changes and there is nothing to call. Otherwise
    /// the cycle number goes up by one and the calls of the cycle are
    /// listed: for each source that is due and has a match within its
    /// lookahead the status refresh, and in every tenth cycle the roster
    /// refresh too.
    pub fn begin_cycle(self, matches: &Vec<Match>, now: i64) -> (r: (Orchestrator, Option<Vec<Call>>))
        ensures
            r.0.sources() == self.sources(),
            r.0.cursors() == self.cursors(),
            self.is_busy() ==> r.1 is None && r.0.cycle() == self.cycle() && r.0.is_busy(),
            !self.is_busy() ==> r.0.is_busy() && r.0.cycle() == next_cycle(self.cycle()) && r.1
                is Some && (r.1->0)@ == calls_upto(
                self.sources(),
                self.cursors(),
                matches@,
                now,
                next_cycle(self.cycle()),
                self.sources().len() as int,
            ),
    {
        proof {
            use_type_invariant(&self);
        }
        if self.busy {
            return (self, None);
        }
        let Orchestrator { sources, last_fetched, cycle, busy } = self;
        let number: u64 = if cycle == u64::MAX {
            cycle
        } else {
            cycle + 1
        };
        let mut calls: Vec<Call> = Vec::new();
        let n: usize = sources.len();
        let mut i: usize = 0;
        while i < n
            invariant
                n == sources@.len(),
                n == last_fetched@.len(),
                i <= n,
                calls@ == calls_upto(sources@, last_fetched@, matches@, now, number, i as int),
            decreases n - i,
        {
            let source: &Source = &sources[i];
            if is_stale(last_fetched[i], now, source.min_interval) && has_upcoming(
                matches,
                source.sport,
                now,
                source.lookahead,
            ) {
                calls.push(Call { source_row: i, refresh: Refresh::Status, wait_seconds: 0 });
                if number % ROSTER_EVERY == 0 {
                    calls.push(
                        Call {
                            source_row: i,
                            refresh: Refresh::Roster,
                            wait_seconds: source.call_gap,
                        },
                    );
                }
                assert(calls@ =~= calls_upto(
                    sources@,
                    last_fetched@,
                    matches@,
                    now,
                    number,
                    i + 1,
                ));
            }
            i = i + 1;
        }
        (Orchestrator { sources, last_fetched, cycle: number, busy: true }, Some(calls))
    }

    /// Ends a cycle with the outcomes of its calls, one for each call in
    /// order. The cursor of a source moves to `now` if the cycle called the
    /// source and every call to it succeeded, and stays otherwise. The
    /// outcome says whether anything was fetched, so that the ratings and
    /// the forecasts are recomputed.
    pub fn finish_cycle(self, calls: &Vec<Call>, succeeded: &Vec<bool>, now: i64) -> (r: (
        Orchestrator,
        CycleOutcome,
    ))
        ensures
            r.0.sources() == self.sources(),
            r.0.cycle() == self.cycle(),
            !r.0.is_busy(),
            r.0.cursors().len() == self.cursors().len(),
            forall|row: int|
                0 <= row < self.cursors().len() ==> #[trigger] r.0.cursors()[row] == cursor_after(
                    self.cursors()[row],
                    calls@,
                    succeeded@,
                    row,
                    now,
                ),
            r.1.recompute == any_succeeded(calls@, succeeded@),
    {
        proof {
            use_type_invariant(&self);
        }
        let Orchestrator { sources, last_fetched, cycle, busy } = self;
        let n: usize = sources.len();
        let count: usize = calls.len();
        let mut cursors: Vec<Option<i64>> = Vec::new();
        let mut row: usize = 0;
        while row < n
            invariant
                n == sources@.len(),
                n == last_fetched@.len(),
                count == calls@.len(),
                row <= n,
                cursors@.len() == row,
                forall|t: int|
                    0 <= t < row ==> #[trigger] cursors@[t] == cursor_after(
                        last_fetched@[t],
                        calls@,
                        succeeded@,
                        t,
                        now,
                    ),
            decreases n - row,
        {
            let mut called: bool = false;
            let mut all: bool = true;
            let mut j: usize = 0;
            while j < count
                invariant
                    count == calls@.len(),
                    j <= count,
                    called == exists|t: int|
                        0 <= t < j && (#[trigger] calls@[t]).source_row == row,
                    all == forall|t: int|
                        0 <= t < j && (#[trigger] calls@[t]).source_row == row ==> succeeded_at(
                            succeeded@,
                            t,
                        ),
                decreases count - j,
            {
                if calls[j].source_row == row {
                    called = true;
                    if !(j < succeeded.len() && succeeded[j]) {
                        all = false;
                    }
                }
                j = j + 1;
            }
            assert(fully_fetched(calls@, succeeded@, row as int) == (called && all));
            if called && all {
                cursors.push(Some(now));
            } else {
                cursors.push(last_fetched[row]);
            }
            row = row + 1;
        }
        let mut recompute: bool = false;
        let mut j: usize = 0;
        while j < count
            invariant
                count == calls@.len(),
                j <= count,
                recompute == exists|t: int| 0 <= t < j && #[trigger] succeeded_at(succeeded@, t),
            decreases count - j,
        {
            if j < succeeded.len() && succeeded[j] {
                recompute = true;
                assert(succeeded_at(succeeded@, j as int));
            }
            j = j + 1;
        }
        (
            Orchestrator { sources, last_fetched: cursors, cycle, busy: false },
            CycleOutcome { recompute },
        )
    }
}

/// The seconds between two ticks of the refresh loop.
pub const TICK_SECONDS: u64 = 60;

/// A provider of teams and matches is fetched at most once in so many
/// seconds: a little less than a tick, so that every tick may fetch.
pub const PROVIDER_MIN_INTERVAL: i64 = 50;

/// Quotes are fetched at most once in twelve hours.
pub const ODDS_MIN_INTERVAL: i64 = 43_200;

/// A fetch is worth its quota when a match lies within the next three days.
pub const LOOKAHEAD: i64 = 259_200;

/// The pause between two calls to the football provider, in seconds.
pub const FOOTBALL_CALL_GAP: u64 = 6;

/// The pause between two calls to the basketball provider, in seconds.
pub const BASKETBALL_CALL_GAP: u64 = 2;

/// `source` is a source with the given key, sport and budget.
pub open spec fn is_source(
    source: Source,
    key: Seq<char>,
    sport: Sport,
    min_interval: i64,
    call_gap: u64,
) -> bool {
    &&& source.key@ == key
    &&& source.sport == sport
    &&& source.min_interval == min_interval
    &&& source.lookahead == LOOKAHEAD
    &&& source.call_gap == call_gap
}

/// `sources` lists the providers of teams and matches whose keys are
/// there: the football provider first, then the basketball provider.
pub open spec fn are_provider_sources(
    sources: Seq<Source>,
    has_football_key: bool,
    has_nba_key: bool,
) -> bool {
    let football = if has_football_key {
        1int
    } else {
        0int
    };
    let basketball = if has_nba_key {
        1int
    } else {
        0int
    };
    &&& sources.len() == football + basketball
    &&& has_football_key ==> is_source(
        sources[0],
        "football-data"@,
        Sport::Football,
        PROVIDER_MIN_INTERVAL,
        FOOTBALL_CALL_GAP,
    )
    &&& has_nba_key ==> is_source(
        sources[football],
        "balldontlie"@,
        Sport::Basketball,
        PROVIDER_MIN_INTERVAL,
        BASKETBALL_CALL_GAP,
    )
}

/// Lists the providers of teams and matches whose keys are there, each
/// with its budget.
pub fn provider_sources(has_football_key: bool, has_nba_key: bool) -> (sources: Vec<Source>)
    ensures
        are_provider_sources(sources@, has_football_key, has_nba_key),
{
    let mut sources: Vec<Source> = Vec::new();
    if has_football_key {
        sources.push(
            Source {
                key: String::from_str("football-data"),
                sport: Sport::Football,
                min_interval: PROVIDER_MIN_INTERVAL,
                lookahead: LOOKAHEAD,
                call_gap: FOOTBALL_CALL_GAP,
            },
        );
    }
    if has_nba_key {
        sources.push(
            Source {
                key: String::from_str("balldontlie"),
                sport: Sport::Basketball,
                min_interval: PROVIDER_MIN_INTERVAL,
                lookahead: LOOKAHEAD,
                call_gap: BASKETBALL_CALL_GAP,
            },
        );
    }
    sources
}

/// `source` is the source of quotes for a sport.
pub open spec fn is_odds_source(source: Source, sport: Sport) -> bool {
    is_source(
        source,
        match sport {
            Sport::Football => "soccer_epl"@,
            Sport::Basketball => "basketball_nba"@,
            Sport::Other => "upcoming"@,
        },
        sport,
        ODDS_MIN_INTERVAL,
        0,
    )
}

/// Gives the source of quotes for a sport, with its budget.
pub fn odds_source(sport: Sport) -> (source: Source)
    ensures
        is_odds_source(source, sport),
{
    let key: &str = match sport {
        Sport::Football => "soccer_epl",
        Sport::Basketball => "basketball_nba",
        Sport::Other => "upcoming",
    };
    Source {
        key: String::from_str(key),
        sport,
        min_interval: ODDS_MIN_INTERVAL,
        lookahead: LOOKAHEAD,
        call_gap: 0,
    }
}

/// A source is fetched now: it is due, and a match lies within its
/// lookahead.
pub fn should_fetch(source: &Source, last_fetched: Option<i64>, matches: &Vec<Match>, now: i64) -> (b:
    bool)
    ensures
        b == worth_fetching(*source, last_fetched, matches@, now),
{
    is_stale(last_fetched, now, source.min_interval) && has_upcoming(
        matches,
        source.sport,
        now,
        source.lookahead,
    )
}

/// How an empty store is filled when the service starts.
#[derive(Clone, Copy, Debug, PartialEq, Eq, Structural)]
pub enum InitialLoad {
    /// The store holds teams already: nothing is loaded.
    Nothing,
    /// A key is there: fetch everything from the providers, and fall back
    /// on the sample data if that fails.
    FetchAll,
    /// No key is there: fill the store with sample data.
    Seed,
}

/// How an empty store is to be filled.
pub open spec fn initial_load_of(team_count: u64, has_football_key: bool, has_nba_key: bool) -> InitialLoad {
    if team_count > 0 {
        InitialLoad::Nothing
    } else if has_football_key || has_nba_key {
        InitialLoad::FetchAll
    } else {
        InitialLoad::Seed
    }
}

/// Decides how the store is filled when the service starts.
pub fn initial_load(team_count: u64, has_football_key: bool, has_nba_key: bool) -> (load: InitialLoad)
    ensures
        load == initial_load_of(team_count, has_football_key, has_nba_key),
{
    if team_count > 0 {
        InitialLoad::Nothing
    } else if has_football_key || has_nba_key {
        InitialLoad::FetchAll
    } else {
        InitialLoad::Seed
    }
}

/// The providers of teams and matches.
#[derive(Clone, Copy, Debug, PartialEq, Eq, Structural)]
pub enum Provider {
    /// The football provider.
    FootballData,
    /// The basketball provider.
    BallDontLie,
}

/// One step of a full load.
#[derive(Clone, Copy, Debug, PartialEq, Eq, Structural)]
pub enum LoadStep {
    /// Fetch the roster or the matches of a provider.
    Fetch { provider: Provider, refresh: Refresh },
    /// Pause for so many seconds, to stay within the provider's rate limit.
    Wait { seconds: u64 },
}

/// The steps of a full load: for each provider whose key is there its
/// teams, a pause, and its matches; six seconds between the two football
/// calls and two after them, one second between the two basketball calls.
pub open spec fn full_load_steps(has_football_key: bool, has_nba_key: bool) -> Seq<LoadStep> {
    let football = if has_football_key {
        seq![
            LoadStep::Fetch { provider: Provider::FootballData, refresh: Refresh::Roster },
            LoadStep::Wait { seconds: 6 },
            LoadStep::Fetch { provider: Provider::FootballData, refresh: Refresh::Status },
            LoadStep::Wait { seconds: 2 },
        ]
    } else {
        Seq::empty()
    };
    let basketball = if has_nba_key {
        seq![
            LoadStep::Fetch { provider: Provider::BallDontLie, refresh: Refresh::Roster },
            LoadStep::Wait { seconds: 1 },
            LoadStep::Fetch { provider: Provider::BallDontLie, refresh: Refresh::Status },
        ]
    } else {
        Seq::empty()
    };
    football + basketball
}

/// Lists the steps of a full load. The caller takes them in order and
/// stops at the first fetch that fails.
pub fn full_load_plan(has_football_key: bool, has_nba_key: bool) -> (steps: Vec<LoadStep>)
    ensures
        steps@ == full_load_steps(has_football_key, has_nba_key),
{
    let mut steps: Vec<LoadStep> = Vec::new();
    if has_football_key {
        steps.push(LoadStep::Fetch { provider: Provider::FootballData, refresh: Refresh::Roster });
        steps.push(LoadStep::Wait { seconds: 6 });
        steps.push(LoadStep::Fetch { provider: Provider::FootballData, refresh: Refresh::Status });
        steps.push(LoadStep::Wait { seconds: 2 });
    }
    let ghost football = steps@;
    if has_nba_key {
        steps.push(LoadStep::Fetch { provider: Provider::BallDontLie, refresh: Refresh::Roster });
        steps.push(LoadStep::Wait { seconds: 1 });
        steps.push(LoadStep::Fetch { provider: Provider::BallDontLie, refresh: Refresh::Status });
    }
    assert(steps@ =~= full_load_steps(has_football_key, has_nba_key));
    steps
}

/// A cursor moves only when the fetch of its source succeeded fully: a
/// source with a failed call, and a source that the cycle did not call,
/// keep the cursor they had.
pub proof fn lemma_cursor_moves_on_success_only(
    cursor: Option<i64>,
    calls: Seq<Call>,
    succeeded: Seq<bool>,
    row: int,
    now: i64,
    j: int,
)
    requires
        0 <= j < calls.len(),
        calls[j].source_row == row,
        !succeeded_at(succeeded, j),
    ensures
        cursor_after(cursor, calls, succeeded, row, now) == cursor,
{
}

/// The calls of a cycle go to sources that are due and have a match ahead,
/// and to no others; each such source gets its status refresh first.
pub proof fn lemma_calls_respect_budget(
    sources: Seq<Source>,
    cursors: Seq<Option<i64>>,
    matches: Seq<Match>,
    now: i64,
    cycle: u64,
    n: int,
)
    requires
        0 <= n <= sources.len(),
        n <= cursors.len(),
        n <= usize::MAX,
    ensures
        forall|j: int|
            0 <= j < calls_upto(sources, cursors, matches, now, cycle, n).len() ==> {
                let call = #[trigger] calls_upto(sources, cursors, matches, now, cycle, n)[j];
                &&& call.source_row < n
                &&& worth_fetching(
                    sources[call.source_row as int],
                    cursors[call.source_row as int],
                    matches,
                    now,
                )
                &&& call.refresh == Refresh::Roster ==> cycle % ROSTER_EVERY == 0
            },
    decreases n,
{
    if n > 0 {
        lemma_calls_respect_budget(sources, cursors, matches, now, cycle, n - 1);
        let before = calls_upto(sources, cursors, matches, now, cycle, n - 1);
        let all = calls_upto(sources, cursors, matches, now, cycle, n);
        assert forall|j: int| 0 <= j < all.len() implies {
            let call = #[trigger] all[j];
            &&& call.source_row < n
            &&& worth_fetching(
                sources[call.source_row as int],
                cursors[call.source_row as int],
                matches,
                now,
            )
            &&& call.refresh == Refresh::Roster ==> cycle % ROSTER_EVERY == 0
        } by {
            if j < before.len() {
                assert(all[j] == before[j]);
            } else {
                assert(all[j] == calls_to(n - 1, sources[n - 1], cycle)[j - before.len()]);
            }
        }
    }
}

} // verus!
