//! Bookmaker quotes as the odds provider lists them: which bookmaker's
//! prices to take for an event, and which match of ours an event is.

use crate::dates::SECONDS_PER_HOUR;
use crate::models::{MarketOdds, Match, MatchStatus};
use crate::select::{is_ranking, rank_indices};
use crate::text::{
    has_substring, is_substring, join_words, joined, lowercase, lowercase_of, replace_all,
    replaced, same_text, split_words, whitespace_words,
};
use crate::units::ODDS_EVEN;
use vstd::prelude::*;
use vstd::string::*;

verus! {

/// An event of the odds provider.
#[derive(Debug)]
pub struct OddsEvent {
    pub id: String,
    /// Kick-off, in seconds since the epoch.
    pub commence_time: i64,
    pub home_team: String,
    pub away_team: String,
    pub bookmakers: Vec<Bookmaker>,
}

/// A bookmaker and the markets it makes for an event.
#[derive(Debug)]
pub struct Bookmaker {
    pub key: String,
    pub title: String,
    pub markets: Vec<Market>,
}

/// A market: the prices of its outcomes.
#[derive(Debug)]
pub struct Market {
    pub key: String,
    pub outcomes: Vec<Outcome>,
}

/// The price of one outcome.
#[derive(Debug)]
pub struct Outcome {
    pub name: String,
    /// Decimal odds, in thousandths.
    pub price: u32,
}

/// The prices taken for an event.
#[derive(Debug)]
pub struct BestOdds {
    pub home_odds: u32,
    pub draw_odds: Option<u32>,
    pub away_odds: u32,
    pub bookmaker: String,
}

/// How far the kick-off of an event may lie from that of the match it is
/// taken for: four hours either way.
pub const MATCH_WINDOW_SECONDS: i64 = 4 * SECONDS_PER_HOUR;

/// What stands for the implied probability of a price of zero: more than any
/// price implies.
pub const IMPLIED_NEVER: i64 = 1_000_000_000_000_000;

/// A team name in the form in which names are compared: in lower case,
/// without the club suffixes and prefixes (`fc`, `afc`, `sc`), without
/// full stops, hyphens read as spaces, and every run of white space
/// shrunk to one space.
pub open spec fn normalized_name(name: Seq<char>) -> Seq<char> {
    let s1 = replaced(lowercase_of(name), " fc"@, Seq::empty());
    let s2 = replaced(s1, "fc "@, Seq::empty());
    let s3 = replaced(s2, "afc "@, Seq::empty());
    let s4 = replaced(s3, " afc"@, Seq::empty());
    let s5 = replaced(s4, " sc"@, Seq::empty());
    let s6 = replaced(s5, "."@, Seq::empty());
    let s7 = replaced(s6, "-"@, " "@);
    joined(whitespace_words(s7))
}

/// Two names in comparable form agree when they are equal or one occurs
/// in the other.
pub open spec fn names_agree(a: Seq<char>, b: Seq<char>) -> bool {
    a == b || is_substring(a, b) || is_substring(b, a)
}

/// Two team names, as they are written, name the same team.
pub open spec fn same_team(a: Seq<char>, b: Seq<char>) -> bool {
    names_agree(normalized_name(a), normalized_name(b))
}

/// Brings a team name into the form in which names are compared.
pub fn normalize_name(name: &str) -> (r: String)
    ensures
        r@ == normalized_name(name@),
{
    proof {
        reveal_strlit("");
        reveal_strlit(" fc");
        reveal_strlit("fc ");
        reveal_strlit("afc ");
        reveal_strlit(" afc");
        reveal_strlit(" sc");
        reveal_strlit(".");
        reveal_strlit("-");
        assert(""@ =~= Seq::<char>::empty());
    }
    let s0: String = lowercase(name);
    let s1: String = replace_all(s0.as_str(), " fc", "");
    let s2: String = replace_all(s1.as_str(), "fc ", "");
    let s3: String = replace_all(s2.as_str(), "afc ", "");
    let s4: String = replace_all(s3.as_str(), " afc", "");
    let s5: String = replace_all(s4.as_str(), " sc", "");
    let s6: String = replace_all(s5.as_str(), ".", "");
    let s7: String = replace_all(s6.as_str(), "-", " ");
    let words: Vec<String> = split_words(s7.as_str());
    join_words(&words)
}

/// Tells whether two names in comparable form agree.
pub fn normalized_names_match(a: &str, b: &str) -> (r: bool)
    ensures
        r == names_agree(a@, b@),
{
    same_text(a, b) || has_substring(a, b) || has_substring(b, a)
}

/// Tells whether two team names, as they are written, name the same team.
pub fn names_match(a: &str, b: &str) -> (r: bool)
    ensures
        r == same_team(a@, b@),
{
    let a: String = normalize_name(a);
    let b: String = normalize_name(b);
    normalized_names_match(a.as_str(), b.as_str())
}

/// The row of the first market of a bookmaker with the given key.
pub open spec fn market_row(markets: Seq<Market>, key: Seq<char>, from: int) -> Option<int>
    decreases markets.len() - from,
{
    if from < 0 || from >= markets.len() {
        None
    } else if markets[from].key@ == key {
        Some(from)
    } else {
        market_row(markets, key, from + 1)
    }
}

/// The price of the first outcome whose name names the team.
pub open spec fn team_price(outcomes: Seq<Outcome>, team: Seq<char>, from: int) -> Option<u32>
    decreases outcomes.len() - from,
{
    if from < 0 || from >= outcomes.len() {
        None
    } else if same_team(outcomes[from].name@, team) {
        Some(outcomes[from].price)
    } else {
        team_price(outcomes, team, from + 1)
    }
}

/// The price of the first outcome that is called a draw, in any mix of
/// cases.
pub open spec fn draw_price(outcomes: Seq<Outcome>, from: int) -> Option<u32>
    decreases outcomes.len() - from,
{
    if from < 0 || from >= outcomes.len() {
        None
    } else if lowercase_of(outcomes[from].name@) == "draw"@ {
        Some(outcomes[from].price)
    } else {
        draw_price(outcomes, from + 1)
    }
}

/// The prices of a market.
#[derive(Clone, Copy, Debug, PartialEq, Eq, Structural)]
pub struct Prices {
    pub home: u32,
    pub draw: Option<u32>,
    pub away: u32,
}

/// The prices that a bookmaker offers on the result of an event: those of
/// its `h2h` market, if it has one that prices both teams above 1.0.
pub open spec fn offered(bookmaker: Bookmaker, home_team: Seq<char>, away_team: Seq<char>) -> Option<
    Prices,
> {
    let row = market_row(bookmaker.markets@, "h2h"@, 0);
    if row is Some {
        let outcomes = bookmaker.markets@[row->0].outcomes@;
        let home = team_price(outcomes, home_team, 0);
        let away = team_price(outcomes, away_team, 0);
        if home is Some && away is Some && home->0 > ODDS_EVEN && away->0 > ODDS_EVEN {
            Some(Prices { home: home->0, draw: draw_price(outcomes, 0), away: away->0 })
        } else {
            None
        }
    } else {
        None
    }
}

/// Finds the first market with the given key.
fn find_market(markets: &Vec<Market>, key: &str) -> (row: Option<usize>)
    ensures
        match row {
            Some(r) => market_row(markets@, key@, 0) == Some(r as int) && r < markets@.len(),
            None => market_row(markets@, key@, 0) is None,
        },
{
    let n: usize = markets.len();
    let mut i: usize = 0;
    while i < n
        invariant
            n == markets@.len(),
            i <= n,
            market_row(markets@, key@, 0) == market_row(markets@, key@, i as int),
        decreases n - i,
    {
        if same_text(markets[i].key.as_str(), key) {
            return Some(i);
        }
        i = i + 1;
    }
    None
}

/// Finds the price of a team in a market.
fn find_team_price(outcomes: &Vec<Outcome>, team: &str) -> (price: Option<u32>)
    ensures
        price == team_price(outcomes@, team@, 0),
{
    let n: usize = outcomes.len();
    let mut i: usize = 0;
    while i < n
        invariant
            n == outcomes@.len(),
            i <= n,
            team_price(outcomes@, team@, 0) == team_price(outcomes@, team@, i as int),
        decreases n - i,
    {
        if names_match(outcomes[i].name.as_str(), team) {
            return Some(outcomes[i].price);
        }
        i = i + 1;
    }
    None
}

/// Finds the price of the draw in a market.
fn find_draw_price(outcomes: &Vec<Outcome>) -> (price: Option<u32>)
    ensures
        price == draw_price(outcomes@, 0),
{
    let n: usize = outcomes.len();
    let mut i: usize = 0;
    while i < n
        invariant
            n == outcomes@.len(),
            i <= n,
            draw_price(outcomes@, 0) == draw_price(outcomes@, i as int),
        decreases n - i,
    {
        let lowered: String = lowercase(outcomes[i].name.as_str());
        if same_text(lowered.as_str(), "draw") {
            return Some(outcomes[i].price);
        }
        i = i + 1;
    }
    None
}

/// Reads the prices that a bookmaker offers on the result of an event.
pub fn extract_prices(bookmaker: &Bookmaker, home_team: &str, away_team: &str) -> (p: Option<Prices>)
    ensures
        p == offered(*bookmaker, home_team@, away_team@),
{
    match find_market(&bookmaker.markets, "h2h") {
        None => None,
        Some(row) => {
            let outcomes: &Vec<Outcome> = &bookmaker.markets[row].outcomes;
            let home: Option<u32> = find_team_price(outcomes, home_team);
            let away: Option<u32> = find_team_price(outcomes, away_team);
            match (home, away) {
                (Some(h), Some(a)) => {
                    if h > ODDS_EVEN && a > ODDS_EVEN {
                        Some(Prices { home: h, draw: find_draw_price(outcomes), away: a })
                    } else {
                        None
                    }
                },
                _ => None,
            }
        },
    }
}

/// The bookmakers whose prices are taken before all others, the sharpest
/// first.
pub open spec fn preferred() -> Seq<Seq<char>> {
    seq!["pinnacle"@, "betfair_ex_eu"@, "betfair_ex_uk"@, "williamhill"@, "bet365"@]
}

/// The row of the first bookmaker with the given key.
pub open spec fn bookmaker_row(bookmakers: Seq<Bookmaker>, key: Seq<char>, from: int) -> Option<int>
    decreases bookmakers.len() - from,
{
    if from < 0 || from >= bookmakers.len() {
        None
    } else if bookmakers[from].key@ == key {
        Some(from)
    } else {
        bookmaker_row(bookmakers, key, from + 1)
    }
}

/// The row of the preferred bookmaker whose prices are taken, looking from
/// preference `k` on: the first preference whose bookmaker is listed and
/// offers prices.
pub open spec fn preferred_row(event: OddsEvent, k: int) -> Option<int>
    decreases preferred().len() - k,
{
    if k < 0 || k >= preferred().len() {
        None
    } else {
        let row = bookmaker_row(event.bookmakers@, preferred()[k], 0);
        if row is Some && offered(event.bookmakers@[row->0], event.home_team@, event.away_team@)
            is Some {
            row
        } else {
            preferred_row(event, k + 1)
        }
    }
}

/// The probability that a price implies, in billionths, rounded down; a
/// price of zero implies more than any other.
pub open spec fn implied(price: int) -> int {
    if price <= 0 {
        IMPLIED_NEVER as int
    } else {
        1_000_000_000_000int / price
    }
}

/// The overround of a set of prices: the sum of what they imply.
pub open spec fn overround(p: Prices) -> int {
    implied(p.home as int) + implied(p.away as int) + match p.draw {
        Some(d) => implied(d as int),
        None => 0,
    }
}

/// The overround of each bookmaker of an event, and zero for a bookmaker
/// that offers no prices.
pub open spec fn overrounds(event: OddsEvent) -> Seq<i64> {
    Seq::new(
        event.bookmakers@.len(),
        |i: int|
            match offered(event.bookmakers@[i], event.home_team@, event.away_team@) {
                Some(p) => overround(p) as i64,
                None => 0i64,
            },
    )
}

/// For each bookmaker of an event, whether it offers prices.
pub open spec fn offering(event: OddsEvent) -> Seq<bool> {
    Seq::new(
        event.bookmakers@.len(),
        |i: int| offered(event.bookmakers@[i], event.home_team@, event.away_team@) is Some,
    )
}

/// `row` is the bookmaker whose prices are taken for the event: the first
/// preferred bookmaker that offers prices, else the bookmaker with the
/// lowest overround, the first of them where several have it; none where no
/// bookmaker offers prices.
pub open spec fn is_best_row(event: OddsEvent, row: Option<int>) -> bool {
    if preferred_row(event, 0) is Some {
        row == preferred_row(event, 0)
    } else {
        exists|rows: Seq<usize>|
            #![trigger is_ranking(overrounds(event), offering(event), false, 1, rows)]
            is_ranking(overrounds(event), offering(event), false, 1, rows) && if rows.len() == 0 {
                row is None
            } else {
                row == Some(rows[0] as int)
            }
    }
}

/// Computes what a price implies.
fn implied_by(price: u32) -> (i: i64)
    ensures
        i == implied(price as int),
        0 <= i <= IMPLIED_NEVER,
{
    if price == 0 {
        IMPLIED_NEVER
    } else {
        1_000_000_000_000 / (price as i64)
    }
}

/// Computes the overround of a set of prices.
fn overround_of(p: Prices) -> (o: i64)
    ensures
        o == overround(p),
{
    let draw: i64 = match p.draw {
        Some(d) => implied_by(d),
        None => 0,
    };
    implied_by(p.home) + implied_by(p.away) + draw
}

/// Finds the first bookmaker with the given key.
fn find_bookmaker(bookmakers: &Vec<Bookmaker>, key: &str) -> (row: Option<usize>)
    ensures
        match row {
            Some(r) => bookmaker_row(bookmakers@, key@, 0) == Some(r as int) && r
                < bookmakers@.len(),
            None => bookmaker_row(bookmakers@, key@, 0) is None,
        },
{
    let n: usize = bookmakers.len();
    let mut i: usize = 0;
    while i < n
        invariant
            n == bookmakers@.len(),
            i <= n,
            bookmaker_row(bookmakers@, key@, 0) == bookmaker_row(bookmakers@, key@, i as int),
        decreases n - i,
    {
        if same_text(bookmakers[i].key.as_str(), key) {
            return Some(i);
        }
        i = i + 1;
    }
    None
}

/// The key of the bookmaker of preference `k`.
fn preferred_key(k: usize) -> (key: &'static str)
    requires
        k < 5,
    ensures
        key@ == preferred()[k as int],
{
    if k == 0 {
        "pinnacle"
    } else if k == 1 {
        "betfair_ex_eu"
    } else if k == 2 {
        "betfair_ex_uk"
    } else if k == 3 {
        "williamhill"
    } else {
        "bet365"
    }
}

/// Picks the bookmaker whose prices are taken for an event.
pub fn best_bookmaker(event: &OddsEvent) -> (row: Option<usize>)
    ensures
        is_best_row(
            *event,
            match row {
                Some(r) => Some(r as int),
                None => None,
            },
        ),
        row is Some ==> row->0 < event.bookmakers@.len() && offered(
            event.bookmakers@[row->0 as int],
            event.home_team@,
            event.away_team@,
        ) is Some,
{
    let home: &str = event.home_team.as_str();
    let away: &str = event.away_team.as_str();
    let mut k: usize = 0;
    while k < 5
        invariant
            k <= 5,
            home@ == event.home_team@,
            away@ == event.away_team@,
            preferred_row(*event, 0) == preferred_row(*event, k as int),
        decreases 5 - k,
    {
        match find_bookmaker(&event.bookmakers, preferred_key(k)) {
            Some(row) => {
                if extract_prices(&event.bookmakers[row], home, away).is_some() {
                    return Some(row);
                }
            },
            None => {},
        }
        k = k + 1;
    }
    let n: usize = event.bookmakers.len();
    let mut keys: Vec<i64> = Vec::new();
    let mut keep: Vec<bool> = Vec::new();
    let mut i: usize = 0;
    while i < n
        invariant
            n == event.bookmakers@.len(),
            i <= n,
            home@ == event.home_team@,
            away@ == event.away_team@,
            keys@.len() == i,
            keep@.len() == i,
            forall|j: int| 0 <= j < i ==> #[trigger] keys@[j] == overrounds(*event)[j],
            forall|j: int| 0 <= j < i ==> #[trigger] keep@[j] == offering(*event)[j],
        decreases n - i,
    {
        match extract_prices(&event.bookmakers[i], home, away) {
            Some(p) => {
                keys.push(overround_of(p));
                keep.push(true);
            },
            None => {
                keys.push(0);
                keep.push(false);
            },
        }
        i = i + 1;
    }
    assert(keys@ =~= overrounds(*event));
    assert(keep@ =~= offering(*event));
    let rows: Vec<usize> = rank_indices(&keys, &keep, false, 1);
    if rows.len() == 0 {
        None
    } else {
        assert(keep@[rows@[0] as int]);
        Some(rows[0])
    }
}

/// `best` holds the prices taken for the event.
pub open spec fn is_best_odds(event: OddsEvent, best: Option<BestOdds>) -> bool {
    exists|row: Option<int>|
        #![trigger is_best_row(event, row)]
        is_best_row(event, row) && match row {
            None => best is None,
            Some(r) => {
                let p = offered(event.bookmakers@[r], event.home_team@, event.away_team@);
                &&& best is Some
                &&& p is Some
                &&& (best->0).home_odds == (p->0).home
                &&& (best->0).draw_odds == (p->0).draw
                &&& (best->0).away_odds == (p->0).away
                &&& (best->0).bookmaker@ == event.bookmakers@[r].title@
            },
        }
}

/// Takes the best odds on offer for an event: those of the first preferred
/// bookmaker that prices both teams, else those with the lowest overround.
pub fn best_odds(event: &OddsEvent) -> (best: Option<BestOdds>)
    ensures
        is_best_odds(*event, best),
        best is Some ==> (best->0).home_odds > ODDS_EVEN && (best->0).away_odds > ODDS_EVEN,
{
    match best_bookmaker(event) {
        None => {
            assert(is_best_row(*event, None));
            None
        },
        Some(row) => {
            assert(is_best_row(*event, Some(row as int)));
            let bookmaker: &Bookmaker = &event.bookmakers[row];
            match extract_prices(bookmaker, event.home_team.as_str(), event.away_team.as_str()) {
                Some(p) => Some(
                    BestOdds {
                        home_odds: p.home,
                        draw_odds: p.draw,
                        away_odds: p.away,
                        bookmaker: bookmaker.title.clone(),
                    },
                ),
                None => {
                    assert(false);
                    None
                },
            }
        },
    }
}

/// The match is the one that an event of the odds provider is about: it is
/// scheduled, kicks off within the window around the event's kick-off, and
/// its two teams are the event's.
pub open spec fn is_event_match(
    m: Match,
    home_team: Seq<char>,
    away_team: Seq<char>,
    commence_time: i64,
) -> bool {
    &&& m.status == MatchStatus::Scheduled
    &&& commence_time - MATCH_WINDOW_SECONDS <= m.match_date <= commence_time
        + MATCH_WINDOW_SECONDS
    &&& same_team(m.home_team_name@, home_team)
    &&& same_team(m.away_team_name@, away_team)
}

/// The row of the first match that an event is about, looking from row
/// `from` on.
pub open spec fn event_row(
    matches: Seq<Match>,
    home_team: Seq<char>,
    away_team: Seq<char>,
    commence_time: i64,
    from: int,
) -> Option<int>
    decreases matches.len() - from,
{
    if from < 0 || from >= matches.len() {
        None
    } else if is_event_match(matches[from], home_team, away_team, commence_time) {
        Some(from)
    } else {
        event_row(matches, home_team, away_team, commence_time, from + 1)
    }
}

/// Finds the match that an event of the odds provider is about.
pub fn find_match_row(
    matches: &Vec<Match>,
    home_team: &str,
    away_team: &str,
    commence_time: i64,
) -> (row: Option<usize>)
    ensures
        match row {
            Some(r) => event_row(matches@, home_team@, away_team@, commence_time, 0) == Some(
                r as int,
            ) && r < matches@.len(),
            None => event_row(matches@, home_team@, away_team@, commence_time, 0) is None,
        },
{
    let n: usize = matches.len();
    let mut i: usize = 0;
    while i < n
        invariant
            n == matches@.len(),
            i <= n,
            event_row(matches@, home_team@, away_team@, commence_time, 0) == event_row(
                matches@,
                home_team@,
                away_team@,
                commence_time,
                i as int,
            ),
        decreases n - i,
    {
        let m: &Match = &matches[i];
        let gap: i128 = m.match_date as i128 - commence_time as i128;
        if m.status == MatchStatus::Scheduled && -(MATCH_WINDOW_SECONDS as i128) <= gap && gap
            <= MATCH_WINDOW_SECONDS as i128 && names_match(m.home_team_name.as_str(), home_team)
            && names_match(m.away_team_name.as_str(), away_team) {
            return Some(i);
        }
        i = i + 1;
    }
    None
}

/// Finds the id of the match that an event of the odds provider is about.
pub fn find_match_id(
    matches: &Vec<Match>,
    home_team: &str,
    away_team: &str,
    commence_time: i64,
) -> (id: Option<String>)
    ensures
        match event_row(matches@, home_team@, away_team@, commence_time, 0) {
            Some(r) => id is Some && (id->0)@ == matches@[r].id@,
            None => id is None,
        },
{
    match find_match_row(matches, home_team, away_team, commence_time) {
        Some(row) => Some(matches[row].id.clone()),
        None => None,
    }
}

/// `quote` is the quote to store for the event: the best odds on offer,
/// under the id of the match that the event is about, fetched at `now`.
/// An event without usable odds, or without a match, has no quote.
pub open spec fn is_event_quote(
    event: OddsEvent,
    matches: Seq<Match>,
    now: i64,
    quote: Option<MarketOdds>,
) -> bool {
    let row = event_row(matches, event.home_team@, event.away_team@, event.commence_time, 0);
    exists|best: Option<BestOdds>|
        #![trigger is_best_odds(event, best)]
        is_best_odds(event, best) && if best is Some && row is Some {
            &&& quote is Some
            &&& (quote->0).match_id@ == matches[row->0].id@
            &&& (quote->0).bookmaker@ == (best->0).bookmaker@
            &&& (quote->0).home_odds == (best->0).home_odds
            &&& (quote->0).draw_odds == (best->0).draw_odds
            &&& (quote->0).away_odds == (best->0).away_odds
            &&& (quote->0).fetched_at == now
        } else {
            quote is None
        }
}

/// Makes the quote to store for an event of the odds provider.
pub fn event_quote(event: &OddsEvent, matches: &Vec<Match>, now: i64) -> (quote: Option<MarketOdds>)
    ensures
        is_event_quote(*event, matches@, now, quote),
{
    let best: Option<BestOdds> = best_odds(event);
    match best {
        None => {
            assert(is_best_odds(*event, None));
            None
        },
        Some(odds) => {
            let id: Option<String> = find_match_id(
                matches,
                event.home_team.as_str(),
                event.away_team.as_str(),
                event.commence_time,
            );
            assert(is_best_odds(*event, Some(odds)));
            match id {
                None => None,
                Some(match_id) => Some(
                    MarketOdds {
                        match_id,
                        bookmaker: odds.bookmaker,
                        home_odds: odds.home_odds,
                        draw_odds: odds.draw_odds,
                        away_odds: odds.away_odds,
                        fetched_at: now,
                    },
                ),
            }
        },
    }
}

/// Why the odds provider's answer cannot be used.
#[derive(Clone, Copy, Debug, PartialEq, Eq, Structural)]
pub enum OddsApiError {
    /// The provider does not know the key (status 401).
    InvalidKey,
    /// The sport is not part of the subscription (status 422).
    NotSubscribed,
    /// Any other status outside 200 to 299.
    Http(u16),
}

/// What an HTTP status of the odds provider means.
pub open spec fn status_meaning(status: u16) -> Result<(), OddsApiError> {
    if status == 401 {
        Err(OddsApiError::InvalidKey)
    } else if status == 422 {
        Err(OddsApiError::NotSubscribed)
    } else if 200 <= status <= 299 {
        Ok(())
    } else {
        Err(OddsApiError::Http(status))
    }
}

/// Reads an HTTP status of the odds provider.
pub fn check_status(status: u16) -> (r: Result<(), OddsApiError>)
    ensures
        r == status_meaning(status),
{
    if status == 401 {
        Err(OddsApiError::InvalidKey)
    } else if status == 422 {
        Err(OddsApiError::NotSubscribed)
    } else if 200 <= status && status <= 299 {
        Ok(())
    } else {
        Err(OddsApiError::Http(status))
    }
}

} // verus!
