//! Ratings, forecasts and market edges for team sports, in exact integer
//! arithmetic.
//!
//! The engine keeps a rating for every team, forecasts scheduled matches
//! with an ensemble of three sub-models, and compares its forecasts with
//! bookmaker quotes to find matches that the market misprices. A refresh
//! loop feeds it under the rate limits of its data providers.
//!
//! # Units
//!
//! Every quantity is an integer, so that every rule is a statement about
//! integers and every result is reproducible to the last digit:
//!
//! * probabilities, and shares of any kind: billionths ([`units::PROB_ONE`]);
//! * ratings: millionths of a rating point ([`units::RATING_POINT`]);
//! * decimal odds: thousandths ([`units::ODDS_EVEN`]);
//! * instants: seconds since the Unix epoch.
//!
//! Where a rule divides, the quotient is rounded down unless the rule says
//! otherwise, and the outcomes of a forecast are made to sum to one exactly
//! by giving the last outcome what is left.
//!
//! # The two curves
//!
//! Two values cannot be computed in integers: the rating curve
//! `1 / (1 + 10^(-gap / 400))`, which gives the expectation of the stronger
//! of two sides from the gap between their ratings, and the logistic curve
//! `1 / (1 + e^(-x))` of the form sub-model. The engine says at which point
//! it needs a curve ([`rating::RatingReplay::pending`],
//! [`predictor::MatchContext`]), the caller evaluates the curve there and
//! hands the value in, in billionths. Everything before and after is
//! computed here.
//!
//! # Modules
//!
//! * [`rating`]: how a result moves two ratings, and the replay that
//!   rebuilds every rating from the baseline;
//! * [`history`]: head-to-head tallies, recent form, rest days and season
//!   records, read from the list of matches;
//! * [`ensemble`]: the three sub-models, their combination, the rest-day
//!   adjustment and the confidence score;
//! * [`predictor`]: from a fixture to a forecast;
//! * [`market`]: devigging, edges, and the scan for mispriced matches;
//! * [`quotes`]: choosing a bookmaker's prices and matching events to
//!   matches by team name;
//! * [`scheduler`] and [`paging`]: which source to call when, retries and
//!   pagination;
//! * [`ingest`]: the providers' records and their conversion;
//! * [`select`], [`text`], [`dates`], [`units`], [`utils`]: the tools the
//!   others share.

pub mod dates;
pub mod ensemble;
pub mod history;
pub mod ingest;
pub mod market;
pub mod models;
pub mod paging;
pub mod predictor;
pub mod quotes;
pub mod rating;
pub mod scheduler;
pub mod select;
pub mod text;
pub mod units;
pub mod utils;
