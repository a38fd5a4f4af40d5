//! The command line's settings, and the parsing of what it is given as text.

use vstd::prelude::*;
use vstd::string::StringExecFns;
use crate::cycle::{period_for_rate, period_of_rate};
use crate::error::FloodError;
use crate::exec::{ConfigError, ExecutionOptions, PhasePlan, Plans};
use crate::histogram::pow10;
use crate::interval::Interval;
use crate::numeral::{digits_text, hex_i32_value, parse_hex_i32, push_digits};
use crate::params::{
    calls_of, expand_ranges, expansion, json_array_text, lists_of, rpc_params, value_or_string,
    values_or_strings, Expansion, ParamsError, RpcParams, RpcParamsView,
};
use crate::text::{
    chars_of, join_with, joined, push_char, replace_char, replaced, same_text, skip_prefixes,
    split, split_by, string_of, strip_prefixes, texts_of, views_of,
};

verus! {

/// `PathBuf` of std: the path of a file. Nothing is stated of what it holds.
#[verifier::external_type_specification]
#[verifier::external_body]
pub struct ExPathBuf(std::path::PathBuf);

/// The settings of a benchmark of one remote procedure.
#[derive(Clone, Debug)]
pub struct RpcCommand {
    /// The name of the procedure.
    pub method: Option<String>,
    /// The lists of parameters, one list for each call.
    pub params: Option<Vec<Vec<String>>>,
    /// Whether the parameters are one piece of JSON to be sent as it is.
    pub raw: bool,
    /// The number of cycles or the time of the warm-up.
    pub warmup_duration: Interval,
    /// The number of cycles or the time of the run itself.
    pub run_duration: Interval,
    /// The number of worker threads, at least one.
    pub threads: usize,
    /// The number of cycles that one thread keeps in flight, at least one.
    pub concurrency: usize,
    /// The period of sampling.
    pub sampling_interval: Interval,
    /// Labels that are added to the report.
    pub tags: Vec<String>,
    /// A file of calls to read in place of `method` and `params`.
    pub input: Option<std::path::PathBuf>,
    /// Where the report is written.
    pub output: Option<std::path::PathBuf>,
    /// A report of an earlier run to compare with.
    pub baseline: Option<std::path::PathBuf>,
    /// Whether the progress bar is left out.
    pub quiet: bool,
    /// Whether the calls of a cycle are sent in a random order.
    pub random: bool,
    /// Whether a cycle sends one call, picked at random.
    pub choose: bool,
    /// The addresses of the node.
    pub rpc_url: Vec<String>,
    /// Whether the rate climbs in stages, each ten times the one before.
    pub exp_ramp: bool,
    /// The start of the run, in seconds since the first of January 1970.
    pub timestamp: Option<i64>,
    /// The number of calls in one cycle.
    pub num_req: Option<usize>,
    /// The name of the network.
    pub cluster_name: Option<String>,
    /// The identifier of the chain.
    pub chain_id: Option<String>,
}

/// The settings for showing one report, or two side by side.
#[derive(Debug)]
pub struct ShowCommand {
    /// The report to show.
    pub report: std::path::PathBuf,
    /// A second report to compare with.
    pub baseline: Option<std::path::PathBuf>,
}

/// The settings for writing the histograms of a report as an interval log.
#[derive(Debug)]
pub struct HdrCommand {
    /// The report to read.
    pub report: std::path::PathBuf,
    /// Where the log is written; the standard output where it is `None`.
    pub output: Option<std::path::PathBuf>,
    /// A prefix for the tag of every histogram.
    pub tag: Option<String>,
}

/// The error for a range that is not two parts around one `..`.
pub const INVALID_RANGE_FORMAT: &'static str = "Invalid range format. Use START..END or START..=END";

/// The error for a range whose start is above its end.
pub const INVALID_RANGE_ORDER: &'static str = "Start value cannot be greater than end value";

/// The error for a range with a bound that is no 32-bit number in base 16.
pub const INVALID_RANGE_BOUND: &'static str = "Range bounds must be hexadecimal 32-bit integers";

/// What a range written as text stands for.
pub enum RangeOutcome {
    /// The values of the range, each written out, in rising order.
    Items(Seq<Seq<char>>),
    /// The text is not two parts around one `..`.
    BadFormat,
    /// A bound is not a number.
    BadBound,
    /// The start is above the end.
    BadOrder,
}

/// The text `0x` followed by the 32 bits of `x` in base 16, at least two digits.
pub open spec fn hex_item(x: int) -> Seq<char> {
    let bits: nat = if x < 0 {
        (x + 0x1_0000_0000) as nat
    } else {
        x as nat
    };
    seq!['0', 'x'] + digits_text(bits, 16, 2)
}

/// What `parse_range` makes of `input`.
///
/// The text is split at `..`; the first part is the start, the second the end, which is
/// taken in where it begins with `=`. A start may carry `0x` in front, an end `0x`, and an
/// end that is taken in must carry `=0x`.
pub open spec fn range_outcome(input: Seq<char>) -> RangeOutcome {
    let parts = split_by(input, seq!['.', '.']);
    if parts.len() != 2 {
        RangeOutcome::BadFormat
    } else {
        let inclusive = parts[1].len() > 0 && parts[1][0] == '=';
        let start = hex_i32_value(strip_prefixes(parts[0], seq!['0', 'x']));
        let end = if inclusive {
            hex_i32_value(strip_prefixes(parts[1], seq!['=', '0', 'x']))
        } else {
            hex_i32_value(strip_prefixes(parts[1], seq!['0', 'x']))
        };
        if start is None || end is None {
            RangeOutcome::BadBound
        } else if start->0 > end->0 {
            RangeOutcome::BadOrder
        } else {
            let count = if inclusive {
                end->0 - start->0 + 1
            } else {
                end->0 - start->0
            };
            RangeOutcome::Items(Seq::new(count as nat, |k: int| hex_item(start->0 + k)))
        }
    }
}

/// Expands a range of hexadecimal numbers, `START..END` or `START..=END`, into its values.
pub fn parse_range(input: &str) -> (r: Result<Vec<String>, &'static str>)
    ensures
        match range_outcome(input@) {
            RangeOutcome::Items(items) => r matches Ok(v) && texts_of(v@) == items,
            RangeOutcome::BadFormat => r matches Err(e) && e@ == INVALID_RANGE_FORMAT@,
            RangeOutcome::BadBound => r matches Err(e) && e@ == INVALID_RANGE_BOUND@,
            RangeOutcome::BadOrder => r matches Err(e) && e@ == INVALID_RANGE_ORDER@,
        },
{
    let chars = chars_of(input);
    let dots: Vec<char> = vec!['.', '.'];
    let zero_x: Vec<char> = vec!['0', 'x'];
    let eq_zero_x: Vec<char> = vec!['=', '0', 'x'];
    assert(dots@ =~= seq!['.', '.']);
    assert(zero_x@ =~= seq!['0', 'x']);
    assert(eq_zero_x@ =~= seq!['=', '0', 'x']);
    let parts = split(&chars, &dots);
    assert(views_of(parts@).len() == parts@.len());
    if parts.len() != 2 {
        return Err(INVALID_RANGE_FORMAT);
    }
    assert(views_of(parts@)[0] == parts@[0]@);
    assert(views_of(parts@)[1] == parts@[1]@);
    let first = &parts[0];
    let second = &parts[1];
    let inclusive = second.len() > 0 && second[0] == '=';
    assert(first@.skip(0) =~= first@);
    assert(second@.skip(0) =~= second@);
    let start_at = skip_prefixes(first, 0, &zero_x);
    let start = parse_hex_i32(first, start_at);
    let end_at = if inclusive {
        skip_prefixes(second, 0, &eq_zero_x)
    } else {
        skip_prefixes(second, 0, &zero_x)
    };
    let end = parse_hex_i32(second, end_at);
    let (lo, hi): (i32, i32) = match (start, end) {
        (Some(a), Some(b)) => (a, b),
        _ => {
            return Err(INVALID_RANGE_BOUND);
        },
    };
    if lo > hi {
        return Err(INVALID_RANGE_ORDER);
    }
    let stop: i64 = if inclusive {
        hi as i64 + 1
    } else {
        hi as i64
    };
    let mut items: Vec<String> = Vec::new();
    let mut x: i64 = lo as i64;
    while x < stop
        invariant
            lo <= x <= stop <= hi + 1,
            texts_of(items@) == Seq::new((x - lo) as nat, |k: int| hex_item(lo + k)),
        decreases stop - x,
    {
        let bits: u64 = if x < 0 {
            (x + 0x1_0000_0000) as u64
        } else {
            x as u64
        };
        let mut item = String::new();
        push_char(&mut item, '0');
        push_char(&mut item, 'x');
        push_digits(&mut item, bits, 16, 2);
        assert(item@ =~= hex_item(x as int));
        let ghost before = texts_of(items@);
        items.push(item);
        assert(texts_of(items@) =~= before.push(item@));
        assert(before.push(item@) =~= Seq::new((x + 1 - lo) as nat, |k: int| hex_item(lo + k)));
        x = x + 1;
    }
    Ok(items)
}

/// Splits a list of parameters at every single space.
pub fn parse_params(s: &str) -> (r: Result<Vec<String>, String>)
    ensures
        r matches Ok(v) && texts_of(v@) == split_by(s@, seq![' ']),
{
    let chars = chars_of(s);
    let space: Vec<char> = vec![' '];
    assert(space@ =~= seq![' ']);
    let pieces = split(&chars, &space);
    let mut out: Vec<String> = Vec::new();
    let mut i: usize = 0;
    while i < pieces.len()
        invariant
            i <= pieces.len(),
            texts_of(out@) == views_of(pieces@).take(i as int),
        decreases pieces.len() - i,
    {
        let piece = &pieces[i];
        let text = string_of(piece, 0, piece.len());
        assert(piece@.subrange(0, piece@.len() as int) =~= piece@);
        let ghost before = texts_of(out@);
        out.push(text);
        assert(texts_of(out@) =~= before.push(text@));
        assert(views_of(pieces@).take(i + 1) =~= views_of(pieces@).take(i as int).push(piece@));
        i = i + 1;
    }
    assert(views_of(pieces@).take(pieces@.len() as int) =~= views_of(pieces@));
    Ok(out)
}

/// The format of the time in the name of a report.
pub const STAMP_FORMAT: &'static str = "%Y%m%d.%H%M%S";

/// `Local::now` and `DateTime::format` of `chrono`: the local time of the call, written in
/// the format of a report's name. Nothing is promised of the text.
#[verifier::external_body]
fn local_stamp(format: &str) -> (stamp: String)
    requires
        format@ == STAMP_FORMAT@,
{
    chrono::Local::now().format(format).to_string()
}

/// `Utc::now` and `DateTime::timestamp` of `chrono`: the seconds from the first of January
/// 1970 to the call. Nothing is promised of the number.
#[verifier::external_body]
fn unix_now() -> (seconds: i64) {
    chrono::Utc::now().timestamp()
}

impl RpcCommand {
    /// The name of the benchmark: the method, or `default` where none is given.
    pub open spec fn name_text(self) -> Seq<char> {
        match self.method {
            Some(method) => method@,
            None => "default"@,
        }
    }

    /// The parts of the name of a report for a run that was stamped `stamp`: the name of
    /// the benchmark, the name of the network with `_` for its spaces, the chain, the tags,
    /// the concurrency after a `p`, the threads after a `t`, and the stamp.
    pub open spec fn file_name_parts(self, stamp: Seq<char>) -> Seq<Seq<char>> {
        seq![self.name_text()] + match self.cluster_name {
            Some(name) => seq![replaced(name@, ' ', '_')],
            None => Seq::empty(),
        } + match self.chain_id {
            Some(chain) => seq![chain@],
            None => Seq::empty(),
        } + texts_of(self.tags@) + seq![
            seq!['p'] + digits_text(self.concurrency as nat, 10, 1),
            seq!['t'] + digits_text(self.threads as nat, 10, 1),
            stamp,
        ]
    }

    /// The name of a report with the ending `extension`, for a run that was stamped
    /// `stamp`: the parts and the ending, with a dot between each two.
    pub open spec fn file_name(self, extension: Seq<char>, stamp: Seq<char>) -> Seq<char> {
        joined(self.file_name_parts(stamp), seq!['.']) + seq!['.'] + extension
    }

    /// The settings with the start of the run at `now`, unless they hold a start already.
    pub open spec fn stamped(self, now: i64) -> RpcCommand {
        RpcCommand {
            timestamp: match self.timestamp {
                Some(t) => Some(t),
                None => Some(now),
            },
            ..self
        }
    }

    /// The calls that `parse_params` owes.
    pub open spec fn calls(self) -> Result<Seq<(Seq<char>, RpcParamsView)>, ParamsError> {
        match (self.params, self.method) {
            (None, _) => Err(ParamsError::MissingParams),
            (Some(_), None) => Err(ParamsError::MissingMethod),
            (Some(params), Some(method)) => match expansion(lists_of(params@)) {
                Expansion::Lists(lists) => Ok(
                    lists.map_values(|list: Seq<Seq<char>>| (method@, rpc_params(list, self.raw))),
                ),
                Expansion::RepeatedRange => Err(ParamsError::RepeatedRange),
                Expansion::InvalidRange(bad) => Err(
                    ParamsError::InvalidRange(
                        match bad {
                            RangeOutcome::BadFormat => INVALID_RANGE_FORMAT,
                            RangeOutcome::BadOrder => INVALID_RANGE_ORDER,
                            _ => INVALID_RANGE_BOUND,
                        },
                    ),
                ),
            },
        }
    }

    /// The parameters that the tokens of one call stand for.
    pub fn parse_rpc_params(params: &Vec<String>, raw: bool) -> (r: RpcParams)
        ensures
            r@ == rpc_params(texts_of(params@), raw),
    {
        if raw {
            if params.len() == 0 {
                RpcParams::Stdin
            } else {
                proof {
                    reveal_strlit(" ");
                    assert(" "@ =~= seq![' ']);
                }
                RpcParams::Json(value_or_string(join_with(params, " ").as_str()))
            }
        } else {
            RpcParams::Json(json_array_text(&values_or_strings(params)))
        }
    }

    /// The calls that the command line lists, each with the method and its parameters. A
    /// range among the parameters stands for one call for each of its values. The file of
    /// calls that `input` may name is not read here.
    pub fn parse_params(&self) -> (r: Result<Vec<(String, RpcParams)>, ParamsError>)
        ensures
            match self.calls() {
                Ok(calls) => r matches Ok(v) && calls_of(v@) == calls,
                Err(ParamsError::InvalidRange(text)) => r matches Err(ParamsError::InvalidRange(e))
                    && e@ == text@,
                Err(error) => r == Err::<Vec<(String, RpcParams)>, ParamsError>(error),
            },
    {
        let params = match &self.params {
            Some(params) => params,
            None => {
                return Err(ParamsError::MissingParams);
            },
        };
        let method = match &self.method {
            Some(method) => method,
            None => {
                return Err(ParamsError::MissingMethod);
            },
        };
        let lists = match expand_ranges(params) {
            Ok(lists) => lists,
            Err(e) => {
                return Err(e);
            },
        };
        let mut calls: Vec<(String, RpcParams)> = Vec::new();
        let mut i: usize = 0;
        while i < lists.len()
            invariant
                i <= lists.len(),
                calls_of(calls@) == lists_of(lists@).take(i as int).map_values(
                    |list: Seq<Seq<char>>| (method@, rpc_params(list, self.raw)),
                ),
            decreases lists.len() - i,
        {
            let ghost before = calls_of(calls@);
            let call = (method.clone(), Self::parse_rpc_params(&lists[i], self.raw));
            calls.push(call);
            proof {
                assert(calls_of(calls@) =~= before.push((call.0@, call.1@)));
                assert(lists_of(lists@).take(i + 1) =~= lists_of(lists@).take(i as int).push(
                    texts_of(lists@[i as int]@),
                ));
                assert(lists_of(lists@).take(i + 1).map_values(
                    |list: Seq<Seq<char>>| (method@, rpc_params(list, self.raw)),
                ) =~= before.push((call.0@, call.1@)));
            }
            i = i + 1;
        }
        assert(lists_of(lists@).take(lists@.len() as int) =~= lists_of(lists@));
        Ok(calls)
    }

    /// The settings with the start of the run at `now`, unless they hold a start already.
    pub fn with_timestamp(self, now: i64) -> (r: RpcCommand)
        ensures
            r == self.stamped(now),
    {
        let mut conf = self;
        if conf.timestamp.is_none() {
            conf.timestamp = Some(now);
        }
        conf
    }

    /// The settings with the start of the run at the time of the call, unless they hold a
    /// start already.
    pub fn set_timestamp_if_empty(self) -> (r: RpcCommand)
        ensures
            exists|now: i64| r == self.stamped(now),
    {
        let now = unix_now();
        self.with_timestamp(now)
    }

    /// The settings with the number of calls in a cycle, unless they hold one already: one
    /// where a cycle sends a call picked at random, else `num_req`.
    pub fn set_num_req(self, num_req: usize) -> (r: RpcCommand)
        ensures
            r == (RpcCommand {
                num_req: match self.num_req {
                    Some(n) => Some(n),
                    None => Some(
                        if self.choose {
                            1usize
                        } else {
                            num_req
                        },
                    ),
                },
                ..self
            }),
    {
        let mut conf = self;
        if conf.num_req.is_none() {
            if conf.choose {
                conf.num_req = Some(1);
            } else {
                conf.num_req = Some(num_req);
            }
        }
        conf
    }

    /// The rates of a climb in six stages, in cycles each second, for cycles of `num_req`
    /// calls: ten calls each second to begin with, then ten times the stage before.
    pub fn exp_ramp(num_req: usize) -> (rates: Vec<u64>)
        requires
            num_req > 0,
        ensures
            rates@.len() == 6,
            forall|k: int| 0 <= k < 6 ==> rates@[k] == (10int / num_req as int) * pow10(k as nat),
    {
        let mut rates: Vec<u64> = Vec::new();
        let start: u64 = (10 / num_req) as u64;
        let mut rate: u64 = start;
        assert(start * pow10(0) == start) by (nonlinear_arith)
            requires
                pow10(0) == 1,
        ;
        while rates.len() < 6
            invariant
                start == 10int / num_req as int,
                start <= 10,
                rates@.len() <= 6,
                rate == start * pow10(rates@.len()),
                forall|k: int| 0 <= k < rates@.len() ==> rates@[k] == start * pow10(k as nat),
            decreases 6 - rates@.len(),
        {
            proof {
                reveal_with_fuel(pow10, 8);
                assert(pow10(rates@.len()) <= 100_000);
                assert(start * pow10(rates@.len()) <= 1_000_000) by (nonlinear_arith)
                    requires
                        start <= 10,
                        pow10(rates@.len()) <= 100_000,
                ;
                assert(start * pow10(rates@.len() + 1) == start * pow10(rates@.len()) * 10)
                    by (nonlinear_arith)
                    requires
                        pow10(rates@.len() + 1) == 10 * pow10(rates@.len()),
                ;
            }
            rates.push(rate);
            rate = rate * 10;
        }
        rates
    }

    /// The times between two cycles, in nanoseconds, of a climb in six stages for cycles
    /// of `num_req` calls: the periods of the rates of `exp_ramp`.
    pub fn ramp_periods(num_req: usize) -> (periods: Vec<u64>)
        requires
            num_req > 0,
        ensures
            periods@.len() == 6,
            forall|k: int|
                0 <= k < 6 ==> #[trigger] periods@[k] == period_of_rate(
                    ((10int / num_req as int) * pow10(k as nat)) as u64,
                ),
    {
        let rates = Self::exp_ramp(num_req);
        let mut periods: Vec<u64> = Vec::new();
        let mut k: usize = 0;
        while k < 6
            invariant
                k <= 6,
                rates@.len() == 6,
                periods@.len() == k,
                forall|i: int| 0 <= i < k ==> #[trigger] periods@[i] == period_of_rate(rates@[i]),
            decreases 6 - k,
        {
            periods.push(period_for_rate(rates[k]));
            k = k + 1;
        }
        periods
    }

    /// The name of the benchmark: the method, or `default` where none is given.
    pub fn name(&self) -> (r: String)
        ensures
            r@ == self.name_text(),
    {
        match &self.method {
            Some(method) => method.clone(),
            None => "default".to_owned(),
        }
    }

    /// The name of a report with the ending `extension`, for a run that was stamped
    /// `stamp`.
    pub fn output_file_name(&self, extension: &str, stamp: String) -> (r: String)
        ensures
            r@ == self.file_name(extension@, stamp@),
    {
        let mut parts: Vec<String> = Vec::new();
        parts.push(self.name());
        assert(texts_of(parts@) =~= seq![self.name_text()]);
        match &self.cluster_name {
            Some(name) => {
                let ghost before = texts_of(parts@);
                let part = replace_char(name.as_str(), ' ', '_');
                parts.push(part);
                assert(texts_of(parts@) =~= before + seq![replaced(name@, ' ', '_')]);
            },
            None => {
                assert(texts_of(parts@) =~= texts_of(parts@) + Seq::<Seq<char>>::empty());
            },
        }
        match &self.chain_id {
            Some(chain) => {
                let ghost before = texts_of(parts@);
                parts.push(chain.clone());
                assert(texts_of(parts@) =~= before + seq![chain@]);
            },
            None => {
                assert(texts_of(parts@) =~= texts_of(parts@) + Seq::<Seq<char>>::empty());
            },
        }
        let ghost head = texts_of(parts@);
        let mut i: usize = 0;
        while i < self.tags.len()
            invariant
                i <= self.tags.len(),
                texts_of(parts@) == head + texts_of(self.tags@).take(i as int),
            decreases self.tags.len() - i,
        {
            let ghost before = texts_of(parts@);
            parts.push(self.tags[i].clone());
            assert(texts_of(parts@) =~= before.push(self.tags@[i as int]@));
            assert(texts_of(self.tags@).take(i + 1) =~= texts_of(self.tags@).take(i as int).push(
                self.tags@[i as int]@,
            ));
            i = i + 1;
        }
        assert(texts_of(self.tags@).take(self.tags@.len() as int) =~= texts_of(self.tags@));
        let mut concurrency = String::new();
        push_char(&mut concurrency, 'p');
        push_digits(&mut concurrency, self.concurrency as u64, 10, 1);
        let mut threads = String::new();
        push_char(&mut threads, 't');
        push_digits(&mut threads, self.threads as u64, 10, 1);
        let ghost before = texts_of(parts@);
        parts.push(concurrency);
        parts.push(threads);
        parts.push(stamp);
        proof {
            assert(concurrency@ =~= seq!['p'] + digits_text(self.concurrency as nat, 10, 1));
            assert(threads@ =~= seq!['t'] + digits_text(self.threads as nat, 10, 1));
            assert(texts_of(parts@) =~= before + seq![concurrency@, threads@, stamp@]);
            assert(texts_of(parts@) =~= self.file_name_parts(stamp@));
            reveal_strlit(".");
            assert("."@ =~= seq!['.']);
        }
        let mut name = join_with(&parts, ".");
        push_char(&mut name, '.');
        name.append(extension);
        assert(name@ =~= self.file_name(extension@, stamp@));
        name
    }

    /// The name that is suggested for the report of a run, with the ending `extension`. It
    /// carries the local time of the call.
    pub fn default_output_file_name(&self, extension: &str) -> (r: String)
        ensures
            exists|stamp: Seq<char>| r@ == self.file_name(extension@, stamp),
    {
        let stamp = local_stamp(STAMP_FORMAT);
        self.output_file_name(extension, stamp)
    }

    /// The plan of the warm-up: none where the warm-up asks for no work; else a phase of
    /// the length of the warm-up that is not paced and not sampled.
    pub fn warmup_plan(&self) -> (r: Option<PhasePlan>)
        ensures
            r is Some <==> self.warmup_duration.not_zero(),
            r matches Some(plan) ==> {
                &&& plan.options.duration == self.warmup_duration
                &&& plan.options.periods@ == Seq::<u64>::empty()
                &&& plan.options.threads == self.threads
                &&& plan.options.concurrency == self.concurrency
                &&& plan.sampling == Interval::Unbounded
            },
    {
        if self.warmup_duration.is_not_zero() {
            Some(
                PhasePlan {
                    options: ExecutionOptions {
                        duration: self.warmup_duration,
                        periods: Vec::new(),
                        threads: self.threads,
                        concurrency: self.concurrency,
                    },
                    sampling: Interval::Unbounded,
                },
            )
        } else {
            None
        }
    }

    /// Plans the phases of the benchmark, with the main phase paced by `periods`. A
    /// benchmark without a thread, or with threads that may keep no cycle in flight, is
    /// refused before any of its phases starts.
    pub fn plan_phases(&self, periods: Vec<u64>) -> (r: Result<Plans, FloodError>)
        ensures
            self.threads == 0 ==> r == Err::<Plans, FloodError>(
                FloodError::Config(ConfigError::NoThreads),
            ),
            self.threads > 0 && self.concurrency == 0 ==> r == Err::<Plans, FloodError>(
                FloodError::Config(ConfigError::NoConcurrency),
            ),
            self.threads > 0 && self.concurrency > 0 ==> (r matches Ok(plans) && {
                &&& plans.run.options.duration == self.run_duration
                &&& plans.run.options.periods == periods
                &&& plans.run.options.threads == self.threads
                &&& plans.run.options.concurrency == self.concurrency
                &&& plans.run.sampling == self.sampling_interval
                &&& plans.warmup is Some <==> self.warmup_duration.not_zero()
                &&& plans.warmup matches Some(warmup) ==> {
                    &&& warmup.options.duration == self.warmup_duration
                    &&& warmup.options.periods@ == Seq::<u64>::empty()
                    &&& warmup.options.threads == self.threads
                    &&& warmup.options.concurrency == self.concurrency
                    &&& warmup.sampling == Interval::Unbounded
                }
            }),
    {
        let run = self.run_plan(periods);
        match run.options.validate() {
            Err(e) => Err(FloodError::Config(e)),
            Ok(()) => Ok(Plans { warmup: self.warmup_plan(), run }),
        }
    }

    /// The plan of the main phase: a phase of the length of the run, paced by `periods`
    /// and sampled at the sampling period.
    pub fn run_plan(&self, periods: Vec<u64>) -> (plan: PhasePlan)
        ensures
            plan.options.duration == self.run_duration,
            plan.options.periods == periods,
            plan.options.threads == self.threads,
            plan.options.concurrency == self.concurrency,
            plan.sampling == self.sampling_interval,
    {
        PhasePlan {
            options: ExecutionOptions {
                duration: self.run_duration,
                periods,
                threads: self.threads,
                concurrency: self.concurrency,
            },
            sampling: self.sampling_interval,
        }
    }
}

/// Whether `c` may not stand in the tag of a histogram: a comma, a space, a line feed or a
/// tab.
pub open spec fn breaks_tag(c: char) -> bool {
    c == ',' || c == ' ' || c == '\n' || c == '\t'
}

/// The prefix that the tag `tag` gives to the tags of the histograms: nothing without a
/// tag, else the tag and a dot. `None` where the tag holds a character that may not stand
/// in one.
pub open spec fn tag_prefix_of(tag: Option<Seq<char>>) -> Option<Seq<char>> {
    match tag {
        None => Some(Seq::empty()),
        Some(text) => if exists|i: int| 0 <= i < text.len() && breaks_tag(text[i]) {
            None
        } else {
            Some(text + seq!['.'])
        },
    }
}

impl HdrCommand {
    /// The prefix for the tags of the histograms in the log, or `None` where the tag given
    /// holds a comma or white space.
    pub fn tag_prefix(&self) -> (r: Option<String>)
        ensures
            match tag_prefix_of(
                match self.tag {
                    Some(tag) => Some(tag@),
                    None => None,
                },
            ) {
                Some(prefix) => r matches Some(text) && text@ == prefix,
                None => r is None,
            },
    {
        match &self.tag {
            None => Some(String::new()),
            Some(tag) => {
                let chars = chars_of(tag.as_str());
                let mut i: usize = 0;
                while i < chars.len()
                    invariant
                        i <= chars.len(),
                        chars@ == tag@,
                        self.tag == Some(*tag),
                        forall|k: int| 0 <= k < i ==> !breaks_tag(chars@[k]),
                    decreases chars.len() - i,
                {
                    let c = chars[i];
                    if c == ',' || c == ' ' || c == '\n' || c == '\t' {
                        assert(breaks_tag(tag@[i as int]));
                        return None;
                    }
                    i = i + 1;
                }
                let mut prefix = tag.clone();
                push_char(&mut prefix, '.');
                assert(prefix@ =~= tag@ + seq!['.']);
                Some(prefix)
            },
        }
    }

    /// The tags of the two histograms of every sample in the log, the one of the cycles
    /// and the one of the calls: the prefix, then `cycles` and `requests`. `None` where the
    /// tag given holds a comma or white space.
    pub fn histogram_tags(&self) -> (r: Option<(String, String)>)
        ensures
            match tag_prefix_of(
                match self.tag {
                    Some(tag) => Some(tag@),
                    None => None,
                },
            ) {
                Some(prefix) => r matches Some(tags) && tags.0@ == prefix + "cycles"@ && tags.1@
                    == prefix + "requests"@,
                None => r is None,
            },
    {
        match self.tag_prefix() {
            Some(prefix) => {
                let mut cycles = prefix.clone();
                cycles.append("cycles");
                let mut requests = prefix;
                requests.append("requests");
                Some((cycles, requests))
            },
            None => None,
        }
    }
}

/// The error for a file of calls whose name does not end in `.json`.
pub const NOT_A_JSON_FILE: &'static str = "Error: File is not a .json file";

/// The error for a file of calls whose name has no ending.
pub const NO_FILE_EXTENSION: &'static str = "Error: File does not have an extension";

/// What is wrong with a file of calls whose name ends in `extension`, if anything: the
/// ending must be `json`.
pub fn input_extension_error(extension: Option<&str>) -> (r: Option<&'static str>)
    ensures
        match extension {
            None => r matches Some(e) && e@ == NO_FILE_EXTENSION@,
            Some(ending) => if ending@ == "json"@ {
                r is None
            } else {
                r matches Some(e) && e@ == NOT_A_JSON_FILE@
            },
        },
{
    match extension {
        None => Some(NO_FILE_EXTENSION),
        Some(ending) => if same_text(ending, "json") {
            None
        } else {
            Some(NOT_A_JSON_FILE)
        },
    }
}

} // verus!
