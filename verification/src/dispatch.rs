//! The periodic fetch-and-report cycle as a state machine.
//!
//! The dispatcher decides; its caller waits for the timer, performs each
//! request and hands back what came of it.
use vstd::prelude::*;
use vstd::string::StringExecFns;
use crate::config::{Config, ConfigError};
use crate::quotes::Quote;
use crate::report::{report_line, report_line_of, summarize, summary_of};

verus! {

/// One request to the provider: the quotes of `symbol` from `start` to
/// `end`, both in seconds since the epoch.
#[derive(Clone, Debug, PartialEq, Eq)]
pub struct PeriodRequest {
    pub symbol: String,
    pub start: i64,
    pub end: i64,
}

/// What a [`PeriodRequest`] holds, with the symbol as a sequence of
/// characters.
pub struct RequestModel {
    pub symbol: Seq<char>,
    pub start: i64,
    pub end: i64,
}

impl View for PeriodRequest {
    type V = RequestModel;

    open spec fn view(&self) -> RequestModel {
        RequestModel { symbol: self.symbol@, start: self.start, end: self.end }
    }
}

/// What came of one request.
#[derive(Clone, Debug, PartialEq, Eq)]
pub enum FetchOutcome {
    /// The provider answered with these quotes, possibly none.
    Quotes(Vec<Quote>),
    /// The request failed; holds the provider's message.
    Failed(String),
}

/// What is to be written for one symbol in one tick.
#[derive(Clone, Debug, PartialEq, Eq)]
pub enum Emission {
    /// A line for the stream of comma-separated values.
    Line(String),
    /// Nothing: the provider had no quotes.
    Nothing,
    /// A message for the diagnostic stream.
    Diagnostic(String),
}

/// What an [`Emission`] holds, with texts as sequences of characters.
pub enum Emitted {
    Line(Seq<char>),
    Nothing,
    Diagnostic(Seq<char>),
}

impl View for Emission {
    type V = Emitted;

    open spec fn view(&self) -> Emitted {
        match self {
            Emission::Line(text) => Emitted::Line(text@),
            Emission::Nothing => Emitted::Nothing,
            Emission::Diagnostic(text) => Emitted::Diagnostic(text@),
        }
    }
}

/// The diagnostic for a request that failed.
pub open spec fn failure_text_of(symbol: Seq<char>, message: Seq<char>) -> Seq<char> {
    "Ignoring API error for symbol '"@ + symbol + "': "@ + message
}

/// The diagnostic for quotes whose last time lies beyond the calendar.
pub open spec fn undated_text_of(symbol: Seq<char>) -> Seq<char> {
    "Ignoring quotes for symbol '"@ + symbol + "': time out of range"@
}

/// What is written for `symbol` given the outcome of its request: a
/// diagnostic for a failure, nothing for no quotes, and for quotes the line
/// of their statistics.
pub open spec fn emission_of(symbol: Seq<char>, outcome: FetchOutcome) -> Emitted {
    match outcome {
        FetchOutcome::Failed(message) => Emitted::Diagnostic(failure_text_of(symbol, message@)),
        FetchOutcome::Quotes(quotes) => match summary_of(symbol, quotes@) {
            None => Emitted::Nothing,
            Some(stats) => match report_line_of(stats) {
                Some(line) => Emitted::Line(line),
                None => Emitted::Diagnostic(undated_text_of(symbol)),
            },
        },
    }
}

/// Decides what to write for one symbol from the outcome of its request.
pub fn process_outcome(symbol: &str, outcome: FetchOutcome) -> (r: Emission)
    ensures
        r@ == emission_of(symbol@, outcome),
{
    match outcome {
        FetchOutcome::Failed(message) => {
            let mut text = String::from_str("Ignoring API error for symbol '");
            text.append(symbol);
            text.append("': ");
            text.append(message.as_str());
            Emission::Diagnostic(text)
        },
        FetchOutcome::Quotes(quotes) => match summarize(symbol, quotes) {
            None => Emission::Nothing,
            Some(stats) => match report_line(&stats) {
                Some(line) => Emission::Line(line),
                None => {
                    let mut text = String::from_str("Ignoring quotes for symbol '");
                    text.append(symbol);
                    text.append("': time out of range");
                    Emission::Diagnostic(text)
                },
            },
        },
    }
}

/// Where the dispatcher stands in its cycle.
#[derive(Clone, Copy, Debug, PartialEq, Eq, Structural)]
pub enum Phase {
    /// Waiting for the next tick.
    Idle,
    /// In a tick whose period ends at `period_end`; the request for the
    /// symbol at index `next` is under way.
    Dispatching { period_end: i64, next: usize },
}

/// The phase after the request under way has ended, however it ended, in a
/// dispatcher that tracks `count` symbols: the next symbol of the tick, or
/// idle behind the last.
pub open spec fn advance(phase: Phase, count: nat) -> Phase {
    match phase {
        Phase::Idle => Phase::Idle,
        Phase::Dispatching { period_end, next } => if next + 1 < count {
            Phase::Dispatching { period_end, next: (next + 1) as usize }
        } else {
            Phase::Idle
        },
    }
}

/// The phase after `outcomes` requests in a row have ended.
pub open spec fn advance_by(phase: Phase, count: nat, outcomes: nat) -> Phase
    decreases outcomes,
{
    if outcomes == 0 {
        phase
    } else {
        advance(advance_by(phase, count, (outcomes - 1) as nat), count)
    }
}

/// A failed request does not stop the tick. Whatever the outcomes are, once
/// `outcomes` requests of a tick have ended the request for the next symbol
/// is under way, and once the request for the last symbol has ended the
/// dispatcher is idle: every symbol is asked for once in every tick.
pub proof fn every_symbol_is_asked_for(count: nat, now: i64, outcomes: nat)
    requires
        0 < count <= usize::MAX,
        outcomes <= count,
    ensures
        advance_by(Phase::Dispatching { period_end: now, next: 0 }, count, outcomes) == if outcomes
            < count {
            Phase::Dispatching { period_end: now, next: outcomes as usize }
        } else {
            Phase::Idle
        },
    decreases outcomes,
{
    if outcomes > 0 {
        every_symbol_is_asked_for(count, now, (outcomes - 1) as nat);
    }
}

/// What is written when a request ends with `outcome` in `phase`: nothing
/// where no request was under way, else what the outcome gives for the
/// symbol that was asked for.
pub open spec fn emitted_in(
    phase: Phase,
    symbols: Seq<Seq<char>>,
    outcome: FetchOutcome,
) -> Emitted {
    match phase {
        Phase::Idle => Emitted::Nothing,
        Phase::Dispatching { next, .. } => emission_of(symbols[next as int], outcome),
    }
}

/// What is written, one after the other, as the requests that follow
/// `phase` end with `outcomes`.
pub open spec fn emissions_from(
    phase: Phase,
    symbols: Seq<Seq<char>>,
    outcomes: Seq<FetchOutcome>,
) -> Seq<Emitted>
    decreases outcomes.len(),
{
    if outcomes.len() == 0 {
        Seq::<Emitted>::empty()
    } else {
        let earlier = outcomes.drop_last();
        emissions_from(phase, symbols, earlier).push(
            emitted_in(advance_by(phase, symbols.len(), earlier.len()), symbols, outcomes.last()),
        )
    }
}

/// In a tick, what is written for a symbol is decided by the outcome of its
/// own request alone: whatever came of the requests before it, and so also
/// where one of them failed, the symbol at `index` gets what its outcome
/// gives.
pub proof fn each_symbol_gets_its_own_emission(
    symbols: Seq<Seq<char>>,
    now: i64,
    outcomes: Seq<FetchOutcome>,
    index: int,
)
    requires
        symbols.len() <= usize::MAX,
        outcomes.len() <= symbols.len(),
        0 <= index < outcomes.len(),
    ensures
        emissions_from(Phase::Dispatching { period_end: now, next: 0 }, symbols, outcomes).len()
            == outcomes.len(),
        emissions_from(Phase::Dispatching { period_end: now, next: 0 }, symbols, outcomes)[index]
            == emission_of(symbols[index], outcomes[index]),
    decreases outcomes.len(),
{
    let start = Phase::Dispatching { period_end: now, next: 0 };
    let earlier = outcomes.drop_last();
    emissions_keep_count(start, symbols, earlier);
    if index < earlier.len() {
        each_symbol_gets_its_own_emission(symbols, now, earlier, index);
    } else {
        every_symbol_is_asked_for(symbols.len(), now, earlier.len());
    }
}

/// One emission is written for every outcome.
pub proof fn emissions_keep_count(
    phase: Phase,
    symbols: Seq<Seq<char>>,
    outcomes: Seq<FetchOutcome>,
)
    ensures
        emissions_from(phase, symbols, outcomes).len() == outcomes.len(),
    decreases outcomes.len(),
{
    if outcomes.len() > 0 {
        emissions_keep_count(phase, symbols, outcomes.drop_last());
    }
}

/// A failure gives a diagnostic that names the symbol, and never a line.
pub proof fn failure_gives_a_diagnostic(symbol: Seq<char>, outcome: FetchOutcome)
    requires
        outcome is Failed,
    ensures
        emission_of(symbol, outcome) == Emitted::Diagnostic(
            failure_text_of(symbol, outcome->Failed_0@),
        ),
{
}

/// What the dispatcher asks of its caller after an outcome.
#[derive(Clone, Debug, PartialEq, Eq)]
pub struct Step {
    /// What to write for the symbol whose request has ended.
    pub emission: Emission,
    /// The next request of this tick; `None` where the tick is over.
    pub request: Option<PeriodRequest>,
}

/// The dispatcher: the tracked symbols, the start of the period, and the
/// phase of the cycle.
pub struct Dispatcher {
    symbols: Vec<String>,
    period_start: i64,
    phase: Phase,
}

impl Dispatcher {
    /// The tracked symbols.
    pub closed spec fn symbols(self) -> Seq<Seq<char>> {
        self.symbols.deep_view()
    }

    /// The start of every period.
    pub closed spec fn period_start(self) -> i64 {
        self.period_start
    }

    /// The phase of the cycle.
    pub closed spec fn phase(self) -> Phase {
        self.phase
    }

    /// There is a symbol to track, and a request under way is for one of the
    /// symbols.
    pub open spec fn wf(self) -> bool {
        &&& self.symbols().len() > 0
        &&& self.phase() matches Phase::Dispatching { next, .. } ==> next < self.symbols().len()
    }

    #[verifier::type_invariant]
    spec fn holds(self) -> bool {
        self.wf()
    }

    /// The request for the symbol at `index` in a tick whose period ends at
    /// `period_end`.
    pub open spec fn request_at(self, index: int, period_end: i64) -> RequestModel {
        RequestModel { symbol: self.symbols()[index], start: self.period_start(), end: period_end }
    }

    /// The request that is under way, if any.
    pub open spec fn pending(self) -> Option<RequestModel> {
        match self.phase() {
            Phase::Idle => None,
            Phase::Dispatching { period_end, next } => Some(
                self.request_at(next as int, period_end),
            ),
        }
    }

    /// The phase after a tick at `now`: an idle dispatcher starts with the
    /// first symbol; one that is in a tick stays where it is.
    pub open spec fn phase_after_tick(self, now: i64) -> Phase {
        match self.phase() {
            Phase::Idle => Phase::Dispatching { period_end: now, next: 0 },
            busy => busy,
        }
    }

    /// The phase after the request under way has ended, however it ended:
    /// the next symbol of the tick, or idle behind the last.
    pub open spec fn phase_after_outcome(self) -> Phase {
        advance(self.phase(), self.symbols().len())
    }

    /// Whether `after` is `self` in another phase.
    pub open spec fn moved_to(self, after: Dispatcher, phase: Phase) -> bool {
        &&& after.symbols() == self.symbols()
        &&& after.period_start() == self.period_start()
        &&& after.phase() == phase
        &&& after.wf()
    }

    /// A dispatcher that waits for its first tick. An empty list of symbols
    /// is refused.
    pub fn new(config: Config) -> (r: Result<Dispatcher, ConfigError>)
        ensures
            config.symbols@.len() == 0 ==> r == Err::<Dispatcher, ConfigError>(
                ConfigError::NoSymbols,
            ),
            config.symbols@.len() > 0 ==> (r matches Ok(d) && d.wf() && d.symbols()
                == config.symbols.deep_view() && d.period_start() == config.period_start
                && d.phase() == Phase::Idle),
    {
        if config.symbols.len() == 0 {
            return Err(ConfigError::NoSymbols);
        }
        Ok(
            Dispatcher {
                symbols: config.symbols,
                period_start: config.period_start,
                phase: Phase::Idle,
            },
        )
    }

    /// Whether the dispatcher waits for a tick.
    pub fn is_idle(&self) -> (r: bool)
        ensures
            r == (self.phase() == Phase::Idle),
    {
        match self.phase {
            Phase::Idle => true,
            Phase::Dispatching { .. } => false,
        }
    }

    /// The request for the symbol at `index`.
    fn request(&self, index: usize, period_end: i64) -> (r: PeriodRequest)
        requires
            index < self.symbols().len(),
        ensures
            r@ == self.request_at(index as int, period_end),
    {
        PeriodRequest {
            symbol: self.symbols[index].clone(),
            start: self.period_start,
            end: period_end,
        }
    }

    /// The timer has fired at `now`. An idle dispatcher opens a tick whose
    /// period ends at `now` and asks for the first symbol. A tick that is
    /// still under way is not disturbed: nothing is asked for.
    pub fn on_tick(&mut self, now: i64) -> (r: Option<PeriodRequest>)
        ensures
            old(self).moved_to(*final(self), old(self).phase_after_tick(now)),
            match r {
                Some(request) => old(self).phase() == Phase::Idle && request@ == old(
                    self,
                ).request_at(0, now),
                None => old(self).phase() != Phase::Idle,
            },
    {
        proof {
            use_type_invariant(&*self);
        }
        match self.phase {
            Phase::Idle => {
                self.phase = Phase::Dispatching { period_end: now, next: 0 };
                Some(self.request(0, now))
            },
            Phase::Dispatching { .. } => None,
        }
    }

    /// The request under way has ended with `outcome`. Says what to write
    /// for its symbol and what to ask for next. Whatever the outcome, the
    /// tick goes on with the next symbol, and ends behind the last. Where
    /// no request was under way, nothing is written or asked for.
    pub fn on_outcome(&mut self, outcome: FetchOutcome) -> (r: Step)
        ensures
            old(self).moved_to(*final(self), old(self).phase_after_outcome()),
            r.emission@ == emitted_in(old(self).phase(), old(self).symbols(), outcome),
            match r.request {
                Some(request) => final(self).pending() == Some(request@),
                None => final(self).phase() == Phase::Idle,
            },
    {
        proof {
            use_type_invariant(&*self);
        }
        match self.phase {
            Phase::Idle => Step { emission: Emission::Nothing, request: None },
            Phase::Dispatching { period_end, next } => {
                let count = self.symbols.len();
                let emission = process_outcome(self.symbols[next].as_str(), outcome);
                if next + 1 < count {
                    self.phase = Phase::Dispatching { period_end, next: next + 1 };
                    let request = self.request(next + 1, period_end);
                    Step { emission, request: Some(request) }
                } else {
                    self.phase = Phase::Idle;
                    Step { emission, request: None }
                }
            },
        }
    }

    /// Stops the tick that is under way, if any: the dispatcher is idle, and
    /// an outcome that arrives later writes nothing.
    pub fn cancel(&mut self)
        ensures
            old(self).moved_to(*final(self), Phase::Idle),
    {
        proof {
            use_type_invariant(&*self);
        }
        self.phase = Phase::Idle;
    }
}

} // verus!
