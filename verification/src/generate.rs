//! The generation loop as a state machine.
//!
//! The engine is not called from here. A [`Generator`] says what the engine
//! has to do next (an [`Action`]); the caller does it and reports what came
//! of it (an [`Event`]); [`Generator::step`] takes the report and says what
//! comes next. Prompt tokens are handed out for evaluation in small batches,
//! and sampling starts only when the whole prompt has been evaluated.

use vstd::prelude::*;
use crate::token::Token;
use crate::context::ContextParams;
use crate::error::Error;
use crate::sampler::SampleParams;
use crate::history::latest;
use crate::history::pushed_all;
use crate::history::lemma_push_slides;
use crate::history::lemma_pushes_slide;
use crate::window::ContextWindow;
use crate::window::WindowView;

verus! {

/// Default number of tokens kept across a truncation.
pub const DEFAULT_N_KEEP: usize = 0;

/// Default cap on the number of prompt tokens evaluated in one call.
pub const DEFAULT_BATCH_LIMIT: usize = 8;

/// Default number of trailing history tokens handed to the sampler.
pub const DEFAULT_REPEAT_LAST_N: usize = 64;

/// Options of one generation request.
#[derive(Clone, Copy, Debug, PartialEq, Eq)]
pub struct GenConfig {
    /// Size of the context window.
    pub n_ctx: usize,
    /// Number of evaluated tokens kept across a truncation.
    pub n_keep: usize,
    /// Cap on the number of prompt tokens evaluated in one call. A cap of
    /// zero acts as a cap of one.
    pub batch_limit: usize,
    /// Number of trailing history tokens handed to the sampler.
    pub repeat_last_n: usize,
}

/// The cap on a batch of prompt tokens that `batch_limit` stands for.
pub open spec fn effective_limit(batch_limit: nat) -> nat {
    if batch_limit == 0 {
        1
    } else {
        batch_limit
    }
}

impl GenConfig {
    /// Largest count of evaluated tokens that a request with these options
    /// can reach.
    pub open spec fn reach(self) -> nat {
        self.n_keep as nat + self.n_ctx as nat + effective_limit(self.batch_limit as nat)
    }

    /// The default options for a window of `n_ctx` tokens.
    pub fn with_window(n_ctx: usize) -> (config: GenConfig)
        ensures
            config == (GenConfig {
                n_ctx,
                n_keep: DEFAULT_N_KEEP,
                batch_limit: DEFAULT_BATCH_LIMIT,
                repeat_last_n: DEFAULT_REPEAT_LAST_N,
            }),
    {
        GenConfig {
            n_ctx,
            n_keep: DEFAULT_N_KEEP,
            batch_limit: DEFAULT_BATCH_LIMIT,
            repeat_last_n: DEFAULT_REPEAT_LAST_N,
        }
    }

    /// The options for a context created with `context` and a sampler run
    /// with `sampler`: the window of the one, the penalty range of the other,
    /// and the default values for the rest.
    pub fn for_request(context: &ContextParams, sampler: &SampleParams) -> (config: GenConfig)
        ensures
            config == (GenConfig {
                n_ctx: context.n_ctx,
                n_keep: DEFAULT_N_KEEP,
                batch_limit: DEFAULT_BATCH_LIMIT,
                repeat_last_n: sampler.repeat_last_n,
            }),
    {
        GenConfig {
            n_ctx: context.n_ctx,
            n_keep: DEFAULT_N_KEEP,
            batch_limit: DEFAULT_BATCH_LIMIT,
            repeat_last_n: sampler.repeat_last_n,
        }
    }

    /// Whether the counts of these options can be added up in `usize`.
    pub fn is_representable(&self) -> (ok: bool)
        ensures
            ok == (self.reach() <= usize::MAX),
    {
        let limit: usize = if self.batch_limit == 0 {
            1
        } else {
            self.batch_limit
        };
        match self.n_keep.checked_add(self.n_ctx) {
            Some(sum) => sum.checked_add(limit).is_some(),
            None => false,
        }
    }
}

/// What the caller reports back to the generator.
#[derive(Clone, Copy, Debug, PartialEq, Eq)]
pub enum Event {
    /// The engine evaluated the batch and returned `status`; zero is success.
    Evaluated { status: i32 },
    /// The sampler picked `token`.
    Sampled { token: Token },
}

/// Where a generation request stands.
#[derive(Clone, Copy, Debug, PartialEq, Eq)]
pub enum Phase {
    /// A batch has been handed out for evaluation.
    Evaluating,
    /// The sampler has been asked for the next token.
    Sampling,
    /// The budget is used up.
    Finished,
    /// The engine reported `status` for an evaluation; the request is over.
    Failed { status: i32 },
}

/// What the engine has to do next.
#[derive(Debug, PartialEq, Eq)]
pub enum Action {
    /// Evaluate `tokens` on top of `n_past` tokens already evaluated.
    /// `truncated` says that the batch did not fit the window as it came.
    Evaluate { tokens: Vec<Token>, n_past: usize, truncated: bool },
    /// Sample the next token from the scores of the last evaluation.
    /// `window` holds the recent tokens that the repetition penalty applies
    /// to: the last `repeat_last_n` of the history, oldest first, or all of
    /// it while it holds fewer. Fill entries are not among them.
    Sample { window: Vec<Token> },
    /// Nothing: the budget is used up.
    Stop,
    /// Nothing: an evaluation failed with `status`.
    Abort { status: i32 },
}

/// Mathematical form of an [`Action`].
pub enum ActionView {
    Evaluate { tokens: Seq<Token>, n_past: nat, truncated: bool },
    Sample { window: Seq<Token> },
    Stop,
    Abort { status: i32 },
}

impl View for Action {
    type V = ActionView;

    open spec fn view(&self) -> ActionView {
        match *self {
            Action::Evaluate { tokens, n_past, truncated } => ActionView::Evaluate {
                tokens: tokens@,
                n_past: n_past as nat,
                truncated,
            },
            Action::Sample { window } => ActionView::Sample { window: window@ },
            Action::Stop => ActionView::Stop,
            Action::Abort { status } => ActionView::Abort { status },
        }
    }
}

/// Mathematical state of a [`Generator`].
pub struct GenView {
    /// The effective cap on a batch of prompt tokens.
    pub batch_limit: nat,
    /// Number of trailing history tokens handed to the sampler.
    pub repeat_last_n: nat,
    /// The token budget of the request.
    pub n_predict: nat,
    /// The context window.
    pub window: WindowView,
    /// The prompt.
    pub pending: Seq<Token>,
    /// Number of prompt tokens already taken into a batch.
    pub consumed: nat,
    /// The batch that is evaluated next.
    pub batch: Seq<Token>,
    /// Whether the batch did not fit the window as it came.
    pub truncated: bool,
    /// Number of tokens still to be generated.
    pub remaining: nat,
    /// The generated tokens.
    pub output: Seq<Token>,
    /// Where the request stands.
    pub phase: Phase,
}

impl GenView {
    /// Number of prompt tokens that the next batch takes.
    pub open spec fn pull_count(self) -> nat {
        let left = self.pending.len() - self.consumed;
        if left <= 0 {
            0
        } else if left <= self.batch_limit {
            left as nat
        } else {
            self.batch_limit
        }
    }

    /// The prompt tokens that the next batch takes.
    pub open spec fn pull(self) -> Seq<Token> {
        self.pending.subrange(self.consumed as int, (self.consumed + self.pull_count()) as int)
    }

    /// The state after the next prompt tokens have become the batch and have
    /// been recorded in the history.
    pub open spec fn pulled(self) -> GenView {
        GenView {
            batch: self.pull(),
            consumed: self.consumed + self.pull_count(),
            window: WindowView {
                history: pushed_all(self.window.history, self.window.n_ctx, self.pull()),
                ..self.window
            },
            ..self
        }
    }

    /// The state after the batch has passed the window check and has been
    /// handed out for evaluation.
    pub open spec fn submitted(self) -> GenView {
        GenView {
            truncated: self.window.must_truncate(self.batch.len()),
            batch: self.window.fitted_batch(self.batch),
            window: self.window.fitted(self.batch.len()),
            phase: Phase::Evaluating,
            ..self
        }
    }

    /// The state at the next point where the engine is needed, seen from the
    /// top of the loop: finished when the budget is used up, else evaluating
    /// the batch if there is one, else as after an evaluation.
    pub open spec fn resumed(self) -> GenView {
        if self.remaining == 0 {
            GenView { phase: Phase::Finished, truncated: false, ..self }
        } else if self.batch.len() > 0 {
            self.submitted()
        } else {
            self.evaluated()
        }
    }

    /// The state after the batch has been evaluated: its tokens count as
    /// evaluated, and either the next prompt tokens go out for evaluation or,
    /// when the prompt is used up, the sampler is asked.
    pub open spec fn evaluated(self) -> GenView {
        let counted = GenView {
            window: self.window.advanced(self.batch.len()),
            batch: Seq::empty(),
            truncated: false,
            ..self
        };
        if counted.consumed < counted.pending.len() {
            counted.pulled().submitted()
        } else {
            GenView { phase: Phase::Sampling, ..counted }
        }
    }

    /// The state after the sampler has picked `token`: the token is the next
    /// batch, the most recent entry of the history and the next output token,
    /// and the budget is one less.
    pub open spec fn sampled(self, token: Token) -> GenView {
        (GenView {
            batch: self.batch.push(token),
            window: self.window.recorded(token),
            output: self.output.push(token),
            remaining: (self.remaining - 1) as nat,
            ..self
        }).resumed()
    }

    /// Whether `event` is the report that the state waits for.
    pub open spec fn awaits(self, event: Event) -> bool {
        match (self.phase, event) {
            (Phase::Evaluating, Event::Evaluated { .. }) => true,
            (Phase::Sampling, Event::Sampled { .. }) => true,
            _ => false,
        }
    }

    /// The state after `event`. A report that the state does not wait for
    /// changes nothing.
    pub open spec fn step(self, event: Event) -> GenView {
        match (self.phase, event) {
            (Phase::Evaluating, Event::Evaluated { status }) => if status != 0 {
                GenView { phase: Phase::Failed { status }, ..self }
            } else {
                self.evaluated()
            },
            (Phase::Sampling, Event::Sampled { token }) => self.sampled(token),
            _ => self,
        }
    }

    /// The token that `event` adds to the output, if any.
    pub open spec fn emitted(self, event: Event) -> Option<Token> {
        match (self.phase, event) {
            (Phase::Sampling, Event::Sampled { token }) => Some(token),
            _ => None,
        }
    }

    /// What the engine has to do in this state.
    pub open spec fn action(self) -> ActionView {
        match self.phase {
            Phase::Evaluating => ActionView::Evaluate {
                tokens: self.batch,
                n_past: self.window.n_past,
                truncated: self.truncated,
            },
            Phase::Sampling => ActionView::Sample {
                window: latest(self.window.history, self.repeat_last_n),
            },
            Phase::Finished => ActionView::Stop,
            Phase::Failed { status } => ActionView::Abort { status },
        }
    }

    /// The state in which a request starts.
    pub open spec fn start(config: GenConfig, prompt: Seq<Token>, n_predict: nat) -> GenView {
        (GenView {
            batch_limit: effective_limit(config.batch_limit as nat),
            repeat_last_n: config.repeat_last_n as nat,
            n_predict,
            window: WindowView {
                n_ctx: config.n_ctx as nat,
                n_keep: config.n_keep as nat,
                n_past: 0,
                history: Seq::empty(),
            },
            pending: prompt,
            consumed: 0,
            batch: Seq::empty(),
            truncated: false,
            remaining: n_predict,
            output: Seq::empty(),
            phase: Phase::Finished,
        }).resumed()
    }

    /// Largest count of evaluated tokens that the request can reach.
    pub open spec fn reach(self) -> nat {
        self.window.n_keep + self.window.n_ctx + self.batch_limit
    }

    /// Whether the window is large enough for every batch to fit after a
    /// truncation: the kept tokens, half of the rest of the window and a full
    /// batch have room in it.
    pub open spec fn roomy(self) -> bool {
        &&& self.window.n_keep <= self.window.n_ctx
        &&& self.window.n_keep + (self.window.n_ctx - self.window.n_keep) / 2 + self.batch_limit
            <= self.window.n_ctx
    }

    /// The tokens that have arrived so far: the prompt tokens taken into a
    /// batch, then the generated ones.
    pub open spec fn arrivals(self) -> Seq<Token> {
        self.pending.take(self.consumed as int) + self.output
    }

    /// Whether the history holds the most recent arrivals, and nothing has
    /// been generated while prompt tokens are left.
    pub open spec fn remembers(self) -> bool {
        &&& self.window.history == latest(self.arrivals(), self.window.n_ctx)
        &&& self.consumed < self.pending.len() ==> self.output.len() == 0
    }

    /// What holds while a batch is out for evaluation: there is budget left,
    /// the batch is not empty, and it stays within the reach of the request
    /// and, in a roomy window, within the window.
    pub open spec fn submission(self) -> bool {
        &&& self.remaining >= 1
        &&& self.batch.len() >= 1
        &&& !self.truncated ==> self.batch.len() <= self.batch_limit
        &&& self.window.n_past + self.batch.len() <= self.reach()
        &&& self.roomy() ==> self.window.n_past + self.batch.len() <= self.window.n_ctx
    }

    /// What holds of every state that a request passes through.
    pub open spec fn inv(self) -> bool {
        &&& self.batch_limit >= 1
        &&& self.consumed <= self.pending.len()
        &&& self.window.history.len() <= self.window.n_ctx
        &&& self.output.len() + self.remaining == self.n_predict
        &&& self.remembers()
        &&& self.window.n_past <= self.reach()
        &&& self.roomy() ==> self.window.n_past <= self.window.n_ctx
        &&& match self.phase {
            Phase::Evaluating => self.submission(),
            Phase::Sampling => {
                &&& self.batch.len() == 0
                &&& self.remaining >= 1
                &&& self.consumed == self.pending.len()
                &&& !self.truncated
            },
            Phase::Finished => self.remaining == 0 && !self.truncated,
            Phase::Failed { status } => status != 0 && self.submission(),
        }
    }

    /// The state after the reports of `events`, taken in order.
    pub open spec fn run(self, events: Seq<Event>) -> GenView
        decreases events.len(),
    {
        if events.len() == 0 {
            self
        } else {
            self.run(events.drop_last()).step(events.last())
        }
    }

    /// Number of reports that the request can still take at most.
    pub open spec fn fuel(self) -> nat {
        match self.phase {
            Phase::Evaluating => (2 * self.remaining + (self.pending.len() - self.consumed)
                + 1) as nat,
            Phase::Sampling => (2 * self.remaining + (self.pending.len() - self.consumed)) as nat,
            _ => 0,
        }
    }
}

/// What a step of the generator hands back.
#[derive(Debug, PartialEq, Eq)]
pub struct Step {
    /// The token that the step added to the output, to be turned into text
    /// and handed to the reader.
    pub emitted: Option<Token>,
    /// What the engine has to do next.
    pub action: Action,
}

/// One generation request: the prompt, the budget, the context window and
/// the progress made so far.
pub struct Generator {
    batch_limit: usize,
    repeat_last_n: usize,
    n_predict: usize,
    window: ContextWindow,
    pending: Vec<Token>,
    consumed: usize,
    batch: Vec<Token>,
    truncated: bool,
    remaining: usize,
    output: Vec<Token>,
    phase: Phase,
}

impl View for Generator {
    type V = GenView;

    closed spec fn view(&self) -> GenView {
        GenView {
            batch_limit: self.batch_limit as nat,
            repeat_last_n: self.repeat_last_n as nat,
            n_predict: self.n_predict as nat,
            window: self.window@,
            pending: self.pending@,
            consumed: self.consumed as nat,
            batch: self.batch@,
            truncated: self.truncated,
            remaining: self.remaining as nat,
            output: self.output@,
            phase: self.phase,
        }
    }
}

impl Generator {
    /// What the helpers below rely on between two states of a request.
    spec fn sound(&self) -> bool {
        &&& self.window.wf()
        &&& self.batch_limit >= 1
        &&& self.consumed <= self.pending.len()
        &&& self.output.len() + self.remaining == self.n_predict
        &&& self@.reach() <= usize::MAX
    }

    /// The invariant of the representation.
    pub closed spec fn wf(&self) -> bool {
        &&& self.sound()
        &&& self@.inv()
    }

    /// A well-formed generator is in a state that a request can be in.
    pub proof fn lemma_wf(&self)
        requires
            self.wf(),
        ensures
            self@.inv(),
            self@.reach() <= usize::MAX,
    {
    }

    /// Starts a request: `prompt` is evaluated first, then `n_predict` tokens
    /// are generated.
    pub fn new(config: GenConfig, prompt: Vec<Token>, n_predict: usize) -> (generator: Generator)
        requires
            config.reach() <= usize::MAX,
        ensures
            generator.wf(),
            generator@ == GenView::start(config, prompt@, n_predict as nat),
    {
        let batch_limit: usize = if config.batch_limit == 0 {
            1
        } else {
            config.batch_limit
        };
        let mut generator = Generator {
            batch_limit,
            repeat_last_n: config.repeat_last_n,
            n_predict,
            window: ContextWindow::new(config.n_ctx, config.n_keep),
            pending: prompt,
            consumed: 0,
            batch: Vec::new(),
            truncated: false,
            remaining: n_predict,
            output: Vec::new(),
            phase: Phase::Finished,
        };
        generator.resume();
        generator
    }

    /// Starts a request as [`Generator::new`] does, if the counts of `config`
    /// can be added up in `usize`; else there is no request.
    pub fn try_new(config: GenConfig, prompt: Vec<Token>, n_predict: usize) -> (out: Option<
        Generator,
    >)
        ensures
            out is Some <==> config.reach() <= usize::MAX,
            out matches Some(generator) ==> {
                &&& generator.wf()
                &&& generator@ == GenView::start(config, prompt@, n_predict as nat)
            },
    {
        if config.is_representable() {
            Some(Generator::new(config, prompt, n_predict))
        } else {
            None
        }
    }

    /// Takes the next prompt tokens into the batch and records them.
    fn pull(&mut self)
        requires
            old(self).sound(),
            old(self)@.remembers(),
            old(self).batch@.len() == 0,
            old(self).consumed < old(self).pending.len(),
        ensures
            final(self).sound(),
            final(self)@.remembers(),
            final(self)@ == old(self)@.pulled(),
            1 <= final(self).batch@.len() <= final(self).batch_limit,
            final(self)@.window.history.len() <= final(self)@.window.n_ctx,
    {
        let ghost start = self@;
        proof {
            lemma_pulled_remembers(start);
        }
        let mut taken: usize = 0;
        while taken < self.batch_limit && self.consumed < self.pending.len()
            invariant
                self.sound(),
                taken <= self.batch_limit,
                self.consumed == start.consumed + taken,
                self.batch@ == start.pending.subrange(
                    start.consumed as int,
                    start.consumed + taken,
                ),
                self.window@.history == pushed_all(
                    start.window.history,
                    start.window.n_ctx,
                    self.batch@,
                ),
                self@ == (GenView {
                    batch: self.batch@,
                    consumed: self.consumed as nat,
                    window: WindowView { history: self.window@.history, ..start.window },
                    ..start
                }),
            decreases self.pending.len() - self.consumed,
        {
            let token: Token = self.pending[self.consumed];
            let ghost before = self.batch@;
            self.batch.push(token);
            self.window.record(token);
            self.consumed = self.consumed + 1;
            taken = taken + 1;
            proof {
                assert(self.batch@.drop_last() =~= before);
                assert(self.batch@ =~= start.pending.subrange(
                    start.consumed as int,
                    start.consumed + taken,
                ));
            }
        }
        assert(self.batch@ =~= start.pull());
    }

    /// Runs the window check on the batch and hands it out.
    fn submit(&mut self)
        requires
            old(self).sound(),
            old(self)@.remembers(),
            1 <= old(self).batch@.len() <= old(self).batch_limit,
            old(self).remaining >= 1,
            old(self)@.window.n_past <= old(self)@.reach(),
            old(self)@.window.history.len() <= old(self)@.window.n_ctx,
            old(self)@.roomy() ==> old(self)@.window.n_past <= old(self)@.window.n_ctx,
        ensures
            final(self).wf(),
            final(self)@ == old(self)@.submitted(),
    {
        proof {
            self.window.lemma_wf();
        }
        self.truncated = self.window.make_room(&mut self.batch);
        self.phase = Phase::Evaluating;
    }

    /// Goes on after the batch has been evaluated.
    fn after_evaluation(&mut self)
        requires
            old(self).sound(),
            old(self)@.remembers(),
            old(self).remaining >= 1,
            old(self)@.window.n_past + old(self)@.batch.len() <= old(self)@.reach(),
            old(self)@.window.history.len() <= old(self)@.window.n_ctx,
            old(self)@.roomy() ==> old(self)@.window.n_past + old(self)@.batch.len() <= old(
                self,
            )@.window.n_ctx,
        ensures
            final(self).wf(),
            final(self)@ == old(self)@.evaluated(),
    {
        self.window.advance(self.batch.len());
        self.batch.clear();
        self.truncated = false;
        if self.consumed < self.pending.len() {
            self.pull();
            self.submit();
        } else {
            self.phase = Phase::Sampling;
        }
    }

    /// Goes on from the top of the loop.
    fn resume(&mut self)
        requires
            old(self).sound(),
            old(self)@.remembers(),
            old(self).batch@.len() <= old(self).batch_limit,
            old(self)@.window.n_past <= old(self)@.reach(),
            old(self)@.window.history.len() <= old(self)@.window.n_ctx,
            old(self)@.roomy() ==> old(self)@.window.n_past <= old(self)@.window.n_ctx,
            old(self).batch@.len() == 0 ==> !old(self).truncated,
        ensures
            final(self).wf(),
            final(self)@ == old(self)@.resumed(),
    {
        if self.remaining == 0 {
            self.phase = Phase::Finished;
            self.truncated = false;
        } else if self.batch.len() > 0 {
            self.submit();
        } else {
            self.after_evaluation();
        }
    }

    /// Where the request stands.
    pub fn phase(&self) -> (phase: Phase)
        ensures
            phase == self@.phase,
    {
        self.phase
    }

    /// Whether the request is over: the budget is used up or an evaluation
    /// has failed.
    pub fn is_over(&self) -> (over: bool)
        ensures
            over == (self@.phase is Finished || self@.phase is Failed),
    {
        match self.phase {
            Phase::Finished => true,
            Phase::Failed { .. } => true,
            _ => false,
        }
    }

    /// The error that the request has ended with, if it has: the failed
    /// evaluation.
    pub fn failure(&self) -> (error: Option<Error>)
        ensures
            error == match self@.phase {
                Phase::Failed { status } => Some(Error::Evaluate { status }),
                _ => None,
            },
    {
        match self.phase {
            Phase::Failed { status } => Some(Error::Evaluate { status }),
            _ => None,
        }
    }

    /// The tokens generated so far.
    pub fn output(&self) -> (output: &Vec<Token>)
        ensures
            output@ == self@.output,
    {
        &self.output
    }

    /// Ends the request and hands out the generated tokens.
    pub fn into_output(self) -> (output: Vec<Token>)
        ensures
            output@ == self@.output,
    {
        self.output
    }

    /// Number of tokens still to be generated.
    pub fn remaining(&self) -> (remaining: usize)
        ensures
            remaining == self@.remaining,
    {
        self.remaining
    }

    /// Number of prompt tokens already taken into a batch.
    pub fn consumed(&self) -> (consumed: usize)
        ensures
            consumed == self@.consumed,
    {
        self.consumed
    }

    /// The context window of the request.
    pub fn window(&self) -> (window: &ContextWindow)
        requires
            self.wf(),
        ensures
            window.wf(),
            window@ == self@.window,
    {
        &self.window
    }

    /// What the engine has to do next.
    pub fn action(&self) -> (action: Action)
        requires
            self.wf(),
        ensures
            action@ == self@.action(),
    {
        match self.phase {
            Phase::Evaluating => Action::Evaluate {
                tokens: self.batch.clone(),
                n_past: self.window.n_past(),
                truncated: self.truncated,
            },
            Phase::Sampling => Action::Sample {
                window: self.window.history().tail(self.repeat_last_n),
            },
            Phase::Finished => Action::Stop,
            Phase::Failed { status } => Action::Abort { status },
        }
    }

    /// Takes the report of what the engine did and says what comes next.
    ///
    /// A successful evaluation counts the batch as evaluated and leads to the
    /// next prompt batch or, once the prompt is used up, to sampling. A failed
    /// one ends the request. A sampled token joins the output, the history
    /// and the next batch. A report that the generator does not wait for is
    /// ignored.
    pub fn step(&mut self, event: Event) -> (step: Step)
        requires
            old(self).wf(),
        ensures
            final(self).wf(),
            final(self)@ == old(self)@.step(event),
            step.emitted == old(self)@.emitted(event),
            step.action@ == final(self)@.action(),
    {
        let mut emitted: Option<Token> = None;
        match (self.phase, event) {
            (Phase::Evaluating, Event::Evaluated { status }) => {
                if status != 0 {
                    self.phase = Phase::Failed { status };
                } else {
                    self.after_evaluation();
                }
            },
            (Phase::Sampling, Event::Sampled { token }) => {
                self.batch.push(token);
                self.window.record(token);
                self.output.push(token);
                self.remaining = self.remaining - 1;
                emitted = Some(token);
                proof {
                    lemma_sampled_remembers(old(self)@, token);
                }
                self.resume();
            },
            _ => {},
        }
        Step { emitted, action: self.action() }
    }
}

/// Taking the next prompt tokens into the batch keeps the history in step
/// with what has arrived.
pub proof fn lemma_pulled_remembers(state: GenView)
    requires
        state.remembers(),
        state.batch_limit >= 1,
        state.consumed < state.pending.len(),
    ensures
        state.pulled().remembers(),
        1 <= state.pulled().batch.len() <= state.batch_limit,
        state.pulled().consumed <= state.pending.len(),
        state.pulled().window.history.len() <= state.window.n_ctx,
{
    let taken = state.pull();
    let before = state.pending.take(state.consumed as int);
    assert(state.arrivals() =~= before);
    lemma_pushes_slide(before, state.window.n_ctx, taken);
    assert(before + taken =~= state.pulled().arrivals());
}

/// Recording a sampled token keeps the history in step with what has
/// arrived.
pub proof fn lemma_sampled_remembers(state: GenView, token: Token)
    requires
        state.remembers(),
        state.consumed == state.pending.len(),
    ensures
        ({
            let next = GenView {
                batch: state.batch.push(token),
                window: state.window.recorded(token),
                output: state.output.push(token),
                remaining: (state.remaining - 1) as nat,
                ..state
            };
            next.remembers() && next.window.history.len() <= next.window.n_ctx
        }),
{
    lemma_push_slides(state.arrivals(), state.window.n_ctx, token);
    assert(state.arrivals().push(token) =~= state.pending.take(state.consumed as int)
        + state.output.push(token));
}

} // verus!
