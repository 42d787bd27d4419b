//! What holds of a generation request from its start to its end.
//!
//! These statements speak of the states of a request alone, whatever the
//! engine answers: they are proved of every sequence of reports.

use vstd::prelude::*;
use crate::token::Token;
use crate::generate::effective_limit;
use crate::generate::ActionView;
use crate::generate::Event;
use crate::generate::GenConfig;
use crate::generate::GenView;
use crate::generate::Phase;
use crate::generate::lemma_pulled_remembers;
use crate::generate::lemma_sampled_remembers;
use crate::window::WindowView;
use crate::window::overflows;

verus! {

/// Whether `event` reports success: a sampled token, or an evaluation with
/// status zero.
pub open spec fn succeeded(event: Event) -> bool {
    match event {
        Event::Evaluated { status } => status == 0,
        Event::Sampled { .. } => true,
    }
}

/// A request starts in a state that satisfies the invariant.
pub proof fn lemma_start_inv(config: GenConfig, prompt: Seq<Token>, n_predict: nat)
    ensures
        GenView::start(config, prompt, n_predict).inv(),
{
    let idle = GenView {
        batch_limit: effective_limit(config.batch_limit as nat),
        repeat_last_n: config.repeat_last_n as nat,
        n_predict,
        window: WindowView {
            n_ctx: config.n_ctx as nat,
            n_keep: config.n_keep as nat,
            n_past: 0,
            history: Seq::empty(),
        },
        pending: prompt,
        consumed: 0,
        batch: Seq::empty(),
        truncated: false,
        remaining: n_predict,
        output: Seq::empty(),
        phase: Phase::Finished,
    };
    assert(idle.arrivals() =~= Seq::<Token>::empty());
    assert(idle.remembers());
    if n_predict > 0 && prompt.len() > 0 {
        lemma_pulled_remembers(idle);
    }
}

/// Every report leads from a state that satisfies the invariant to one that
/// does.
pub proof fn lemma_step_inv(state: GenView, event: Event)
    requires
        state.inv(),
    ensures
        state.step(event).inv(),
{
    match (state.phase, event) {
        (Phase::Evaluating, Event::Evaluated { status }) => {
            if status == 0 {
                let counted = GenView {
                    window: state.window.advanced(state.batch.len()),
                    batch: Seq::empty(),
                    truncated: false,
                    ..state
                };
                if counted.consumed < counted.pending.len() {
                    lemma_pulled_remembers(counted);
                }
            }
        },
        (Phase::Sampling, Event::Sampled { token }) => {
            lemma_sampled_remembers(state, token);
        },
        _ => {},
    }
}

/// Whatever is reported, in whatever order, a request stays in states that
/// satisfy the invariant.
pub proof fn lemma_run_inv(
    config: GenConfig,
    prompt: Seq<Token>,
    n_predict: nat,
    events: Seq<Event>,
)
    ensures
        GenView::start(config, prompt, n_predict).run(events).inv(),
    decreases events.len(),
{
    if events.len() == 0 {
        lemma_start_inv(config, prompt, n_predict);
    } else {
        lemma_run_inv(config, prompt, n_predict, events.drop_last());
        lemma_step_inv(
            GenView::start(config, prompt, n_predict).run(events.drop_last()),
            events.last(),
        );
    }
}

/// How a request starts: with nothing to do if the budget is zero, else with
/// the sampler if there is no prompt, else with the evaluation of the first
/// prompt tokens.
pub proof fn lemma_start_phase(config: GenConfig, prompt: Seq<Token>, n_predict: nat)
    ensures
        ({
            let start = GenView::start(config, prompt, n_predict);
            &&& start.phase is Finished <==> n_predict == 0
            &&& start.phase is Sampling <==> n_predict > 0 && prompt.len() == 0
            &&& start.phase is Evaluating <==> n_predict > 0 && prompt.len() > 0
            &&& start.output.len() == 0
            &&& start.window.n_past <= config.n_keep
        }),
{
}

/// The output of a request holds exactly `n_predict` tokens once the request
/// has finished, and fewer in every other state: while it is under way, and
/// after an evaluation has failed.
pub proof fn lemma_output_count(
    config: GenConfig,
    prompt: Seq<Token>,
    n_predict: nat,
    events: Seq<Event>,
)
    ensures
        ({
            let end = GenView::start(config, prompt, n_predict).run(events);
            &&& end.n_predict == n_predict
            &&& end.output.len() + end.remaining == n_predict
            &&& end.phase is Finished <==> end.output.len() == n_predict
            &&& end.phase is Failed ==> end.output.len() < n_predict
        }),
    decreases events.len(),
{
    lemma_run_inv(config, prompt, n_predict, events);
    if events.len() > 0 {
        lemma_output_count(config, prompt, n_predict, events.drop_last());
    }
}

/// Each report of success that a request waits for brings it closer to its
/// end: the fuel goes down, and the request does not fail.
pub proof fn lemma_step_uses_fuel(state: GenView, event: Event)
    requires
        state.inv(),
        state.awaits(event),
        succeeded(event),
    ensures
        state.step(event).fuel() < state.fuel(),
        state.step(event).phase !is Failed,
{
}

/// Whether each report of `events` reports success and is the one that the
/// request, started in `start`, waits for when the report comes.
pub open spec fn cooperative(start: GenView, events: Seq<Event>) -> bool
    decreases events.len(),
{
    if events.len() == 0 {
        true
    } else {
        &&& cooperative(start, events.drop_last())
        &&& start.run(events.drop_last()).awaits(events.last())
        &&& succeeded(events.last())
    }
}

/// A request whose reports all come as awaited and all report success does
/// not fail, takes no more reports than the fuel it starts with, and once
/// it awaits no more it has finished with exactly `n_predict` tokens.
pub proof fn lemma_generation_completes(
    config: GenConfig,
    prompt: Seq<Token>,
    n_predict: nat,
    events: Seq<Event>,
)
    requires
        cooperative(GenView::start(config, prompt, n_predict), events),
    ensures
        ({
            let start = GenView::start(config, prompt, n_predict);
            let end = start.run(events);
            &&& end.fuel() + events.len() <= start.fuel()
            &&& end.phase !is Failed
            &&& end.fuel() == 0 <==> end.phase is Finished
            &&& end.phase is Finished ==> end.output.len() == n_predict
        }),
    decreases events.len(),
{
    let start = GenView::start(config, prompt, n_predict);
    lemma_run_inv(config, prompt, n_predict, events);
    lemma_output_count(config, prompt, n_predict, events);
    if events.len() > 0 {
        lemma_generation_completes(config, prompt, n_predict, events.drop_last());
        lemma_run_inv(config, prompt, n_predict, events.drop_last());
        lemma_step_uses_fuel(start.run(events.drop_last()), events.last());
    } else {
        lemma_start_inv(config, prompt, n_predict);
    }
}

/// The sampler is asked only when the whole prompt has been handed out for
/// evaluation, and no batch that goes out for evaluation is empty.
pub proof fn lemma_prompt_first(state: GenView)
    requires
        state.inv(),
    ensures
        state.action() is Sample ==> state.consumed == state.pending.len(),
        state.action() matches ActionView::Evaluate { tokens, .. } ==> tokens.len() >= 1,
{
}

/// No step leads to the sampler but the report of a successful evaluation,
/// so that the scores of that evaluation are there when the sampler is asked.
/// A report that comes while the sampler is asked, and is not its answer,
/// changes nothing.
pub proof fn lemma_sampling_follows_evaluation(state: GenView, event: Event)
    requires
        state.inv(),
        state.step(event).phase is Sampling,
    ensures
        state.phase is Sampling || (state.phase is Evaluating && event == (Event::Evaluated {
            status: 0,
        })),
        state.phase is Sampling ==> state.step(event) == state,
{
}

/// A batch that fitted the window as it came holds no more tokens than the
/// batch limit allows.
pub proof fn lemma_batches_are_capped(state: GenView)
    requires
        state.inv(),
    ensures
        state.action() matches ActionView::Evaluate { tokens, truncated, .. } ==> truncated
            || tokens.len() <= state.batch_limit,
{
}

/// In a roomy window no batch goes out for evaluation that, together with
/// the tokens already evaluated, exceeds the window.
pub proof fn lemma_evaluations_fit(state: GenView)
    requires
        state.inv(),
        state.roomy(),
    ensures
        state.action() matches ActionView::Evaluate { tokens, n_past, .. } ==> !overflows(
            n_past,
            tokens.len(),
            state.window.n_ctx,
        ),
{
}

} // verus!
