//! The sequence executor: what to keep of each step of a benchmark case.
//!
//! The steps of a case are sent one after another, in the order in which
//! the case lists them. A step whose call fails is passed over with a
//! warning. A step that is answered and marked as measured leaves a
//! summary, for which its request must name the gas that its payload used.

use vstd::prelude::*;
use crate::bench_summary::{BenchEngineAPIRequestSummary, BenchInput, SequenceItem};
use crate::engine_api::TimedEngineApiResponse;
use crate::kute::JwtError;
use crate::text::decimal_digits;

verus! {

/// A fault in the definition of a case.
#[derive(Debug, Clone, PartialEq, Eq)]
pub enum SequenceError {
    /// The step at this index is marked as measured, but its request names
    /// no gas used.
    MissingGasUsed(usize),
}

impl SequenceError {
    /// The text that describes the fault.
    pub open spec fn message_text(self) -> Seq<char> {
        match self {
            SequenceError::MissingGasUsed(step) =>
                "expected a gas used parameter for elements we are benchmarking: step "@
                    + decimal_digits(step as nat),
        }
    }

    /// Describes the fault in words.
    pub fn message(&self) -> (text: String)
        ensures
            text@ == self.message_text(),
    {
        match self {
            SequenceError::MissingGasUsed(step) => {
                let mut text = String::from_str(
                    "expected a gas used parameter for elements we are benchmarking: step ",
                );
                crate::text::push_decimal(&mut text, *step as u128);
                text
            },
        }
    }
}

/// What one step leaves behind, given what the transport reported for it
/// (`None` where the call failed): nothing for a failed call and for a
/// step that is not measured, a summary for a measured step that names its
/// gas, and a fault for one that does not.
pub open spec fn step_result(
    index: usize,
    item: SequenceItem,
    answer: Option<TimedEngineApiResponse>,
) -> Result<Option<BenchEngineAPIRequestSummary>, SequenceError> {
    match answer {
        None => Ok(None),
        Some(timed) => if !item.expect_measurement {
            Ok(None)
        } else {
            match item.request.gas_figure() {
                Some(gas_used) => Ok(
                    Some(
                        BenchEngineAPIRequestSummary {
                            description: item.description,
                            time_taken_microseconds: timed.time_taken_microseconds,
                            gas_used,
                            response: timed.response,
                        },
                    ),
                ),
                None => Err(SequenceError::MissingGasUsed(index)),
            }
        },
    }
}

/// What the first `answers.len()` steps of a case leave behind: the
/// summaries of its measured steps that were answered, in step order, or
/// the fault of the first answered measured step that names no gas.
pub open spec fn run_results(steps: Seq<SequenceItem>, answers: Seq<Option<TimedEngineApiResponse>>)
    -> Result<Seq<BenchEngineAPIRequestSummary>, SequenceError>
    decreases answers.len(),
{
    if answers.len() == 0 {
        Ok(Seq::empty())
    } else {
        let last = answers.len() - 1;
        match run_results(steps, answers.drop_last()) {
            Err(fault) => Err(fault),
            Ok(kept) => match step_result(last as usize, steps[last], answers[last]) {
                Err(fault) => Err(fault),
                Ok(None) => Ok(kept),
                Ok(Some(summary)) => Ok(kept.push(summary)),
            },
        }
    }
}

/// Steps that are not measured leave nothing behind, whatever the
/// transport reported for them.
pub proof fn lemma_setup_steps_leave_nothing(
    steps: Seq<SequenceItem>,
    answers: Seq<Option<TimedEngineApiResponse>>,
)
    requires
        answers.len() <= steps.len(),
        forall|i: int| 0 <= i < answers.len() ==> !(#[trigger] steps[i]).expect_measurement,
    ensures
        run_results(steps, answers) == Ok::<Seq<BenchEngineAPIRequestSummary>, SequenceError>(
            Seq::empty(),
        ),
    decreases answers.len(),
{
    if answers.len() > 0 {
        lemma_setup_steps_leave_nothing(steps, answers.drop_last());
    }
}

/// A case that ends in its one measured step, every step of it answered,
/// leaves exactly one summary: that of the measured step, with its
/// description, its gas and the time that its call took.
pub proof fn lemma_one_measured_step_one_summary(
    steps: Seq<SequenceItem>,
    answers: Seq<Option<TimedEngineApiResponse>>,
)
    requires
        steps.len() >= 1,
        answers.len() == steps.len(),
        forall|i: int| 0 <= i < steps.len() - 1 ==> !(#[trigger] steps[i]).expect_measurement,
        steps.last().expect_measurement,
        steps.last().request.gas_figure() is Some,
        answers.last() is Some,
    ensures
        run_results(steps, answers) matches Ok(kept) && kept.len() == 1 && kept[0].description
            == steps.last().description && Some(kept[0].gas_used)
            == steps.last().request.gas_figure() && kept[0].time_taken_microseconds
            == answers.last()->0.time_taken_microseconds && kept[0].response
            == answers.last()->0.response,
{
    lemma_setup_steps_leave_nothing(steps, answers.drop_last());
}

/// A measured step that was answered and whose request names no gas, as a
/// fork-choice update never does, makes the run fail.
pub proof fn lemma_measured_step_without_gas_fails(
    steps: Seq<SequenceItem>,
    answers: Seq<Option<TimedEngineApiResponse>>,
    i: int,
)
    requires
        0 <= i < answers.len() <= steps.len(),
        steps[i].expect_measurement,
        answers[i] is Some,
        !steps[i].request.submits_payload() || steps[i].request.gas_figure() is None,
    ensures
        run_results(steps, answers) is Err,
    decreases answers.len(),
{
    if i < answers.len() - 1 {
        lemma_measured_step_without_gas_fails(steps, answers.drop_last(), i);
    }
}

/// A run keeps at most one summary for each step that it has sent.
pub proof fn lemma_kept_at_most_one_per_step(
    steps: Seq<SequenceItem>,
    answers: Seq<Option<TimedEngineApiResponse>>,
)
    ensures
        run_results(steps, answers) matches Ok(kept) ==> kept.len() <= answers.len(),
    decreases answers.len(),
{
    if answers.len() > 0 {
        lemma_kept_at_most_one_per_step(steps, answers.drop_last());
    }
}

/// Decides what to keep of one step.
pub fn measure_step(index: usize, item: &SequenceItem, answer: Option<TimedEngineApiResponse>) -> (kept:
    Result<Option<BenchEngineAPIRequestSummary>, SequenceError>)
    ensures
        kept == step_result(index, *item, answer),
{
    let timed = match answer {
        Some(timed) => timed,
        None => {
            return Ok(None);
        },
    };
    if !item.expect_measurement {
        return Ok(None);
    }
    match item.request.gas_used() {
        Some(gas_used) => Ok(
            Some(
                BenchEngineAPIRequestSummary {
                    description: item.description.clone(),
                    time_taken_microseconds: timed.time_taken_microseconds,
                    gas_used,
                    response: timed.response,
                },
            ),
        ),
        None => Err(SequenceError::MissingGasUsed(index)),
    }
}

/// The warning for a step whose call failed.
pub open spec fn failure_warning(error: JwtError) -> Seq<char> {
    "fail "@ + error.message_text()
}

/// The run of one case against one client: how far it has come and what it
/// has kept.
pub struct SequenceRun<'a> {
    case: &'a BenchInput,
    next: usize,
    summaries: Vec<BenchEngineAPIRequestSummary>,
    answers: Ghost<Seq<Option<TimedEngineApiResponse>>>,
}

impl<'a> SequenceRun<'a> {
    /// The steps of the case.
    pub closed spec fn steps(&self) -> Seq<SequenceItem> {
        self.case.sequence@
    }

    /// What the transport has reported so far, step by step; `None` stands
    /// for a call that failed.
    pub closed spec fn answers(&self) -> Seq<Option<TimedEngineApiResponse>> {
        self.answers@
    }

    /// The summaries kept so far.
    pub closed spec fn kept(&self) -> Seq<BenchEngineAPIRequestSummary> {
        self.summaries@
    }

    /// A run is sound where it has no more answers than steps and has kept
    /// what those answers leave behind.
    pub closed spec fn wf(&self) -> bool {
        &&& self.next == self.answers@.len()
        &&& self.answers@.len() <= self.case.sequence@.len()
        &&& run_results(self.case.sequence@, self.answers@) == Ok::<_, SequenceError>(
            self.summaries@,
        )
    }

    /// A run of `case` that has sent nothing yet.
    pub fn new(case: &'a BenchInput) -> (run: Self)
        ensures
            run.wf(),
            run.steps() == case.sequence@,
            run.answers().len() == 0,
            run.kept().len() == 0,
    {
        SequenceRun { case, next: 0, summaries: Vec::new(), answers: Ghost(Seq::empty()) }
    }

    /// The index of the step to send next, or `None` when every step has
    /// been sent.
    pub fn next_step(&self) -> (next: Option<usize>)
        requires
            self.wf(),
        ensures
            next is Some <==> self.answers().len() < self.steps().len(),
            next matches Some(index) ==> index == self.answers().len(),
    {
        if self.next < self.case.sequence.len() {
            Some(self.next)
        } else {
            None
        }
    }

    /// Takes in what the transport reported for the step that `next_step`
    /// named. A failed call leaves nothing but a warning to log, which is
    /// returned; an answered call leaves what `step_result` says. A fault
    /// ends the run: the state stays as it was.
    pub fn record(&mut self, outcome: Result<TimedEngineApiResponse, JwtError>) -> (warning: Result<
        Option<String>,
        SequenceError,
    >)
        requires
            old(self).wf(),
            old(self).answers().len() < old(self).steps().len(),
        ensures
            final(self).wf(),
            final(self).steps() == old(self).steps(),
            ({
                let index = old(self).answers().len();
                let answer = match outcome {
                    Ok(timed) => Some(timed),
                    Err(_) => None,
                };
                match step_result(index as usize, old(self).steps()[index as int], answer) {
                    Err(fault) => {
                        &&& warning == Err::<Option<String>, _>(fault)
                        &&& final(self).answers() == old(self).answers()
                        &&& final(self).kept() == old(self).kept()
                    },
                    Ok(left) => {
                        &&& warning is Ok
                        &&& final(self).answers() == old(self).answers().push(answer)
                        &&& final(self).kept() == match left {
                            Some(summary) => old(self).kept().push(summary),
                            None => old(self).kept(),
                        }
                        &&& match outcome {
                            Ok(_) => warning == Ok::<Option<String>, SequenceError>(None),
                            Err(error) => warning matches Ok(Some(line)) && line@
                                == failure_warning(error),
                        }
                    },
                }
            }),
    {
        let index = self.next;
        let steps = self.case.sequence.len();
        assert(index < steps);
        let (answer, warning) = match outcome {
            Ok(timed) => (Some(timed), None),
            Err(error) => (None, Some(String::from_str("fail ").concat(error.message().as_str()))),
        };
        let ghost seen = self.answers@.push(answer);
        proof {
            assert(seen.drop_last() =~= self.answers@);
        }
        match measure_step(index, &self.case.sequence[index], answer) {
            Err(fault) => Err(fault),
            Ok(left) => {
                if let Some(summary) = left {
                    self.summaries.push(summary);
                }
                self.next = index + 1;
                self.answers = Ghost(seen);
                Ok(warning)
            },
        }
    }

    /// Hands out the summaries of the run.
    pub fn finish(self) -> (summaries: Vec<BenchEngineAPIRequestSummary>)
        requires
            self.wf(),
        ensures
            summaries@ == self.kept(),
            run_results(self.steps(), self.answers()) == Ok::<_, SequenceError>(summaries@),
    {
        self.summaries
    }
}

} // verus!
