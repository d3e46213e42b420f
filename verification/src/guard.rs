//! How a guarded mutation ends.
//!
//! A mutation guard records one outcome when it is finished. What is reported
//! depends on the outcome and on whether recording it worked.
use vstd::prelude::*;

use crate::model::{with_audit_failure, append_audit_failure, MutationReport};
use crate::text::{concat, contains, has_infix, has_suffix, lower, opt_view, to_lower};

verus! {

/// A report whose texts are fixed up to an error that was handed on.
#[derive(Debug)]
pub struct Verdict {
    pub mutation: Option<&'static str>,
    pub prefix: &'static str,
    pub error: Option<String>,
}

impl Verdict {
    /// The report's two texts.
    pub open spec fn texts(self) -> (Option<Seq<char>>, Option<Seq<char>>) {
        (
            match self.mutation {
                Some(m) => Some(m@),
                None => None,
            },
            match self.error {
                Some(e) => Some(self.prefix@ + e@),
                None => None,
            },
        )
    }

    /// The report.
    pub fn report(self) -> (r: MutationReport)
        ensures
            r.texts() == self.texts(),
    {
        MutationReport {
            mutation: match self.mutation {
                Some(m) => Some(m.to_owned()),
                None => None,
            },
            error: match self.error {
                Some(e) => Some(concat(self.prefix, e.as_str())),
                None => None,
            },
        }
    }
}

/// How a guard is finished, and what is reported then.
#[derive(Debug)]
pub enum Closing {
    /// Nothing was changed. The label is reported whether or not the outcome
    /// could be recorded.
    Skip { outcome: &'static str, label: &'static str, audit_prefix: &'static str },
    /// Something went wrong. The error is reported, and after it the failure to
    /// record the outcome.
    Fail {
        outcome: &'static str,
        mutation: Option<&'static str>,
        prefix: &'static str,
        error: String,
    },
}

impl Closing {
    /// The outcome that the guard records.
    pub open spec fn spec_outcome(self) -> Seq<char> {
        match self {
            Closing::Skip { outcome, .. } => outcome@,
            Closing::Fail { outcome, .. } => outcome@,
        }
    }

    /// The outcome that the guard records.
    pub fn outcome(&self) -> (r: &'static str)
        ensures
            r@ == self.spec_outcome(),
    {
        match self {
            Closing::Skip { outcome, .. } => outcome,
            Closing::Fail { outcome, .. } => outcome,
        }
    }

    /// What is reported once the guard was finished.
    pub open spec fn closed(self, audit: Option<Seq<char>>) -> (
        Option<Seq<char>>,
        Option<Seq<char>>,
    ) {
        match self {
            Closing::Skip { label, audit_prefix, .. } => (
                Some(label@),
                match audit {
                    Some(e) => Some(audit_prefix@ + e),
                    None => None,
                },
            ),
            Closing::Fail { mutation, prefix, error, .. } => (
                match mutation {
                    Some(l) => Some(l@),
                    None => None,
                },
                Some(with_audit_failure(prefix@ + error@, audit)),
            ),
        }
    }

    /// What is reported once the guard was finished; `audit` is the failure to
    /// record the outcome.
    pub fn close(self, audit: Option<String>) -> (r: MutationReport)
        ensures
            r.texts() == self.closed(opt_view(audit)),
    {
        match self {
            Closing::Skip { label, audit_prefix, .. } => MutationReport {
                mutation: Some(label.to_owned()),
                error: match audit {
                    Some(e) => Some(concat(audit_prefix, e.as_str())),
                    None => None,
                },
            },
            Closing::Fail { mutation, prefix, error, .. } => {
                let text = concat(prefix, error.as_str());
                MutationReport {
                    mutation: match mutation {
                        Some(l) => Some(l.to_owned()),
                        None => None,
                    },
                    error: Some(append_audit_failure(text.as_str(), &audit)),
                }
            },
        }
    }
}

/// What is reported of a cancellation that was skipped: the outcome, or the
/// failure to record it.
pub fn finish_guard_skip(outcome: &str, audit: Option<String>) -> (r: MutationReport)
    ensures
        match audit {
            None => r.texts() == (Some(outcome@), None::<Seq<char>>),
            Some(e) => r.texts() == (None::<Seq<char>>, Some(e@)),
        },
{
    match audit {
        None => MutationReport::done(outcome),
        Some(e) => MutationReport::failed(e),
    }
}

/// What is reported of a cancellation that failed: the error, and after it the
/// failure to record the outcome.
pub fn finish_guard_error(error: &str, audit: Option<String>) -> (r: MutationReport)
    ensures
        r.texts() == (None::<Seq<char>>, Some(with_audit_failure(error@, opt_view(audit)))),
{
    MutationReport::failed(append_audit_failure(error, &audit))
}

/// Whether a refusal says that the run can no longer be cancelled.
pub open spec fn rejects_cancellation(message: Seq<char>) -> bool {
    let text = lower(message);
    ||| has_infix(text, "http 409"@)
    ||| has_infix(text, "http 422"@)
    ||| has_infix(text, "already completed"@)
    ||| has_infix(text, "cannot cancel"@)
    ||| has_infix(text, "can't cancel"@)
    ||| has_infix(text, "not in progress"@)
}

/// Whether a refusal says that the run can no longer be cancelled.
pub fn definitive_cancel_rejection(message: &str) -> (r: bool)
    ensures
        r == rejects_cancellation(message@),
{
    let text = to_lower(message);
    let text = text.as_str();
    contains(text, "http 409") || contains(text, "http 422") || contains(text, "already completed")
        || contains(text, "cannot cancel") || contains(text, "can't cancel") || contains(
        text,
        "not in progress",
    )
}

/// How a guard is finished, in texts.
pub struct ClosingView {
    pub outcome: Seq<char>,
    /// Whether something went wrong.
    pub fails: bool,
    /// What is reported as done.
    pub mutation: Option<Seq<char>>,
    /// The error, or what the failure to record is introduced by.
    pub text: Seq<char>,
}

impl View for Closing {
    type V = ClosingView;

    open spec fn view(&self) -> ClosingView {
        match *self {
            Closing::Skip { outcome, label, audit_prefix } => ClosingView {
                outcome: outcome@,
                fails: false,
                mutation: Some(label@),
                text: audit_prefix@,
            },
            Closing::Fail { outcome, mutation, prefix, error } => ClosingView {
                outcome: outcome@,
                fails: true,
                mutation: match mutation {
                    Some(m) => Some(m@),
                    None => None,
                },
                text: prefix@ + error@,
            },
        }
    }
}

/// A guard that is finished with an error.
pub open spec fn failing(outcome: Seq<char>, error: Seq<char>) -> ClosingView {
    ClosingView { outcome, fails: true, mutation: None, text: error }
}

/// What a guarded mutation does after a step.
#[derive(Debug)]
pub enum Flow<S> {
    /// The next step is taken.
    Next(S),
    /// The guard is finished, and the mutation is over.
    Close(Closing),
    /// The mutation is over and leaves its guard as it is.
    Report(MutationReport),
}

/// What a guarded mutation does after a step, in texts.
pub enum FlowView<S> {
    Next(S),
    Close(ClosingView),
    Report((Option<Seq<char>>, Option<Seq<char>>)),
}

impl<S> View for Flow<S> {
    type V = FlowView<S>;

    open spec fn view(&self) -> FlowView<S> {
        match *self {
            Flow::Next(stage) => FlowView::Next(stage),
            Flow::Close(closing) => FlowView::Close(closing@),
            Flow::Report(report) => FlowView::Report(report.texts()),
        }
    }
}

/// A report of something done.
pub open spec fn reports_done<S>(mutation: Seq<char>) -> FlowView<S> {
    FlowView::Report((Some(mutation), None))
}

/// A report of something gone wrong.
pub open spec fn reports_failed<S>(error: Seq<char>) -> FlowView<S> {
    FlowView::Report((None, Some(error)))
}

/// A report of something done and something gone wrong.
pub open spec fn reports_both<S>(mutation: Seq<char>, error: Seq<char>) -> FlowView<S> {
    FlowView::Report((Some(mutation), Some(error)))
}

/// Whether a mutation is over and nothing went wrong.
pub open spec fn ends_well<S>(flow: FlowView<S>) -> bool {
    match flow {
        FlowView::Next(_) => false,
        FlowView::Close(closing) => !closing.fails,
        FlowView::Report(told) => told.1 is None,
    }
}

/// Whether a mutation is over and reports something as done.
pub open spec fn ends_as<S>(flow: FlowView<S>, label: Seq<char>) -> bool {
    match flow {
        FlowView::Next(_) => false,
        FlowView::Close(closing) => closing.mutation == Some(label),
        FlowView::Report(told) => told.0 == Some(label),
    }
}

/// Whether a mutation is over and its error ends with a text.
pub open spec fn ends_with_error<S>(flow: FlowView<S>, error: Seq<char>) -> bool {
    match flow {
        FlowView::Next(_) => false,
        FlowView::Close(closing) => closing.fails && has_suffix(closing.text, error),
        FlowView::Report(told) => told.1 matches Some(text) && has_suffix(text, error),
    }
}

/// A text ends with what was put at its end.
pub proof fn ends_with_its_end(front: Seq<char>, end: Seq<char>)
    ensures
        has_suffix(front + end, end),
        has_suffix(end, end),
{
    assert((front + end).skip((front + end).len() - end.len()) =~= end);
    assert(end.skip(0) =~= end);
}

/// A text ends with the end of what was put at its end.
pub proof fn ends_with_the_last(first: Seq<char>, second: Seq<char>, end: Seq<char>)
    ensures
        has_suffix(first + (second + end), end),
{
    assert(first + (second + end) =~= (first + second) + end);
    ends_with_its_end(first + second, end);
}

} // verus!
