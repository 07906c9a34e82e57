//! The runtime model of a generated expression. The wrapped statements run
//! inside an isolated fallible scope: they are evaluated in order, and the
//! moment one of them yields a failure, evaluation of the rest is abandoned
//! and that failure becomes the scope's result. On success the generated
//! expression is the success value itself; on failure it formats a diagnostic
//! and terminates. Termination is modeled as an outcome value rather than a
//! hardwired call, so that the would-be diagnostic can be observed.

use vstd::prelude::*;
use crate::directive::{context_of, generic_context, opt_text, MetaArgView};
use crate::directive::{reason_of_annotations, reason_of_args, synthetic_annotations};
use crate::directive::lemma_synthetic_reason;

verus! {

/// What evaluating one wrapped statement does: it either proceeds to the next
/// statement or yields a failure, whose rendered message it carries. The
/// moment a statement fails, the rest of the scope is not evaluated.
pub enum Step {
    Proceed,
    Fail(String),
}

/// The ghost form of a `Step`.
pub enum StepView {
    Proceed,
    Fail(Seq<char>),
}

impl View for Step {
    type V = StepView;

    open spec fn view(&self) -> StepView {
        match self {
            Step::Proceed => StepView::Proceed,
            Step::Fail(m) => StepView::Fail(m@),
        }
    }
}

/// What an isolated fallible scope evaluates to: the success value of its
/// trailing expression, or the rendered message of the failure that ended it.
pub enum ScopeResult<V> {
    Success(V),
    Failure(String),
}

/// The ghost form of a `ScopeResult`.
pub enum ScopeResultView<V> {
    Success(V),
    Failure(Seq<char>),
}

impl<V> View for ScopeResult<V> {
    type V = ScopeResultView<V>;

    open spec fn view(&self) -> ScopeResultView<V> {
        match self {
            ScopeResult::Success(v) => ScopeResultView::Success(*v),
            ScopeResult::Failure(m) => ScopeResultView::Failure(m@),
        }
    }
}

/// What a generated expression evaluates to: the success value of the scope,
/// or termination carrying the formatted diagnostic. No value is ever
/// produced on the failure path.
pub enum Outcome<V> {
    Value(V),
    Terminated(String),
}

/// The ghost form of an `Outcome`.
pub enum OutcomeView<V> {
    Value(V),
    Terminated(Seq<char>),
}

impl<V> View for Outcome<V> {
    type V = OutcomeView<V>;

    open spec fn view(&self) -> OutcomeView<V> {
        match self {
            Outcome::Value(v) => OutcomeView::Value(*v),
            Outcome::Terminated(m) => OutcomeView::Terminated(m@),
        }
    }
}

/// The ghost forms of a sequence of steps.
pub open spec fn steps_view(steps: Seq<Step>) -> Seq<StepView> {
    steps.map_values(|s: Step| s@)
}

/// The result of an isolated fallible scope: the statements are evaluated in
/// order, the first failure ends the scope with that failure, and when none
/// fails the trailing expression decides.
pub open spec fn scope_eval<V>(steps: Seq<StepView>, tail: ScopeResultView<V>) -> ScopeResultView<
    V,
>
    decreases steps.len(),
{
    if steps.len() == 0 {
        tail
    } else {
        match steps.first() {
            StepView::Proceed => scope_eval(steps.drop_first(), tail),
            StepView::Fail(m) => ScopeResultView::Failure(m),
        }
    }
}

/// A failure's rendered message as it stands in the diagnostic: every line
/// after the first is indented by four spaces, so that the cause reads as one
/// block under the context line.
pub open spec fn indented_cause(m: Seq<char>) -> Seq<char>
    decreases m.len(),
{
    if m.len() == 0 {
        Seq::empty()
    } else if m.first() == '\n' {
        seq!['\n', ' ', ' ', ' ', ' '] + indented_cause(m.drop_first())
    } else {
        seq![m.first()] + indented_cause(m.drop_first())
    }
}

/// The full diagnostic for a failure: a leading line break, the context text
/// (the reason, or the fixed generic text), then the cause under a
/// `Caused by:` heading.
pub open spec fn diagnostic_of(reason: Option<Seq<char>>, cause: Seq<char>) -> Seq<char> {
    "\n"@ + context_of(reason) + "\n\nCaused by:\n    "@ + indented_cause(cause)
}

/// What a generated expression evaluates to, for a given reason and scope.
pub open spec fn transformed_eval<V>(
    reason: Option<Seq<char>>,
    steps: Seq<StepView>,
    tail: ScopeResultView<V>,
) -> OutcomeView<V> {
    match scope_eval(steps, tail) {
        ScopeResultView::Success(v) => OutcomeView::Value(v),
        ScopeResultView::Failure(m) => OutcomeView::Terminated(diagnostic_of(reason, m)),
    }
}

/// Relies on anyhow::Error::msg, anyhow::Error::context and anyhow's Debug
/// rendering of a single-cause context chain: the context line, a blank line,
/// a `Caused by:` heading, then the cause with its first line indented by
/// four spaces and the same indentation inserted after each of its line
/// breaks. The exactness of this contract depends on anyhow being built with
/// its default features off: its backtrace section exists only under the
/// `std` feature, which this crate does not enable.
#[verifier::external_body]
fn render_failure(context: &str, cause: &str) -> (r: String)
    ensures
        r@ == "\n"@ + context@ + "\n\nCaused by:\n    "@ + indented_cause(cause@),
{
    let diagnostic = anyhow::Error::msg(cause.to_owned()).context(context.to_owned());
    format!("\n{:?}", diagnostic)
}

/// Formats the diagnostic for a failure of the isolated scope.
pub fn format_diagnostic(reason: &Option<String>, cause: &str) -> (r: String)
    ensures
        r@ == diagnostic_of(opt_text(*reason), cause@),
{
    match reason {
        Some(s) => render_failure(s.as_str(), cause),
        None => render_failure("An unrecoverable error occurred", cause),
    }
}

/// Evaluates a generated expression: the statements run in order inside the
/// isolated scope, the first failure (or a failing trailing expression)
/// becomes a termination carrying the formatted diagnostic, and a successful
/// scope yields its value untouched.
pub fn run_transformed<V>(reason: &Option<String>, steps: &Vec<Step>, tail: ScopeResult<V>) -> (o:
    Outcome<V>)
    ensures
        o@ == transformed_eval(opt_text(*reason), steps_view(steps@), tail@),
{
    let ghost svs = steps_view(steps@);
    proof {
        assert(svs.skip(0) =~= svs);
    }
    let mut i: usize = 0;
    while i < steps.len()
        invariant
            i <= steps.len(),
            svs == steps_view(steps@),
            scope_eval(svs, tail@) == scope_eval(svs.skip(i as int), tail@),
        decreases steps.len() - i,
    {
        proof {
            assert(svs[i as int] == steps@[i as int]@);
            assert(svs.skip(i as int).first() == svs[i as int]);
        }
        match &steps[i] {
            Step::Proceed => {},
            Step::Fail(m) => {
                let d = format_diagnostic(reason, m.as_str());
                return Outcome::Terminated(d);
            },
        }
        proof {
            assert(svs.skip(i as int).drop_first() =~= svs.skip(i as int + 1));
        }
        i += 1;
    }
    proof {
        assert(svs.skip(steps@.len() as int) =~= Seq::<StepView>::empty());
    }
    match tail {
        ScopeResult::Success(v) => Outcome::Value(v),
        ScopeResult::Failure(m) => {
            let d = format_diagnostic(reason, m.as_str());
            Outcome::Terminated(d)
        },
    }
}

/// Whether `needle` stands somewhere inside `hay` as one contiguous piece.
pub open spec fn text_contains(hay: Seq<char>, needle: Seq<char>) -> bool {
    exists|i: int|
        0 <= i && i + needle.len() <= hay.len() && #[trigger] hay.subrange(i, i + needle.len())
            == needle
}

/// Law: on the success path the transform is the identity — whenever the
/// isolated scope evaluates to a value, the generated expression evaluates to
/// exactly that value.
pub proof fn lemma_success_identity<V>(
    reason: Option<Seq<char>>,
    steps: Seq<StepView>,
    tail: ScopeResultView<V>,
    v: V,
)
    requires
        scope_eval(steps, tail) == ScopeResultView::<V>::Success(v),
    ensures
        transformed_eval(reason, steps, tail) == OutcomeView::<V>::Value(v),
{
}

/// Law: a cause without line breaks stands in the diagnostic unchanged.
proof fn lemma_indented_cause_id(m: Seq<char>)
    requires
        forall|j: int| 0 <= j < m.len() ==> m[j] != '\n',
    ensures
        indented_cause(m) == m,
    decreases m.len(),
{
    if m.len() == 0 {
        assert(indented_cause(m) =~= m);
    } else {
        lemma_indented_cause_id(m.drop_first());
        assert(indented_cause(m) =~= m);
    }
}

/// Law: whenever the isolated scope evaluates to a failure, the generated
/// expression never evaluates to a value: it terminates, and the diagnostic
/// it carries contains the failure's rendered message (as long as that
/// message is a single line; a message with line breaks stands in the
/// diagnostic in indented form).
pub proof fn lemma_failure_terminates<V>(
    reason: Option<Seq<char>>,
    steps: Seq<StepView>,
    tail: ScopeResultView<V>,
    m: Seq<char>,
)
    requires
        scope_eval(steps, tail) == ScopeResultView::<V>::Failure(m),
    ensures
        transformed_eval(reason, steps, tail) == OutcomeView::<V>::Terminated(
            diagnostic_of(reason, m),
        ),
        forall|v: V| transformed_eval(reason, steps, tail) != OutcomeView::<V>::Value(v),
        (forall|j: int| 0 <= j < m.len() ==> m[j] != '\n') ==> text_contains(
            diagnostic_of(reason, m),
            m,
        ),
{
    if forall|j: int| 0 <= j < m.len() ==> m[j] != '\n' {
        lemma_indented_cause_id(m);
        let d = diagnostic_of(reason, m);
        let i = d.len() - m.len();
        assert(d.subrange(i, i + m.len() as int) =~= m);
    }
}

/// Law: the diagnostic contains the reason when one is present, and the fixed
/// generic text when none is.
pub proof fn lemma_reason_in_diagnostic(reason: Option<Seq<char>>, m: Seq<char>)
    ensures
        reason is Some ==> text_contains(diagnostic_of(reason, m), reason.unwrap()),
        reason is None ==> text_contains(diagnostic_of(reason, m), generic_context()),
{
    reveal_strlit("\n");
    let d = diagnostic_of(reason, m);
    let c = context_of(reason);
    assert(d.subrange(1, 1 + c.len() as int) =~= c);
}

/// Law: two diagnostics for the same failure differ only in their context
/// prefix — each opens with a line break followed by its own context text,
/// and what follows that prefix is the same in both.
pub proof fn lemma_diagnostics_differ_only_in_context(
    r1: Option<Seq<char>>,
    r2: Option<Seq<char>>,
    m: Seq<char>,
)
    ensures
        diagnostic_of(r1, m).take(1 + context_of(r1).len() as int) == "\n"@ + context_of(r1),
        diagnostic_of(r2, m).take(1 + context_of(r2).len() as int) == "\n"@ + context_of(r2),
        diagnostic_of(r1, m).skip(1 + context_of(r1).len() as int) == diagnostic_of(r2, m).skip(
            1 + context_of(r2).len() as int,
        ),
{
    reveal_strlit("\n");
    let rest = "\n\nCaused by:\n    "@ + indented_cause(m);
    assert(diagnostic_of(r1, m).take(1 + context_of(r1).len() as int) =~= "\n"@ + context_of(r1));
    assert(diagnostic_of(r2, m).take(1 + context_of(r2).len() as int) =~= "\n"@ + context_of(r2));
    assert(diagnostic_of(r1, m).skip(1 + context_of(r1).len() as int) =~= rest);
    assert(diagnostic_of(r2, m).skip(1 + context_of(r2).len() as int) =~= rest);
}

/// Law: the function form behaves exactly like the bare form applied to the
/// synthetic annotation list built from its argument list — same success
/// values, same diagnostics.
pub proof fn lemma_fn_form_runtime_equiv<V>(
    args: Seq<MetaArgView>,
    steps: Seq<StepView>,
    tail: ScopeResultView<V>,
)
    ensures
        transformed_eval(reason_of_args(args), steps, tail) == transformed_eval(
            reason_of_annotations(synthetic_annotations(reason_of_args(args))),
            steps,
            tail,
        ),
{
    lemma_synthetic_reason(reason_of_args(args));
}

} // verus!
