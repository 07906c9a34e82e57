//! The parsed form of one invocation site, and the recognizer that extracts
//! the optional reason from the leading inner annotations (bare form) or from
//! the attribute-style argument list (function form).

use vstd::prelude::*;

verus! {

/// One inner annotation, as the recognizer reads it: the text of its path
/// (empty when the path is not a single plain identifier) and, when its
/// argument list parses as exactly one string literal, that literal's text.
/// An argument of any other shape is recorded as `None`: such an annotation
/// is silently treated as carrying no reason rather than rejected.
pub struct Annotation {
    pub name: String,
    pub arg: Option<String>,
}

/// The ghost form of an `Annotation`.
pub struct AnnotationView {
    pub name: Seq<char>,
    pub arg: Option<Seq<char>>,
}

impl View for Annotation {
    type V = AnnotationView;

    open spec fn view(&self) -> AnnotationView {
        AnnotationView { name: self.name@, arg: opt_text(self.arg) }
    }
}

/// One attribute-style key-value argument of the function form: the key's
/// identifier text (empty when the argument is not a plain `key = value`
/// pair) and, when the value is a string literal, that literal's text.
pub struct MetaArg {
    pub name: String,
    pub value: Option<String>,
}

/// The ghost form of a `MetaArg`.
pub struct MetaArgView {
    pub name: Seq<char>,
    pub value: Option<Seq<char>>,
}

impl View for MetaArg {
    type V = MetaArgView;

    open spec fn view(&self) -> MetaArgView {
        MetaArgView { name: self.name@, value: opt_text(self.value) }
    }
}

/// The parsed form of one invocation: the statement texts, kept verbatim and
/// in order, and the optional reason. A directive is built once per site and
/// never changed afterwards.
pub struct Directive {
    pub stmts: Vec<String>,
    pub reason: Option<String>,
}

/// The ghost form of a `Directive`.
pub struct DirectiveView {
    pub stmts: Seq<Seq<char>>,
    pub reason: Option<Seq<char>>,
}

impl View for Directive {
    type V = DirectiveView;

    open spec fn view(&self) -> DirectiveView {
        DirectiveView { stmts: texts_view(self.stmts@), reason: opt_text(self.reason) }
    }
}

/// The text of an optional owned string.
pub open spec fn opt_text(o: Option<String>) -> Option<Seq<char>> {
    match o {
        Some(s) => Some(s@),
        None => None,
    }
}

/// The texts of a sequence of owned strings.
pub open spec fn texts_view(ss: Seq<String>) -> Seq<Seq<char>> {
    ss.map_values(|s: String| s@)
}

/// The ghost forms of a sequence of annotations.
pub open spec fn anns_view(anns: Seq<Annotation>) -> Seq<AnnotationView> {
    anns.map_values(|a: Annotation| a@)
}

/// The ghost forms of a sequence of key-value arguments.
pub open spec fn args_view(args: Seq<MetaArg>) -> Seq<MetaArgView> {
    args.map_values(|a: MetaArg| a@)
}

/// The fixed context text used when no reason annotation is present.
pub open spec fn generic_context() -> Seq<char> {
    "An unrecoverable error occurred"@
}

/// The context text attached to a failure: the reason when one is present,
/// the fixed generic text otherwise.
pub open spec fn context_of(reason: Option<Seq<char>>) -> Seq<char> {
    match reason {
        Some(r) => r,
        None => generic_context(),
    }
}

/// The reason that a list of inner annotations yields: the argument text of
/// the last annotation named `reason` that carries a single string-literal
/// argument. An annotation named `reason` whose argument has another shape
/// neither yields a reason nor erases an earlier one.
pub open spec fn reason_of_annotations(anns: Seq<AnnotationView>) -> Option<Seq<char>>
    decreases anns.len(),
{
    if anns.len() == 0 {
        None
    } else if anns.last().name == "reason"@ && anns.last().arg is Some {
        anns.last().arg
    } else {
        reason_of_annotations(anns.drop_last())
    }
}

/// The reason that a key-value argument list yields: the value of the first
/// argument whose key is `reason` and whose value is a string literal. An
/// argument keyed `reason` with a value of another shape is skipped.
pub open spec fn reason_of_args(args: Seq<MetaArgView>) -> Option<Seq<char>>
    decreases args.len(),
{
    if args.len() == 0 {
        None
    } else if args.first().name == "reason"@ && args.first().value is Some {
        args.first().value
    } else {
        reason_of_args(args.drop_first())
    }
}

/// Whether this text is the fixed annotation name `reason`.
fn is_reason_name(name: &String) -> (b: bool)
    ensures
        b == (name@ == "reason"@),
{
    let key: String = "reason".to_owned();
    name.eq(&key)
}

/// Scans the inner annotations in order and keeps the argument text of the
/// last one named `reason` that carries a single string-literal argument;
/// later matches overwrite earlier ones.
pub fn extract_reason(anns: &Vec<Annotation>) -> (r: Option<String>)
    ensures
        opt_text(r) == reason_of_annotations(anns_view(anns@)),
{
    let ghost avs = anns_view(anns@);
    let mut r: Option<String> = None;
    let mut i: usize = 0;
    while i < anns.len()
        invariant
            i <= anns.len(),
            avs == anns_view(anns@),
            opt_text(r) == reason_of_annotations(avs.take(i as int)),
        decreases anns.len() - i,
    {
        let a = &anns[i];
        if is_reason_name(&a.name) {
            match &a.arg {
                Some(s) => {
                    r = Some(s.clone());
                },
                None => {},
            }
        }
        proof {
            assert(avs[i as int] == anns@[i as int]@);
            assert(avs.take(i as int + 1).last() == avs[i as int]);
            assert(avs.take(i as int + 1).drop_last() =~= avs.take(i as int));
        }
        i += 1;
    }
    proof {
        assert(avs.take(anns@.len() as int) =~= avs);
    }
    r
}

/// Scans the key-value arguments in order and returns the value of the first
/// one keyed `reason` whose value is a string literal.
pub fn first_reason_arg(args: &Vec<MetaArg>) -> (r: Option<String>)
    ensures
        opt_text(r) == reason_of_args(args_view(args@)),
{
    let ghost avs = args_view(args@);
    proof {
        assert(avs.skip(0) =~= avs);
    }
    let mut i: usize = 0;
    while i < args.len()
        invariant
            i <= args.len(),
            avs == args_view(args@),
            reason_of_args(avs) == reason_of_args(avs.skip(i as int)),
        decreases args.len() - i,
    {
        let a = &args[i];
        proof {
            assert(avs[i as int] == args@[i as int]@);
            assert(avs.skip(i as int).first() == avs[i as int]);
        }
        if is_reason_name(&a.name) {
            match &a.value {
                Some(s) => {
                    return Some(s.clone());
                },
                None => {},
            }
        }
        proof {
            assert(avs.skip(i as int).drop_first() =~= avs.skip(i as int + 1));
        }
        i += 1;
    }
    proof {
        assert(avs.skip(args@.len() as int) =~= Seq::<MetaArgView>::empty());
    }
    None
}

/// Builds the directive for one invocation site: the statement texts are kept
/// verbatim and in order, and the reason is whatever the inner annotations
/// yield.
pub fn recognize(anns: Vec<Annotation>, stmts: Vec<String>) -> (d: Directive)
    ensures
        d@.stmts == texts_view(stmts@),
        d@.reason == reason_of_annotations(anns_view(anns@)),
{
    let reason = extract_reason(&anns);
    Directive { stmts, reason }
}

/// Law: when several `reason` annotations stand at one site, the last parsed
/// one wins, whatever stood before it.
pub proof fn lemma_last_reason_wins(anns: Seq<AnnotationView>, r: Seq<char>)
    ensures
        reason_of_annotations(anns.push(AnnotationView { name: "reason"@, arg: Some(r) }))
            == Some(r),
{
    let pushed = anns.push(AnnotationView { name: "reason"@, arg: Some(r) });
    assert(pushed.last() == AnnotationView { name: "reason"@, arg: Some(r) });
}

/// The annotation list that stands for a reason extracted from a key-value
/// argument list: one `reason` annotation when a reason was found, none
/// otherwise.
pub open spec fn synthetic_annotations(reason: Option<Seq<char>>) -> Seq<AnnotationView> {
    match reason {
        Some(r) => seq![AnnotationView { name: "reason"@, arg: Some(r) }],
        None => Seq::empty(),
    }
}

/// Law: recognizing the synthetic annotation list of the function form yields
/// exactly the reason that was extracted from the argument list.
pub proof fn lemma_synthetic_reason(reason: Option<Seq<char>>)
    ensures
        reason_of_annotations(synthetic_annotations(reason)) == reason,
{
    match reason {
        Some(r) => {
            let s = synthetic_annotations(reason);
            assert(s.last() == AnnotationView { name: "reason"@, arg: Some(r) });
        },
        None => {},
    }
}

} // verus!
