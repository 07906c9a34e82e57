//! Generation of the wrapped expression. The emitted text evaluates the
//! statements inside an immediately invoked closure returning a fallible
//! result, so that early error propagation stays inside that boundary, and
//! turns a failure into a formatted termination carrying the context text.

use vstd::prelude::*;
use vstd::string::StringExecFns;
use crate::directive::{context_of, Directive, DirectiveView, MetaArgView};
use crate::directive::{
    lemma_synthetic_reason, reason_of_annotations, reason_of_args, synthetic_annotations,
};

verus! {

/// The characters of `c` as they stand inside the double-quoted string
/// literal of the generated code: a quote, a backslash and a carriage return
/// are escaped, every other character stands as itself.
pub open spec fn escaped_char(c: char) -> Seq<char> {
    if c == '"' {
        seq!['\\', '"']
    } else if c == '\\' {
        seq!['\\', '\\']
    } else if c == '\r' {
        seq!['\\', 'r']
    } else {
        seq![c]
    }
}

/// The text as it stands inside a double-quoted string literal of the
/// generated code.
pub open spec fn escaped(s: Seq<char>) -> Seq<char>
    decreases s.len(),
{
    if s.len() == 0 {
        Seq::empty()
    } else {
        escaped_char(s.first()) + escaped(s.drop_first())
    }
}

proof fn lemma_escaped_snoc(s: Seq<char>, c: char)
    ensures
        escaped(s.push(c)) == escaped(s) + escaped_char(c),
    decreases s.len(),
{
    let p = s.push(c);
    if s.len() == 0 {
        assert(p.first() == c);
        assert(p.drop_first() =~= Seq::<char>::empty());
        assert(escaped(Seq::<char>::empty()) == Seq::<char>::empty());
        assert(escaped(p) == escaped_char(c) + Seq::<char>::empty());
        assert(escaped(p) =~= escaped(s) + escaped_char(c));
    } else {
        assert(p.first() == s.first());
        assert(p.drop_first() =~= s.drop_first().push(c));
        lemma_escaped_snoc(s.drop_first(), c);
        assert(escaped(p) == escaped_char(s.first()) + (escaped(s.drop_first())
            + escaped_char(c)));
        assert(escaped(p) =~= escaped(s) + escaped_char(c));
    }
}

/// Relies on str::chars: the characters of the text, in order.
#[verifier::external_body]
fn chars_of(s: &str) -> (v: Vec<char>)
    ensures
        v@ == s@,
{
    s.chars().collect()
}

/// Relies on String's FromIterator over characters: the collected text holds
/// exactly the given characters, in order.
#[verifier::external_body]
fn text_of_chars(v: &Vec<char>) -> (s: String)
    ensures
        s@ == v@,
{
    v.iter().collect()
}

/// Escapes a context text so that it can stand inside the double-quoted
/// string literal of the generated code.
pub fn escape_text(s: &str) -> (r: String)
    ensures
        r@ == escaped(s@),
{
    let cs = chars_of(s);
    let mut out: Vec<char> = Vec::new();
    let mut i: usize = 0;
    while i < cs.len()
        invariant
            i <= cs.len(),
            cs@ == s@,
            out@ == escaped(s@.take(i as int)),
        decreases cs.len() - i,
    {
        let c = cs[i];
        if c == '"' {
            out.push('\\');
            out.push('"');
        } else if c == '\\' {
            out.push('\\');
            out.push('\\');
        } else if c == '\r' {
            out.push('\\');
            out.push('r');
        } else {
            out.push(c);
        }
        proof {
            assert(s@.take(i as int + 1) =~= s@.take(i as int).push(s@[i as int]));
            lemma_escaped_snoc(s@.take(i as int), s@[i as int]);
            assert(out@ =~= escaped(s@.take(i as int)) + escaped_char(s@[i as int]));
        }
        i += 1;
    }
    proof {
        assert(s@.take(s@.len() as int) =~= s@);
    }
    text_of_chars(&out)
}

/// The fixed opening of every generated expression: an immediately invoked
/// closure returning a fallible result.
pub open spec fn block_head() -> Seq<char> {
    "(|| -> std::result::Result<_, anyhow::Error> { "@
}

/// Between the wrapped statements and the context literal: the call that
/// turns a failure into a formatted termination.
pub open spec fn block_mid() -> Seq<char> {
    "})().unwrap_or_else(|e| { panic!(\"\\n{:?}\", e.context(\""@
}

/// The fixed closing of every generated expression.
pub open spec fn block_tail() -> Seq<char> {
    "\")); })"@
}

/// The statement texts, in their original order, each followed by one space.
pub open spec fn joined(stmts: Seq<Seq<char>>) -> Seq<char>
    decreases stmts.len(),
{
    if stmts.len() == 0 {
        Seq::empty()
    } else {
        stmts.first() + " "@ + joined(stmts.drop_first())
    }
}

proof fn lemma_joined_snoc(stmts: Seq<Seq<char>>, s: Seq<char>)
    ensures
        joined(stmts.push(s)) == joined(stmts) + s + " "@,
    decreases stmts.len(),
{
    let p = stmts.push(s);
    if stmts.len() == 0 {
        assert(p.first() == s);
        assert(p.drop_first() =~= Seq::<Seq<char>>::empty());
        assert(joined(Seq::<Seq<char>>::empty()) == Seq::<char>::empty());
        assert(joined(p) == s + " "@ + Seq::<char>::empty());
        assert(joined(p) =~= joined(stmts) + s + " "@);
    } else {
        assert(p.first() == stmts.first());
        assert(p.drop_first() =~= stmts.drop_first().push(s));
        lemma_joined_snoc(stmts.drop_first(), s);
        assert(joined(p) == stmts.first() + " "@ + (joined(stmts.drop_first()) + s + " "@));
        assert(joined(p) =~= joined(stmts) + s + " "@);
    }
}

/// The full text of the generated expression for one directive.
pub open spec fn emitted_block(d: DirectiveView) -> Seq<char> {
    block_head() + joined(d.stmts) + block_mid() + escaped(context_of(d.reason)) + block_tail()
}

/// Emits the wrapped expression for one directive: the statements stand
/// verbatim and in order inside an isolated fallible scope, and a failure of
/// that scope becomes a formatted termination whose context is the reason, or
/// the fixed generic text when no reason is present.
pub fn emit_block(d: &Directive) -> (r: String)
    ensures
        r@ == emitted_block(d@),
{
    let mut out: String = "(|| -> std::result::Result<_, anyhow::Error> { ".to_owned();
    let mut i: usize = 0;
    while i < d.stmts.len()
        invariant
            i <= d.stmts.len(),
            out@ == block_head() + joined(d@.stmts.take(i as int)),
        decreases d.stmts.len() - i,
    {
        proof {
            assert(d@.stmts[i as int] == d.stmts@[i as int]@);
        }
        out.append(d.stmts[i].as_str());
        out.append(" ");
        proof {
            assert(d@.stmts.take(i as int + 1) =~= d@.stmts.take(i as int).push(
                d@.stmts[i as int],
            ));
            lemma_joined_snoc(d@.stmts.take(i as int), d@.stmts[i as int]);
            assert(out@ =~= block_head() + joined(d@.stmts.take(i as int + 1)));
        }
        i += 1;
    }
    proof {
        assert(d@.stmts.take(d.stmts@.len() as int) =~= d@.stmts);
    }
    out.append("})().unwrap_or_else(|e| { panic!(\"\\n{:?}\", e.context(\"");
    let esc: String = match &d.reason {
        Some(r) => escape_text(r.as_str()),
        None => escape_text("An unrecoverable error occurred"),
    };
    out.append(esc.as_str());
    out.append("\")); })");
    out
}

/// The replacement body of the function form: the generated expression of the
/// bare form, braced so that it can be re-parsed as a block.
pub open spec fn emitted_fn_body(d: DirectiveView) -> Seq<char> {
    "{ "@ + emitted_block(d) + " }"@
}

/// Emits the braced replacement body for the function form.
pub fn emit_fn_body(d: &Directive) -> (r: String)
    ensures
        r@ == emitted_fn_body(d@),
{
    let mut out: String = "{ ".to_owned();
    let inner = emit_block(d);
    out.append(inner.as_str());
    out.append(" }");
    out
}

/// Law: the function form is the bare form applied to a synthetic directive.
/// For any statement texts and any argument list, the expression emitted
/// under the reason extracted from the arguments is exactly the expression
/// emitted for a bare block whose leading annotations are that reason (or
/// nothing, when no reason was extracted).
pub proof fn lemma_fn_form_matches_block_form(stmts: Seq<Seq<char>>, args: Seq<MetaArgView>)
    ensures
        emitted_block(DirectiveView { stmts, reason: reason_of_args(args) }) == emitted_block(
            DirectiveView {
                stmts,
                reason: reason_of_annotations(synthetic_annotations(reason_of_args(args))),
            },
        ),
{
    lemma_synthetic_reason(reason_of_args(args));
}

} // verus!
