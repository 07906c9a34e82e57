//! The boundary to the host syntax layer. Raw token streams are parsed with
//! syn, the parsed annotations and statements are read into the crate's own
//! model values, the verified recognizer and generators do their work on
//! those, and the generated text is handed back as a token stream.
//!
//! Parsing and rendering are deterministic over their inputs, so each result
//! is given an uninterpreted name; the trusted wrappers state their results
//! over those names, and the contracts of `fatal` and `fatal_fn` pin their
//! outputs down to the emitted text of the recognized directive.

use vstd::prelude::*;
use crate::directive::{first_reason_arg, opt_text, recognize, Annotation, Directive, MetaArg};
use crate::directive::{anns_view, args_view, texts_view, AnnotationView, MetaArgView};
use crate::directive::{reason_of_annotations, reason_of_args};
use crate::emit::{emit_block, emit_fn_body, emitted_block, emitted_fn_body};
use crate::directive::DirectiveView;

verus! {

#[verifier::external_type_specification]
#[verifier::external_body]
pub struct ExTokenStream(proc_macro2::TokenStream);

#[verifier::external_type_specification]
#[verifier::external_body]
pub struct ExSynError(syn::Error);

#[verifier::external_type_specification]
#[verifier::external_body]
pub struct ExAttribute(syn::Attribute);

#[verifier::external_type_specification]
#[verifier::external_body]
pub struct ExStmt(syn::Stmt);

#[verifier::external_type_specification]
#[verifier::external_body]
pub struct ExNestedMeta(syn::NestedMeta);

#[verifier::external_type_specification]
#[verifier::external_body]
pub struct ExItemFn(syn::ItemFn);

#[verifier::external_type_specification]
#[verifier::external_body]
pub struct ExBlock(syn::Block);

/// The build-time failure of a transformation: the raw input could not be
/// parsed, or a synthesized replacement body could not be re-parsed. It stops
/// the build of the enclosing program; nothing is recovered.
#[derive(Debug)]
pub struct TransformError {
    pub message: String,
}

/// Whether the bare form's input parses as leading inner annotations followed
/// by a statement sequence.
pub uninterp spec fn directive_parses(input: proc_macro2::TokenStream) -> bool;

/// The inner annotations that the bare form's input parses to.
pub uninterp spec fn directive_attrs(input: proc_macro2::TokenStream) -> Seq<syn::Attribute>;

/// The statement sequence that the bare form's input parses to.
pub uninterp spec fn directive_stmts(input: proc_macro2::TokenStream) -> Seq<syn::Stmt>;

/// The rendered message of the syntax error when the bare form's input does
/// not parse.
pub uninterp spec fn directive_parse_error(input: proc_macro2::TokenStream) -> Seq<char>;

/// Whether the function form's arguments parse as a comma-separated meta list.
pub uninterp spec fn args_parse(args: proc_macro2::TokenStream) -> bool;

/// The meta list that the function form's arguments parse to.
pub uninterp spec fn args_metas(args: proc_macro2::TokenStream) -> Seq<syn::NestedMeta>;

/// The rendered message of the syntax error when the function form's
/// arguments do not parse.
pub uninterp spec fn args_parse_error(args: proc_macro2::TokenStream) -> Seq<char>;

/// Whether the function form's input parses as one declared function.
pub uninterp spec fn fn_parses(input: proc_macro2::TokenStream) -> bool;

/// The declared function that the function form's input parses to.
pub uninterp spec fn fn_parsed(input: proc_macro2::TokenStream) -> syn::ItemFn;

/// The rendered message of the syntax error when the function form's input
/// does not parse as a function.
pub uninterp spec fn fn_parse_error(input: proc_macro2::TokenStream) -> Seq<char>;

/// The text of an annotation's path when that path is one plain identifier;
/// empty otherwise.
pub uninterp spec fn attr_ident(a: syn::Attribute) -> Seq<char>;

/// The text of an annotation's argument when it is exactly one string
/// literal; nothing for any other argument shape.
pub uninterp spec fn attr_str_value(a: syn::Attribute) -> Option<Seq<char>>;

/// The key's text of a `key = value` meta with a one-identifier path; empty
/// for any other argument shape.
pub uninterp spec fn meta_key(m: syn::NestedMeta) -> Seq<char>;

/// The value's text of a `key = value` meta when that value is a string
/// literal; nothing for any other argument shape.
pub uninterp spec fn meta_value(m: syn::NestedMeta) -> Option<Seq<char>>;

/// A statement's tokens rendered as text.
pub uninterp spec fn stmt_tokens_text(s: syn::Stmt) -> Seq<char>;

/// A syntax error's rendered message.
pub uninterp spec fn error_message(e: syn::Error) -> Seq<char>;

/// The body block of a declared function.
pub uninterp spec fn fn_block(f: syn::ItemFn) -> syn::Block;

/// The statements a block holds, in order.
pub uninterp spec fn block_stmts(b: syn::Block) -> Seq<syn::Stmt>;

/// The tokens of a declared function apart from its body block — outer
/// attributes, visibility, name, generics, parameter list and declared return
/// type — rendered as text.
pub uninterp spec fn fn_sig_text(f: syn::ItemFn) -> Seq<char>;

/// Whether a text parses as one braced block.
pub uninterp spec fn block_parses(s: Seq<char>) -> bool;

/// The block that a text parses to.
pub uninterp spec fn block_of_text(s: Seq<char>) -> syn::Block;

/// Whether a text lexes as a token stream.
pub uninterp spec fn text_lexes(s: Seq<char>) -> bool;

/// The token stream that a text lexes to.
pub uninterp spec fn stream_of_text(s: Seq<char>) -> proc_macro2::TokenStream;

/// A declared function's tokens, as one stream.
pub uninterp spec fn fn_stream(f: syn::ItemFn) -> proc_macro2::TokenStream;

/// The model values of a sequence of parsed annotations: each one's path
/// text and single-string-literal argument, read by the trusted wrappers.
pub open spec fn annotation_views(attrs: Seq<syn::Attribute>) -> Seq<AnnotationView> {
    attrs.map_values(
        |a: syn::Attribute| AnnotationView { name: attr_ident(a), arg: attr_str_value(a) },
    )
}

/// The model values of a sequence of parsed meta arguments.
pub open spec fn meta_arg_views(metas: Seq<syn::NestedMeta>) -> Seq<MetaArgView> {
    metas.map_values(|m: syn::NestedMeta| MetaArgView { name: meta_key(m), value: meta_value(m) })
}

/// The rendered texts of a sequence of parsed statements, in order.
pub open spec fn statement_texts(stmts: Seq<syn::Stmt>) -> Seq<Seq<char>> {
    stmts.map_values(|s: syn::Stmt| stmt_tokens_text(s))
}

/// The text that the bare form emits for its input: the generated expression
/// over the input's statement texts, under the reason that the input's inner
/// annotations yield.
pub open spec fn fatal_output_text(input: proc_macro2::TokenStream) -> Seq<char> {
    emitted_block(
        DirectiveView {
            stmts: statement_texts(directive_stmts(input)),
            reason: reason_of_annotations(annotation_views(directive_attrs(input))),
        },
    )
}

/// The reason that the function form extracts from its argument list.
pub open spec fn fatal_fn_reason(args: proc_macro2::TokenStream) -> Option<Seq<char>> {
    reason_of_args(meta_arg_views(args_metas(args)))
}

/// The replacement body text that the function form synthesizes: the braced
/// generated expression over the declared function's own body statements,
/// under the reason extracted from the arguments.
pub open spec fn fatal_fn_body_text(
    args: proc_macro2::TokenStream,
    input: proc_macro2::TokenStream,
) -> Seq<char> {
    emitted_fn_body(
        DirectiveView {
            stmts: statement_texts(block_stmts(fn_block(fn_parsed(input)))),
            reason: fatal_fn_reason(args),
        },
    )
}

/// Relies on syn::Attribute::parse_inner and syn::Block::parse_within, run as
/// one parse over the whole input: the leading inner annotations, then the
/// rest of the input as a statement sequence under the block-body grammar.
/// Parsing is deterministic over the input tokens; a failure is returned as a
/// syntax error, never a panic.
#[verifier::external_body]
fn parse_directive_input(input: proc_macro2::TokenStream) -> (r: Result<
    (Vec<syn::Attribute>, Vec<syn::Stmt>),
    syn::Error,
>)
    ensures
        (r is Ok) == directive_parses(input),
        r matches Ok(p) ==> p.0@ == directive_attrs(input) && p.1@ == directive_stmts(input),
        r matches Err(e) ==> error_message(e) == directive_parse_error(input),
{
    syn::parse::Parser::parse2(
        |stream: syn::parse::ParseStream| {
            let attrs = syn::Attribute::parse_inner(stream)?;
            let stmts = syn::Block::parse_within(stream)?;
            Ok((attrs, stmts))
        },
        input,
    )
}

/// Relies on syn::punctuated::Punctuated::parse_terminated: the attribute
/// arguments of the function form as a comma-separated meta list, parsed
/// deterministically.
#[verifier::external_body]
fn parse_meta_args(args: proc_macro2::TokenStream) -> (r: Result<Vec<syn::NestedMeta>, syn::Error>)
    ensures
        (r is Ok) == args_parse(args),
        r matches Ok(v) ==> v@ == args_metas(args),
        r matches Err(e) ==> error_message(e) == args_parse_error(args),
{
    let parsed = syn::parse::Parser::parse2(
        syn::punctuated::Punctuated::<syn::NestedMeta, syn::token::Comma>::parse_terminated,
        args,
    );
    match parsed {
        Ok(p) => Ok(p.into_iter().collect()),
        Err(e) => Err(e),
    }
}

/// Relies on syn::parse2 for syn::ItemFn: the input as one declared function,
/// parsed deterministically.
#[verifier::external_body]
fn parse_item_fn(input: proc_macro2::TokenStream) -> (r: Result<syn::ItemFn, syn::Error>)
    ensures
        (r is Ok) == fn_parses(input),
        r matches Ok(f) ==> f == fn_parsed(input),
        r matches Err(e) ==> error_message(e) == fn_parse_error(input),
{
    syn::parse2::<syn::ItemFn>(input)
}

/// Relies on syn::Path::get_ident, on the annotation's path, and on the
/// identifier's Display rendering: the name of a path that is one plain
/// identifier, as text; empty otherwise.
#[verifier::external_body]
fn attr_name(a: &syn::Attribute) -> (r: String)
    ensures
        r@ == attr_ident(*a),
{
    match a.path.get_ident() {
        Some(ident) => ident.to_string(),
        None => String::new(),
    }
}

/// Relies on syn::Attribute::parse_args for syn::LitStr, and on
/// syn::LitStr::value for the literal's text: the annotation's argument when
/// it is exactly one string literal, nothing when it has any other shape.
#[verifier::external_body]
fn attr_str_arg(a: &syn::Attribute) -> (r: Option<String>)
    ensures
        opt_text(r) == attr_str_value(*a),
{
    match a.parse_args::<syn::LitStr>() {
        Ok(lit) => Some(lit.value()),
        Err(_) => None,
    }
}

/// Relies on syn::Path::get_ident, on the key of a `key = value` meta, and on
/// the identifier's Display rendering: the key's text when the argument is
/// such a pair with a one-identifier path; empty for any other shape.
#[verifier::external_body]
fn meta_arg_name(m: &syn::NestedMeta) -> (r: String)
    ensures
        r@ == meta_key(*m),
{
    if let syn::NestedMeta::Meta(syn::Meta::NameValue(pair)) = m {
        if let Some(ident) = pair.path.get_ident() {
            return ident.to_string();
        }
    }
    String::new()
}

/// Relies on syn::LitStr::value: the value of a `key = value` meta when that
/// value is a string literal, nothing for any other argument shape.
#[verifier::external_body]
fn meta_str_value(m: &syn::NestedMeta) -> (r: Option<String>)
    ensures
        opt_text(r) == meta_value(*m),
{
    if let syn::NestedMeta::Meta(syn::Meta::NameValue(pair)) = m {
        if let syn::Lit::Str(lit) = &pair.lit {
            return Some(lit.value());
        }
    }
    None
}

/// Relies on quote::ToTokens for syn::Stmt, and on the token stream's Display
/// rendering: the statement's tokens as text, rendered deterministically.
#[verifier::external_body]
fn stmt_text(s: &syn::Stmt) -> (r: String)
    ensures
        r@ == stmt_tokens_text(*s),
{
    quote::ToTokens::to_token_stream(s).to_string()
}

/// Relies on the `block` field of syn::ItemFn: the declared function's body
/// statements, cloned.
#[verifier::external_body]
fn fn_body_stmts(f: &syn::ItemFn) -> (r: Vec<syn::Stmt>)
    ensures
        r@ == block_stmts(fn_block(*f)),
{
    f.block.stmts.clone()
}

/// Relies on syn::parse_str for syn::Block: the text as one braced block,
/// parsed deterministically.
#[verifier::external_body]
fn parse_block(s: &str) -> (r: Result<syn::Block, syn::Error>)
    ensures
        (r is Ok) == block_parses(s@),
        r matches Ok(b) ==> b == block_of_text(s@),
{
    syn::parse_str::<syn::Block>(s)
}

/// Moves a re-parsed block into the declared function's `block` field. Every
/// other field — outer attributes, visibility and signature — is untouched,
/// so the declaration's tokens apart from the body are unchanged.
#[verifier::external_body]
fn with_body(f: syn::ItemFn, b: syn::Block) -> (r: syn::ItemFn)
    ensures
        fn_block(r) == b,
        fn_sig_text(r) == fn_sig_text(f),
{
    let mut out = f;
    *out.block = b;
    out
}

/// Relies on quote::ToTokens for syn::ItemFn: the declaration as a token
/// stream, rendered deterministically.
#[verifier::external_body]
fn fn_tokens(f: &syn::ItemFn) -> (r: proc_macro2::TokenStream)
    ensures
        r == fn_stream(*f),
{
    quote::ToTokens::to_token_stream(f)
}

/// Relies on syn::parse_str for proc_macro2::TokenStream: the generated text
/// as a token stream, lexed deterministically.
#[verifier::external_body]
fn tokens_of_text(s: &str) -> (r: Result<proc_macro2::TokenStream, syn::Error>)
    ensures
        (r is Ok) == text_lexes(s@),
        r matches Ok(ts) ==> ts == stream_of_text(s@),
{
    syn::parse_str::<proc_macro2::TokenStream>(s)
}

/// Relies on syn::Error's Display rendering: the syntax error as text.
#[verifier::external_body]
fn error_text(e: &syn::Error) -> (r: String)
    ensures
        r@ == error_message(*e),
{
    e.to_string()
}

/// Turns a syntax error into the crate's own build-time error, keeping its
/// rendered message.
fn transform_error(e: &syn::Error) -> (r: TransformError)
    ensures
        r.message@ == error_message(*e),
{
    TransformError { message: error_text(e) }
}

/// Reads the parsed inner annotations into the crate's own model values, one
/// for one and in order.
fn annotations_of(attrs: &Vec<syn::Attribute>) -> (r: Vec<Annotation>)
    ensures
        anns_view(r@) == annotation_views(attrs@),
{
    let mut out: Vec<Annotation> = Vec::new();
    let mut i: usize = 0;
    while i < attrs.len()
        invariant
            i <= attrs.len(),
            anns_view(out@) == annotation_views(attrs@.take(i as int)),
        decreases attrs.len() - i,
    {
        let a = &attrs[i];
        let ghost prev = out@;
        out.push(Annotation { name: attr_name(a), arg: attr_str_arg(a) });
        proof {
            let av = AnnotationView {
                name: attr_ident(attrs@[i as int]),
                arg: attr_str_value(attrs@[i as int]),
            };
            assert(out@.last()@ == av);
            assert(anns_view(out@) =~= anns_view(prev).push(av));
            assert(attrs@.take(i as int + 1) =~= attrs@.take(i as int).push(attrs@[i as int]));
            assert(annotation_views(attrs@.take(i as int).push(attrs@[i as int])) =~= annotation_views(
                attrs@.take(i as int),
            ).push(av));
        }
        i += 1;
    }
    proof {
        assert(attrs@.take(attrs@.len() as int) =~= attrs@);
    }
    out
}

/// Reads the parsed attribute arguments into the crate's own model values,
/// one for one and in order.
fn meta_args_of(metas: &Vec<syn::NestedMeta>) -> (r: Vec<MetaArg>)
    ensures
        args_view(r@) == meta_arg_views(metas@),
{
    let mut out: Vec<MetaArg> = Vec::new();
    let mut i: usize = 0;
    while i < metas.len()
        invariant
            i <= metas.len(),
            args_view(out@) == meta_arg_views(metas@.take(i as int)),
        decreases metas.len() - i,
    {
        let m = &metas[i];
        let ghost prev = out@;
        out.push(MetaArg { name: meta_arg_name(m), value: meta_str_value(m) });
        proof {
            let mv = MetaArgView {
                name: meta_key(metas@[i as int]),
                value: meta_value(metas@[i as int]),
            };
            assert(out@.last()@ == mv);
            assert(args_view(out@) =~= args_view(prev).push(mv));
            assert(metas@.take(i as int + 1) =~= metas@.take(i as int).push(metas@[i as int]));
            assert(meta_arg_views(metas@.take(i as int).push(metas@[i as int])) =~= meta_arg_views(
                metas@.take(i as int),
            ).push(mv));
        }
        i += 1;
    }
    proof {
        assert(metas@.take(metas@.len() as int) =~= metas@);
    }
    out
}

/// Renders the parsed statements as texts, one for one and in order.
fn stmt_texts_of(stmts: &Vec<syn::Stmt>) -> (r: Vec<String>)
    ensures
        texts_view(r@) == statement_texts(stmts@),
{
    let mut out: Vec<String> = Vec::new();
    let mut i: usize = 0;
    while i < stmts.len()
        invariant
            i <= stmts.len(),
            texts_view(out@) == statement_texts(stmts@.take(i as int)),
        decreases stmts.len() - i,
    {
        let ghost prev = out@;
        out.push(stmt_text(&stmts[i]));
        proof {
            let tv = stmt_tokens_text(stmts@[i as int]);
            assert(out@.last()@ == tv);
            assert(texts_view(out@) =~= texts_view(prev).push(tv));
            assert(stmts@.take(i as int + 1) =~= stmts@.take(i as int).push(stmts@[i as int]));
            assert(statement_texts(stmts@.take(i as int).push(stmts@[i as int])) =~= statement_texts(
                stmts@.take(i as int),
            ).push(tv));
        }
        i += 1;
    }
    proof {
        assert(stmts@.take(stmts@.len() as int) =~= stmts@);
    }
    out
}

/// The bare form: parses one invocation's raw input — zero or more leading
/// inner annotations, then a statement sequence — recognizes the directive,
/// and emits the wrapped expression. Success is returned exactly when the
/// input parses and the emitted text lexes, and the output is the stream of
/// exactly that text; an input that does not parse is returned as a
/// build-time error carrying the syntax error's message. The transformation
/// itself never panics or terminates.
pub fn fatal(input: proc_macro2::TokenStream) -> (r: Result<
    proc_macro2::TokenStream,
    TransformError,
>)
    ensures
        r is Ok <==> directive_parses(input) && text_lexes(fatal_output_text(input)),
        r matches Ok(ts) ==> ts == stream_of_text(fatal_output_text(input)),
        !directive_parses(input) ==> (r matches Err(e) && e.message@ == directive_parse_error(
            input,
        )),
{
    match parse_directive_input(input) {
        Ok((attrs, stmts)) => {
            let anns = annotations_of(&attrs);
            let texts = stmt_texts_of(&stmts);
            let d = recognize(anns, texts);
            let code = emit_block(&d);
            proof {
                assert(code@ == fatal_output_text(input));
            }
            match tokens_of_text(code.as_str()) {
                Ok(ts) => Ok(ts),
                Err(e) => Err(transform_error(&e)),
            }
        },
        Err(e) => Err(transform_error(&e)),
    }
}

/// The function form: parses the attribute arguments and the declared
/// function, re-derives the reason from the argument whose key is `reason`,
/// and replaces the function's body with the wrapped form of its original
/// statements. Success is returned exactly when both parses succeed and the
/// synthesized body re-parses as a block — the defensive check of the
/// transformation — and the output renders a declaration whose tokens apart
/// from the body are the input's own and whose body is the block parsed from
/// exactly the synthesized text. Either failure is a build-time error, never
/// a panic.
pub fn fatal_fn(args: proc_macro2::TokenStream, input: proc_macro2::TokenStream) -> (r: Result<
    proc_macro2::TokenStream,
    TransformError,
>)
    ensures
        r is Ok <==> args_parse(args) && fn_parses(input) && block_parses(
            fatal_fn_body_text(args, input),
        ),
        r matches Ok(ts) ==> exists|g: syn::ItemFn|
            ts == #[trigger] fn_stream(g) && fn_sig_text(g) == fn_sig_text(fn_parsed(input))
                && fn_block(g) == block_of_text(fatal_fn_body_text(args, input)),
        !args_parse(args) ==> (r matches Err(e) && e.message@ == args_parse_error(args)),
        args_parse(args) && !fn_parses(input) ==> (r matches Err(e) && e.message@
            == fn_parse_error(input)),
{
    let metas = match parse_meta_args(args) {
        Ok(m) => m,
        Err(e) => {
            return Err(transform_error(&e));
        },
    };
    let f = match parse_item_fn(input) {
        Ok(f) => f,
        Err(e) => {
            return Err(transform_error(&e));
        },
    };
    let margs = meta_args_of(&metas);
    let reason = first_reason_arg(&margs);
    let stmts = fn_body_stmts(&f);
    let texts = stmt_texts_of(&stmts);
    let d = Directive { stmts: texts, reason };
    let body = emit_fn_body(&d);
    proof {
        assert(body@ == fatal_fn_body_text(args, input));
    }
    match parse_block(body.as_str()) {
        Ok(b) => {
            let replaced = with_body(f, b);
            let ts = fn_tokens(&replaced);
            proof {
                assert(ts == fn_stream(replaced) && fn_sig_text(replaced) == fn_sig_text(
                    fn_parsed(input),
                ) && fn_block(replaced) == block_of_text(fatal_fn_body_text(args, input)));
            }
            Ok(ts)
        },
        Err(e) => Err(transform_error(&e)),
    }
}

} // verus!
