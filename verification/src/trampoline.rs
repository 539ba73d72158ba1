//! The trampoline generator: from one declared foreign function signature and
//! one proxy configuration, emits the text of a forwarding function
//! definition.
//!
//! The emitted definition keeps the declaration's own name, parameter list
//! and return type, declares a foreign entry point under the derived external
//! link name, binds a mutable copy of every argument under a synthetic
//! positional identifier, lets the configured before-hook rewrite those
//! copies through mutable references, forwards the call, shows the captured
//! result to the configured after-hook, and returns that captured result.

use vstd::prelude::*;
use vstd::string::*;

use crate::config::{
    all_keys_known, has_key, opt_text, parse_config, spec_config, ConfigError, ConfigOption,
    ConfigView, ProxyConfig,
};
use crate::names::{external_name, internal_name, spec_external_name, spec_internal_name};
use crate::text::{arg_names, comma_join, input_ident, input_ident_string, joined_input_args};

verus! {

/// One declared parameter: its binding and the text of its type.
pub struct Param {
    pub binding: String,
    pub ty: String,
}

/// A declared foreign function signature. A receiver, if the declaration has
/// one, is an ordinary parameter whose binding is `self`.
pub struct FunctionSignature {
    pub name: String,
    pub params: Vec<Param>,
    /// The text of the return type, or `None` for a unit return.
    pub ret: Option<String>,
}

pub ghost struct ParamView {
    pub binding: Seq<char>,
    pub ty: Seq<char>,
}

pub ghost struct SignatureView {
    pub name: Seq<char>,
    pub params: Seq<ParamView>,
    pub ret: Option<Seq<char>>,
}

impl View for Param {
    type V = ParamView;

    open spec fn view(&self) -> ParamView {
        ParamView { binding: self.binding@, ty: self.ty@ }
    }
}

impl View for FunctionSignature {
    type V = SignatureView;

    open spec fn view(&self) -> SignatureView {
        SignatureView {
            name: self.name@,
            params: self.params@.map_values(|p: Param| p@),
            ret: opt_text(self.ret),
        }
    }
}

/// The text of one parameter in a parameter list.
pub open spec fn param_text(p: ParamView) -> Seq<char> {
    p.binding + ": "@ + p.ty
}

/// The text of a parameter list, in declaration order.
pub open spec fn params_text(ps: Seq<ParamView>) -> Seq<char> {
    comma_join(ps.map_values(|p: ParamView| param_text(p)))
}

/// The text of the return type position.
pub open spec fn ret_text(ret: Option<Seq<char>>) -> Seq<char> {
    match ret {
        Option::None => Seq::empty(),
        Option::Some(t) => " -> "@ + t,
    }
}

/// The externally visible signature of the emitted definition: exactly the
/// declaration's own name, parameters and return type.
pub open spec fn signature_text(sig: SignatureView) -> Seq<char> {
    "fn "@ + sig.name + "("@ + params_text(sig.params) + ")"@ + ret_text(sig.ret)
}

/// The foreign entry point declaration: the same signature under the derived
/// internal identifier, imported from the target library under the derived
/// external link name.
pub open spec fn foreign_decl_text(sig: SignatureView, lib: Seq<char>) -> Seq<char> {
    "    #[link(name = \""@ + lib + "\", kind = \"raw-dylib\")]\n    extern \"C\" {\n        #[link_name = \""@
        + spec_external_name(sig.name) + "\"]\n        fn "@ + spec_internal_name(sig.name) + "("@
        + params_text(sig.params) + ")"@ + ret_text(sig.ret) + ";\n    }\n"@
}

/// The argument-capture bindings: one mutable copy per declared parameter,
/// bound under the synthetic positional identifiers.
pub open spec fn bindings_text(ps: Seq<ParamView>) -> Seq<char>
    decreases ps.len(),
{
    if ps.len() == 0 {
        Seq::empty()
    } else {
        bindings_text(ps.drop_last()) + "    let mut "@ + input_ident(ps.len() - 1) + " = "@
            + ps.last().binding + ";\n"@
    }
}

/// The before-hook call: absent configuration emits nothing; a configured
/// hook is called with one mutable reference per argument copy, in order.
pub open spec fn before_text(before: Option<Seq<char>>, n: int) -> Seq<char> {
    match before {
        Option::None => Seq::empty(),
        Option::Some(h) => "    "@ + h + "("@ + comma_join(arg_names(n, "&mut "@)) + ");\n"@,
    }
}

/// The forwarding call: invokes the foreign entry point with the (possibly
/// hook-mutated) argument copies, in order, and captures its result.
pub open spec fn forward_text(name: Seq<char>, n: int) -> Seq<char> {
    "    let __output = unsafe { "@ + spec_internal_name(name) + "("@ + comma_join(
        arg_names(n, ""@),
    ) + ") };\n"@
}

/// The after-hook call: absent configuration emits nothing; a configured hook
/// is called with the captured result by value, and its own result is
/// discarded.
pub open spec fn after_text(after: Option<Seq<char>>) -> Seq<char> {
    match after {
        Option::None => Seq::empty(),
        Option::Some(h) => "    "@ + h + "(__output);\n"@,
    }
}

/// The entire emitted definition.
pub open spec fn trampoline_text(sig: SignatureView, cfg: ConfigView) -> Seq<char> {
    signature_text(sig) + " {\n"@ + foreign_decl_text(sig, cfg.lib) + bindings_text(sig.params)
        + before_text(cfg.before, sig.params.len() as int) + forward_text(
        sig.name,
        sig.params.len() as int,
    ) + after_text(cfg.after) + "    __output\n}\n"@
}

fn params_string(params: &Vec<Param>) -> (r: String)
    ensures
        r@ == params_text(params@.map_values(|p: Param| p@)),
{
    let ghost vp = params@.map_values(|p: Param| p@);
    let mut out = String::new();
    let mut i: usize = 0;
    while i < params.len()
        invariant
            i <= params@.len(),
            vp == params@.map_values(|p: Param| p@),
            vp.len() == params@.len(),
            out@ == comma_join(vp.subrange(0, i as int).map_values(|q: ParamView| param_text(q))),
        decreases params@.len() - i,
    {
        if i > 0 {
            out.append(", ");
        }
        let p = &params[i];
        out.append(p.binding.as_str());
        out.append(": ");
        out.append(p.ty.as_str());
        proof {
            assert(vp.subrange(0, i + 1 as int).map_values(|q: ParamView| param_text(q)).drop_last()
                =~= vp.subrange(0, i as int).map_values(|q: ParamView| param_text(q)));
            assert(vp.subrange(0, i + 1 as int).map_values(|q: ParamView| param_text(q)).last()
                == param_text(vp[i as int]));
            assert(out@ =~= comma_join(
                vp.subrange(0, i + 1 as int).map_values(|q: ParamView| param_text(q)),
            ));
        }
        i += 1;
    }
    proof {
        assert(vp.subrange(0, vp.len() as int) =~= vp);
    }
    out
}

fn ret_string(ret: &Option<String>) -> (r: String)
    ensures
        r@ == ret_text(opt_text(*ret)),
{
    match ret {
        None => String::new(),
        Some(t) => {
            let mut s = " -> ".to_owned();
            s.append(t.as_str());
            s
        },
    }
}

fn bindings_string(params: &Vec<Param>) -> (r: String)
    ensures
        r@ == bindings_text(params@.map_values(|p: Param| p@)),
{
    let ghost vp = params@.map_values(|p: Param| p@);
    let mut out = String::new();
    let mut i: usize = 0;
    while i < params.len()
        invariant
            i <= params@.len(),
            vp == params@.map_values(|p: Param| p@),
            vp.len() == params@.len(),
            out@ == bindings_text(vp.subrange(0, i as int)),
        decreases params@.len() - i,
    {
        out.append("    let mut ");
        let id = input_ident_string(i);
        out.append(id.as_str());
        out.append(" = ");
        let p = &params[i];
        out.append(p.binding.as_str());
        out.append(";\n");
        proof {
            assert(vp.subrange(0, i + 1 as int).drop_last() =~= vp.subrange(0, i as int));
            assert(vp.subrange(0, i + 1 as int).last() == vp[i as int]);
            assert(out@ =~= bindings_text(vp.subrange(0, i + 1 as int)));
        }
        i += 1;
    }
    proof {
        assert(vp.subrange(0, vp.len() as int) =~= vp);
    }
    out
}

/// Renders the emitted definition's signature line.
pub fn signature_string(declaration: &FunctionSignature) -> (r: String)
    ensures
        r@ == signature_text(declaration@),
{
    let mut out = "fn ".to_owned();
    out.append(declaration.name.as_str());
    out.append("(");
    let ps = params_string(&declaration.params);
    out.append(ps.as_str());
    out.append(")");
    let rt = ret_string(&declaration.ret);
    out.append(rt.as_str());
    proof {
        assert(out@ =~= signature_text(declaration@));
    }
    out
}

fn foreign_decl_string(declaration: &FunctionSignature, lib: &String) -> (r: String)
    ensures
        r@ == foreign_decl_text(declaration@, lib@),
{
    let mut out = "    #[link(name = \"".to_owned();
    out.append(lib.as_str());
    out.append("\", kind = \"raw-dylib\")]\n    extern \"C\" {\n        #[link_name = \"");
    let ext = external_name(declaration.name.as_str());
    out.append(ext.as_str());
    out.append("\"]\n        fn ");
    let int_name = internal_name(declaration.name.as_str());
    out.append(int_name.as_str());
    out.append("(");
    let ps = params_string(&declaration.params);
    out.append(ps.as_str());
    out.append(")");
    let rt = ret_string(&declaration.ret);
    out.append(rt.as_str());
    out.append(";\n    }\n");
    proof {
        assert(out@ =~= foreign_decl_text(declaration@, lib@));
    }
    out
}

/// Emits the forwarding function definition for one declaration under one
/// validated configuration.
pub fn generate_trampoline(declaration: &FunctionSignature, config: &ProxyConfig) -> (r: String)
    ensures
        r@ == trampoline_text(declaration@, config@),
{
    let n = declaration.params.len();
    let mut out = signature_string(declaration);
    out.append(" {\n");
    let foreign = foreign_decl_string(declaration, &config.lib);
    out.append(foreign.as_str());
    let binds = bindings_string(&declaration.params);
    out.append(binds.as_str());
    match &config.before {
        Some(hook) => {
            out.append("    ");
            out.append(hook.as_str());
            out.append("(");
            let args = joined_input_args(n, "&mut ");
            out.append(args.as_str());
            out.append(");\n");
        },
        None => {},
    }
    out.append("    let __output = unsafe { ");
    let int_name = internal_name(declaration.name.as_str());
    out.append(int_name.as_str());
    out.append("(");
    let args = joined_input_args(n, "");
    out.append(args.as_str());
    out.append(") };\n");
    match &config.after {
        Some(hook) => {
            out.append("    ");
            out.append(hook.as_str());
            out.append("(__output);\n");
        },
        None => {},
    }
    out.append("    __output\n}\n");
    proof {
        assert(out@ =~= trampoline_text(declaration@, config@));
    }
    out
}

/// Validates raw options and, where they are accepted, emits the forwarding
/// definition for the declaration: the front door that the build step calls
/// once per annotated declaration.
pub fn gen_proxy(options: &Vec<ConfigOption>, declaration: &FunctionSignature) -> (r: Result<
    String,
    ConfigError,
>)
    ensures
        (r is Ok) == (all_keys_known(options@) && has_key(options@, "lib"@)),
        (r == Result::<String, ConfigError>::Err(ConfigError::UnknownKey)) == !all_keys_known(
            options@,
        ),
        (r == Result::<String, ConfigError>::Err(ConfigError::MissingLib)) == (all_keys_known(
            options@,
        ) && !has_key(options@, "lib"@)),
        r matches Ok(text) ==> text@ == trampoline_text(declaration@, spec_config(options@)),
{
    match parse_config(options) {
        Ok(cfg) => Ok(generate_trampoline(declaration, &cfg)),
        Err(e) => Err(e),
    }
}

/// Law: generation is deterministic. The emitted text is a pure function of
/// the declaration and the configuration — identical inputs always give
/// identical output.
pub proof fn lemma_generation_deterministic(
    sig1: SignatureView,
    cfg1: ConfigView,
    sig2: SignatureView,
    cfg2: ConfigView,
)
    requires
        sig1 == sig2,
        cfg1 == cfg2,
    ensures
        trampoline_text(sig1, cfg1) == trampoline_text(sig2, cfg2),
{
}

/// Law: signature preservation. The emitted definition begins with the
/// declaration's own signature — its name, its parameters in declaration
/// order, its return type — and that leading signature is the same whatever
/// hooks the configuration asks for.
pub proof fn lemma_signature_preserved(sig: SignatureView, cfg1: ConfigView, cfg2: ConfigView)
    ensures
        signature_text(sig) == "fn "@ + sig.name + "("@ + params_text(sig.params) + ")"@ + ret_text(
            sig.ret,
        ),
        trampoline_text(sig, cfg1).len() >= signature_text(sig).len(),
        trampoline_text(sig, cfg1).subrange(0, signature_text(sig).len() as int) == signature_text(
            sig,
        ),
        trampoline_text(sig, cfg1).subrange(0, signature_text(sig).len() as int) == trampoline_text(
            sig,
            cfg2,
        ).subrange(0, signature_text(sig).len() as int),
{
    assert(trampoline_text(sig, cfg1).subrange(0, signature_text(sig).len() as int)
        =~= signature_text(sig));
    assert(trampoline_text(sig, cfg2).subrange(0, signature_text(sig).len() as int)
        =~= signature_text(sig));
}

/// Law: hook arity. A configured before-hook is called with exactly one
/// `&mut` reference per declared parameter, in declaration order; a
/// configured after-hook is called with exactly one value, the captured
/// result of the forwarding call.
pub proof fn lemma_hook_arity(before: Seq<char>, after: Seq<char>, n: int)
    requires
        0 <= n,
    ensures
        arg_names(n, "&mut "@).len() == n,
        forall|i: int| 0 <= i < n ==> arg_names(n, "&mut "@)[i] == "&mut "@ + input_ident(i),
        before_text(Some(before), n) == "    "@ + before + "("@ + comma_join(
            arg_names(n, "&mut "@),
        ) + ");\n"@,
        after_text(Some(after)) == "    "@ + after + "(__output);\n"@,
{
}

/// Law: the after-hook cannot change what the trampoline returns. Whatever
/// the configuration, the emitted definition calls a configured after-hook
/// only as a statement whose value is discarded, and always ends by returning
/// the captured result binding itself.
pub proof fn lemma_after_hook_observational(sig: SignatureView, cfg: ConfigView)
    ensures
        after_text(cfg.after) == (match cfg.after {
            Option::None => Seq::<char>::empty(),
            Option::Some(h) => "    "@ + h + "(__output);\n"@,
        }),
        trampoline_text(sig, cfg).len() >= "    __output\n}\n"@.len(),
        trampoline_text(sig, cfg).subrange(
            trampoline_text(sig, cfg).len() - "    __output\n}\n"@.len(),
            trampoline_text(sig, cfg).len() as int,
        ) == "    __output\n}\n"@,
{
    assert(trampoline_text(sig, cfg).subrange(
        trampoline_text(sig, cfg).len() - "    __output\n}\n"@.len(),
        trampoline_text(sig, cfg).len() as int,
    ) =~= "    __output\n}\n"@);
}

} // verus!
