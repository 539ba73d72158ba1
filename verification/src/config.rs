//! Proxy configuration: the options that accompany one function declaration,
//! and their validation.
//!
//! The surrounding build step hands the options over as plain key/value
//! pairs. Three keys are understood: `lib` (the target library, required),
//! `before` and `after` (optional hook names). An unknown key is rejected,
//! and so is a configuration that never names the library; when a key is
//! given more than once, the last value wins.

use vstd::prelude::*;
use vstd::string::*;

verus! {

/// One `key = "value"` option as the build step hands it over.
pub struct ConfigOption {
    pub key: String,
    pub value: String,
}

/// A validated proxy configuration for one declaration.
pub struct ProxyConfig {
    /// The library the real implementation lives in.
    pub lib: String,
    /// Hook called before the forwarding call, if configured.
    pub before: Option<String>,
    /// Hook called after the forwarding call, if configured.
    pub after: Option<String>,
}

/// Why a configuration was refused.
#[derive(Debug, PartialEq, Eq, Structural)]
pub enum ConfigError {
    /// An option used a key other than `lib`, `before` or `after`.
    UnknownKey,
    /// No `lib` option was given.
    MissingLib,
}

/// The mathematical shape of a configuration.
pub ghost struct ConfigView {
    pub lib: Seq<char>,
    pub before: Option<Seq<char>>,
    pub after: Option<Seq<char>>,
}

impl View for ProxyConfig {
    type V = ConfigView;

    open spec fn view(&self) -> ConfigView {
        ConfigView { lib: self.lib@, before: opt_text(self.before), after: opt_text(self.after) }
    }
}

/// The text of an optional name.
pub open spec fn opt_text(o: Option<String>) -> Option<Seq<char>> {
    match o {
        Option::None => Option::None,
        Option::Some(s) => Option::Some(s@),
    }
}

/// Whether `k` is one of the understood option keys.
pub open spec fn known_key(k: Seq<char>) -> bool {
    k == "lib"@ || k == "before"@ || k == "after"@
}

pub open spec fn all_keys_known(opts: Seq<ConfigOption>) -> bool {
    forall|i: int| 0 <= i < opts.len() ==> known_key(#[trigger] opts[i].key@)
}

pub open spec fn has_key(opts: Seq<ConfigOption>, k: Seq<char>) -> bool {
    exists|i: int| 0 <= i < opts.len() && #[trigger] opts[i].key@ == k
}

/// The value of the last option under key `k`, if any: a repeated key is
/// overridden by its later occurrence.
pub open spec fn last_value(opts: Seq<ConfigOption>, k: Seq<char>) -> Option<Seq<char>>
    decreases opts.len(),
{
    if opts.len() == 0 {
        Option::None
    } else if opts.last().key@ == k {
        Option::Some(opts.last().value@)
    } else {
        last_value(opts.drop_last(), k)
    }
}

/// The configuration that a list of options denotes, where it is accepted.
pub open spec fn spec_config(opts: Seq<ConfigOption>) -> ConfigView {
    ConfigView {
        lib: match last_value(opts, "lib"@) {
            Option::Some(l) => l,
            Option::None => Seq::empty(),
        },
        before: last_value(opts, "before"@),
        after: last_value(opts, "after"@),
    }
}

proof fn lemma_keys_distinct()
    ensures
        "lib"@ != "before"@,
        "lib"@ != "after"@,
        "before"@ != "after"@,
{
    reveal_strlit("lib");
    reveal_strlit("before");
    reveal_strlit("after");
    assert("lib"@.len() != "before"@.len());
    assert("lib"@.len() != "after"@.len());
    assert("before"@.len() != "after"@.len());
}

pub proof fn lemma_last_value_has_key(opts: Seq<ConfigOption>, k: Seq<char>)
    ensures
        (last_value(opts, k) is Some) == has_key(opts, k),
    decreases opts.len(),
{
    if opts.len() == 0 {
    } else if opts.last().key@ == k {
        assert(opts[opts.len() - 1].key@ == k);
    } else {
        lemma_last_value_has_key(opts.drop_last(), k);
        if has_key(opts, k) {
            let i = choose|i: int| 0 <= i < opts.len() && #[trigger] opts[i].key@ == k;
            assert(opts.drop_last()[i].key@ == k);
        } else {
            if has_key(opts.drop_last(), k) {
                let i = choose|i: int|
                    0 <= i < opts.drop_last().len() && #[trigger] opts.drop_last()[i].key@ == k;
                assert(opts[i].key@ == k);
            }
        }
    }
}

/// Validates a list of options into a configuration.
///
/// The result is `Ok` exactly when every key is understood and the library
/// name is given; an unknown key is reported ahead of a missing library.
pub fn parse_config(options: &Vec<ConfigOption>) -> (r: Result<ProxyConfig, ConfigError>)
    ensures
        (r is Ok) == (all_keys_known(options@) && has_key(options@, "lib"@)),
        (r == Result::<ProxyConfig, ConfigError>::Err(ConfigError::UnknownKey)) == !all_keys_known(
            options@,
        ),
        (r == Result::<ProxyConfig, ConfigError>::Err(ConfigError::MissingLib)) == (all_keys_known(
            options@,
        ) && !has_key(options@, "lib"@)),
        r matches Ok(cfg) ==> cfg@ == spec_config(options@),
{
    let key_lib: String = "lib".to_owned();
    let key_before: String = "before".to_owned();
    let key_after: String = "after".to_owned();
    let mut lib: Option<String> = None;
    let mut before: Option<String> = None;
    let mut after: Option<String> = None;
    let mut i: usize = 0;
    while i < options.len()
        invariant
            i <= options@.len(),
            forall|j: int| 0 <= j < i ==> known_key(#[trigger] options@[j].key@),
            opt_text(lib) == last_value(options@.subrange(0, i as int), "lib"@),
            opt_text(before) == last_value(options@.subrange(0, i as int), "before"@),
            opt_text(after) == last_value(options@.subrange(0, i as int), "after"@),
            key_lib@ == "lib"@,
            key_before@ == "before"@,
            key_after@ == "after"@,
        decreases options@.len() - i,
    {
        let o = &options[i];
        proof {
            lemma_keys_distinct();
            assert(options@.subrange(0, i + 1 as int).drop_last() =~= options@.subrange(
                0,
                i as int,
            ));
            assert(options@.subrange(0, i + 1 as int).last() == options@[i as int]);
        }
        if o.key == key_lib {
            lib = Some(o.value.clone());
        } else if o.key == key_before {
            before = Some(o.value.clone());
        } else if o.key == key_after {
            after = Some(o.value.clone());
        } else {
            proof {
                assert(!known_key(options@[i as int].key@));
            }
            return Err(ConfigError::UnknownKey);
        }
        i += 1;
    }
    proof {
        assert(options@.subrange(0, options@.len() as int) =~= options@);
        lemma_last_value_has_key(options@, "lib"@);
    }
    match lib {
        Some(l) => Ok(ProxyConfig { lib: l, before, after }),
        None => Err(ConfigError::MissingLib),
    }
}

} // verus!
