use proxytools::config::{ConfigError, ConfigOption, ProxyConfig};
use proxytools::trampoline::{gen_proxy, generate_trampoline, FunctionSignature, Param};

fn opt(key: &str, value: &str) -> ConfigOption {
    ConfigOption { key: key.to_string(), value: value.to_string() }
}

fn param(binding: &str, ty: &str) -> Param {
    Param { binding: binding.to_string(), ty: ty.to_string() }
}

fn sig(name: &str, params: Vec<Param>, ret: Option<&str>) -> FunctionSignature {
    FunctionSignature {
        name: name.to_string(),
        params,
        ret: ret.map(|t| t.to_string()),
    }
}

#[test]
fn full_generation_with_both_hooks() {
    let declaration = sig("foo", vec![param("a", "i32"), param("b", "u64")], Some("i32"));
    let options = vec![opt("lib", "target"), opt("before", "pre"), opt("after", "post")];
    let text = gen_proxy(&options, &declaration).unwrap();
    let mut expected = String::new();
    expected.push_str("fn foo(a: i32, b: u64) -> i32 {\n");
    expected.push_str("    #[link(name = \"target\", kind = \"raw-dylib\")]\n");
    expected.push_str("    extern \"C\" {\n");
    expected.push_str("        #[link_name = \"foo_external\"]\n");
    expected.push_str("        fn foo_internal(a: i32, b: u64) -> i32;\n");
    expected.push_str("    }\n");
    expected.push_str("    let mut __input_0 = a;\n");
    expected.push_str("    let mut __input_1 = b;\n");
    expected.push_str("    pre(&mut __input_0, &mut __input_1);\n");
    expected.push_str("    let __output = unsafe { foo_internal(__input_0, __input_1) };\n");
    expected.push_str("    post(__output);\n");
    expected.push_str("    __output\n");
    expected.push_str("}\n");
    assert_eq!(text, expected);
}

#[test]
fn no_hooks_no_params_unit_return() {
    let declaration = sig("ping", vec![], None);
    let options = vec![opt("lib", "x")];
    let text = gen_proxy(&options, &declaration).unwrap();
    let mut expected = String::new();
    expected.push_str("fn ping() {\n");
    expected.push_str("    #[link(name = \"x\", kind = \"raw-dylib\")]\n");
    expected.push_str("    extern \"C\" {\n");
    expected.push_str("        #[link_name = \"ping_external\"]\n");
    expected.push_str("        fn ping_internal();\n");
    expected.push_str("    }\n");
    expected.push_str("    let __output = unsafe { ping_internal() };\n");
    expected.push_str("    __output\n");
    expected.push_str("}\n");
    assert_eq!(text, expected);
}

#[test]
fn before_hook_receives_one_mutable_reference_per_parameter() {
    let declaration = sig(
        "mix",
        vec![param("a", "u8"), param("b", "u16"), param("c", "u32")],
        Some("u8"),
    );
    let options = vec![opt("lib", "m"), opt("before", "watch")];
    let text = gen_proxy(&options, &declaration).unwrap();
    assert!(text.contains("    watch(&mut __input_0, &mut __input_1, &mut __input_2);\n"));
}

#[test]
fn after_hook_receives_exactly_the_captured_result() {
    let declaration = sig("f", vec![param("a", "i32")], Some("i32"));
    let options = vec![opt("lib", "m"), opt("after", "observe")];
    let text = gen_proxy(&options, &declaration).unwrap();
    assert!(text.contains("    observe(__output);\n"));
}

#[test]
fn trampoline_always_returns_the_captured_result() {
    let declaration = sig("f", vec![param("a", "i32")], Some("i32"));
    let with_hooks = gen_proxy(
        &vec![opt("lib", "m"), opt("before", "pre"), opt("after", "post")],
        &declaration,
    )
    .unwrap();
    let without_hooks = gen_proxy(&vec![opt("lib", "m")], &declaration).unwrap();
    assert!(with_hooks.ends_with("    __output\n}\n"));
    assert!(without_hooks.ends_with("    __output\n}\n"));
}

#[test]
fn hooks_do_not_change_the_visible_signature() {
    let declaration = sig("f", vec![param("a", "i32")], Some("i32"));
    let with_hooks = gen_proxy(
        &vec![opt("lib", "m"), opt("before", "pre"), opt("after", "post")],
        &declaration,
    )
    .unwrap();
    let without_hooks = gen_proxy(&vec![opt("lib", "m")], &declaration).unwrap();
    let header = "fn f(a: i32) -> i32 {\n";
    assert!(with_hooks.starts_with(header));
    assert!(without_hooks.starts_with(header));
}

#[test]
fn generation_is_deterministic() {
    let declaration = sig("f", vec![param("a", "i32")], Some("i32"));
    let options = vec![opt("lib", "m"), opt("before", "pre")];
    let first = gen_proxy(&options, &declaration).unwrap();
    let second = gen_proxy(&options, &declaration).unwrap();
    assert_eq!(first, second);
}

#[test]
fn receiver_is_forwarded_like_any_parameter() {
    let declaration = sig("touch", vec![param("self", "&Handle")], None);
    let options = vec![opt("lib", "m")];
    let text = gen_proxy(&options, &declaration).unwrap();
    assert!(text.contains("    let mut __input_0 = self;\n"));
    assert!(text.contains("fn touch(self: &Handle) {\n"));
}

#[test]
fn missing_lib_is_rejected() {
    let declaration = sig("f", vec![], None);
    let options = vec![opt("before", "pre")];
    assert_eq!(gen_proxy(&options, &declaration), Err(ConfigError::MissingLib));
}

#[test]
fn unknown_key_is_rejected() {
    let declaration = sig("f", vec![], None);
    let options = vec![opt("lib", "m"), opt("colour", "red")];
    assert_eq!(gen_proxy(&options, &declaration), Err(ConfigError::UnknownKey));
}

#[test]
fn unknown_key_is_reported_ahead_of_missing_lib() {
    let declaration = sig("f", vec![], None);
    let options = vec![opt("colour", "red")];
    assert_eq!(gen_proxy(&options, &declaration), Err(ConfigError::UnknownKey));
}

#[test]
fn repeated_key_takes_the_last_value() {
    let declaration = sig("f", vec![], None);
    let options = vec![opt("lib", "first"), opt("lib", "second")];
    let text = gen_proxy(&options, &declaration).unwrap();
    assert!(text.contains("#[link(name = \"second\", kind = \"raw-dylib\")]"));
    assert!(!text.contains("first"));
}

#[test]
fn generate_trampoline_matches_gen_proxy() {
    let declaration = sig("f", vec![param("a", "i32")], Some("i32"));
    let config = ProxyConfig {
        lib: "m".to_string(),
        before: Some("pre".to_string()),
        after: None,
    };
    let direct = generate_trampoline(&declaration, &config);
    let via_options =
        gen_proxy(&vec![opt("lib", "m"), opt("before", "pre")], &declaration).unwrap();
    assert_eq!(direct, via_options);
}
