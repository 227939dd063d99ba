use gpgpu::emit::{carries_entry_tag, emit, render_bindings, replaced};
use gpgpu::error::TransformError;
use gpgpu::marker::{cpu_only, entry, expand, gpu, BuildTarget, Marker};
use gpgpu::rebind::{rebind, rebind_parameters, rebind_return, strip_async, Binding, DeviceEntry, Direction};
use gpgpu::signature::{
    analyze, find_and_strip_return_type, gather_parameters, FunctionSignature, Parameter,
};
use gpgpu::token::{copy_tokens, find, Delimiter, Probe, Spacing, Token};

fn is_punct_char(c: char) -> bool {
    !c.is_whitespace()
        && !c.is_alphanumeric()
        && c != '_'
        && c != '"'
        && !matches!(c, '(' | ')' | '{' | '}' | '[' | ']')
}

fn lex_until(chars: &[char], pos: &mut usize, close: Option<char>) -> Vec<Token> {
    let mut out = Vec::new();
    while *pos < chars.len() {
        let c = chars[*pos];
        if c.is_whitespace() {
            *pos += 1;
        } else if Some(c) == close {
            *pos += 1;
            return out;
        } else if c == '(' {
            *pos += 1;
            out.push(Token::Group(Delimiter::Parenthesis, lex_until(chars, pos, Some(')'))));
        } else if c == '{' {
            *pos += 1;
            out.push(Token::Group(Delimiter::Brace, lex_until(chars, pos, Some('}'))));
        } else if c == '[' {
            *pos += 1;
            out.push(Token::Group(Delimiter::Bracket, lex_until(chars, pos, Some(']'))));
        } else if c == '"' {
            let start = *pos;
            *pos += 1;
            while chars[*pos] != '"' {
                *pos += 1;
            }
            *pos += 1;
            out.push(Token::Literal(chars[start..*pos].iter().collect()));
        } else if c.is_ascii_digit() {
            let start = *pos;
            while *pos < chars.len() && (chars[*pos].is_alphanumeric() || chars[*pos] == '.') {
                *pos += 1;
            }
            out.push(Token::Literal(chars[start..*pos].iter().collect()));
        } else if c.is_alphabetic() || c == '_' {
            let start = *pos;
            while *pos < chars.len() && (chars[*pos].is_alphanumeric() || chars[*pos] == '_') {
                *pos += 1;
            }
            out.push(Token::Ident(chars[start..*pos].iter().collect()));
        } else {
            *pos += 1;
            let joint = *pos < chars.len() && is_punct_char(chars[*pos]);
            out.push(Token::Punct(c, if joint { Spacing::Joint } else { Spacing::Alone }));
        }
    }
    out
}

/// Token trees of a piece of source text. A punctuation character is joint
/// exactly when another punctuation character follows it directly.
fn lex(source: &str) -> Vec<Token> {
    let chars: Vec<char> = source.chars().collect();
    let mut pos = 0;
    lex_until(&chars, &mut pos, None)
}

fn input(name: &str, ty: &str) -> Binding {
    Binding { direction: Direction::Input, name: name.to_string(), value_type: lex(ty) }
}

fn output(ty: &str) -> Binding {
    Binding { direction: Direction::Output, name: "output".to_string(), value_type: lex(ty) }
}

fn param(name: &str, ty: &str) -> Parameter {
    Parameter { name: name.to_string(), ty: lex(ty) }
}

/// `fn k(p0: T0, ..) [-> R] { [return p;] }` with `arity` parameters.
fn kernel_of_arity(arity: usize, returns: bool) -> String {
    let mut params = Vec::new();
    for i in 0..arity {
        params.push(format!("p{}: T{}", i, i));
    }
    if returns {
        format!("fn k({}) -> R {{ return make(); }}", params.join(", "))
    } else {
        format!("fn k({}) {{ work(); }}", params.join(", "))
    }
}

#[test]
fn lexer_builds_trees() {
    assert_eq!(
        lex("fn f(x: F32) -> F32 { return x; }"),
        vec![
            Token::Ident("fn".to_string()),
            Token::Ident("f".to_string()),
            Token::Group(
                Delimiter::Parenthesis,
                vec![
                    Token::Ident("x".to_string()),
                    Token::Punct(':', Spacing::Alone),
                    Token::Ident("F32".to_string()),
                ],
            ),
            Token::Punct('-', Spacing::Joint),
            Token::Punct('>', Spacing::Alone),
            Token::Ident("F32".to_string()),
            Token::Group(
                Delimiter::Brace,
                vec![
                    Token::Ident("return".to_string()),
                    Token::Ident("x".to_string()),
                    Token::Punct(';', Spacing::Alone),
                ],
            ),
        ]
    );
}

#[test]
fn identity_kernel_yields_input_and_output_binding() {
    let item = lex("fn f(x: F32) -> F32 { return x; }");
    let pair = emit(&item).unwrap();
    assert_eq!(pair.device_entry.name, "f");
    assert_eq!(pair.device_entry.bindings, vec![input("x", "F32"), output("F32")]);
    assert_eq!(pair.device_entry.body, lex("* output = x ;"));
    assert_eq!(pair.device_entry.qualifiers, Vec::<Token>::new());
    assert_eq!(pair.host_mirror, lex("fn f__cpu(x: F32) -> F32 { return x; }"));
}

#[test]
fn host_mirror_differs_from_the_declaration_in_name_only() {
    let item = lex("pub fn f(x: F32) -> F32 { return x; }");
    let pair = emit(&item).unwrap();
    assert_eq!(pair.host_mirror.len(), item.len());
    for i in 0..item.len() {
        if i == 2 {
            assert_eq!(item[i], Token::Ident("f".to_string()));
            assert_eq!(pair.host_mirror[i], Token::Ident("f__cpu".to_string()));
        } else {
            assert_eq!(pair.host_mirror[i], item[i]);
        }
    }
}

#[test]
fn host_mirror_keeps_uses_of_the_name_in_the_body() {
    let item = lex("fn f(f: F32) -> F32 { return f; }");
    let pair = emit(&item).unwrap();
    assert_eq!(pair.host_mirror, lex("fn f__cpu(f: F32) -> F32 { return f; }"));
}

#[test]
fn device_build_emits_tagged_entry_point() {
    let item = lex("fn f(x: F32) -> F32 { return x; }");
    let expected = lex(
        "# [spirv (gl_compute)] fn f (x : spirv_std :: storage_class :: Input < F32 > , \
         output : spirv_std :: storage_class :: Output < F32 >) { * output = x ; }",
    );
    assert_eq!(gpu(&item, BuildTarget::Device), Ok(expected));
}

#[test]
fn device_entry_spells_its_own_tokens() {
    let entry = DeviceEntry {
        qualifiers: lex("pub"),
        name: "scale".to_string(),
        bindings: vec![input("v", "Vec < f32 >"), input("by", "f32")],
        body: lex("work (v , by) ;"),
    };
    let expected = lex(
        "# [spirv (gl_compute)] pub fn scale (v : spirv_std :: storage_class :: Input < Vec < f32 > > , \
         by : spirv_std :: storage_class :: Input < f32 >) { work (v , by) ; }",
    );
    assert_eq!(entry.to_tokens(), expected);
}

#[test]
fn host_build_emits_launcher_then_mirror() {
    let item = lex("fn f(x: F32) -> F32 { return x; }");
    let mut expected = lex(
        "fn f(x: F32) -> F32 { gpgpu_backend :: CONTEXT . lock () . unwrap () . launch (\"f\") ; return x; }",
    );
    expected.extend(lex("fn f__cpu(x: F32) -> F32 { return x; }"));
    assert_eq!(gpu(&item, BuildTarget::Host), Ok(expected));
}

#[test]
fn launcher_names_the_entry_point_in_a_string_literal() {
    let item = lex("pub fn calculate(value: f32) -> f32 { return do_stuff(); }");
    let expanded = gpu(&item, BuildTarget::Host).unwrap();
    let body = match &expanded[7] {
        Token::Group(Delimiter::Brace, inner) => inner,
        other => panic!("no body: {:?}", other),
    };
    let argument = match &body[12] {
        Token::Group(Delimiter::Parenthesis, inner) => inner,
        other => panic!("no argument list: {:?}", other),
    };
    assert_eq!(argument, &vec![Token::Literal("\"calculate\"".to_string())]);
    assert_eq!(expanded[10], Token::Ident("calculate__cpu".to_string()));
}

#[test]
fn kernel_without_return_type_keeps_its_body() {
    let item = lex("pub async fn calculate_async(value: f32) { do_stuff(); }");
    let pair = emit(&item).unwrap();
    assert_eq!(pair.device_entry.bindings, vec![input("value", "f32")]);
    assert_eq!(pair.device_entry.body, lex("do_stuff();"));
    assert_eq!(pair.device_entry.qualifiers, lex("pub"));
    let expected = lex(
        "# [spirv (gl_compute)] pub fn calculate_async (value : spirv_std :: storage_class :: Input < f32 >) { do_stuff(); }",
    );
    assert_eq!(gpu(&item, BuildTarget::Device), Ok(expected));
}

#[test]
fn async_stays_on_the_host() {
    let item = lex("pub async fn calculate_async(value: f32) { do_stuff(); }");
    let mut expected = lex(
        "pub async fn calculate_async(value: f32) { gpgpu_backend :: CONTEXT . lock () . unwrap () . launch (\"calculate_async\") ; do_stuff(); }",
    );
    expected.extend(lex("pub async fn calculate_async__cpu(value: f32) { do_stuff(); }"));
    assert_eq!(gpu(&item, BuildTarget::Host), Ok(expected));
}

#[test]
fn returning_kernels_get_one_binding_more() {
    for arity in 0..=8 {
        let item = lex(&kernel_of_arity(arity, true));
        let entry = emit(&item).unwrap().device_entry;
        assert_eq!(entry.bindings.len(), arity + 1);
        for i in 0..arity {
            assert_eq!(entry.bindings[i], input(&format!("p{}", i), &format!("T{}", i)));
        }
        assert_eq!(entry.bindings[arity], output("R"));
    }
}

#[test]
fn plain_kernels_keep_their_parameter_count() {
    for arity in 0..=8 {
        let item = lex(&kernel_of_arity(arity, false));
        let entry = emit(&item).unwrap().device_entry;
        assert_eq!(entry.bindings.len(), arity);
        for i in 0..arity {
            assert_eq!(entry.bindings[i], input(&format!("p{}", i), &format!("T{}", i)));
        }
        assert!(entry.bindings.iter().all(|b| b.direction == Direction::Input));
    }
}

#[test]
fn rebound_declaration_is_refused() {
    for source in ["fn f(x: F32) -> F32 { return x; }", "pub async fn g(a: A, b: B) { run(); }", "fn h() {}"] {
        let rebound = gpu(&lex(source), BuildTarget::Device).unwrap();
        assert_eq!(gpu(&rebound, BuildTarget::Device), Err(TransformError::AlreadyRebound));
        assert_eq!(gpu(&rebound, BuildTarget::Host), Err(TransformError::AlreadyRebound));
        assert_eq!(emit(&rebound), Err(TransformError::AlreadyRebound));
    }
}

#[test]
fn entry_tag_is_recognised_anywhere_before_the_body() {
    assert!(carries_entry_tag(&lex("#[spirv(gl_compute)] fn f() {}")));
    assert!(carries_entry_tag(&lex("pub #[spirv(fragment)] fn f() {}")));
    assert!(!carries_entry_tag(&lex("#[inline] fn f() {}")));
    assert!(!carries_entry_tag(&lex("fn f() { #[spirv(gl_compute)] fn g() {} }")));
    assert!(!carries_entry_tag(&lex("# spirv fn f() {}")));
    assert!(!carries_entry_tag(&lex("[spirv] fn f() {}")));
    assert!(!carries_entry_tag(&lex("#[] fn f() {}")));
    assert!(!carries_entry_tag(&lex("#")));
    assert!(!carries_entry_tag(&Vec::new()));
}

#[test]
fn tagged_declaration_is_refused_before_its_shape_is_read() {
    assert_eq!(
        gpu(&lex("#[spirv(gl_compute)] fn"), BuildTarget::Device),
        Err(TransformError::AlreadyRebound)
    );
}

#[test]
fn missing_return_statement_is_refused() {
    let item = lex("fn f(x: F32) -> F32 { x }");
    assert_eq!(emit(&item), Err(TransformError::MissingReturnStatement));
    assert_eq!(gpu(&item, BuildTarget::Device), Err(TransformError::MissingReturnStatement));
    assert_eq!(gpu(&item, BuildTarget::Host), Err(TransformError::MissingReturnStatement));
    assert_eq!(
        expand(Marker::Kernel, &item, BuildTarget::Host),
        Err(TransformError::MissingReturnStatement)
    );
}

#[test]
fn return_statement_must_stand_directly_in_the_body() {
    let nested = lex("fn f(x: F32) -> F32 { if c { return x; } }");
    assert_eq!(emit(&nested), Err(TransformError::MissingReturnStatement));
}

#[test]
fn return_statement_needs_expression_and_semicolon() {
    assert_eq!(
        emit(&lex("fn f() -> F32 { return ; }")),
        Err(TransformError::MissingReturnStatement)
    );
    assert_eq!(
        emit(&lex("fn f() -> F32 { return x }")),
        Err(TransformError::MissingReturnStatement)
    );
    assert_eq!(emit(&lex("fn f() -> F32 { }")), Err(TransformError::MissingReturnStatement));
    assert_eq!(
        emit(&lex("fn f() -> F32 { a; return }")),
        Err(TransformError::MissingReturnStatement)
    );
}

#[test]
fn first_return_statement_is_redirected_in_place() {
    let item = lex("fn f(x: F32) -> F32 { let y = x + 1; return y * 2; done(); return 0; }");
    let entry = emit(&item).unwrap().device_entry;
    assert_eq!(entry.body, lex("let y = x + 1; * output = y * 2; done(); return 0;"));
}

#[test]
fn output_parameter_collides_with_the_reserved_name() {
    let item = lex("fn f(output: F32) -> F32 { return output; }");
    assert_eq!(emit(&item), Err(TransformError::BindingNameCollision));
    assert_eq!(gpu(&item, BuildTarget::Device), Err(TransformError::BindingNameCollision));
    assert_eq!(gpu(&item, BuildTarget::Host), Err(TransformError::BindingNameCollision));
    let later = lex("fn f(a: A, output: B, c: C) -> F32 { return a; }");
    assert_eq!(emit(&later), Err(TransformError::BindingNameCollision));
}

#[test]
fn collision_is_reported_before_a_missing_return() {
    let item = lex("fn f(output: F32) -> F32 { output }");
    assert_eq!(emit(&item), Err(TransformError::BindingNameCollision));
}

#[test]
fn output_is_an_ordinary_name_without_a_return_type() {
    let item = lex("fn f(output: F32) { use_it(output); }");
    let entry = emit(&item).unwrap().device_entry;
    assert_eq!(entry.bindings, vec![input("output", "F32")]);
}

#[test]
fn parameter_without_separator_is_malformed() {
    for source in [
        "fn f(x) {}",
        "fn f(x F32) {}",
        "fn f(x:) {}",
        "fn f(: F32) {}",
        "fn f(x: F32,) {}",
        "fn f(x: F32,, y: F32) {}",
        "fn f(,) {}",
        "fn f(mut x: F32) {}",
        "fn f(&self) {}",
        "fn f(3: F32) {}",
        "fn f(x: Map<K, V>,) {}",
    ] {
        let item = lex(source);
        assert_eq!(analyze(&item), Err(TransformError::MalformedSignature), "{}", source);
        assert_eq!(gpu(&item, BuildTarget::Device), Err(TransformError::MalformedSignature));
        assert_eq!(gpu(&item, BuildTarget::Host), Err(TransformError::MalformedSignature));
    }
}

#[test]
fn declaration_of_another_shape_is_malformed() {
    for source in [
        "",
        "fn",
        "fn f",
        "fn f()",
        "fn f {}",
        "f() {}",
        "fn () {}",
        "fn f() {} ;",
        "fn f() -> {}",
        "fn f() -> F32",
        "fn f() F32 {}",
        "fn f<T>(x: T) {}",
        "fn f(x: T) where T: Copy {}",
        "pub(crate) fn f() {}",
        "fn f() [x]",
        "fn f() (x)",
        "struct S {}",
        "-> F32 fn f() {}",
    ] {
        let item = lex(source);
        assert_eq!(analyze(&item), Err(TransformError::MalformedSignature), "{}", source);
        assert_eq!(emit(&item), Err(TransformError::MalformedSignature), "{}", source);
    }
}

#[test]
fn analyze_takes_a_declaration_apart() {
    let item = lex("#[inline] pub async fn blend(a: Vec<f32> , b: &[f32], t: f32) -> Vec<f32> { return mix(a, b, t); }");
    let expected = FunctionSignature {
        qualifiers: lex("#[inline] pub async"),
        name: "blend".to_string(),
        params: vec![param("a", "Vec<f32>"), param("b", "&[f32]"), param("t", "f32")],
        return_type: Some(lex("Vec<f32>")),
        body: lex("return mix(a, b, t);"),
    };
    assert_eq!(analyze(&item), Ok(expected));
}

#[test]
fn analyze_reads_a_function_without_parameters_or_result() {
    let expected = FunctionSignature {
        qualifiers: Vec::new(),
        name: "main".to_string(),
        params: Vec::new(),
        return_type: None,
        body: Vec::new(),
    };
    assert_eq!(analyze(&lex("fn main() {}")), Ok(expected));
}

#[test]
fn return_type_is_found_and_stripped() {
    let (rest, declared) = find_and_strip_return_type(&lex("fn f(x: F32) -> F32 { return x; }"));
    assert_eq!(rest, lex("fn f(x: F32) { return x; }"));
    assert_eq!(declared, Some(lex("F32")));
    let (rest, declared) = find_and_strip_return_type(&lex("fn f() -> Vec<f32> {}"));
    assert_eq!(rest, lex("fn f() {}"));
    assert_eq!(declared, Some(lex("Vec<f32>")));
}

#[test]
fn declaration_without_arrow_is_left_alone() {
    let item = lex("fn f(x: F32) { x - 1 > 0 }");
    let (rest, declared) = find_and_strip_return_type(&item);
    assert_eq!(rest, item);
    assert_eq!(declared, None);
    let (rest, declared) = find_and_strip_return_type(&Vec::new());
    assert_eq!(rest, Vec::<Token>::new());
    assert_eq!(declared, None);
}

#[test]
fn arrow_without_type_is_no_return_type() {
    for source in ["fn f() -> {}", "fn f() ->", "->", "-> x", "a - > b"] {
        let item = lex(source);
        let (rest, declared) = find_and_strip_return_type(&item);
        assert_eq!(rest, item, "{}", source);
        assert_eq!(declared, None, "{}", source);
    }
}

#[test]
fn arrow_is_read_whatever_its_spacing() {
    let item = vec![
        Token::Ident("fn".to_string()),
        Token::Ident("f".to_string()),
        Token::Group(Delimiter::Parenthesis, Vec::new()),
        Token::Punct('-', Spacing::Alone),
        Token::Punct('>', Spacing::Joint),
        Token::Ident("R".to_string()),
        Token::Group(Delimiter::Brace, Vec::new()),
    ];
    let (rest, declared) = find_and_strip_return_type(&item);
    assert_eq!(rest, lex("fn f() {}"));
    assert_eq!(declared, Some(lex("R")));
}

#[test]
fn first_arrow_starts_the_return_type() {
    let (rest, declared) = find_and_strip_return_type(&lex("fn f() -> fn(u8) -> u8 {}"));
    assert_eq!(rest, lex("fn f() {}"));
    assert_eq!(declared, Some(lex("fn(u8) -> u8")));
}

#[test]
fn parameters_come_from_the_first_parenthesized_group() {
    assert_eq!(
        gather_parameters(&lex("fn f(a: A, b: B) { g(c: C) }")),
        Ok(vec![param("a", "A"), param("b", "B")])
    );
    assert_eq!(gather_parameters(&lex("(x: path::To<T>) (y: U)")), Ok(vec![param("x", "path::To<T>")]));
    assert_eq!(gather_parameters(&lex("fn f() {}")), Ok(Vec::new()));
}

#[test]
fn commas_inside_angle_brackets_separate_nothing() {
    assert_eq!(
        gather_parameters(&lex("fn f(m: Map<K, V> , n: u32) {}")),
        Ok(vec![param("m", "Map<K, V>"), param("n", "u32")])
    );
    assert_eq!(
        gather_parameters(&lex("fn f(a: Vec<Pair<A, B>> , b: Triple<A, B, C>) {}")),
        Ok(vec![param("a", "Vec<Pair<A, B>> "), param("b", "Triple<A, B, C>")])
    );
    assert_eq!(
        gather_parameters(&lex("fn f(c: Call<fn(A) -> B, C> , d: D) {}")),
        Ok(vec![param("c", "Call<fn(A) -> B, C>"), param("d", "D")])
    );
    assert_eq!(
        gather_parameters(&lex("fn f(a: fn(A) -> B, b: B) {}")),
        Ok(vec![param("a", "fn(A) -> B"), param("b", "B")])
    );
    assert_eq!(
        gather_parameters(&lex("fn f(a: A > , b: B) {}")),
        Ok(vec![param("a", "A >"), param("b", "B")])
    );
    assert_eq!(
        gather_parameters(&lex("fn f(a: A<B, c: C) {}")),
        Ok(vec![param("a", "A<B, c: C")])
    );
}

#[test]
fn kernel_with_generic_parameter_types_is_rebound() {
    let item = lex("fn f(m: Map<K, V> , n: u32) -> Map<K, V> { return grow(m, n); }");
    let entry = emit(&item).unwrap().device_entry;
    assert_eq!(
        entry.bindings,
        vec![input("m", "Map<K, V>"), input("n", "u32"), output("Map<K, V>")]
    );
    assert_eq!(entry.body, lex("* output = grow(m, n);"));
}

#[test]
fn parameters_need_a_parenthesized_group() {
    assert_eq!(gather_parameters(&lex("fn f {}")), Err(TransformError::MalformedSignature));
    assert_eq!(gather_parameters(&lex("fn f [x: X] {}")), Err(TransformError::MalformedSignature));
    assert_eq!(gather_parameters(&Vec::new()), Err(TransformError::MalformedSignature));
    assert_eq!(gather_parameters(&lex("(crate) fn f(x: X) {}")), Err(TransformError::MalformedSignature));
}

#[test]
fn parameters_become_input_bindings_in_order() {
    let params = vec![param("a", "A"), param("b", "[B; 4]"), param("c", "&C")];
    assert_eq!(
        rebind_parameters(&params),
        vec![input("a", "A"), input("b", "[B; 4]"), input("c", "&C")]
    );
    assert_eq!(rebind_parameters(&Vec::new()), Vec::<Binding>::new());
}

#[test]
fn bindings_are_spelled_with_commas_between() {
    assert_eq!(render_bindings(&Vec::new()), Vec::<Token>::new());
    assert_eq!(
        render_bindings(&vec![input("a", "A")]),
        lex("a : spirv_std :: storage_class :: Input < A >")
    );
    assert_eq!(
        render_bindings(&vec![input("a", "A"), output("R")]),
        lex("a : spirv_std :: storage_class :: Input < A > , output : spirv_std :: storage_class :: Output < R >")
    );
}

#[test]
fn async_is_stripped_from_qualifiers() {
    assert_eq!(strip_async(&lex("pub async unsafe")), lex("pub unsafe"));
    assert_eq!(strip_async(&lex("async async")), Vec::<Token>::new());
    assert_eq!(strip_async(&lex("#[doc(async)] pub")), lex("#[doc(async)] pub"));
    assert_eq!(strip_async(&lex("pub \"async\"")), lex("pub \"async\""));
    assert_eq!(strip_async(&Vec::new()), Vec::<Token>::new());
}

#[test]
fn rebind_redirects_the_result() {
    let sig = analyze(&lex("async fn f(x: F32) -> F32 { return x; }")).unwrap();
    let expected = DeviceEntry {
        qualifiers: Vec::new(),
        name: "f".to_string(),
        bindings: vec![input("x", "F32"), output("F32")],
        body: lex("* output = x ;"),
    };
    assert_eq!(rebind(&sig), Ok(expected));
}

#[test]
fn rebind_return_appends_the_output_binding_last() {
    let entry = DeviceEntry {
        qualifiers: lex("pub"),
        name: "f".to_string(),
        bindings: vec![input("a", "A"), input("b", "B")],
        body: lex("return a + b;"),
    };
    let expected = DeviceEntry {
        qualifiers: lex("pub"),
        name: "f".to_string(),
        bindings: vec![input("a", "A"), input("b", "B"), output("Sum")],
        body: lex("* output = a + b;"),
    };
    assert_eq!(rebind_return(entry, &lex("Sum")), Ok(expected));
}

#[test]
fn rebind_return_reports_its_two_errors() {
    let colliding = DeviceEntry {
        qualifiers: Vec::new(),
        name: "f".to_string(),
        bindings: vec![input("output", "A")],
        body: lex("return 1;"),
    };
    assert_eq!(rebind_return(colliding, &lex("R")), Err(TransformError::BindingNameCollision));
    let silent = DeviceEntry {
        qualifiers: Vec::new(),
        name: "f".to_string(),
        bindings: vec![input("a", "A")],
        body: lex("a"),
    };
    assert_eq!(rebind_return(silent, &lex("R")), Err(TransformError::MissingReturnStatement));
}

#[test]
fn startup_function_initialises_the_backend_first() {
    let item = lex("fn main() { calculate(0.0); }");
    let expected = lex("fn main() { gpgpu_backend :: init () ; calculate(0.0); }");
    assert_eq!(entry(&item, BuildTarget::Host), Ok(expected));
    assert_eq!(
        entry(&lex("fn main() {}"), BuildTarget::Host),
        Ok(lex("fn main() { gpgpu_backend :: init () ; }"))
    );
}

#[test]
fn startup_call_goes_into_the_first_block_only() {
    let item = lex("fn main() { a(); } fn other() { b(); }");
    let expected = lex("fn main() { gpgpu_backend :: init () ; a(); } fn other() { b(); }");
    assert_eq!(entry(&item, BuildTarget::Host), Ok(expected));
    let nested = lex("fn main(x: [u8; {3}]) { a(); }");
    let expected = lex("fn main(x: [u8; {3}]) { gpgpu_backend :: init () ; a(); }");
    assert_eq!(entry(&nested, BuildTarget::Host), Ok(expected));
}

#[test]
fn startup_function_is_left_out_of_the_device_build() {
    assert_eq!(entry(&lex("fn main() { calculate(0.0); }"), BuildTarget::Device), Ok(Vec::new()));
    assert_eq!(entry(&lex("no block here"), BuildTarget::Device), Ok(Vec::new()));
}

#[test]
fn startup_function_without_block_is_malformed() {
    assert_eq!(
        entry(&lex("fn main();"), BuildTarget::Host),
        Err(TransformError::MalformedSignature)
    );
    assert_eq!(entry(&Vec::new(), BuildTarget::Host), Err(TransformError::MalformedSignature));
}

#[test]
fn host_only_declaration_is_kept_on_the_host_alone() {
    let item = lex("use futures::executor::block_on;");
    assert_eq!(cpu_only(&item, BuildTarget::Host), item);
    assert_eq!(cpu_only(&item, BuildTarget::Device), Vec::<Token>::new());
    assert_eq!(cpu_only(&Vec::new(), BuildTarget::Host), Vec::<Token>::new());
}

#[test]
fn markers_expand_as_their_functions_do() {
    let kernel = lex("fn f(x: F32) -> F32 { return x; }");
    let startup = lex("fn main() { f(1.0); }");
    for target in [BuildTarget::Host, BuildTarget::Device] {
        assert_eq!(expand(Marker::Kernel, &kernel, target), gpu(&kernel, target));
        assert_eq!(expand(Marker::Entry, &startup, target), entry(&startup, target));
        assert_eq!(expand(Marker::HostOnly, &startup, target), Ok(cpu_only(&startup, target)));
    }
    assert_eq!(
        expand(Marker::Entry, &lex("fn main();"), BuildTarget::Host),
        Err(TransformError::MalformedSignature)
    );
}

#[test]
fn copies_are_deep_and_equal() {
    let item = lex("fn f(x: [A; {1 + 2}]) { g(\"s\", (h)); }");
    assert_eq!(copy_tokens(&item), item);
    assert_eq!(item[2].clone(), item[2]);
    assert_eq!(copy_tokens(&Vec::new()), Vec::<Token>::new());
}

#[test]
fn find_returns_the_first_fit_or_the_length() {
    let item = lex("a , (b , c) , d {e} ,");
    assert_eq!(find(&item, &Probe::Punct(','), 0), 1);
    assert_eq!(find(&item, &Probe::Punct(','), 1), 1);
    assert_eq!(find(&item, &Probe::Punct(','), 2), 3);
    assert_eq!(find(&item, &Probe::Punct(','), 4), 6);
    assert_eq!(find(&item, &Probe::Punct(','), 7), 7);
    assert_eq!(find(&item, &Probe::Punct(';'), 0), 7);
    assert_eq!(find(&item, &Probe::Ident("d"), 0), 4);
    assert_eq!(find(&item, &Probe::Ident("b"), 0), 7);
    assert_eq!(find(&item, &Probe::Group(Delimiter::Brace), 0), 5);
    assert_eq!(find(&item, &Probe::Group(Delimiter::Parenthesis), 0), 2);
    assert_eq!(find(&item, &Probe::Group(Delimiter::Bracket), 0), 7);
}

#[test]
fn tokens_fit_their_probes() {
    let word = Token::Ident("async".to_string());
    assert!(word.is_ident("async"));
    assert!(!word.is_ident("asyn"));
    assert!(!word.is_ident("async_"));
    assert!(!Token::Literal("async".to_string()).is_ident("async"));
    assert!(Token::Punct('-', Spacing::Joint).is_punct('-'));
    assert!(Token::Punct('-', Spacing::Alone).is_punct('-'));
    assert!(!Token::Punct('-', Spacing::Alone).is_punct('>'));
    assert!(!word.is_punct('a'));
    assert!(Token::Group(Delimiter::Brace, Vec::new()).is_group(Delimiter::Brace));
    assert!(!Token::Group(Delimiter::Brace, Vec::new()).is_group(Delimiter::Bracket));
    assert!(!word.is_group(Delimiter::Invisible));
    assert!(word.fits(&Probe::Ident("async")));
    assert!(!word.fits(&Probe::Punct('a')));
}

#[test]
fn replaced_changes_one_tree() {
    let item = lex("a b c");
    assert_eq!(replaced(&item, 0, Token::Ident("x".to_string())), lex("x b c"));
    assert_eq!(replaced(&item, 2, Token::Punct(';', Spacing::Alone)), lex("a b ;"));
}
