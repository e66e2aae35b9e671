use default_constructor::{meta_default_constructor, CompileError, Delimiter, Spacing, Token};
use proc_macro2::{TokenStream, TokenTree};
use std::str::FromStr;

fn from_tree(tt: TokenTree) -> Token {
    match tt {
        TokenTree::Ident(i) => Token::Ident(i.to_string()),
        TokenTree::Literal(l) => Token::Literal(l.to_string()),
        TokenTree::Punct(p) => Token::Punct(
            p.as_char(),
            match p.spacing() {
                proc_macro2::Spacing::Joint => Spacing::Joint,
                proc_macro2::Spacing::Alone => Spacing::Alone,
            },
        ),
        TokenTree::Group(g) => {
            let d = match g.delimiter() {
                proc_macro2::Delimiter::Parenthesis => Delimiter::Parenthesis,
                proc_macro2::Delimiter::Brace => Delimiter::Brace,
                proc_macro2::Delimiter::Bracket => Delimiter::Bracket,
                proc_macro2::Delimiter::None => Delimiter::Invisible,
            };
            Token::Group(d, g.stream().into_iter().map(from_tree).collect())
        }
    }
}

fn lex(s: &str) -> Vec<Token> {
    TokenStream::from_str(s).unwrap().into_iter().map(from_tree).collect()
}

fn render(toks: &[Token]) -> String {
    let mut parts: Vec<String> = Vec::new();
    for t in toks {
        parts.push(match t {
            Token::Ident(s) | Token::Literal(s) => s.clone(),
            Token::Punct(c, _) => c.to_string(),
            Token::Group(d, inner) => {
                let (open, close) = match d {
                    Delimiter::Parenthesis => ("(", ")"),
                    Delimiter::Brace => ("{", "}"),
                    Delimiter::Bracket => ("[", "]"),
                    Delimiter::Invisible => ("", ""),
                };
                format!("{} {} {}", open, render(inner), close)
            }
        });
    }
    parts.join(" ")
}

fn compile(input: &str) -> Result<String, CompileError> {
    meta_default_constructor(lex(input)).map(|out| render(&out))
}

fn expect(input: &str, expected: &str) {
    assert_eq!(compile(input).unwrap(), render(&lex(expected)));
}

#[test]
fn point_with_identity_conversion() {
    expect(
        "[id] Point { x: 1, y: 2 }",
        "Point { x: id(1), y: id(2), ..::core::default::Default::default() }",
    );
}

const TRAILER: &str = "..::core::default::Default::default()";

fn fields(body: &str) -> String {
    format!("{{ {} {} }}", body, TRAILER)
}

#[test]
fn omitted_fields_come_from_default() {
    expect(
        "[f] Lifetime::<'static> {}",
        &format!("Lifetime::<'static> {}", fields("")),
    );
}

#[test]
fn trailing_comma_in_field_list() {
    expect("[f] P { a: 1, }", &format!("P {}", fields("a: f(1),")));
}

#[test]
fn reordered_fields_assign_the_same_pairs() {
    let a = compile("[f] P { x: 1, y: \"two\", z: q::r() }").unwrap();
    let b = compile("[f] P { z: q::r(), x: 1, y: \"two\" }").unwrap();
    let pairs = |s: &str| {
        let inner = s.trim_start_matches("P { ").to_string();
        let mut v: Vec<String> = inner
            .split(" , ")
            .map(|p| p.trim().to_string())
            .filter(|p| !p.starts_with(". ."))
            .collect();
        v.sort();
        v
    };
    assert_eq!(pairs(&a), pairs(&b));
    assert_eq!(pairs(&a).len(), 3);
}

#[test]
fn duplicate_field_keeps_last_value() {
    expect("[f] P { x: 1, y: 5, x: 2 }", &format!("P {}", fields("y: f(5), x: f(2),")));
}

#[test]
fn generic_arguments_do_not_split_targets() {
    expect(
        "[f] Pair::<A, B> { a: 1 }",
        &format!("Pair::<A, B> {}", fields("a: f(1),")),
    );
    expect(
        "[f] ComplexWeirdness::<'static, 'static, A, B> {}",
        &format!("ComplexWeirdness::<'static, 'static, A, B> {}", fields("")),
    );
}

#[test]
fn nested_generic_arguments() {
    expect(
        "[f] C::<Vec<u8>, B> { t: 1 }",
        &format!("C::<Vec<u8>, B> {}", fields("t: f(1),")),
    );
}

#[test]
fn several_targets_form_a_tuple() {
    expect(
        "[f] A { x: 1 }, Pair::<A, B> {}, ",
        &format!("( A {}, Pair::<A, B> {} )", fields("x: f(1),"), fields("")),
    );
}

#[test]
fn nesting_three_deep() {
    expect(
        "[f] A { b: B { c: c::C { d: 4 }, e: 5 } }",
        &format!(
            "A {}",
            fields(&format!(
                "b: f(B {}),",
                fields(&format!("c: f(c::C {}), e: f(5),", fields("d: f(4),")))
            ))
        ),
    );
}

#[test]
fn rooted_path_nests() {
    expect(
        "[f] A { b: ::m::B { c: 1 } }",
        &format!("A {}", fields(&format!("b: f(::m::B {}),", fields("c: f(1),")))),
    );
}

#[test]
fn box_applies_to_converted_nested_value() {
    expect(
        "[f] B { f: @box A { b: 1 } }",
        &format!("B {}", fields(&format!("f: boxed(f(A {})),", fields("b: f(1),")))),
    );
}

#[test]
fn effects_compose() {
    expect(
        "[f] E { a: @some @rc \"x\", b: @boxed 1 }",
        &format!("E {}", fields("a: some(rc(f(\"x\"))), b: boxed(f(1)),")),
    );
}

#[test]
fn array_collect_converts_each_element() {
    expect(
        "[f] A { g: @arr [\"a\", \"b\"] }",
        &format!("A {}", fields("g: arr(f([f(\"a\"), f(\"b\"),])),")),
    );
}

#[test]
fn array_without_effect_is_one_value() {
    expect("[f] A { d: [1, 2, 3, 4] }", &format!("A {}", fields("d: f([1, 2, 3, 4]),")));
}

#[test]
fn brace_block_passes_through() {
    expect(
        "[f] B { e: { A { ..Default::default() } } }",
        &format!("B {}", fields("e: { A { ..Default::default() } },")),
    );
}

#[test]
fn positional_target() {
    expect(
        "[f] D(\"hello\", 1i16, 69, 4,)",
        "D(f(\"hello\"), f(1i16), f(69), f(4),)",
    );
}

#[test]
fn type_without_body_is_its_default() {
    expect("[f] Vec<u8>", "<Vec<u8> as ::core::default::Default>::default()");
}

#[test]
fn lone_group_target_is_kept() {
    expect("[f] (1, 2)", "(1, 2)");
}

#[test]
fn imports_open_a_block() {
    expect(
        "{ use m::*; } [f] A { x: 1 }",
        &format!("{{ use m::*; A {} }}", fields("x: f(1),")),
    );
}

#[test]
fn turbofish_value_stays_one_field() {
    expect(
        "[f] A { e: HashMap::<K, V>::new(), f: false }",
        &format!("A {}", fields("e: f(HashMap::<K, V>::new()), f: f(false),")),
    );
}

#[test]
fn comparisons_in_values_split_at_commas() {
    expect(
        "[f] A { x: a < b, y: c > d }",
        &format!("A {}", fields("x: f(a < b), y: f(c > d),")),
    );
}

#[test]
fn closure_value_with_arrow_is_plain() {
    expect(
        "[f] A { g: |x| -> u8 { x } }",
        &format!("A {}", fields("g: f(|x| -> u8 { x }),")),
    );
}

#[test]
fn missing_conversion_is_malformed_invocation() {
    assert_eq!(compile("A { x: 1 }"), Err(CompileError::MalformedInvocation));
    assert_eq!(compile(""), Err(CompileError::MalformedInvocation));
}

#[test]
fn missing_target_is_malformed_invocation() {
    assert_eq!(compile("[f]"), Err(CompileError::MalformedInvocation));
    assert_eq!(compile("[f] A {}, , B {}"), Err(CompileError::MalformedInvocation));
    assert_eq!(compile("[f] 1 + 2 { x: 1 }"), Err(CompileError::MalformedInvocation));
}

#[test]
fn field_without_colon_is_malformed_field() {
    assert_eq!(compile("[f] A { x 1 }"), Err(CompileError::MalformedField));
    assert_eq!(compile("[f] A { x: , y: 2 }"), Err(CompileError::MalformedField));
    assert_eq!(compile("[f] A { x }"), Err(CompileError::MalformedField));
}

#[test]
fn effect_without_name_is_malformed_effect() {
    assert_eq!(compile("[f] A { x: @ 1 }"), Err(CompileError::MalformedEffect));
    assert_eq!(compile("[f] A { x: @ }"), Err(CompileError::MalformedEffect));
}

#[test]
fn stray_closing_angle_is_unbalanced() {
    assert_eq!(compile("[f] A > B {}"), Err(CompileError::UnbalancedGenerics));
}

#[test]
fn error_messages_are_distinct() {
    let all = [
        CompileError::MalformedInvocation,
        CompileError::MalformedField,
        CompileError::MalformedEffect,
        CompileError::UnbalancedGenerics,
    ];
    for (i, a) in all.iter().enumerate() {
        for b in all.iter().skip(i + 1) {
            assert_ne!(a.message(), b.message());
        }
    }
}
