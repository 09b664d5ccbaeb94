use macro_workshop::decimal::decimal_string;
use macro_workshop::seq::{SeqErrorKind, SeqTemplate};
use macro_workshop::token::{Delimiter, Ident, TokenTree};

fn id(name: &str, span: usize) -> TokenTree {
    TokenTree::Ident(Ident { name: name.to_string(), span })
}

fn p(ch: char, joint: bool, span: usize) -> TokenTree {
    TokenTree::Punct { ch, joint, span }
}

fn lit(text: &str, span: usize) -> TokenTree {
    TokenTree::Literal { text: text.to_string(), span }
}

fn group(delimiter: Delimiter, stream: Vec<TokenTree>, span: usize) -> TokenTree {
    TokenTree::Group { delimiter, stream, span }
}

fn render(ts: &[TokenTree]) -> String {
    let mut parts: Vec<String> = Vec::new();
    for t in ts {
        parts.push(match t {
            TokenTree::Ident(i) => i.name.clone(),
            TokenTree::Punct { ch, .. } => ch.to_string(),
            TokenTree::Literal { text, .. } => text.clone(),
            TokenTree::Group { delimiter, stream, .. } => {
                let inner = render(stream);
                match delimiter {
                    Delimiter::Parenthesis => format!("( {} )", inner),
                    Delimiter::Brace => format!("{{ {} }}", inner),
                    Delimiter::Bracket => format!("[ {} ]", inner),
                    Delimiter::Invisible => inner,
                }
            }
        });
    }
    parts.join(" ")
}

/// `K in <start> .. <end> { body }`, with `..=` where `inclusive`.
fn invocation(start: &str, end: &str, inclusive: bool, body: Vec<TokenTree>) -> Vec<TokenTree> {
    let mut v = vec![id("K", 1), id("in", 2), lit(start, 3), p('.', true, 4)];
    if inclusive {
        v.push(p('.', true, 5));
        v.push(p('=', false, 6));
    } else {
        v.push(p('.', false, 5));
    }
    v.push(lit(end, 7));
    v.push(group(Delimiter::Brace, body, 8));
    v
}

#[test]
fn example_field_concatenation() {
    let body = vec![id("field", 10), p('#', false, 11), id("K", 12), p(':', false, 13), id("i32", 14), p(',', false, 15)];
    let out = macro_workshop::seq::seq(&invocation("0", "3", false, body)).unwrap();
    assert_eq!(render(&out), "field0 : i32 , field1 : i32 , field2 : i32 ,");
}

#[test]
fn example_inclusive_array_assignment() {
    let body = vec![
        id("arr", 10),
        group(Delimiter::Bracket, vec![id("K", 11)], 12),
        p('=', false, 13),
        id("K", 14),
        p(';', false, 15),
    ];
    let out = macro_workshop::seq::seq(&invocation("0", "2", true, body)).unwrap();
    assert_eq!(render(&out), "arr [ 0 ] = 0 ; arr [ 1 ] = 1 ; arr [ 2 ] = 2 ;");
}

#[test]
fn example_empty_range() {
    let body = vec![id("X", 10), p('#', false, 11), id("K", 12)];
    let out = macro_workshop::seq::seq(&invocation("5", "5", false, body)).unwrap();
    assert!(out.is_empty());
}

#[test]
fn whole_body_copy_count() {
    let body = vec![id("a", 10), p(';', false, 11)];
    let out = macro_workshop::seq::seq(&invocation("2", "7", false, body)).unwrap();
    assert_eq!(out.len(), 2 * 5);
    let body = vec![id("a", 10), p(';', false, 11)];
    let out = macro_workshop::seq::seq(&invocation("2", "7", true, body)).unwrap();
    assert_eq!(out.len(), 2 * 6);
    let body = vec![id("a", 10)];
    let out = macro_workshop::seq::seq(&invocation("4", "4", true, body)).unwrap();
    assert_eq!(render(&out), "a");
}

#[test]
fn reversed_range_is_empty() {
    let body = vec![id("K", 10)];
    let out = macro_workshop::seq::seq(&invocation("9", "3", false, body)).unwrap();
    assert!(out.is_empty());
}

#[test]
fn concatenation_makes_one_identifier() {
    let body = vec![id("pre", 10), p('#', false, 11), id("K", 12)];
    let out = macro_workshop::seq::seq(&invocation("7", "8", false, body)).unwrap();
    assert_eq!(out.len(), 1);
    match &out[0] {
        TokenTree::Ident(i) => {
            assert_eq!(i.name, "pre7");
            assert_eq!(i.span, 10);
        }
        other => panic!("expected an identifier, got {:?}", other),
    }
}

#[test]
fn bare_variable_becomes_literal() {
    let out = macro_workshop::seq::seq(&invocation("3", "4", false, vec![id("K", 10)])).unwrap();
    assert_eq!(out.len(), 1);
    match &out[0] {
        TokenTree::Literal { text, span } => {
            assert_eq!(text, "3");
            assert_eq!(*span, 10);
        }
        other => panic!("expected a literal, got {:?}", other),
    }
}

#[test]
fn substitution_reaches_nested_groups() {
    let body = vec![group(
        Delimiter::Parenthesis,
        vec![group(Delimiter::Brace, vec![id("v", 10), p('#', false, 11), id("K", 12), id("K", 13)], 14)],
        15,
    )];
    let out = macro_workshop::seq::seq(&invocation("1", "2", false, body)).unwrap();
    assert_eq!(render(&out), "( { v1 1 } )");
}

#[test]
fn localized_group_repeats_only_inside() {
    // enum E { #( V#K, )* }
    let body = vec![
        id("enum", 10),
        id("E", 11),
        group(
            Delimiter::Brace,
            vec![
                p('#', false, 12),
                group(Delimiter::Parenthesis, vec![id("V", 13), p('#', false, 14), id("K", 15), p(',', false, 16)], 17),
                p('*', false, 18),
            ],
            19,
        ),
    ];
    let out = macro_workshop::seq::seq(&invocation("0", "3", false, body)).unwrap();
    assert_eq!(render(&out), "enum E { V0 , V1 , V2 , }");
}

#[test]
fn localized_mode_keeps_outside_once_with_mixed_content() {
    // K ; #( K )* K  : the outer K are copied as they are, once
    let body = vec![
        id("K", 10),
        p(';', false, 11),
        p('#', false, 12),
        group(Delimiter::Parenthesis, vec![id("K", 13)], 14),
        p('*', false, 15),
        id("K", 16),
    ];
    let out = macro_workshop::seq::seq(&invocation("0", "4", false, body)).unwrap();
    assert_eq!(render(&out), "K ; 0 1 2 3 K");
}

#[test]
fn malformed_repetition_is_reported_at_the_pound() {
    let body = vec![id("a", 10), p('#', false, 11), group(Delimiter::Parenthesis, vec![id("K", 12)], 13), id("b", 14)];
    let input = invocation("0", "3", false, body);
    let e = macro_workshop::seq::seq(&input).unwrap_err();
    assert_eq!(e.kind, SeqErrorKind::MalformedRepetition);
    assert_eq!(e.span, Some(11));
}

#[test]
fn same_malformed_input_gives_same_error() {
    let body = vec![group(Delimiter::Brace, vec![p('#', false, 21), group(Delimiter::Parenthesis, vec![], 22)], 23)];
    let input = invocation("0", "3", false, body);
    let first = macro_workshop::seq::seq(&input).unwrap_err();
    let second = macro_workshop::seq::seq(&input).unwrap_err();
    assert_eq!(first, second);
    assert_eq!(first.span, Some(21));
}

#[test]
fn attribute_brackets_are_not_repetition_markers() {
    let body = vec![p('#', false, 10), group(Delimiter::Bracket, vec![id("inline", 11)], 12), id("fn", 13), id("f", 14), p('#', false, 15), id("K", 16)];
    let out = macro_workshop::seq::seq(&invocation("0", "2", false, body)).unwrap();
    assert_eq!(render(&out), "# [ inline ] fn f0 # [ inline ] fn f1");
}

#[test]
fn negative_bounds() {
    let mut input = vec![id("K", 1), id("in", 2), p('-', false, 3), lit("2", 4), p('.', true, 5), p('.', false, 6), lit("1", 7)];
    input.push(group(Delimiter::Brace, vec![id("K", 10), p(',', false, 11)], 8));
    let out = macro_workshop::seq::seq(&input).unwrap();
    assert_eq!(render(&out), "-2 , -1 , 0 ,");
}

#[test]
fn hexadecimal_and_underscored_bounds() {
    let out = macro_workshop::seq::seq(&invocation("0x2", "1_0", false, vec![id("K", 10)])).unwrap();
    assert_eq!(render(&out), "2 3 4 5 6 7 8 9");
}

#[test]
fn parse_reads_the_template() {
    let t = SeqTemplate::parse(&invocation("1", "4", true, vec![id("x", 10)])).unwrap();
    assert_eq!(t.var.name, "K");
    assert_eq!(t.start, 1);
    assert_eq!(t.end, 4);
    assert!(t.inclusive);
    assert_eq!(t.body.len(), 1);
}

#[test]
fn error_missing_identifier() {
    let e = macro_workshop::seq::seq(&vec![lit("1", 1)]).unwrap_err();
    assert_eq!(e.kind, SeqErrorKind::ExpectedIdent);
    assert_eq!(e.span, Some(1));
    let e = macro_workshop::seq::seq(&vec![]).unwrap_err();
    assert_eq!(e.kind, SeqErrorKind::ExpectedIdent);
    assert_eq!(e.span, None);
}

#[test]
fn error_missing_in() {
    let e = macro_workshop::seq::seq(&vec![id("K", 1), id("of", 2), lit("0", 3)]).unwrap_err();
    assert_eq!(e.kind, SeqErrorKind::ExpectedIn);
    assert_eq!(e.span, Some(2));
}

#[test]
fn error_bound_not_integer() {
    let e = macro_workshop::seq::seq(&vec![id("K", 1), id("in", 2), id("a", 3)]).unwrap_err();
    assert_eq!(e.kind, SeqErrorKind::ExpectedInteger);
    assert_eq!(e.span, Some(3));
    let e = macro_workshop::seq::seq(&invocation("1.5", "3", false, vec![])).unwrap_err();
    assert_eq!(e.kind, SeqErrorKind::InvalidInteger);
    assert_eq!(e.span, Some(3));
    let e = macro_workshop::seq::seq(&invocation("0", "99999999999999999999", false, vec![])).unwrap_err();
    assert_eq!(e.kind, SeqErrorKind::InvalidInteger);
    assert_eq!(e.span, Some(7));
}

#[test]
fn error_missing_range_operator() {
    let e = macro_workshop::seq::seq(&vec![id("K", 1), id("in", 2), lit("0", 3), p('.', false, 4), p('.', false, 5)]).unwrap_err();
    assert_eq!(e.kind, SeqErrorKind::ExpectedRange);
    assert_eq!(e.span, Some(4));
}

#[test]
fn error_missing_body() {
    let mut input = invocation("0", "2", false, vec![]);
    input.pop();
    let e = macro_workshop::seq::seq(&input).unwrap_err();
    assert_eq!(e.kind, SeqErrorKind::ExpectedBody);
    assert_eq!(e.span, None);
    input.push(group(Delimiter::Parenthesis, vec![], 9));
    let e = macro_workshop::seq::seq(&input).unwrap_err();
    assert_eq!(e.kind, SeqErrorKind::ExpectedBody);
    assert_eq!(e.span, Some(9));
}

#[test]
fn error_trailing_tokens() {
    let mut input = invocation("0", "2", false, vec![]);
    input.push(id("extra", 20));
    let e = macro_workshop::seq::seq(&input).unwrap_err();
    assert_eq!(e.kind, SeqErrorKind::UnexpectedToken);
    assert_eq!(e.span, Some(20));
}

#[test]
fn decimal_text() {
    assert_eq!(decimal_string(0), "0");
    assert_eq!(decimal_string(1234), "1234");
    assert_eq!(decimal_string(-42), "-42");
    assert_eq!(decimal_string(i64::MIN), "-9223372036854775808");
    assert_eq!(decimal_string(i64::MAX), "9223372036854775807");
}

#[test]
fn pound_before_other_group_and_star_is_malformed() {
    let body = vec![id("a", 10), p('#', false, 11), group(Delimiter::Bracket, vec![id("x", 12)], 13), p('*', false, 14)];
    let e = macro_workshop::seq::seq(&invocation("0", "3", false, body)).unwrap_err();
    assert_eq!(e.kind, SeqErrorKind::MalformedRepetition);
    assert_eq!(e.span, Some(11));
    let body = vec![group(Delimiter::Parenthesis, vec![p('#', false, 21), group(Delimiter::Brace, vec![], 22), p('*', false, 23)], 24)];
    let e = macro_workshop::seq::seq(&invocation("0", "3", false, body)).unwrap_err();
    assert_eq!(e.span, Some(21));
}

#[test]
fn literals_that_are_no_integer_forms() {
    for (text, span) in [("c\"a\"", 3), ("0b2", 3), ("3.0", 3), ("'x'", 3), ("1e5", 3), ("0x", 3)] {
        let e = macro_workshop::seq::seq(&invocation(text, "3", false, vec![])).unwrap_err();
        assert_eq!((e.kind, e.span), (SeqErrorKind::InvalidInteger, Some(span)), "{}", text);
    }
    let out = macro_workshop::seq::seq(&invocation("0o7", "0b1001", false, vec![id("K", 10)])).unwrap();
    assert_eq!(render(&out), "7 8");
}

#[test]
fn most_negative_bound() {
    let mut input = vec![id("K", 1), id("in", 2), p('-', false, 3), lit("9223372036854775808", 4), p('.', true, 5), p('.', true, 6), p('=', false, 7)];
    input.extend(vec![p('-', false, 8), lit("9223372036854775808", 9), group(Delimiter::Brace, vec![id("K", 10)], 11)]);
    let out = macro_workshop::seq::seq(&input).unwrap();
    assert_eq!(render(&out), "-9223372036854775808");
    let mut input = vec![id("K", 1), id("in", 2), p('-', false, 3), lit("9223372036854775809", 4), p('.', true, 5), p('.', false, 6)];
    input.extend(vec![lit("0", 9), group(Delimiter::Brace, vec![], 11)]);
    let e = macro_workshop::seq::seq(&input).unwrap_err();
    assert_eq!((e.kind, e.span), (SeqErrorKind::InvalidInteger, Some(4)));
}

#[test]
fn suffixed_bounds() {
    let out = macro_workshop::seq::seq(&invocation("0", "3u8", false, vec![id("K", 10)])).unwrap();
    assert_eq!(render(&out), "0 1 2");
    let out = macro_workshop::seq::seq(&invocation("0x10usize", "18i64", false, vec![id("K", 10)])).unwrap();
    assert_eq!(render(&out), "16 17");
    let mut input = vec![id("K", 1), id("in", 2), p('-', false, 3), lit("2i32", 4), p('.', true, 5), p('.', false, 6)];
    input.extend(vec![lit("0i32", 9), group(Delimiter::Brace, vec![id("K", 10)], 11)]);
    assert_eq!(render(&macro_workshop::seq::seq(&input).unwrap()), "-2 -1");
}
