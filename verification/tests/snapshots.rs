use debug_span::{debug_span, Region, Span};
use syn::spanned::Spanned;
use syn::Data;
use unindent::Unindent;

fn region_of(span: proc_macro2::Span) -> Region {
    let start = span.start();
    let end = span.end();
    Region::new(start.line, start.column, end.line, end.column)
}

#[test]
fn test_empty_span() {
    let input = r###"
            struct Foo;
        "###
    .unindent();
    let span = proc_macro2::Span::call_site();
    let output = debug_span(region_of(span), &input);
    assert_eq!(output, "");
}

#[test]
fn test_single_line() {
    let input = r###"
            struct Foo;
        "###
    .unindent();
    let derive_input: syn::DeriveInput = syn::parse_str(&input).unwrap();
    let span = derive_input.ident.span();
    let output = debug_span(region_of(span), &input);
    assert_eq!(
        output,
        " --> 1:7..1:10\n  |\n1 | struct Foo;\n  |        ^^^\n  |\n"
    );
}

#[test]
fn test_single_line_large_line_number() {
    let input = r###"
            struct Foo;
        "###
    .unindent();
    let input = "\n".repeat(120) + &input;
    let derive_input: syn::DeriveInput = syn::parse_str(&input).unwrap();
    let span = derive_input.ident.span();
    let output = debug_span(region_of(span), &input);
    assert_eq!(
        output,
        "   --> 121:7..121:10\n    |\n121 | struct Foo;\n    |        ^^^\n    |\n"
    );
}

#[test]
fn test_multi_line() {
    let input = r###"
            struct Foo {
                a: i32,
                b: i32,
            }
        "###
    .unindent();
    let derive_input: syn::DeriveInput = syn::parse_str(&input).unwrap();
    let span = match derive_input.data {
        Data::Struct(s) => s.fields.span(),
        _ => panic!("expected struct"),
    };

    let output = debug_span(region_of(span), &input);
    let expected = [
        " --> 1:11..4:1",
        "  |",
        "  |            ┌────╮",
        "1 | struct Foo {    │",
        "2 |     a: i32,     │",
        "3 |     b: i32,     │",
        "4 | }               │",
        "  | └───────────────╯",
        "  |",
        "",
    ]
    .join("\n");
    assert_eq!(output, expected);
}

#[test]
fn test_multi_line_large_line_number() {
    let input = r###"
            struct Foo {
                a: i32,
                b: i32,
            }
        "###
    .unindent();
    let input = "\n".repeat(120) + &input;
    let derive_input: syn::DeriveInput = syn::parse_str(&input).unwrap();
    let span = match derive_input.data {
        Data::Struct(s) => s.fields.span(),
        _ => panic!("expected struct"),
    };

    let output = debug_span(region_of(span), &input);
    let expected = [
        "   --> 121:11..124:1",
        "    |",
        "    |            ┌────╮",
        "121 | struct Foo {    │",
        "122 |     a: i32,     │",
        "123 |     b: i32,     │",
        "124 | }               │",
        "    | └───────────────╯",
        "    |",
        "",
    ]
    .join("\n");
    assert_eq!(output, expected);
}

#[test]
fn test_multi_line_large_line() {
    let input = r###"
            struct Foo {
                a: std::collections::HashMap<i32, i32>,
                b: i32,
            }
        "###
    .unindent();
    let derive_input: syn::DeriveInput = syn::parse_str(&input).unwrap();
    let span = match derive_input.data {
        Data::Struct(s) => s.fields.span(),
        _ => panic!("expected struct"),
    };

    let output = debug_span(region_of(span), &input);
    let expected = [
        " --> 1:11..4:1",
        "  |",
        "  |            ┌───────────────────────────────────╮",
        "1 | struct Foo {                                   │",
        "2 |     a: std::collections::HashMap<i32, i32>,    │",
        "3 |     b: i32,                                    │",
        "4 | }                                              │",
        "  | └──────────────────────────────────────────────╯",
        "  |",
        "",
    ]
    .join("\n");
    assert_eq!(output, expected);
}

#[test]
fn test_syn_error() {
    let input = r###"
            struct Foo {
                a: i32
                bar: i32,
            }
        "###
    .unindent();
    let derive_input: Result<syn::DeriveInput, _> = syn::parse_str(&input);
    let error = match derive_input {
        Ok(_) => panic!("expected error"),
        Err(e) => e,
    };
    let span = error.span();
    let output = debug_span(region_of(span), &input);
    assert_eq!(error.to_string(), "expected `,`");
    assert_eq!(
        output,
        " --> 3:4..3:7\n  |\n3 |     bar: i32,\n  |     ^^^\n  |\n"
    );
}

#[test]
fn test_debug_method() {
    let input = r###"
            struct Foo;
        "###
    .unindent();
    let derive_input: syn::DeriveInput = syn::parse_str(&input).unwrap();
    let span = derive_input.ident.span();
    let output = region_of(span).debug(&input);
    assert_eq!(
        output,
        " --> 1:7..1:10\n  |\n1 | struct Foo;\n  |        ^^^\n  |\n"
    );
}
