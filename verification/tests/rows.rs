use debug_span::internal::{
    code_line, code_lines, debug_empty_span, debug_multi_line_span, debug_single_line_span,
    empty_line, end_line, marker_line, range_line, region_of, start_line,
};
use debug_span::layout::PADDING;
use debug_span::{debug_span, try_debug_span, Region, Span};

const STRUCT: &str = "struct Foo {\n    a: i32,\n    b: i32,\n}\n";

/// A span that is not a `Region`: it counts lines and columns from a base.
struct Shifted {
    lines: usize,
    from: (usize, usize),
    to: (usize, usize),
}

impl Span for Shifted {
    fn region(&self) -> Region {
        Region::new(self.lines + self.from.0, self.from.1, self.lines + self.to.0, self.to.1)
    }

    fn start_line(&self) -> usize {
        self.lines + self.from.0
    }

    fn end_line(&self) -> usize {
        self.lines + self.to.0
    }

    fn start_column(&self) -> usize {
        self.from.1
    }

    fn end_column(&self) -> usize {
        self.to.1
    }
}

fn column_of(row: &str, wanted: char) -> Vec<usize> {
    row.chars()
        .enumerate()
        .filter(|(_, c)| *c == wanted)
        .map(|(at, _)| at)
        .collect()
}

#[test]
fn region_keeps_its_four_numbers() {
    let region = Region::new(1, 7, 2, 10);
    assert_eq!(region.start_line, 1);
    assert_eq!(region.start_column, 7);
    assert_eq!(region.end_line, 2);
    assert_eq!(region.end_column, 10);
    assert_eq!(region.start_line(), 1);
    assert_eq!(region.start_column(), 7);
    assert_eq!(region.end_line(), 2);
    assert_eq!(region.end_column(), 10);
    assert_eq!(region, Region { start_line: 1, start_column: 7, end_line: 2, end_column: 10 });
}

#[test]
fn classification_of_spans() {
    assert!(Region::new(3, 4, 3, 4).is_empty());
    assert!(Region::new(3, 4, 3, 4).is_single_line());
    assert!(!Region::new(3, 4, 3, 5).is_empty());
    assert!(Region::new(3, 4, 3, 5).is_single_line());
    assert!(!Region::new(3, 4, 4, 4).is_empty());
    assert!(!Region::new(3, 4, 4, 4).is_single_line());
}

#[test]
fn range_is_line_colon_column_twice() {
    assert_eq!(Region::new(1, 7, 1, 10).to_range(), "1:7..1:10");
    assert_eq!(Region::new(121, 11, 124, 1).to_range(), "121:11..124:1");
    assert_eq!(Region::new(0, 0, 0, 0).to_range(), "0:0..0:0");
    assert_eq!(
        Region::new(usize::MAX, 10, usize::MAX, 100).to_range(),
        format!("{}:10..{}:100", usize::MAX, usize::MAX)
    );
}

#[test]
fn any_span_type_is_read_through_its_accessors() {
    let span = Shifted { lines: 120, from: (1, 7), to: (1, 10) };
    assert_eq!(region_of(&span), Region::new(121, 7, 121, 10));
    assert_eq!(span.to_range(), "121:7..121:10");
    let code = "\n".repeat(120) + "struct Foo;\n";
    let expected = "   --> 121:7..121:10\n    |\n121 | struct Foo;\n    |        ^^^\n    |\n";
    assert_eq!(span.debug(&code), expected);
    assert_eq!(debug_span(span, &code), expected);
}

#[test]
fn empty_span_renders_nothing_whatever_the_text() {
    assert_eq!(debug_span(Region::new(1, 0, 1, 0), "struct Foo;\n"), "");
    assert_eq!(debug_span(Region::new(5, 3, 5, 3), ""), "");
    assert_eq!(debug_span(Region::new(0, 0, 0, 0), "a\nb\n"), "");
    assert_eq!(debug_span(Region::new(usize::MAX, 9, usize::MAX, 9), "x"), "");
    assert_eq!(debug_empty_span(&Region::new(1, 2, 3, 4), "x"), "");
    assert_eq!(try_debug_span(Region::new(7, 7, 7, 7), "x"), Some(String::new()));
}

#[test]
fn rendering_twice_gives_the_same_text() {
    let single = Region::new(1, 7, 1, 10);
    assert_eq!(debug_span(single, "struct Foo;\n"), debug_span(single, "struct Foo;\n"));
    let multi = Region::new(1, 11, 4, 1);
    assert_eq!(debug_span(multi, STRUCT), debug_span(multi, STRUCT));
    assert_eq!(multi.debug(STRUCT), debug_span(multi, STRUCT));
    assert_eq!(try_debug_span(multi, STRUCT), Some(debug_span(multi, STRUCT)));
}

#[test]
fn rows_of_a_single_line_span() {
    let span = Region::new(1, 7, 1, 10);
    assert_eq!(range_line(&span), " --> 1:7..1:10");
    assert_eq!(empty_line(&span), "  |");
    assert_eq!(code_line(&span, "struct Foo;\n"), "1 | struct Foo;");
    assert_eq!(marker_line(&span), "  |        ^^^");
    assert_eq!(
        debug_single_line_span(&span, "struct Foo;\n"),
        " --> 1:7..1:10\n  |\n1 | struct Foo;\n  |        ^^^\n  |\n"
    );
}

#[test]
fn rows_of_a_multi_line_span() {
    let span = Region::new(1, 11, 4, 1);
    assert_eq!(range_line(&span), " --> 1:11..4:1");
    assert_eq!(empty_line(&span), "  |");
    assert_eq!(start_line(&span, STRUCT), "  |            ┌────╮");
    assert_eq!(
        code_lines(&span, STRUCT),
        "1 | struct Foo {    │\n2 |     a: i32,     │\n3 |     b: i32,     │\n4 | }               │"
    );
    assert_eq!(end_line(&span, STRUCT), "  | └───────────────╯");
    let whole = debug_multi_line_span(&span, STRUCT);
    assert_eq!(
        whole,
        format!(
            "{}\n{}\n{}\n{}\n{}\n{}\n",
            range_line(&span),
            empty_line(&span),
            start_line(&span, STRUCT),
            code_lines(&span, STRUCT),
            end_line(&span, STRUCT),
            empty_line(&span)
        )
    );
    assert_eq!(whole, debug_span(span, STRUCT));
}

#[test]
fn carets_stand_under_the_span() {
    let code = "let answer = 42;\n";
    let span = Region::new(1, 4, 1, 10);
    let marker = marker_line(&span);
    let shown = code_line(&span, code);
    let carets = column_of(&marker, '^');
    assert_eq!(carets, vec![8, 9, 10, 11, 12, 13]);
    assert_eq!(carets.len(), span.end_column - span.start_column);
    assert_eq!(carets[0], 1 + 3 + span.start_column);
    let under: String = shown.chars().skip(carets[0]).take(carets.len()).collect();
    assert_eq!(under, "answer");
    assert_eq!(marker.chars().count(), 1 + 3 + span.end_column);
}

#[test]
fn no_carets_where_the_columns_meet_on_another_line() {
    assert_eq!(marker_line(&Region::new(1, 5, 2, 5)), "  |      ");
    assert_eq!(marker_line(&Region::new(1, 0, 2, 3)), "  | ^^^");
}

#[test]
fn gutter_is_as_wide_as_the_last_line_number() {
    let code = "\n".repeat(130);
    for (last, width) in [(1usize, 1usize), (9, 1), (10, 2), (99, 2), (100, 3), (121, 3)] {
        let span = Region::new(last, 0, last, 1);
        let gutter = " ".repeat(width);
        assert_eq!(empty_line(&span), format!("{} |", gutter));
        assert_eq!(range_line(&span), format!("{}--> {}:0..{}:1", gutter, last, last));
        assert_eq!(marker_line(&span), format!("{} | ^", gutter));
        assert_eq!(code_line(&span, &code), format!("{} | ", last));
    }
}

#[test]
fn gutter_of_nine_and_of_one_hundred_twenty_one() {
    let short = "\n".repeat(8) + "struct Foo;\n";
    let long = "\n".repeat(120) + "struct Foo;\n";
    assert_eq!(
        debug_span(Region::new(9, 7, 9, 10), &short),
        " --> 9:7..9:10\n  |\n9 | struct Foo;\n  |        ^^^\n  |\n"
    );
    assert_eq!(
        debug_span(Region::new(121, 7, 121, 10), &long),
        "   --> 121:7..121:10\n    |\n121 | struct Foo;\n    |        ^^^\n    |\n"
    );
}

#[test]
fn smaller_line_numbers_stand_at_the_right_of_the_gutter() {
    let code = "\n".repeat(8) + "a\nbb\nccc\n";
    let span = Region::new(9, 1, 11, 2);
    let expected = [
        "  --> 9:1..11:2",
        "   |",
        "   |  ┌─────╮",
        " 9 | a      │",
        "10 | bb     │",
        "11 | ccc    │",
        "   |  └─────╯",
        "   |",
        "",
    ]
    .join("\n");
    assert_eq!(debug_span(span, &code), expected);
    assert_eq!(code_line(&span, &code), " 9 | a");
}

#[test]
fn bars_stand_in_one_column() {
    let code = "struct Foo {\n    a: std::collections::HashMap<i32, i32>,\n\n}\n";
    let span = Region::new(1, 11, 4, 1);
    let longest = "    a: std::collections::HashMap<i32, i32>,".chars().count();
    let column = 1 + 3 + longest + PADDING + 1;
    let rows = code_lines(&span, code);
    let rows: Vec<&str> = rows.split('\n').collect();
    assert_eq!(rows.len(), 4);
    for row in rows {
        assert_eq!(row.chars().count(), column + 1);
        assert_eq!(row.chars().nth(column), Some('│'));
    }
    assert_eq!(start_line(&span, code).chars().nth(column), Some('╮'));
    assert_eq!(end_line(&span, code).chars().nth(column), Some('╯'));
    assert_eq!(column_of(&start_line(&span, code), '┌'), vec![1 + 3 + 11]);
    assert_eq!(column_of(&end_line(&span, code), '└'), vec![1 + 3]);
}

#[test]
fn padding_is_three() {
    assert_eq!(PADDING, 3);
    let span = Region::new(1, 0, 2, 1);
    assert_eq!(start_line(&span, "ab\ncd\n"), "  | ┌─────╮");
    assert_eq!(code_lines(&span, "ab\ncd\n"), "1 | ab    │\n2 | cd    │");
    assert_eq!(end_line(&span, "ab\ncd\n"), "  | └─────╯");
}

#[test]
fn lengths_count_characters() {
    let code = "let s = \"żółć\";\nlet t = 1;\n";
    let span = Region::new(1, 4, 2, 5);
    let expected = [
        " --> 1:4..2:5",
        "  |",
        "  |     ┌──────────────╮",
        "1 | let s = \"żółć\";    │",
        "2 | let t = 1;         │",
        "  |     └──────────────╯",
        "  |",
        "",
    ]
    .join("\n");
    assert_eq!(debug_span(span, code), expected);
    assert_eq!(
        debug_span(Region::new(1, 9, 1, 13), code),
        " --> 1:9..1:13\n  |\n1 | let s = \"żółć\";\n  |          ^^^^\n  |\n"
    );
}

#[test]
fn empty_lines_inside_a_span() {
    let code = "\n\n\n";
    let span = Region::new(1, 0, 3, 1);
    let expected = [
        " --> 1:0..3:1",
        "  |",
        "  | ┌───╮",
        "1 |     │",
        "2 |     │",
        "3 |     │",
        "  | └───╯",
        "  |",
        "",
    ]
    .join("\n");
    assert_eq!(debug_span(span, code), expected);
}

#[test]
fn corners_at_the_far_right() {
    let code = "ab\ncd\n";
    assert_eq!(start_line(&Region::new(1, 5, 2, 1), code), "  |      ┌╮");
    assert_eq!(end_line(&Region::new(1, 0, 2, 6), code), "  |      └╯");
    assert_eq!(end_line(&Region::new(1, 0, 2, 1), code), "  | └─────╯");
}

#[test]
fn carriage_returns_before_line_feeds_are_line_endings() {
    let code = "struct Foo {\r\n    a: i32,\r\n}\r\n";
    let span = Region::new(1, 11, 3, 1);
    let expected = [
        " --> 1:11..3:1",
        "  |",
        "  |            ┌────╮",
        "1 | struct Foo {    │",
        "2 |     a: i32,     │",
        "3 | }               │",
        "  | └───────────────╯",
        "  |",
        "",
    ]
    .join("\n");
    assert_eq!(debug_span(span, code), expected);
    assert_eq!(code_line(&Region::new(2, 4, 2, 5), "a\r\nb\rc\r"), "2 | b\rc\r");
}

#[test]
fn last_line_needs_no_line_feed() {
    assert_eq!(
        debug_span(Region::new(2, 0, 2, 3), "one\ntwo"),
        " --> 2:0..2:3\n  |\n2 | two\n  | ^^^\n  |\n"
    );
}

#[test]
fn spans_that_do_not_fit_are_told_apart() {
    let code = "ab\ncd\n";
    // the line is not there
    assert_eq!(try_debug_span(Region::new(3, 0, 3, 1), code), None);
    assert_eq!(try_debug_span(Region::new(0, 0, 0, 1), code), None);
    assert_eq!(try_debug_span(Region::new(1, 0, 3, 1), code), None);
    assert_eq!(try_debug_span(Region::new(0, 0, 2, 1), code), None);
    assert_eq!(try_debug_span(Region::new(1, 0, 1, 1), ""), None);
    // the end lies before the start
    assert_eq!(try_debug_span(Region::new(1, 2, 1, 1), code), None);
    assert_eq!(try_debug_span(Region::new(2, 0, 1, 1), code), None);
    // the corners find no room
    assert_eq!(try_debug_span(Region::new(1, 0, 2, 0), code), None);
    assert_eq!(try_debug_span(Region::new(1, 6, 2, 1), code), None);
    assert_eq!(try_debug_span(Region::new(1, 0, 2, 7), code), None);
    // and these fit
    assert_eq!(
        try_debug_span(Region::new(1, 5, 2, 6), code),
        Some(debug_span(Region::new(1, 5, 2, 6), code))
    );
    assert_eq!(
        try_debug_span(Region::new(2, 0, 2, 40), code),
        Some(format!(" --> 2:0..2:40\n  |\n2 | cd\n  | {}\n  |\n", "^".repeat(40)))
    );
    assert_eq!(
        try_debug_span(Region::new(1, 1, 1, 2), code),
        Some(" --> 1:1..1:2\n  |\n1 | ab\n  |  ^\n  |\n".to_string())
    );
}
