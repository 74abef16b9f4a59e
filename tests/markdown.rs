use aio_markdown::formatters::{new_markdown_formatter, new_raw_formatter, Formatter, FormatterChoice};
use aio_markdown::terminal::{Attribute, Color, TermOp};

fn render(fragments: &[&str], width: u16) -> Vec<TermOp> {
    let mut f = new_markdown_formatter(width);
    for s in fragments {
        f.push(s);
    }
    f.end_of_document();
    f.take_output()
}

fn print(s: &str) -> TermOp {
    TermOp::Print(s.to_string())
}

fn line(n: usize) -> String {
    "─".repeat(n)
}

#[test]
fn bold_in_one_fragment_or_eight() {
    let whole = render(&["**bold**"], 80);
    let pieces = render(&["*", "*", "b", "o", "l", "d", "*", "*"], 80);
    let expected = vec![
        TermOp::ResetStyle,
        TermOp::SetAttribute(Attribute::Bold),
        print("bold"),
        TermOp::ResetStyle,
        TermOp::ResetStyle,
        print("\n"),
    ];
    assert_eq!(whole, expected);
    assert_eq!(pieces, expected);
}

#[test]
fn fragments_cut_anywhere_render_alike() {
    let text = "# Head *it*\nsome **bold** and `code`\n```py\nprint(1)\n```\n---\nend";
    let whole = render(&[text], 60);
    let chars: Vec<String> = text.chars().map(|c| c.to_string()).collect();
    let refs: Vec<&str> = chars.iter().map(|s| s.as_str()).collect();
    assert_eq!(render(&refs, 60), whole);
    let (a, b) = text.split_at(17);
    assert_eq!(render(&[a, b], 60), whole);
}

#[test]
fn marker_pair_leaves_no_style_open() {
    let ops = render(&["*a* b"], 80);
    assert_eq!(
        ops,
        vec![
            TermOp::ResetStyle,
            TermOp::SetAttribute(Attribute::Italic),
            print("a"),
            TermOp::ResetStyle,
            print(" b"),
            TermOp::ResetStyle,
            print("\n"),
        ]
    );
}

#[test]
fn markers_inside_words_stay_literal_in_toggle_example() {
    // Only the outer markers sit at a word boundary.
    let ops = render(&["*a*b*c*"], 80);
    assert_eq!(
        ops,
        vec![
            TermOp::ResetStyle,
            TermOp::SetAttribute(Attribute::Italic),
            print("a*b*c"),
            TermOp::ResetStyle,
            TermOp::ResetStyle,
            print("\n"),
        ]
    );
}

#[test]
fn marker_inside_a_word_is_literal() {
    assert_eq!(render(&["a*b*c"], 80), vec![print("a*b*c"), TermOp::ResetStyle, print("\n")]);
}

#[test]
fn lone_marker_between_spaces_is_literal() {
    assert_eq!(render(&["foo * bar"], 80), vec![print("foo * bar"), TermOp::ResetStyle, print("\n")]);
}

#[test]
fn fence_mid_line_is_text() {
    let mut f = new_markdown_formatter(80);
    f.push("abc```\n");
    f.end_of_document();
    assert_eq!(
        f.take_output(),
        vec![print("abc```"), TermOp::ResetStyle, print("\n"), TermOp::ResetStyle, print("\n")]
    );
    assert!(f.take_code_blocks().is_empty());
}

#[test]
fn code_block_round_trip() {
    let mut f = new_markdown_formatter(80);
    f.push("```rust\nfn main() {}\n```\n");
    let top = format!("{}┬{}", line(5), line(74));
    let bottom = format!("{}┴{}", line(5), line(74));
    let body = format!("{}\n 001 │ fn main() {{}}\n{}", top, bottom);
    assert_eq!(f.take_output(), vec![print(&body), TermOp::ResetStyle, print("\n")]);
    let blocks = f.take_code_blocks();
    assert_eq!(blocks.len(), 1);
    assert_eq!(blocks[0].language.as_deref(), Some("rust"));
    assert_eq!(blocks[0].code, "fn main() {}");
}

#[test]
fn code_block_keeps_its_lines_and_markers() {
    let mut f = new_markdown_formatter(10);
    f.push("```\n*a*\n``x\n\n```");
    f.end_of_document();
    let blocks = f.take_code_blocks();
    assert_eq!(blocks.len(), 1);
    assert_eq!(blocks[0].language, None);
    assert_eq!(blocks[0].code, "*a*\n``x\n");
    let ops = f.take_output();
    let top = format!("{}┬{}", line(5), line(4));
    let bottom = format!("{}┴{}", line(5), line(4));
    let body = format!("{}\n 001 │ *a*\n 002 │ ``x\n\n{}", top, bottom);
    assert_eq!(ops, vec![print(&body), TermOp::ResetStyle, print("\n")]);
}

#[test]
fn heading_is_centred() {
    let mut f = new_markdown_formatter(80);
    f.push("# Title\n");
    assert_eq!(
        f.take_output(),
        vec![
            TermOp::ResetStyle,
            TermOp::SetAttribute(Attribute::Reverse),
            TermOp::SetAttribute(Attribute::Bold),
            print(&line(80)),
            TermOp::MoveToColumn(37),
            TermOp::ResetStyle,
            TermOp::SetAttribute(Attribute::Reverse),
            TermOp::SetAttribute(Attribute::Bold),
            print("Title"),
            TermOp::ResetStyle,
            print("\n"),
        ]
    );
}

#[test]
fn heading_width_halves_per_level() {
    let mut f = new_markdown_formatter(80);
    f.push("### abcd\n");
    let ops = f.take_output();
    // 80 / 4 = 20 columns, text of 4: (20 - 4) / 2 = 8.
    assert_eq!(ops[3], print(&line(20)));
    assert_eq!(ops[4], TermOp::MoveToColumn(8));
}

#[test]
fn heading_wider_than_its_width_starts_at_column_zero() {
    let mut f = new_markdown_formatter(8);
    f.push("## a long title\n");
    let ops = f.take_output();
    assert_eq!(ops[3], print(&line(4)));
    assert_eq!(ops[4], TermOp::MoveToColumn(0));
}

#[test]
fn heading_ended_by_the_document_is_drawn() {
    let ops = render(&["# Hi"], 10);
    assert_eq!(ops[4], TermOp::MoveToColumn(4));
    assert_eq!(ops[8], print("Hi"));
}

#[test]
fn seven_hashes_are_text() {
    assert_eq!(render(&["####### x"], 80), vec![print("####### x"), TermOp::ResetStyle, print("\n")]);
}

#[test]
fn unresolved_marker_is_printed_at_the_end() {
    assert_eq!(render(&["x ****"], 80), vec![print("x ****"), TermOp::ResetStyle, print("\n")]);
}

#[test]
fn style_opened_at_line_start_before_the_end() {
    assert_eq!(
        render(&["**bol"], 80),
        vec![
            TermOp::ResetStyle,
            TermOp::SetAttribute(Attribute::Bold),
            print("bol"),
            TermOp::ResetStyle,
            print("\n"),
        ]
    );
}

#[test]
fn empty_document_prints_a_newline() {
    assert_eq!(render(&[], 80), vec![TermOp::ResetStyle, print("\n")]);
}

#[test]
fn horizontal_rule() {
    assert_eq!(
        render(&["---\n"], 12),
        vec![print(&format!("{}", line(12))), TermOp::ResetStyle, print("\n"), TermOp::ResetStyle, print("\n")]
    );
    // Nothing follows a rule that ends the document: it stays text.
    assert_eq!(render(&["___"], 3), vec![print("___"), TermOp::ResetStyle, print("\n")]);
}

#[test]
fn inline_code_is_yellow_and_keeps_stars() {
    assert_eq!(
        render(&["`a*b`"], 80),
        vec![
            TermOp::ResetStyle,
            TermOp::SetForegroundColor(Color::Yellow),
            print("a*b"),
            TermOp::ResetStyle,
            TermOp::ResetStyle,
            print("\n"),
        ]
    );
}

#[test]
fn nested_styles_are_reapplied_from_scratch() {
    assert_eq!(
        render(&["_a __b__ c_"], 80),
        vec![
            TermOp::ResetStyle,
            TermOp::SetAttribute(Attribute::Italic),
            print("a "),
            TermOp::ResetStyle,
            TermOp::SetAttribute(Attribute::Italic),
            TermOp::SetAttribute(Attribute::Underlined),
            print("b"),
            TermOp::ResetStyle,
            TermOp::SetAttribute(Attribute::Italic),
            print(" c"),
            TermOp::ResetStyle,
            TermOp::ResetStyle,
            print("\n"),
        ]
    );
}

#[test]
fn bold_italic() {
    let ops = render(&["***x***"], 80);
    assert_eq!(
        &ops[..3],
        &[TermOp::ResetStyle, TermOp::SetAttribute(Attribute::Italic), TermOp::SetAttribute(Attribute::Bold)]
    );
}

#[test]
fn raw_formatter_prints_as_is() {
    let mut f = new_raw_formatter();
    f.push("**a**");
    f.push("\n");
    f.end_of_document();
    assert_eq!(f.take_output(), vec![print("**a**\n")]);
}

#[test]
fn formatter_enum_dispatches() {
    let mut f = Formatter::new(FormatterChoice::Raw, 80);
    f.push("*x*");
    f.end_of_document();
    assert_eq!(f.take_output(), vec![print("*x*")]);
    let mut f = Formatter::new(FormatterChoice::Markdown, 80);
    f.push("*x*");
    f.end_of_document();
    assert_eq!(f.take_output()[1], TermOp::SetAttribute(Attribute::Italic));
}

#[test]
fn marker_that_would_open_a_style_at_the_end_is_printed() {
    assert_eq!(render(&["see note*"], 80), vec![print("see note*"), TermOp::ResetStyle, print("\n")]);
    assert_eq!(render(&["see __"], 80), vec![print("see __"), TermOp::ResetStyle, print("\n")]);
}

#[test]
fn trailing_fence_and_rule_are_text() {
    let mut f = new_markdown_formatter(20);
    f.push("a\n```");
    f.end_of_document();
    assert_eq!(
        f.take_output(),
        vec![print("a"), TermOp::ResetStyle, print("\n```"), TermOp::ResetStyle, print("\n")]
    );
    assert!(f.take_code_blocks().is_empty());
    assert_eq!(render(&["---"], 8), vec![print("---"), TermOp::ResetStyle, print("\n")]);
}

#[test]
fn style_stays_open_across_a_line_end() {
    assert_eq!(
        render(&["**a\nb** c"], 80),
        vec![
            TermOp::ResetStyle,
            TermOp::SetAttribute(Attribute::Bold),
            print("a"),
            TermOp::ResetStyle,
            print("\nb"),
            TermOp::ResetStyle,
            print(" c"),
            TermOp::ResetStyle,
            print("\n"),
        ]
    );
}
