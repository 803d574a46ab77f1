use typstfmt::format_with_diagnostics;
use typstfmt::Config;
use typstfmt::Kind;
use typstfmt::Node;
use typstfmt::Warning;

fn leaf(kind: Kind, text: &str) -> Node {
    Node { kind, text: text.chars().collect(), children: Vec::new() }
}

fn inner(kind: Kind, children: Vec<Node>) -> Node {
    Node { kind, text: Vec::new(), children }
}

fn cfg(max_line_length: usize) -> Config {
    Config { max_line_length, indent_width: 2, indent_char: ' ' }
}

#[test]
fn default_config_values() {
    let c = Config::default();
    assert_eq!(c.max_line_length, 80);
    assert_eq!(c.indent_width, 2);
    assert_eq!(c.indent_char, ' ');
}

#[test]
fn binary_spacing_tight() {
    let tree = inner(
        Kind::Binary,
        vec![leaf(Kind::Text, "a"), leaf(Kind::Op, "+"), leaf(Kind::Text, "b")],
    );
    assert_eq!(typstfmt::format(&tree, Config::default()), "a + b");
}

#[test]
fn binary_spacing_discards_space_trivia() {
    let tree = inner(
        Kind::Binary,
        vec![
            leaf(Kind::Text, "a"),
            leaf(Kind::Space, "   "),
            leaf(Kind::Op, "+"),
            leaf(Kind::Space, " "),
            leaf(Kind::Text, "b"),
        ],
    );
    assert_eq!(typstfmt::format(&tree, Config::default()), "a + b");
}

#[test]
fn binary_assignment_token_is_an_operator() {
    let tree = inner(
        Kind::Binary,
        vec![leaf(Kind::Text, "x"), leaf(Kind::Eq, "="), leaf(Kind::Text, "1")],
    );
    assert_eq!(typstfmt::format(&tree, Config::default()), "x = 1");
}

#[test]
fn named_argument_spacing() {
    let entry = inner(
        Kind::Named,
        vec![leaf(Kind::Text, "a"), leaf(Kind::Colon, ":"), leaf(Kind::Text, "1")],
    );
    assert_eq!(typstfmt::format(&entry, Config::default()), "a: 1");
}

#[test]
fn named_argument_spacing_inside_args() {
    let entry = inner(
        Kind::Named,
        vec![
            leaf(Kind::Text, "a"),
            leaf(Kind::Colon, ":"),
            leaf(Kind::Space, " "),
            leaf(Kind::Text, "1"),
        ],
    );
    let tree = inner(
        Kind::Args,
        vec![leaf(Kind::LeftParen, "("), entry, leaf(Kind::RightParen, ")")],
    );
    assert_eq!(typstfmt::format(&tree, Config::default()), "(a: 1)");
}

#[test]
fn keyed_entry_spacing() {
    let entry = inner(
        Kind::Keyed,
        vec![leaf(Kind::Text, "\"k\""), leaf(Kind::Colon, ":"), leaf(Kind::Text, "2")],
    );
    assert_eq!(typstfmt::format(&entry, Config::default()), "\"k\": 2");
}

#[test]
fn let_binding_spacing() {
    let tree = inner(
        Kind::LetBinding,
        vec![
            leaf(Kind::Text, "let"),
            leaf(Kind::Space, " "),
            leaf(Kind::Text, "x"),
            leaf(Kind::Eq, "="),
            leaf(Kind::Text, "1"),
        ],
    );
    assert_eq!(typstfmt::format(&tree, Config::default()), "let x = 1");
}

#[test]
fn let_binding_keeps_space_trivia() {
    let tree = inner(
        Kind::LetBinding,
        vec![
            leaf(Kind::Text, "let"),
            leaf(Kind::Space, " "),
            leaf(Kind::Text, "x"),
            leaf(Kind::Space, " "),
            leaf(Kind::Eq, "="),
            leaf(Kind::Space, " "),
            leaf(Kind::Text, "1"),
        ],
    );
    assert_eq!(typstfmt::format(&tree, Config::default()), "let x = 1");
}

#[test]
fn space_collapse_spaces() {
    let tree = leaf(Kind::Text, "a  b   c");
    assert_eq!(typstfmt::format(&tree, Config::default()), "a b c");
}

#[test]
fn space_collapse_newlines() {
    let tree = leaf(Kind::Text, "a\n\n\n\nb");
    assert_eq!(typstfmt::format(&tree, Config::default()), "a\n\nb");
}

#[test]
fn space_collapse_keeps_single_whitespace() {
    let tree = leaf(Kind::Text, "a b\nc\n\nd");
    assert_eq!(typstfmt::format(&tree, Config::default()), "a b\nc\n\nd");
}

#[test]
fn normalization_is_idempotent_on_output() {
    let once = typstfmt::format(&leaf(Kind::Text, "a  b\n\n\n\nc  d"), Config::default());
    let twice = typstfmt::format(&leaf(Kind::Text, &once), Config::default());
    assert_eq!(twice, once);
}

#[test]
fn width_threshold_warns_once_and_keeps_tight_output() {
    let tree = inner(
        Kind::Binary,
        vec![leaf(Kind::Text, "aaaaaaa"), leaf(Kind::Op, "+"), leaf(Kind::Text, "bbbb")],
    );
    let (out, warnings) = format_with_diagnostics(&tree, cfg(10));
    assert_eq!(out, "aaaaaaa + bbbb");
    assert_eq!(warnings, vec![Warning::BinaryBreakingUnsupported]);
}

#[test]
fn width_threshold_no_warning_when_it_fits() {
    let tree = inner(
        Kind::Binary,
        vec![leaf(Kind::Text, "a"), leaf(Kind::Op, "+"), leaf(Kind::Text, "b")],
    );
    let (out, warnings) = format_with_diagnostics(&tree, cfg(10));
    assert_eq!(out, "a + b");
    assert!(warnings.is_empty());
}

#[test]
fn width_threshold_no_warning_at_exact_budget() {
    let tree = inner(
        Kind::Binary,
        vec![leaf(Kind::Text, "aaaa"), leaf(Kind::Op, "+"), leaf(Kind::Text, "bbb")],
    );
    let (out, warnings) = format_with_diagnostics(&tree, cfg(10));
    assert_eq!(out, "aaaa + bbb");
    assert_eq!(out.chars().count(), 10);
    assert!(warnings.is_empty());
}

fn two_element_list(kind: Kind, open: &str, close: &str) -> Node {
    let (ok, ck) = match open {
        "(" => (Kind::LeftParen, Kind::RightParen),
        "{" => (Kind::LeftBrace, Kind::RightBrace),
        _ => (Kind::LeftBracket, Kind::RightBracket),
    };
    inner(
        kind,
        vec![
            leaf(ok, open),
            leaf(Kind::Text, "1"),
            leaf(Kind::Comma, ","),
            leaf(Kind::Space, " "),
            leaf(Kind::Text, "2"),
            leaf(ck, close),
        ],
    )
}

#[test]
fn collection_fits_exactly_at_budget_stays_single_line() {
    let tree = two_element_list(Kind::Array, "(", ")");
    assert_eq!(typstfmt::format(&tree, cfg(6)), "(1, 2)");
}

#[test]
fn collection_over_budget_breaks_one_item_per_line() {
    let tree = two_element_list(Kind::Array, "(", ")");
    assert_eq!(typstfmt::format(&tree, cfg(5)), "(\n  1,\n  2\n)");
}

#[test]
fn collection_rule_is_shared_by_all_six_forms() {
    let kinds = vec![
        Kind::Args,
        Kind::Params,
        Kind::Dict,
        Kind::Array,
        Kind::Destructuring,
        Kind::Parenthesized,
    ];
    for kind in kinds {
        let tree = two_element_list(kind, "(", ")");
        assert_eq!(typstfmt::format(&tree, Config::default()), "(1, 2)");
        assert_eq!(typstfmt::format(&tree, cfg(5)), "(\n  1,\n  2\n)");
    }
}

#[test]
fn collection_inserts_one_space_after_separator() {
    let tree = inner(
        Kind::Args,
        vec![
            leaf(Kind::LeftParen, "("),
            leaf(Kind::Text, "a"),
            leaf(Kind::Comma, ","),
            leaf(Kind::Text, "b"),
            leaf(Kind::RightParen, ")"),
        ],
    );
    assert_eq!(typstfmt::format(&tree, Config::default()), "(a, b)");
}

#[test]
fn code_block_short_stays_single_line() {
    let tree = inner(
        Kind::CodeBlock,
        vec![
            leaf(Kind::LeftBrace, "{"),
            leaf(Kind::Space, " "),
            leaf(Kind::Text, "x"),
            leaf(Kind::Space, " "),
            leaf(Kind::RightBrace, "}"),
        ],
    );
    assert_eq!(typstfmt::format(&tree, Config::default()), "{x}");
}

#[test]
fn code_block_long_breaks_with_indent() {
    let tree = inner(
        Kind::CodeBlock,
        vec![
            leaf(Kind::LeftBrace, "{"),
            leaf(Kind::Text, "xxxxxxxxxx"),
            leaf(Kind::RightBrace, "}"),
        ],
    );
    assert_eq!(typstfmt::format(&tree, cfg(5)), "{\n  xxxxxxxxxx\n}");
}

#[test]
fn content_block_short_stays_single_line() {
    let tree = inner(
        Kind::ContentBlock,
        vec![
            leaf(Kind::LeftBracket, "["),
            leaf(Kind::Text, "hi"),
            leaf(Kind::RightBracket, "]"),
        ],
    );
    assert_eq!(typstfmt::format(&tree, Config::default()), "[hi]");
}

#[test]
fn nested_blocks_indent_cumulatively() {
    let inner_block = inner(
        Kind::Array,
        vec![
            leaf(Kind::LeftParen, "("),
            leaf(Kind::Text, "aaaa"),
            leaf(Kind::Comma, ","),
            leaf(Kind::Text, "bbbb"),
            leaf(Kind::RightParen, ")"),
        ],
    );
    let outer = inner(
        Kind::Array,
        vec![
            leaf(Kind::LeftParen, "("),
            inner_block,
            leaf(Kind::RightParen, ")"),
        ],
    );
    assert_eq!(typstfmt::format(&outer, cfg(5)), "(\n  (\n    aaaa,\n    bbbb\n  )\n)");
}

#[test]
fn default_rule_keeps_children_in_order() {
    let tree = inner(
        Kind::Text,
        vec![
            leaf(Kind::Text, "hello"),
            leaf(Kind::Space, " "),
            leaf(Kind::Text, "world"),
        ],
    );
    assert_eq!(typstfmt::format(&tree, Config::default()), "hello world");
}

#[test]
fn order_preservation_up_to_whitespace() {
    let entry = inner(
        Kind::Named,
        vec![
            leaf(Kind::Text, "size"),
            leaf(Kind::Colon, ":"),
            leaf(Kind::Space, "   "),
            leaf(Kind::Text, "12pt"),
        ],
    );
    let args = inner(
        Kind::Args,
        vec![
            leaf(Kind::LeftParen, "("),
            leaf(Kind::Text, "body"),
            leaf(Kind::Comma, ","),
            leaf(Kind::Space, "  "),
            entry,
            leaf(Kind::RightParen, ")"),
        ],
    );
    let out = typstfmt::format(&args, Config::default());
    let stripped: String = out.chars().filter(|c| !c.is_whitespace()).collect();
    assert_eq!(stripped, "(body,size:12pt)");
}

#[test]
fn format_with_diagnostics_matches_format() {
    let tree = inner(
        Kind::Binary,
        vec![leaf(Kind::Text, "a"), leaf(Kind::Op, "*"), leaf(Kind::Text, "b")],
    );
    let (out, _) = format_with_diagnostics(&tree, Config::default());
    assert_eq!(out, typstfmt::format(&tree, Config::default()));
}

#[test]
fn reserved_breaking_layout_is_inspectable() {
    let tree = inner(
        Kind::Binary,
        vec![leaf(Kind::Text, "a"), leaf(Kind::Op, "+"), leaf(Kind::Text, "b")],
    );
    let children = vec![
        "a".chars().collect::<Vec<char>>(),
        "+".chars().collect::<Vec<char>>(),
        "b".chars().collect::<Vec<char>>(),
    ];
    let mut ctx = typstfmt::Ctx::from_config(Config::default());
    let broken = typstfmt::format_bin_left_assoc_breaking(&tree, &children, &mut ctx);
    let rendered: String = broken.into_iter().collect();
    assert_eq!(rendered, "a\n+ b");
}

#[test]
fn empty_leaf_renders_empty() {
    assert_eq!(typstfmt::format(&leaf(Kind::Text, ""), Config::default()), "");
}

#[test]
fn childless_production_node_renders_empty() {
    let tree = inner(Kind::Binary, Vec::new());
    assert_eq!(typstfmt::format(&tree, Config::default()), "");
}
