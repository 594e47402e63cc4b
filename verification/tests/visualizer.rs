use parallel_disk_usage::bytes_format::BytesFormat;
use parallel_disk_usage::size::Bytes;
use parallel_disk_usage::tree::Tree;
use parallel_disk_usage::visualizer::column_width_distribution::ColumnWidthDistribution;
use parallel_disk_usage::visualizer::{Direction, LayoutError, Visualizer};

fn leaf(name: &str, data: u64) -> Tree<Bytes> {
    Tree {
        name: name.to_string(),
        data: Bytes::new(data),
        children: Vec::new(),
    }
}

fn node(name: &str, data: u64, children: Vec<Tree<Bytes>>) -> Tree<Bytes> {
    Tree {
        name: name.to_string(),
        data: Bytes::new(data),
        children,
    }
}

fn render(
    tree: &Tree<Bytes>,
    direction: Direction,
    dist: ColumnWidthDistribution,
    max_width: u16,
) -> Result<Vec<String>, LayoutError> {
    Visualizer {
        tree,
        bytes_format: BytesFormat::PlainNumber,
        direction,
        column_width_distribution: dist,
        max_width,
    }
    .visualize()
}

#[test]
fn single_node_fills_the_whole_bar() {
    let tree = leaf("r", 8);
    let rows = render(
        &tree,
        Direction::TopDown,
        ColumnWidthDistribution::components(4, 8),
        15,
    )
    .unwrap();
    assert_eq!(rows, vec!["r    8 ████████".to_string()]);
}

#[test]
fn short_rows_are_padded_to_the_line_width() {
    let tree = leaf("r", 8);
    let rows = render(
        &tree,
        Direction::TopDown,
        ColumnWidthDistribution::components(4, 8),
        18,
    )
    .unwrap();
    assert_eq!(rows, vec!["r    8 ████████   ".to_string()]);
}

#[test]
fn flat_forest_rows_and_glyphs() {
    let tree = node("r", 10, vec![leaf("a", 3), leaf("b", 3)]);
    let rows = render(
        &tree,
        Direction::TopDown,
        ColumnWidthDistribution::components(10, 4),
        18,
    )
    .unwrap();
    let expected = vec![
        format!("r{} 10 ████", " ".repeat(9)),
        format!("├── a{}  3 █▏  ", " ".repeat(5)),
        format!("└── b{}  3 █▏  ", " ".repeat(5)),
    ];
    assert_eq!(rows, expected);
}

#[test]
fn nested_chain_rows_and_glyphs() {
    let tree = node("r", 10, vec![node("a", 6, vec![leaf("b", 3)])]);
    let rows = render(
        &tree,
        Direction::TopDown,
        ColumnWidthDistribution::components(12, 4),
        20,
    )
    .unwrap();
    let expected = vec![
        format!("r{} 10 ████", " ".repeat(11)),
        format!("└─┬ a{}  6 ██▍ ", " ".repeat(7)),
        format!("    └── b{}  3 █▏  ", " ".repeat(3)),
    ];
    assert_eq!(rows, expected);
}

/// Column accounting: every rendered row is exactly as wide as the
/// maximum line width.
#[test]
fn rows_share_one_exact_width() {
    let tree = node("r", 10, vec![node("a", 6, vec![leaf("b", 3)])]);
    let rows = render(
        &tree,
        Direction::TopDown,
        ColumnWidthDistribution::components(12, 4),
        25,
    )
    .unwrap();
    for row in &rows {
        assert_eq!(row.chars().count(), 25);
    }
}

/// A `Total` budget is split so that the rows are exactly that wide.
#[test]
fn total_budget_is_met_exactly() {
    let tree = leaf("r", 8);
    let rows = render(
        &tree,
        Direction::TopDown,
        ColumnWidthDistribution::total(20),
        20,
    )
    .unwrap();
    assert_eq!(rows, vec![format!("r 8 {}", "█".repeat(16))]);
    assert_eq!(rows[0].chars().count(), 20);
}

#[test]
fn bottom_up_reverses_the_rows() {
    let tree = node("r", 10, vec![leaf("a", 3), leaf("b", 3)]);
    let down = render(
        &tree,
        Direction::TopDown,
        ColumnWidthDistribution::components(10, 4),
        18,
    )
    .unwrap();
    let up = render(
        &tree,
        Direction::BottomUp,
        ColumnWidthDistribution::components(10, 4),
        18,
    )
    .unwrap();
    let mut reversed = down.clone();
    reversed.reverse();
    assert_eq!(up, reversed);
}

/// An all-zero tree renders every bar empty, with no division fault.
#[test]
fn degenerate_zero_tree_renders_empty_bars() {
    let tree = node("z", 0, vec![leaf("a", 0)]);
    let rows = render(
        &tree,
        Direction::TopDown,
        ColumnWidthDistribution::components(8, 4),
        15,
    )
    .unwrap();
    assert_eq!(rows.len(), 2);
    for row in &rows {
        let bar: String = row.chars().rev().take(4).collect();
        assert_eq!(bar, "    ");
    }
}

/// A node with more data never draws a visibly narrower bar.
#[test]
fn bigger_data_never_gets_a_narrower_bar() {
    let tree = node("r", 14, vec![leaf("small", 3), leaf("large", 7)]);
    let rows = render(
        &tree,
        Direction::TopDown,
        ColumnWidthDistribution::components(10, 4),
        18,
    )
    .unwrap();
    let filled = |row: &String| {
        row.chars()
            .rev()
            .take(4)
            .filter(|c| *c != ' ')
            .count()
    };
    assert!(filled(&rows[2]) >= filled(&rows[1]));
}

#[test]
fn long_names_are_clipped_with_an_ellipsis() {
    let tree = leaf("very-long-name", 1);
    let rows = render(
        &tree,
        Direction::TopDown,
        ColumnWidthDistribution::components(6, 4),
        13,
    )
    .unwrap();
    assert_eq!(rows[0].chars().take(6).collect::<String>(), "very-…");
}

#[test]
fn zero_component_width_is_rejected() {
    let tree = leaf("r", 8);
    let result = render(
        &tree,
        Direction::TopDown,
        ColumnWidthDistribution::components(0, 5),
        80,
    );
    assert_eq!(result, Err(LayoutError::InsufficientWidth));
}

#[test]
fn tiny_total_width_is_rejected() {
    let tree = leaf("r", 8);
    let result = render(
        &tree,
        Direction::TopDown,
        ColumnWidthDistribution::total(4),
        80,
    );
    assert_eq!(result, Err(LayoutError::InsufficientWidth));
}

/// Widths that cannot fit within the maximum line width are rejected
/// before any row is rendered.
#[test]
fn widths_beyond_the_line_are_rejected() {
    let tree = leaf("r", 8);
    assert_eq!(
        render(
            &tree,
            Direction::TopDown,
            ColumnWidthDistribution::total(101),
            100,
        ),
        Err(LayoutError::InsufficientWidth)
    );
    assert_eq!(
        render(
            &tree,
            Direction::TopDown,
            ColumnWidthDistribution::components(5, 70000),
            100,
        ),
        Err(LayoutError::InsufficientWidth)
    );
    assert_eq!(
        render(
            &tree,
            Direction::TopDown,
            ColumnWidthDistribution::components(60, 60),
            100,
        ),
        Err(LayoutError::InsufficientWidth)
    );
}

#[test]
fn metric_labels_appear_in_rows() {
    let tree = leaf("r", 1500);
    let rows = Visualizer {
        tree: &tree,
        bytes_format: BytesFormat::MetricUnits,
        direction: Direction::TopDown,
        column_width_distribution: ColumnWidthDistribution::components(3, 4),
        max_width: 13,
    }
    .visualize()
    .unwrap();
    assert_eq!(rows, vec!["r   1.5K ████".to_string()]);
}
