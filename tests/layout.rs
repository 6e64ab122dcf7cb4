use lsgrid::entry::{EntryKind, RenderToken};
use lsgrid::packer::{pack, Column};
use lsgrid::render::{anchor_row, plan_grid, Placement};

fn toks(names: &[&str]) -> Vec<RenderToken> {
    names.iter().map(|n| RenderToken::new(n.to_string(), EntryKind::File)).collect()
}

fn column_names(c: &Column) -> Vec<String> {
    c.items.iter().map(|t| t.name.clone()).collect()
}

#[test]
fn wide_terminal_puts_short_list_in_one_column() {
    let layout = pack(&toks(&["a", "bb", "ccc"]), 100, 10);
    assert_eq!(layout.len(), 1);
    assert_eq!(column_names(&layout[0]), vec!["a", "bb", "ccc"]);
    assert_eq!(layout[0].item_max_size, 3);
}

#[test]
fn unknown_terminal_size_gives_one_column() {
    let layout = pack(&toks(&["a", "bb", "ccc", "d"]), 0, 0);
    assert_eq!(layout.len(), 1);
    assert_eq!(column_names(&layout[0]), vec!["a", "bb", "ccc", "d"]);
    assert_eq!(layout[0].item_max_size, 3);
}

#[test]
fn no_tokens_give_empty_layout() {
    assert!(pack(&toks(&[]), 80, 24).is_empty());
    assert!(pack(&toks(&[]), 0, 0).is_empty());
}

#[test]
fn columns_respect_the_height_budget() {
    let names = ["a", "b", "ccc", "d", "ee", "f", "g"];
    let layout = pack(&toks(&names), 80, 6);
    let cols: Vec<Vec<String>> = layout.iter().map(column_names).collect();
    assert_eq!(cols, vec![vec!["a", "b", "ccc"], vec!["d", "ee", "f"], vec!["g"]]);
    assert_eq!(layout.iter().map(|c| c.item_max_size).collect::<Vec<_>>(), vec![3, 2, 1]);
    for c in &layout {
        assert!(c.items.len() <= 3);
        assert_eq!(c.item_max_size, c.items.iter().map(|t| t.name.len()).max().unwrap());
    }
}

#[test]
fn tokens_past_the_width_are_not_placed() {
    let layout = pack(&toks(&["aaaa", "bbbb", "cc", "dd", "e"]), 3, 5);
    let cols: Vec<Vec<String>> = layout.iter().map(column_names).collect();
    assert_eq!(cols, vec![vec!["aaaa", "bbbb"]]);
}

#[test]
fn width_counts_utf8_bytes() {
    let layout = pack(&toks(&["é", "a"]), 10, 10);
    assert_eq!(layout[0].item_max_size, 2);
}

#[test]
fn packing_twice_gives_the_same_layout() {
    let t = toks(&["one", "two", "three", "four", "five", "six"]);
    let a = pack(&t, 12, 5);
    let b = pack(&t, 12, 5);
    assert_eq!(a.len(), b.len());
    for (x, y) in a.iter().zip(b.iter()) {
        assert_eq!(column_names(x), column_names(y));
        assert_eq!(x.item_max_size, y.item_max_size);
    }
}

#[test]
fn small_budget_columns_take_two_tokens() {
    let layout = pack(&toks(&["a", "b", "c"]), 80, 3);
    let cols: Vec<Vec<String>> = layout.iter().map(column_names).collect();
    assert_eq!(cols, vec![vec!["a", "b"], vec!["c"]]);
}

#[test]
fn anchor_row_goes_up_by_the_first_column() {
    assert_eq!(anchor_row(20, 3), Some(17));
    assert_eq!(anchor_row(3, 3), Some(0));
    assert_eq!(anchor_row(2, 3), None);
}

#[test]
fn grid_plan_positions() {
    let layout = pack(&toks(&["a", "bbb", "cc", "d", "e"]), 80, 5);
    let plan = plan_grid(&layout, 4, 10).unwrap();
    assert_eq!(plan.positions.len(), 3);
    assert_eq!(plan.positions[0], vec![Placement { col: 0, row: 10 }, Placement { col: 0, row: 11 }]);
    assert_eq!(plan.positions[1], vec![Placement { col: 4, row: 10 }, Placement { col: 4, row: 11 }]);
    assert_eq!(plan.positions[2], vec![Placement { col: 7, row: 10 }]);
    assert_eq!(plan.home, Placement { col: 4, row: 10 });
    assert_eq!(plan.end, Placement { col: 4, row: 12 });
}

#[test]
fn grid_plan_of_empty_layout() {
    let plan = plan_grid(&vec![], 2, 5).unwrap();
    assert!(plan.positions.is_empty());
    assert_eq!(plan.end, Placement { col: 2, row: 5 });
}

#[test]
fn grid_plan_refuses_offsets_past_terminal_coordinates() {
    let wide = "w".repeat(70000);
    let layout = vec![
        Column::new(toks(&[&wide]), 70000),
        Column::new(toks(&["x"]), 1),
    ];
    assert!(plan_grid(&layout, 0, 0).is_none());
    let single = vec![Column::new(toks(&[&wide]), 70000)];
    assert!(plan_grid(&single, 0, 0).is_some());
}

#[test]
fn grid_plan_refuses_rows_past_terminal_coordinates() {
    let layout = vec![Column::new(toks(&["a", "b"]), 1)];
    assert!(plan_grid(&layout, 0, 65534).is_none());
    assert!(plan_grid(&layout, 0, 65533).is_some());
}
