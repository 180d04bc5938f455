use maestro::render::{batch_cells, CellColor, GridCell, NamedColor, Rgba};

fn cell(c: char, fg: CellColor, bg: CellColor, bold: bool) -> GridCell {
    GridCell { c, fg, bg, bold, italic: false, underline: false, strikethrough: false }
}

#[test]
fn cells_batch_into_runs_and_backgrounds() {
    let white = CellColor::Named(NamedColor::Foreground);
    let black = CellColor::Named(NamedColor::Background);
    let red = CellColor::Named(NamedColor::Red);
    let row0 = vec![
        cell('a', white, black, false),
        cell('b', white, red, false),
        cell('c', white, red, true),
        cell('d', white, black, true),
    ];
    let row1 = vec![
        cell('x', white, red, false),
        cell('y', white, red, false),
        cell('z', white, black, false),
        cell('\u{2500}', white, black, false),
    ];
    let grid = vec![row0, row1];
    let content = batch_cells(&grid, 2, 4, (1, 2));
    assert_eq!(content.cursor, (1, 2));
    assert_eq!(content.size, (2, 4));
    let runs: Vec<(u16, u16, String, usize)> = content
        .text_runs
        .iter()
        .map(|r| (r.row, r.start_col, r.text.clone(), r.cell_count))
        .collect();
    assert_eq!(
        runs,
        vec![
            (0, 0, "ab".to_string(), 2),
            (0, 2, "cd".to_string(), 2),
            (1, 0, "xyz".to_string(), 3),
            (1, 3, "\u{2500}".to_string(), 1),
        ]
    );
    assert!(content.text_runs[3].style.is_decorative);
    assert_eq!(content.text_runs[0].style.bg, Rgba::from_rgb(0, 0, 0));
    let rects: Vec<(u16, u16, u16)> =
        content.backgrounds.iter().map(|b| (b.row, b.start_col, b.end_col)).collect();
    assert_eq!(rects, vec![(0, 1, 3), (1, 0, 2)]);
    assert_eq!(content.backgrounds[0].color, Rgba::from_rgb(205, 49, 49));
}

#[test]
fn empty_grid_gives_nothing() {
    let grid: Vec<Vec<GridCell>> = vec![vec![], vec![]];
    let content = batch_cells(&grid, 2, 0, (0, 0));
    assert!(content.text_runs.is_empty());
    assert!(content.backgrounds.is_empty());
}
