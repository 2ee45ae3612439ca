use market_cli::table::format_table;

#[test]
fn table_shows_every_cell_and_aligns_columns() {
    let rows = vec![vec!["AAPL", "Apple Inc", "Common Stock"], vec!["MSFT", "Microsoft", "Common Stock"]];
    let out = format_table(&["SYMBOL", "DESCRIPTION", "TYPE"], &rows, false);
    let lines: Vec<&str> = out.lines().collect();
    assert_eq!(lines.len(), 3);
    assert_eq!(lines[0], "SYMBOL    DESCRIPTION    TYPE");
    assert_eq!(lines[1], "AAPL      Apple Inc      Common Stock");
    assert_eq!(lines[2], "MSFT      Microsoft      Common Stock");
    for row in &rows {
        for cell in row {
            assert!(out.contains(cell));
        }
    }
}

#[test]
fn table_pads_the_last_column_when_asked() {
    let rows = vec![vec!["a", "bb"], vec!["ccc", "d"]];
    let out = format_table(&["H1", "H2"], &rows, true);
    assert_eq!(out, "H1     H2\na      bb\nccc    d ");
}
