use wsup::app::ViewMode;
use wsup::layout::{
    searchBar, BarStyle,
    centeredPercentages, connectionsLabel, detailLayout, filterInfo, footerHints, getPortColor,
    memorySeries, projectColumnWidths, sortIndicator, summaryBoxLayout, summaryWidth,
    projectsFooterHints, tableColumnWidths, tableHeight, visibleRange, GraphSizing, HintStyle,
    PortColor,
};
use wsup::order::SortMode;

#[test]
fn table_widths_share_what_is_left() {
    assert_eq!(tableColumnWidths(120), (20, 57));
    assert_eq!(tableColumnWidths(50), (7, 0));
    assert_eq!(tableColumnWidths(10), (0, 0));
    assert_eq!(tableColumnWidths(63), (20, 0));
}

#[test]
fn visible_rows_window() {
    assert_eq!(visibleRange(10, 2, 5), (2, 7));
    assert_eq!(visibleRange(10, 8, 5), (8, 10));
    assert_eq!(visibleRange(3, 5, 5), (3, 3));
    assert_eq!(visibleRange(usize::MAX, usize::MAX - 1, 5), (usize::MAX - 1, usize::MAX));
    assert_eq!(tableHeight(2), 0);
    assert_eq!(tableHeight(20), 17);
}

#[test]
fn connection_labels() {
    assert_eq!(connectionsLabel(0), "-");
    assert_eq!(connectionsLabel(12), "12");
}

#[test]
fn port_colors_by_service() {
    assert_eq!(getPortColor(80), PortColor::Cyan);
    assert_eq!(getPortColor(8443), PortColor::Cyan);
    assert_eq!(getPortColor(8080), PortColor::Cyan);
    assert_eq!(getPortColor(3306), PortColor::LightMagenta);
    assert_eq!(getPortColor(3000), PortColor::Green);
    assert_eq!(getPortColor(3999), PortColor::Green);
    assert_eq!(getPortColor(5432), PortColor::LightBlue);
    assert_eq!(getPortColor(5000), PortColor::Magenta);
    assert_eq!(getPortColor(6379), PortColor::Red);
    assert_eq!(getPortColor(8000), PortColor::Yellow);
    assert_eq!(getPortColor(27018), PortColor::Blue);
    assert_eq!(getPortColor(22), PortColor::Gray);
}

#[test]
fn sort_indicators() {
    assert_eq!(sortIndicator(SortMode::Cpu, false, SortMode::Cpu), "\u{25bc}");
    assert_eq!(sortIndicator(SortMode::Cpu, true, SortMode::Cpu), "\u{25b2}");
    assert_eq!(sortIndicator(SortMode::Cpu, true, SortMode::Port), "");
}

#[test]
fn project_widths() {
    assert_eq!(projectColumnWidths(146), (50, 50));
    assert_eq!(projectColumnWidths(40), (15, 15));
    assert_eq!(projectColumnWidths(100), (27, 27));
    assert_eq!(projectColumnWidths(101), (27, 28));
}

#[test]
fn detail_panel_layouts() {
    let d = detailLayout(40);
    assert_eq!((d.logo_rows, d.info_rows, d.graphs), (8, 13, GraphSizing::Fixed));
    let d = detailLayout(30);
    assert_eq!((d.logo_rows, d.info_rows, d.graphs), (0, 13, GraphSizing::Fixed));
    let d = detailLayout(20);
    assert_eq!((d.logo_rows, d.info_rows, d.graphs), (0, 5, GraphSizing::Fixed));
    let d = detailLayout(10);
    assert_eq!((d.logo_rows, d.info_rows, d.graphs), (0, 4, GraphSizing::Thirds));
    let d = detailLayout(4);
    assert_eq!((d.logo_rows, d.info_rows, d.graphs), (0, 4, GraphSizing::Hidden));
}

#[test]
fn centered_box_percentages() {
    assert_eq!(centeredPercentages(50), (25, 50, 25));
    assert_eq!(centeredPercentages(35), (32, 35, 32));
    assert_eq!(centeredPercentages(100), (0, 100, 0));
}

#[test]
fn filter_info_text() {
    assert_eq!(filterInfo(3, 10), "3/10");
    assert_eq!(filterInfo(10, 10), "10");
}

#[test]
fn memory_graph_in_mebibytes() {
    assert_eq!(memorySeries(&vec![0, 1048575, 1048576, 5 * 1048576 + 1]), vec![0, 0, 1, 5]);
}

#[test]
fn summary_box_frame() {
    assert_eq!(summaryWidth(None), 80);
    assert_eq!(summaryWidth(Some(20)), 40);
    assert_eq!(summaryWidth(Some(120)), 120);
    let b = summaryBoxLayout(&vec![4, 30, 25], 80);
    assert_eq!((b.inner_width, b.box_width, b.left_margin, b.top_dashes), (30, 34, 23, 17));
    let b = summaryBoxLayout(&vec![100], 40);
    assert_eq!((b.inner_width, b.box_width, b.left_margin, b.top_dashes), (34, 38, 1, 21));
    let b = summaryBoxLayout(&vec![], 10);
    assert_eq!((b.inner_width, b.box_width, b.left_margin, b.top_dashes), (14, 18, 0, 1));
}

#[test]
fn footer_lists_the_keys_of_each_view() {
    let search = footerHints(true, ViewMode::Projects);
    assert_eq!(search.len(), 3);
    assert_eq!(search[0], ("Type to search", HintStyle::YellowBold, "  "));
    let list = footerHints(false, ViewMode::List);
    let keys: Vec<&str> = list.iter().map(|h| h.0).collect();
    assert_eq!(keys, vec!["\u{2191}\u{2193}", "/", "s", "o", "Enter", "x", "r", "q"]);
    assert_eq!(list[5], ("x", HintStyle::Red, " kill  "));
    let confirm = footerHints(false, ViewMode::ConfirmKill);
    assert_eq!(confirm, vec![("y", HintStyle::Red, " confirm  "), ("n/Esc", HintStyle::Green, " cancel")]);
    assert_eq!(footerHints(false, ViewMode::Detail)[0], ("Esc", HintStyle::Yellow, " back  "));
    assert_eq!(footerHints(false, ViewMode::Projects)[1], ("Space", HintStyle::Green, " start/stop  "));
}

#[test]
fn projects_footer_mentions_deploy() {
    let hints = projectsFooterHints();
    assert_eq!(hints.len(), 5);
    assert_eq!(hints[2], ("d", HintStyle::Magenta, " deploy  "));
    assert_eq!(hints[4], ("q", HintStyle::DarkGray, " quit"));
}

#[test]
fn search_bar_parts() {
    assert_eq!(
        searchBar(true, "no"),
        vec![(" Search: ".to_string(), BarStyle::YellowBold), ("no".to_string(), BarStyle::White), ("_".to_string(), BarStyle::WhiteBlinking)]
    );
    assert_eq!(
        searchBar(false, "no"),
        vec![(" Filter: ".to_string(), BarStyle::DarkGray), ("no".to_string(), BarStyle::Gray), (" (press / to edit)".to_string(), BarStyle::DarkGray)]
    );
    assert_eq!(
        searchBar(false, ""),
        vec![(" Press ".to_string(), BarStyle::DarkGray), ("/".to_string(), BarStyle::Yellow), (" to search".to_string(), BarStyle::DarkGray)]
    );
    assert_eq!(searchBar(true, "")[1], (String::new(), BarStyle::White));
}
