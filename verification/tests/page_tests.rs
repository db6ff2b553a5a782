use portfolio_stats::plot_page::{plot_div_ids, plots_page};

#[test]
fn div_ids_count_from_zero() {
    assert_eq!(plot_div_ids(0), Vec::<String>::new());
    assert_eq!(plot_div_ids(3), vec!["test_0", "test_1", "test_2"]);
    let many = plot_div_ids(12);
    assert_eq!(many[10], "test_10");
    assert_eq!(many[11], "test_11");
}

#[test]
fn page_with_default_title() {
    let page = plots_page(None, &Vec::new());
    assert_eq!(
        page,
        [
            "<!DOCTYPE html><html><head><title>Plotly-rs Multiple Plots</title>",
            "<script src=\"https://cdn.plot.ly/plotly-latest.min.js\"></script></head>",
            "<body><h1>Multiple Plotly plots on the same HTML page</h1></body></html>",
        ]
        .concat()
    );
}

#[test]
fn page_with_title_and_plots_in_order() {
    let fragments = vec!["<div id=\"test_0\"></div>".to_string(), "<div id=\"test_1\"></div>".to_string()];
    let page = plots_page(Some("Q-Q Plots"), &fragments);
    assert_eq!(
        page,
        [
            "<!DOCTYPE html><html><head><title>Q-Q Plots</title>",
            "<script src=\"https://cdn.plot.ly/plotly-latest.min.js\"></script></head>",
            "<body><h1>Q-Q Plots</h1><div id=\"test_0\"></div><div id=\"test_1\"></div></body></html>",
        ]
        .concat()
    );
}

#[test]
fn page_text_is_not_escaped() {
    let page = plots_page(Some("a<b"), &vec!["&".to_string()]);
    assert!(page.contains("<title>a<b</title>"));
    assert!(page.contains("<h1>a<b</h1>&</body>"));
}
