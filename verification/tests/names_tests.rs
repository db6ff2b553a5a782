use portfolio_stats::volatility_columns::{interleave, volatility_column_names};

#[test]
fn centred_and_trailing_names_carry_the_window() {
    let windows = vec![3, 9, 30, 90];
    assert_eq!(
        volatility_column_names(&windows, true),
        vec![
            "volatility_centered_k3",
            "volatility_centered_k9",
            "volatility_centered_k30",
            "volatility_centered_k90"
        ]
    );
    assert_eq!(
        volatility_column_names(&windows, false),
        vec![
            "volatility_not_centered_k3",
            "volatility_not_centered_k9",
            "volatility_not_centered_k30",
            "volatility_not_centered_k90"
        ]
    );
    assert!(volatility_column_names(&Vec::new(), true).is_empty());
    assert_eq!(volatility_column_names(&vec![0, 1000], true), vec!["volatility_centered_k0", "volatility_centered_k1000"]);
}

#[test]
fn stacked_order_alternates_centred_and_trailing() {
    let windows = vec![3, 9];
    let centred = volatility_column_names(&windows, true);
    let trailing = volatility_column_names(&windows, false);
    assert_eq!(
        interleave(&centred, &trailing),
        vec![
            "volatility_centered_k3",
            "volatility_not_centered_k3",
            "volatility_centered_k9",
            "volatility_not_centered_k9"
        ]
    );
    assert!(interleave(&Vec::new(), &Vec::new()).is_empty());
}
