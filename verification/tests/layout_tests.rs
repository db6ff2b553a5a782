use portfolio_stats::column_choice::choose_columns;
use portfolio_stats::simplex::initial_simplex;
use portfolio_stats::student_t_params::{pack_params, param_len, unpack_params, ParamError, StudentTParams};
use portfolio_stats::symmetric::{symmetric_from_upper, upper_pairs};
use portfolio_stats::table::{columns, padded_rows};

fn identity_params(d: usize, dof: f64) -> StudentTParams<f64> {
    let mut scale = vec![vec![0.0; d]; d];
    for i in 0..d {
        scale[i][i] = 1.0;
    }
    StudentTParams { location: vec![0.0; d], scale, dof }
}

#[test]
fn param_len_counts_location_scale_and_dof() {
    assert_eq!(param_len(0), Some(1));
    assert_eq!(param_len(1), Some(3));
    assert_eq!(param_len(2), Some(7));
    assert_eq!(param_len(10), Some(111));
    assert_eq!(param_len(usize::MAX), None);
}

#[test]
fn packed_identity_start_has_ones_on_the_diagonal_and_dof_last() {
    let packed = pack_params(&identity_params(2, 5.0));
    assert_eq!(packed, vec![0.0, 0.0, 1.0, 0.0, 0.0, 1.0, 5.0]);
    let packed3 = pack_params(&identity_params(3, 5.0));
    assert_eq!(packed3.len(), 13);
    for i in 0..3 {
        assert_eq!(packed3[3 + i * 3 + i], 1.0);
    }
    assert_eq!(packed3[12], 5.0);
}

#[test]
fn unpack_reads_rows_in_row_major_order() {
    let params: Vec<i64> = vec![1, 2, 10, 11, 12, 13, 7];
    let p = unpack_params(&params, 2).unwrap();
    assert_eq!(p.location, vec![1, 2]);
    assert_eq!(p.scale, vec![vec![10, 11], vec![12, 13]]);
    assert_eq!(p.dof, 7);
}

#[test]
fn unpack_of_dimension_zero_is_only_the_dof() {
    let p = unpack_params(&vec![4u8], 0).unwrap();
    assert!(p.location.is_empty());
    assert!(p.scale.is_empty());
    assert_eq!(p.dof, 4);
}

#[test]
fn unpack_refuses_a_vector_of_the_wrong_length() {
    let short: Vec<f64> = vec![0.0; 6];
    assert_eq!(unpack_params(&short, 2).err(), Some(ParamError::IncorrectLength { found: 6 }));
    let long: Vec<f64> = vec![0.0; 8];
    assert_eq!(unpack_params(&long, 2).err(), Some(ParamError::IncorrectLength { found: 8 }));
    let empty: Vec<f64> = Vec::new();
    assert_eq!(unpack_params(&empty, 0).err(), Some(ParamError::IncorrectLength { found: 0 }));
    assert_eq!(unpack_params(&empty, usize::MAX).err(), Some(ParamError::IncorrectLength { found: 0 }));
}

#[test]
fn unpack_after_pack_gives_the_parameters_back() {
    let given = StudentTParams {
        location: vec![0.5, -1.5, 2.0],
        scale: vec![vec![1.0, 0.1, 0.2], vec![0.3, 2.0, 0.4], vec![0.5, 0.6, 3.0]],
        dof: 4.25,
    };
    let back = unpack_params(&pack_params(&given), 3).unwrap();
    assert_eq!(back.location, given.location);
    assert_eq!(back.scale, given.scale);
    assert_eq!(back.dof, given.dof);
}

#[test]
fn pack_after_unpack_gives_the_vector_back() {
    let params: Vec<i32> = (0..13).collect();
    let p = unpack_params(&params, 3).unwrap();
    assert_eq!(pack_params(&p), params);
}

#[test]
fn columns_transpose_the_samples() {
    let samples = vec![vec![1, 2, 3], vec![4, 5, 6]];
    assert_eq!(columns(&samples), vec![vec![1, 4], vec![2, 5], vec![3, 6]]);
}

#[test]
fn columns_follow_the_first_sample_and_ignore_longer_rows() {
    let samples = vec![vec![1.0, 2.0], vec![3.0, 4.0, 99.0]];
    assert_eq!(columns(&samples), vec![vec![1.0, 3.0], vec![2.0, 4.0]]);
    let no_coordinates: Vec<Vec<f64>> = vec![vec![], vec![1.0]];
    assert!(columns(&no_coordinates).is_empty());
}

#[test]
fn columns_twice_give_a_rectangular_table_back() {
    let samples = vec![vec![1, 2], vec![3, 4], vec![5, 6]];
    assert_eq!(columns(&columns(&samples)), samples);
}

#[test]
fn padded_rows_fill_short_rows() {
    let rows = vec![vec![1.0, 2.0, 3.0], vec![4.0], vec![]];
    assert_eq!(
        padded_rows(&rows, 0.0),
        vec![vec![1.0, 2.0, 3.0], vec![4.0, 0.0, 0.0], vec![0.0, 0.0, 0.0]]
    );
}

#[test]
fn padded_rows_keep_a_rectangular_table() {
    let rows = vec![vec![1, 2], vec![3, 4]];
    assert_eq!(padded_rows(&rows, 0), rows);
}

#[test]
fn upper_pairs_go_row_by_row() {
    assert_eq!(upper_pairs(4), vec![(0, 1), (0, 2), (0, 3), (1, 2), (1, 3), (2, 3)]);
    assert!(upper_pairs(0).is_empty());
    assert!(upper_pairs(1).is_empty());
    assert_eq!(upper_pairs(10).len(), 45);
}

#[test]
fn symmetric_matrix_from_upper_values() {
    let values = vec![0.5, 0.25, -0.75];
    let m = symmetric_from_upper(3, 1.0, &values);
    assert_eq!(
        m,
        vec![vec![1.0, 0.5, 0.25], vec![0.5, 1.0, -0.75], vec![0.25, -0.75, 1.0]]
    );
    for i in 0..3 {
        for j in 0..3 {
            assert_eq!(m[i][j], m[j][i]);
        }
    }
}

#[test]
fn symmetric_matrix_of_size_one_and_zero() {
    assert_eq!(symmetric_from_upper(1, 7, &vec![]), vec![vec![7]]);
    let empty: Vec<Vec<i32>> = Vec::new();
    assert_eq!(symmetric_from_upper(0, 7, &vec![]), empty);
}

#[test]
fn symmetric_matrix_matches_the_pair_order() {
    let n = 5;
    let pairs = upper_pairs(n);
    let values: Vec<usize> = pairs.iter().map(|(i, j)| 10 * i + j).collect();
    let m = symmetric_from_upper(n, 0, &values);
    for (k, (i, j)) in pairs.iter().enumerate() {
        assert_eq!(m[*i][*j], values[k]);
        assert_eq!(m[*j][*i], values[k]);
    }
}

#[test]
fn simplex_moves_one_coordinate_per_vertex() {
    let base = vec![0.0, 1.0, 5.0];
    let moved = vec![0.05, 1.05, 5.25];
    let s = initial_simplex(&base, &moved);
    assert_eq!(
        s,
        vec![
            vec![0.0, 1.0, 5.0],
            vec![0.05, 1.0, 5.0],
            vec![0.0, 1.05, 5.0],
            vec![0.0, 1.0, 5.25],
        ]
    );
}

#[test]
fn simplex_of_an_empty_point_is_the_point() {
    let base: Vec<i32> = Vec::new();
    assert_eq!(initial_simplex(&base, &base), vec![Vec::<i32>::new()]);
}

fn names(list: &[&str]) -> Vec<String> {
    list.iter().map(|s| s.to_string()).collect()
}

#[test]
fn choose_columns_never_picks_the_date() {
    let all = names(&["Date", "AAPL", "MSFT", "GOOG", "AMZN", "META"]);
    let date = "Date".to_string();
    for _ in 0..20 {
        let picked = choose_columns(&all, &date, 3);
        assert_eq!(picked.len(), 3);
        for name in &picked {
            assert_ne!(name, "Date");
            assert!(all.contains(name));
        }
        for a in 0..picked.len() {
            for b in a + 1..picked.len() {
                assert_ne!(picked[a], picked[b]);
            }
        }
    }
}

#[test]
fn choose_columns_takes_all_candidates_when_too_few() {
    let all = names(&["AAPL", "Date", "MSFT"]);
    let date = "Date".to_string();
    let mut picked = choose_columns(&all, &date, 10);
    picked.sort();
    assert_eq!(picked, names(&["AAPL", "MSFT"]));
}

#[test]
fn choose_columns_of_no_candidates_is_empty() {
    let date = "Date".to_string();
    assert!(choose_columns(&names(&["Date"]), &date, 10).is_empty());
    assert!(choose_columns(&names(&["A", "B"]), &date, 0).is_empty());
}

#[test]
fn pack_of_dimension_zero_is_only_the_dof() {
    let p: StudentTParams<u8> = StudentTParams { location: Vec::new(), scale: Vec::new(), dof: 9 };
    assert_eq!(pack_params(&p), vec![9]);
}
