use yummy::lightgbm_model::{InputError, LightgbmModel};

fn names(list: &[&str]) -> Vec<String> {
    list.iter().map(|s| s.to_string()).collect()
}

fn wine_model() -> LightgbmModel {
    let feature_names = (0..13).map(|i| i.to_string()).collect();
    LightgbmModel::new(feature_names, 13)
}

#[test]
fn test_reorder() {
    let lgb_model = wine_model();

    let mut columns = Vec::new();

    columns.push("12".to_string());
    columns.push("1".to_string());
    columns.push("2".to_string());
    columns.push("3".to_string());
    columns.push("5".to_string());
    columns.push("6".to_string());
    columns.push("7".to_string());
    columns.push("8".to_string());
    columns.push("9".to_string());
    columns.push("4".to_string());
    columns.push("10".to_string());
    columns.push("11".to_string());
    columns.push("0".to_string());

    let mut data = Vec::new();
    let mut d1 = Vec::new();
    d1.push(-1.2);
    d1.push(-0.1);
    d1.push(-0.2);
    d1.push(-0.3);
    d1.push(-0.4);
    d1.push(-0.5);
    d1.push(-0.6);
    d1.push(-0.7);
    d1.push(-0.8);
    d1.push(-0.9);
    d1.push(-1.0);
    d1.push(-1.1);
    d1.push(-0.0);
    data.push(d1.clone());
    data.push(d1.clone());

    let d2 = lgb_model.reorder_all(columns, data);
    println!("{:?}", d2);

    let expected: Vec<f64> =
        vec![-0.0, -0.1, -0.2, -0.3, -0.9, -0.4, -0.5, -0.6, -0.7, -0.8, -1.0, -1.1, -1.2];
    assert_eq!(d2, vec![expected.clone(), expected]);
}

#[test]
fn find_swap_gives_the_first_misplaced_column_and_its_place() {
    let model = LightgbmModel::new(names(&["a", "b", "c", "d"]), 4);
    assert_eq!(model.find_swap(&names(&["a", "b", "c", "d"])), None);
    assert_eq!(model.find_swap(&names(&["a", "d", "c", "b"])), Some((1, 3)));
    assert_eq!(model.find_swap(&names(&["c", "a", "b", "d"])), Some((0, 2)));
    assert_eq!(model.find_swap(&names(&[])), None);
    // "x" is no feature, and "a" stands behind its place: neither can move.
    assert_eq!(model.find_swap(&names(&["x", "a"])), None);
    // Only as many features as there are columns are looked at.
    assert_eq!(model.find_swap(&names(&["x", "c"])), None);
    assert_eq!(model.find_swap(&names(&["x", "c", "b"])), Some((1, 2)));
}

#[test]
fn reorder_follows_the_feature_names() {
    let model = LightgbmModel::new(names(&["a", "b", "c", "d"]), 4);
    assert_eq!(model.reorder(names(&["d", "c", "b", "a"]), vec![4, 3, 2, 1]), vec![1, 2, 3, 4]);
    assert_eq!(model.reorder(names(&["b", "c", "d", "a"]), vec![2, 3, 4, 1]), vec![1, 2, 3, 4]);
    assert_eq!(model.reorder(names(&["a", "b", "c", "d"]), vec![1, 2, 3, 4]), vec![1, 2, 3, 4]);
    assert_eq!(model.reorder(names(&[]), Vec::<u8>::new()), Vec::<u8>::new());
}

#[test]
fn reorder_leaves_unknown_columns_where_they_end_up() {
    let model = LightgbmModel::new(names(&["a", "b", "c"]), 3);
    // "b" moves to its place and "x" takes the place that "b" left.
    assert_eq!(model.reorder(names(&["b", "x", "c"]), vec![2, 9, 3]), vec![9, 2, 3]);
    // Fewer columns than features: "c" has no place among the first two.
    assert_eq!(model.reorder(names(&["c", "a"]), vec![3, 1]), vec![3, 1]);
    assert_eq!(model.reorder(names(&["b", "a"]), vec![2, 1]), vec![1, 2]);
}

#[test]
fn reorder_all_handles_each_row_alike() {
    let model = LightgbmModel::new(names(&["a", "b"]), 2);
    let rows = vec![vec!['y', 'x'], vec!['q', 'p'], vec!['1', '0']];
    assert_eq!(
        model.reorder_all(names(&["b", "a"]), rows),
        vec![vec!['x', 'y'], vec!['p', 'q'], vec!['0', '1']]
    );
    assert_eq!(model.reorder_all(names(&["b", "a"]), Vec::<Vec<i8>>::new()), Vec::<Vec<i8>>::new());
}

#[test]
fn validate_checks_the_first_row() {
    let model = LightgbmModel::new(names(&["a", "b"]), 2);
    assert_eq!(model.validate(&Vec::<Vec<f64>>::new()), Err(InputError::NoRows));
    assert_eq!(model.validate(&vec![vec![1.0]]), Err(InputError::WrongWidth { required: 2 }));
    assert_eq!(model.validate(&vec![vec![1.0, 2.0, 3.0]]), Err(InputError::WrongWidth { required: 2 }));
    assert_eq!(model.validate(&vec![vec![1.0, 2.0]]), Ok(()));
    assert_eq!(model.validate(&vec![vec![1.0, 2.0], vec![3.0]]), Ok(()));
    let odd = LightgbmModel::new(vec![], -1);
    assert_eq!(odd.validate(&vec![Vec::<f64>::new()]), Err(InputError::WrongWidth { required: -1 }));
    let none = LightgbmModel::new(vec![], 0);
    assert_eq!(none.validate(&vec![Vec::<f64>::new()]), Ok(()));
}

#[test]
fn predictions_are_laid_out_by_row() {
    // One list with a value per row: each value becomes a row.
    assert_eq!(
        LightgbmModel::arrange_predictions(&vec![vec![0.25, 0.75]], 2),
        vec![vec![0.25], vec![0.75]]
    );
    // One list per row already.
    assert_eq!(
        LightgbmModel::arrange_predictions(&vec![vec![0.1, 0.2, 0.7], vec![0.3, 0.3, 0.4]], 2),
        vec![vec![0.1, 0.2, 0.7], vec![0.3, 0.3, 0.4]]
    );
    assert_eq!(
        LightgbmModel::arrange_predictions(&vec![vec![1, 2], vec![3, 4]], 2),
        vec![vec![1], vec![2]]
    );
    assert_eq!(
        LightgbmModel::arrange_predictions(&vec![Vec::<i32>::new()], 0),
        Vec::<Vec<i32>>::new()
    );
}

#[test]
fn can_reorder_wants_distinct_columns_within_the_features() {
    let model = LightgbmModel::new(names(&["a", "b", "c"]), 3);
    assert!(model.can_reorder(&names(&["c", "a", "b"])));
    assert!(model.can_reorder(&names(&["x", "y"])));
    assert!(model.can_reorder(&names(&[])));
    assert!(!model.can_reorder(&names(&["a", "b", "a"])));
    assert!(!model.can_reorder(&names(&["b", "b"])));
    assert!(!model.can_reorder(&names(&["a", "b", "c", "d"])));
}
