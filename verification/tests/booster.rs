use lgbm::booster::PredictionShape;
use lgbm::Error;

#[test]
fn from_num_predict_divides_evenly() {
    let shape = PredictionShape::from_num_predict(125 * 3 * 10, 125, 3).unwrap();
    assert_eq!(shape.num_data(), 125);
    assert_eq!(shape.num_class(), 3);
    assert_eq!(shape.num_iteration(), 10);
    assert_eq!(shape.num_feature(), 9);
    assert_eq!(shape.len(), 3750);
}

#[test]
fn from_num_predict_of_one_value_each() {
    let shape = PredictionShape::from_num_predict(128, 128, 1).unwrap();
    assert_eq!(shape.num_iteration(), 1);
    assert_eq!(shape.len(), 128);
    assert_eq!(shape.offset(5, 0, 0), Some(5));
    assert_eq!(shape.offset(128, 0, 0), Some(128));
}

#[test]
fn from_num_predict_rejects_what_does_not_divide() {
    assert_eq!(PredictionShape::from_num_predict(7, 2, 3).err(), Some(Error::InvalidNumData));
    assert_eq!(PredictionShape::from_num_predict(5, 3, 2).err(), Some(Error::InvalidNumData));
    assert_eq!(PredictionShape::from_num_predict(1, 1, 2).err(), Some(Error::InvalidNumData));
}

#[test]
fn from_num_predict_without_rows_or_classes_is_empty() {
    let shape = PredictionShape::from_num_predict(0, 0, 3).unwrap();
    assert_eq!(shape.num_data(), 0);
    assert_eq!(shape.num_class(), 3);
    assert_eq!(shape.num_iteration(), 1);
    assert_eq!(shape.len(), 0);
    let shape = PredictionShape::from_num_predict(9, 4, 0).unwrap();
    assert_eq!(shape.num_iteration(), 1);
    assert_eq!(shape.len(), 0);
}

#[test]
fn from_num_predict_of_nothing_has_no_value_each() {
    let shape = PredictionShape::from_num_predict(0, 4, 2).unwrap();
    assert_eq!(shape.num_iteration(), 0);
    assert_eq!(shape.len(), 0);
}

#[test]
fn offset_runs_by_row_then_class_then_iteration() {
    let shape = PredictionShape::from_num_predict(2 * 3 * 4, 2, 3).unwrap();
    assert_eq!(shape.offset(0, 0, 0), Some(0));
    assert_eq!(shape.offset(0, 0, 3), Some(3));
    assert_eq!(shape.offset(0, 1, 0), Some(4));
    assert_eq!(shape.offset(1, 0, 0), Some(12));
    assert_eq!(shape.offset(1, 2, 3), Some(23));
    let mut seen = vec![false; shape.len()];
    for data in 0..2 {
        for class in 0..3 {
            for iteration in 0..4 {
                let index = shape.offset(data, class, iteration).unwrap();
                assert!(!seen[index]);
                seen[index] = true;
            }
        }
    }
    assert!(seen.iter().all(|&s| s));
}

#[test]
fn offset_is_none_where_usize_cannot_hold_it() {
    let shape = PredictionShape::from_num_predict(2 * 3 * 4, 2, 3).unwrap();
    assert_eq!(shape.offset(usize::MAX, 0, 0), None);
    assert_eq!(shape.offset(0, usize::MAX, 0), None);
    assert_eq!(shape.offset(1, 2, usize::MAX), None);
    assert_eq!(shape.offset(usize::MAX, usize::MAX, usize::MAX), None);
    assert_eq!(shape.offset(0, 0, usize::MAX), Some(usize::MAX));
}

#[test]
fn offset_follows_the_formula_outside_the_prediction() {
    let shape = PredictionShape::from_num_predict(2 * 3 * 4, 2, 3).unwrap();
    assert_eq!(shape.offset(2, 0, 0), Some(24));
    assert_eq!(shape.offset(0, 3, 0), Some(12));
    assert_eq!(shape.offset(0, 0, 4), Some(4));
    let none = PredictionShape::from_num_predict(0, 4, 2).unwrap();
    assert_eq!(none.num_iteration(), 0);
    assert_eq!(none.offset(usize::MAX, 1, 7), Some(7));
}

#[test]
fn new_takes_what_fits() {
    let shape = PredictionShape::new(2, 3, 4).unwrap();
    assert_eq!(shape.num_data(), 2);
    assert_eq!(shape.num_class(), 3);
    assert_eq!(shape.num_iteration(), 4);
    assert_eq!(shape.len(), 24);
    assert_eq!(PredictionShape::new(usize::MAX, 1, 1).map(|s| s.len()), Some(usize::MAX));
    assert_eq!(PredictionShape::new(usize::MAX, 2, 0), None);
    assert_eq!(PredictionShape::new(usize::MAX, 1, 2), None);
    assert_eq!(PredictionShape::new(0, usize::MAX, usize::MAX).map(|s| s.len()), Some(0));
}

#[test]
fn a_prediction_of_contributions_has_a_value_for_each_feature_and_one_more() {
    let num_row = 10;
    let num_class = 3;
    let num_feature = 2;
    let shape =
        PredictionShape::from_num_predict(num_class * num_row * (num_feature + 1), num_row, num_class)
            .unwrap();
    assert_eq!(shape.num_data(), num_row);
    assert_eq!(shape.num_class(), num_class);
    assert_eq!(shape.num_feature(), num_feature);
    assert_eq!(shape.len(), 90);
}
