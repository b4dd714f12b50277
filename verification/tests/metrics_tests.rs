use neunet::metrics::{confusion_matrix, evaluate};
use neunet::ratio::Ratio;

#[test]
fn confusion_matrix_cells_and_total() {
    let actual: Vec<usize> = vec![0, 1, 2, 0, 1, 0];
    let predicted: Vec<usize> = vec![0, 1, 1, 0, 2, 2];
    let cm = confusion_matrix(&actual, &predicted, 3);
    assert_eq!(cm.len(), 9);
    // row = true class, column = predicted class
    assert_eq!(cm[0 * 3 + 0], 2);
    assert_eq!(cm[0 * 3 + 1], 0);
    assert_eq!(cm[0 * 3 + 2], 1);
    assert_eq!(cm[1 * 3 + 0], 0);
    assert_eq!(cm[1 * 3 + 1], 1);
    assert_eq!(cm[1 * 3 + 2], 1);
    assert_eq!(cm[2 * 3 + 0], 0);
    assert_eq!(cm[2 * 3 + 1], 1);
    assert_eq!(cm[2 * 3 + 2], 0);
    let total: usize = cm.iter().sum();
    assert_eq!(total, 6);
}

#[test]
fn confusion_matrix_sums_to_example_count() {
    let actual: Vec<usize> = vec![3, 1, 0, 2, 2, 1, 3, 0, 0];
    let predicted: Vec<usize> = vec![0, 1, 2, 2, 3, 1, 3, 0, 1];
    let cm = confusion_matrix(&actual, &predicted, 4);
    let total: usize = cm.iter().sum();
    assert_eq!(total, 9);
}

#[test]
fn evaluate_overall_accuracy_is_trace_over_total() {
    let actual: Vec<usize> = vec![0, 1, 2, 0, 1, 0];
    let predicted: Vec<usize> = vec![0, 1, 1, 0, 2, 2];
    let ev = evaluate(&actual, &predicted, 3);
    assert_eq!(ev.confusion_matrix_dim, 3);
    // matches: examples 0, 1 and 3
    assert_eq!(ev.accuracy, Ratio { num: 3, den: 6 });
    // the numerator is exactly the trace of the confusion matrix
    let trace: usize = (0..3).map(|t| ev.confusion_matrix[t * 3 + t]).sum();
    assert_eq!(trace as i64, ev.accuracy.num);
}

#[test]
fn evaluate_per_class_accuracies() {
    let actual: Vec<usize> = vec![0, 1, 2, 0, 1, 0];
    let predicted: Vec<usize> = vec![0, 1, 1, 0, 2, 2];
    let ev = evaluate(&actual, &predicted, 3);
    // class 0: 3 occurrences, 2 predicted right
    assert_eq!(ev.labels_accuracies[0], Ratio { num: 2, den: 3 });
    // class 1: 2 occurrences, 1 predicted right
    assert_eq!(ev.labels_accuracies[1], Ratio { num: 1, den: 2 });
    // class 2: 1 occurrence, 0 predicted right
    assert_eq!(ev.labels_accuracies[2], Ratio { num: 0, den: 1 });
}

#[test]
fn per_class_accuracy_of_absent_class_is_zero() {
    let actual: Vec<usize> = vec![0, 0];
    let predicted: Vec<usize> = vec![0, 1];
    let ev = evaluate(&actual, &predicted, 3);
    // classes 1 and 2 never occur among the true labels: accuracy is an
    // exact, well-formed zero, not a division failure
    assert_eq!(ev.labels_accuracies[1], Ratio { num: 0, den: 1 });
    assert_eq!(ev.labels_accuracies[2], Ratio { num: 0, den: 1 });
    assert_eq!(ev.labels_accuracies[0], Ratio { num: 1, den: 2 });
    assert!(ev.labels_accuracies.iter().all(|a| a.den > 0));
}

#[test]
fn evaluate_single_example() {
    let actual: Vec<usize> = vec![1];
    let predicted: Vec<usize> = vec![1];
    let ev = evaluate(&actual, &predicted, 2);
    assert_eq!(ev.accuracy, Ratio { num: 1, den: 1 });
    assert_eq!(ev.confusion_matrix, vec![0, 0, 0, 1]);
}
