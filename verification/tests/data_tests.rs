use gilgamesh::data::{select_by_index, temporal_row, BatchIterator};

#[test]
fn batches_in_order_without_shuffle() {
    let mut it = BatchIterator::new(10, 3, false, true);
    assert!(it.is_train());
    assert_eq!(it.num_batches(), 4);
    assert_eq!(it.next_batch_indices(), Some(vec![0, 1, 2]));
    assert_eq!(it.next_batch_indices(), Some(vec![3, 4, 5]));
    assert_eq!(it.next_batch_indices(), Some(vec![6, 7, 8]));
    assert_eq!(it.next_batch_indices(), Some(vec![9]));
    assert_eq!(it.next_batch_indices(), None);
    assert_eq!(it.next_batch_indices(), None);
}

#[test]
fn exact_multiple_and_empty_splits() {
    let it = BatchIterator::new(12, 4, false, false);
    assert_eq!(it.num_batches(), 3);
    assert!(!it.is_train());
    let mut empty = BatchIterator::new(0, 5, true, true);
    assert_eq!(empty.num_batches(), 0);
    assert_eq!(empty.next_batch_indices(), None);
}

#[test]
fn batch_larger_than_split() {
    let mut it = BatchIterator::new(3, 128, false, true);
    assert_eq!(it.num_batches(), 1);
    assert_eq!(it.next_batch_indices(), Some(vec![0, 1, 2]));
    assert_eq!(it.next_batch_indices(), None);
}

#[test]
fn shuffled_epoch_visits_each_sample_once() {
    let n = 1000;
    let mut it = BatchIterator::new(n, 64, true, true);
    assert_eq!(it.num_batches(), 16);
    let mut all = Vec::new();
    let mut batches = 0;
    while let Some(b) = it.next_batch_indices() {
        assert!(!b.is_empty() && b.len() <= 64);
        all.extend(b);
        batches += 1;
    }
    assert_eq!(batches, 16);
    // a shuffle that handed the order back unchanged would fail here
    assert_ne!(all, (0..n).collect::<Vec<_>>());
    let mut sorted = all.clone();
    sorted.sort();
    assert_eq!(sorted, (0..n).collect::<Vec<_>>());
}

#[test]
fn labels_of_a_batch() {
    let labels = vec![7usize, 2, 1, 0, 4];
    assert_eq!(select_by_index(&labels, &vec![4, 0, 0, 2]), vec![4, 7, 7, 1]);
    assert_eq!(select_by_index(&labels, &vec![]), Vec::<usize>::new());
}

#[test]
fn temporal_row_presents_active_row() {
    let img: Vec<f32> = (0..9).map(|v| v as f32).collect();
    assert_eq!(temporal_row(&img, 3, 1, true, 0.0), vec![3.0, 4.0, 5.0]);
    assert_eq!(temporal_row(&img, 3, 1, false, 0.0), vec![0.0, 0.0, 0.0]);
    assert_eq!(temporal_row(&img, 3, 3, true, 0.0), vec![0.0, 0.0, 0.0]);
    let short: Vec<f32> = vec![1.0, 2.0, 3.0, 4.0, 5.0];
    assert_eq!(temporal_row(&short, 3, 1, true, -1.0), vec![4.0, 5.0, -1.0]);
}
