use raytracer::schedule::{flip_row, worker_rows};

#[test]
fn worker_rows_are_the_rows_with_matching_remainder() {
    assert_eq!(worker_rows(0, 3, 10), vec![0, 3, 6, 9]);
    assert_eq!(worker_rows(1, 3, 10), vec![1, 4, 7]);
    assert_eq!(worker_rows(2, 3, 10), vec![2, 5, 8]);
}

#[test]
fn worker_rows_cover_every_row_exactly_once() {
    let height = 23;
    let count = 4;
    let mut seen = vec![0u32; height as usize];
    for worker in 0..count {
        for y in worker_rows(worker, count, height) {
            seen[y as usize] += 1;
        }
    }
    assert!(seen.iter().all(|&n| n == 1));
}

#[test]
fn single_worker_owns_every_row() {
    let rows = worker_rows(0, 1, 5);
    assert_eq!(rows, vec![0, 1, 2, 3, 4]);
}

#[test]
fn workers_beyond_the_row_count_get_an_empty_stripe() {
    assert_eq!(worker_rows(0, 8, 3), vec![0]);
    assert_eq!(worker_rows(2, 8, 3), vec![2]);
    assert_eq!(worker_rows(5, 8, 3), Vec::<u32>::new());
}

#[test]
fn flip_row_mirrors_the_image_vertically() {
    assert_eq!(flip_row(0, 480), 479);
    assert_eq!(flip_row(479, 480), 0);
    assert_eq!(flip_row(2, 480), 477);
}

#[test]
fn flip_row_twice_is_the_identity() {
    for y in 0..7 {
        assert_eq!(flip_row(flip_row(y, 7), 7), y);
    }
}
