use learn_rust::sort::quicksort;

fn sorted_copy(input: &[usize]) -> Vec<usize> {
    let mut v = input.to_vec();
    quicksort(&mut v);
    v
}

fn is_ascending(v: &[usize]) -> bool {
    v.windows(2).all(|pair| pair[0] <= pair[1])
}

fn occurrences(v: &[usize], x: usize) -> usize {
    v.iter().filter(|&&y| y == x).count()
}

fn scrambled(len: usize, modulus: usize) -> Vec<usize> {
    let mut state: u64 = 0x2545_f491_4f6c_dd1d;
    let mut v = Vec::with_capacity(len);
    for _ in 0..len {
        state = state.wrapping_mul(6364136223846793005).wrapping_add(1442695040888963407);
        v.push(((state >> 33) as usize) % modulus);
    }
    v
}

#[test]
fn sorts_a_mixed_sequence() {
    assert_eq!(sorted_copy(&[5, 3, 8, 1, 9, 2]), vec![1, 2, 3, 5, 8, 9]);
}

#[test]
fn keeps_a_sorted_sequence() {
    assert_eq!(sorted_copy(&[1, 2, 3, 4, 5]), vec![1, 2, 3, 4, 5]);
}

#[test]
fn sorts_a_reversed_sequence() {
    assert_eq!(sorted_copy(&[5, 4, 3, 2, 1]), vec![1, 2, 3, 4, 5]);
}

#[test]
fn keeps_the_empty_sequence() {
    assert_eq!(sorted_copy(&[]), Vec::<usize>::new());
}

#[test]
fn keeps_a_single_element() {
    assert_eq!(sorted_copy(&[7]), vec![7]);
}

#[test]
fn keeps_equal_elements() {
    assert_eq!(sorted_copy(&[2, 2, 2, 2]), vec![2, 2, 2, 2]);
}

#[test]
fn sorts_two_elements_either_way() {
    assert_eq!(sorted_copy(&[1, 2]), vec![1, 2]);
    assert_eq!(sorted_copy(&[2, 1]), vec![1, 2]);
}

#[test]
fn sorts_with_the_smallest_element_last() {
    // The pivot is the smallest element: the split falls on the first
    // position and the right part is as long as the whole range.
    assert_eq!(sorted_copy(&[4, 3, 2, 0]), vec![0, 2, 3, 4]);
    assert_eq!(sorted_copy(&[9, 9, 9, 1]), vec![1, 9, 9, 9]);
}

#[test]
fn sorts_repeated_elements() {
    assert_eq!(sorted_copy(&[3, 1, 3, 2, 1, 2, 3]), vec![1, 1, 2, 2, 3, 3, 3]);
}

#[test]
fn sorts_the_largest_values() {
    assert_eq!(
        sorted_copy(&[usize::MAX, 0, usize::MAX - 1, 1]),
        vec![0, 1, usize::MAX - 1, usize::MAX]
    );
}

#[test]
fn a_long_sequence_comes_out_ascending() {
    let input = scrambled(2000, 1_000_000);
    let output = sorted_copy(&input);
    assert!(is_ascending(&output));
}

#[test]
fn a_long_sequence_keeps_its_elements() {
    let input = scrambled(500, 40);
    let output = sorted_copy(&input);
    assert_eq!(output.len(), input.len());
    for x in 0..40 {
        assert_eq!(occurrences(&output, x), occurrences(&input, x));
    }
}

#[test]
fn sorting_twice_is_sorting_once() {
    let once = sorted_copy(&scrambled(300, 1000));
    let twice = sorted_copy(&once);
    assert_eq!(twice, once);
}

#[test]
fn agrees_with_the_standard_sort() {
    let input = scrambled(1000, 250);
    let mut expected = input.clone();
    expected.sort();
    assert_eq!(sorted_copy(&input), expected);
}

#[test]
fn sorts_long_runs_in_order_and_in_reverse() {
    let ascending: Vec<usize> = (0..600).collect();
    let descending: Vec<usize> = (0..600).rev().collect();
    assert_eq!(sorted_copy(&ascending), ascending);
    assert_eq!(sorted_copy(&descending), ascending);
}
