use walk_scaling::sequence::arithm_in_range;
use walk_scaling::sequence::gen_arithm;

#[test]
fn arithmetic_sweep_of_five() {
    assert_eq!(gen_arithm(20, 5, 5), vec![20, 25, 30, 35, 40]);
}

#[test]
fn arithmetic_sweep_has_count_terms() {
    assert_eq!(gen_arithm(1, 1, 100).len(), 100);
    assert_eq!(gen_arithm(7, 0, 3).len(), 3);
    assert_eq!(gen_arithm(7, -2, 1).len(), 1);
}

#[test]
fn arithmetic_sweep_adjacent_terms_differ_by_step() {
    for (init, step, num) in [(20, 5, 5), (-3, 7, 12), (100, -9, 30), (4, 0, 6)] {
        let v = gen_arithm(init, step, num);
        assert_eq!(v.len(), num as usize);
        assert_eq!(v[0], init);
        for i in 0..v.len() - 1 {
            assert_eq!(v[i + 1] - v[i], step);
        }
    }
}

#[test]
fn arithmetic_sweep_term_formula() {
    let v = gen_arithm(11, 13, 8);
    for (i, term) in v.iter().enumerate() {
        assert_eq!(*term, 11 + (i as i32) * 13);
    }
}

#[test]
fn arithmetic_sweep_with_non_positive_step() {
    assert_eq!(gen_arithm(10, -5, 4), vec![10, 5, 0, -5]);
    assert_eq!(gen_arithm(3, 0, 3), vec![3, 3, 3]);
}

#[test]
fn arithmetic_sweep_without_terms() {
    assert_eq!(gen_arithm(20, 5, 0), Vec::<i32>::new());
    assert_eq!(gen_arithm(20, 5, -4), Vec::<i32>::new());
}

#[test]
fn arithmetic_sweep_up_to_the_largest_value() {
    assert!(arithm_in_range(i32::MAX - 2, 1, 3));
    assert_eq!(gen_arithm(i32::MAX - 2, 1, 3), vec![i32::MAX - 2, i32::MAX - 1, i32::MAX]);
    assert!(arithm_in_range(i32::MIN, i32::MAX, 3));
    assert_eq!(gen_arithm(i32::MIN, i32::MAX, 3), vec![i32::MIN, -1, i32::MAX - 1]);
}

#[test]
fn arithmetic_range_check() {
    assert!(arithm_in_range(20, 5, 5));
    assert!(arithm_in_range(i32::MAX, 1, 1));
    assert!(!arithm_in_range(i32::MAX, 1, 2));
    assert!(!arithm_in_range(i32::MIN, -1, 2));
    assert!(arithm_in_range(i32::MIN, -1, 1));
    assert!(!arithm_in_range(0, i32::MAX, 3));
    assert!(arithm_in_range(0, i32::MAX, 2));
    assert!(arithm_in_range(5, 1000, 0));
    assert!(arithm_in_range(i32::MAX, i32::MAX, -1));
    assert!(arithm_in_range(0, 0, i32::MAX));
    assert!(arithm_in_range(1, 1, i32::MAX));
    assert!(!arithm_in_range(2, 1, i32::MAX));
}
