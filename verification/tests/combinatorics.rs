use ralgeb::combinatorics;

#[test]
fn fact() {
    let f = combinatorics::fact(3);
    assert_eq!(6, f);
}

#[test]
fn permutation() {
    let ways = combinatorics::permutation(3, 2);
    assert_eq!(ways, 6);
}

#[test]
fn combinations() {
    let combi = combinatorics::combinations(4, 3);
    assert_eq!(combi, 4);
}

#[test]
fn fact_of_zero_and_one_is_one() {
    assert_eq!(combinatorics::fact(0), 1);
    assert_eq!(combinatorics::fact(1), 1);
}

#[test]
fn fact_values() {
    assert_eq!(combinatorics::fact(2), 2);
    assert_eq!(combinatorics::fact(5), 120);
    assert_eq!(combinatorics::fact(10), 3628800);
    assert_eq!(combinatorics::fact(12), 479001600);
}

#[test]
fn permutation_values() {
    assert_eq!(combinatorics::permutation(4, 3), 24);
    assert_eq!(combinatorics::permutation(5, 2), 20);
    assert_eq!(combinatorics::permutation(5, 0), 1);
    assert_eq!(combinatorics::permutation(10, 9), 3628800);
}

#[test]
fn permutation_without_room_is_one() {
    assert_eq!(combinatorics::permutation(3, 3), 1);
    assert_eq!(combinatorics::permutation(2, 5), 1);
    assert_eq!(combinatorics::permutation(0, 0), 1);
    assert_eq!(combinatorics::permutation(0, 100), 1);
}

#[test]
fn combinations_values() {
    assert_eq!(combinatorics::combinations(5, 2), 10);
    assert_eq!(combinatorics::combinations(6, 3), 20);
    assert_eq!(combinatorics::combinations(7, 0), 1);
    assert_eq!(combinatorics::combinations(12, 6), 924);
}

#[test]
fn combinations_without_room_is_one() {
    assert_eq!(combinatorics::combinations(4, 4), 1);
    assert_eq!(combinatorics::combinations(2, 9), 1);
    assert_eq!(combinatorics::combinations(0, 0), 1);
}
