use gifstack::uniform::{get_all_same, tail};

#[test]
fn all_same_empty_input_fails() {
    let values: Vec<u16> = Vec::new();
    assert_eq!(get_all_same(&values), None);
}

#[test]
fn all_same_single_element_is_that_element() {
    let values: Vec<u16> = vec![7];
    assert_eq!(get_all_same(&values), Some(7));
}

#[test]
fn all_same_equal_elements_give_common_value() {
    let values: Vec<u16> = vec![42, 42, 42, 42];
    assert_eq!(get_all_same(&values), Some(42));
}

#[test]
fn all_same_divergent_pair_fails() {
    let values: Vec<u16> = vec![42, 42, 41, 42];
    assert_eq!(get_all_same(&values), None);
    let values: Vec<u16> = vec![1, 2];
    assert_eq!(get_all_same(&values), None);
}

#[test]
fn tail_drops_first_element() {
    let values: Vec<u16> = vec![10, 20, 30];
    assert_eq!(tail(values), vec![20, 30]);
}

#[test]
fn tail_of_empty_is_empty() {
    let values: Vec<u16> = Vec::new();
    assert_eq!(tail(values), Vec::<u16>::new());
}

#[test]
fn tail_of_single_element_is_empty() {
    let values: Vec<u16> = vec![10];
    assert_eq!(tail(values), Vec::<u16>::new());
}
