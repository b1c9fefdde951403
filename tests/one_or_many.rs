use ptypes::OneOrMany;

#[test]
fn test_one_or_many() {
    let mut one = OneOrMany::One(1);
    assert_eq!(one.len(), 1);
    assert_eq!(one.is_empty(), false);
    assert_eq!(one.contains(&1), true);
    assert_eq!(one.contains(&2), false);
    assert_eq!(one.first(), Some(&1));
    assert_eq!(one.to_single(), Some(&1));
    assert_eq!(one.to_single_mut(), Some(&mut 1));

    let mut many = OneOrMany::Many(vec![1, 2, 3]);
    assert_eq!(many.len(), 3);
    assert_eq!(many.is_empty(), false);
    assert_eq!(many.contains(&1), true);
    assert_eq!(many.contains(&2), true);
    assert_eq!(many.contains(&3), true);
    assert_eq!(many.contains(&4), false);
    assert_eq!(many.first(), Some(&1));
    assert_eq!(many.to_single(), None);
    assert_eq!(many.to_single_mut(), None);
}

#[test]
fn any_on_single_and_several() {
    let one = OneOrMany::One(5);
    assert!(one.any(|x: &i32| *x == 5));
    assert!(!one.any(|x: &i32| *x > 5));
    let many = OneOrMany::Many(vec![1, 2, 3]);
    assert!(many.any(|x: &i32| *x == 3));
    assert!(!many.any(|x: &i32| *x > 3));
    let empty: OneOrMany<i32> = OneOrMany::Many(vec![]);
    assert!(!empty.any(|_x: &i32| true));
}

#[test]
fn len_and_emptiness() {
    let empty: OneOrMany<i32> = OneOrMany::Many(vec![]);
    assert_eq!(empty.len(), 0);
    assert!(empty.is_empty());
    assert_eq!(empty.first(), None);
    let one_in_many = OneOrMany::Many(vec![7]);
    assert_eq!(one_in_many.len(), 1);
    assert!(!one_in_many.is_empty());
    assert!(!OneOrMany::One(0).is_empty());
}

#[test]
fn to_single_collapses_one_element() {
    let mut one_in_many = OneOrMany::Many(vec![7]);
    assert_eq!(one_in_many.to_single(), Some(&7));
    if let Some(x) = one_in_many.to_single_mut() {
        *x = 8;
    }
    assert_eq!(one_in_many, OneOrMany::Many(vec![8]));
    let mut one = OneOrMany::One(1);
    if let Some(x) = one.to_single_mut() {
        *x = 2;
    }
    assert_eq!(one, OneOrMany::One(2));
    let empty: OneOrMany<i32> = OneOrMany::Many(vec![]);
    assert_eq!(empty.to_single(), None);
    let two = OneOrMany::Many(vec![1, 2]);
    assert_eq!(two.to_single(), None);
}

#[test]
fn iteration_in_stored_order() {
    let many = OneOrMany::Many(vec![3, 1, 2]);
    assert_eq!(many.get(0), Some(&3));
    assert_eq!(many.get(2), Some(&2));
    assert_eq!(many.get(3), None);
    assert_eq!(many.into_vec(), vec![3, 1, 2]);
    let one = OneOrMany::One("a".to_string());
    assert_eq!(one.get(0), Some(&"a".to_string()));
    assert_eq!(one.get(1), None);
    assert_eq!(one.into_vec(), vec!["a".to_string()]);
}
