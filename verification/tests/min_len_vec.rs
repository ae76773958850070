use magics::min_len_vec::{MinLenVec, MinLenVecError, OneOrMore, TwoOrMore};

#[test]
fn test_min_len_vec() {
    assert!(matches!(
        MinLenVec::<_, 3>::new(vec![1, 2]),
        Err(MinLenVecError::NotEnoughElements { min: 3, actual: 2 })
    ));

    assert!(matches!(MinLenVec::<_, 3>::new(vec![1, 2, 3]), Ok(_)));

    assert!(matches!(MinLenVec::<_, 1>::new(vec![1.0]), Ok(_)));
    assert!(matches!(
        MinLenVec::<i32, 1>::new(vec![]),
        Err(MinLenVecError::NotEnoughElements { min: 1, actual: 0 })
    ));
}

#[test]
fn test_min_len_vec_push() {
    let mut v = MinLenVec::<_, 3>::new(vec![1, 2, 3]).unwrap();
    assert_eq!(v.len(), 3);
    v.push(4);
    assert_eq!(v.len(), 4);
    v.push(5);
    assert_eq!(v.len(), 5);
}

#[test]
fn test_min_len_vec_pop() {
    let mut v = MinLenVec::<_, 3>::new(vec![1, 2, 3, 4, 5]).unwrap();
    assert_eq!(v.len(), 5);
    assert_eq!(v.pop(), Ok(5));
    assert_eq!(v.len(), 4);
    assert_eq!(v.pop(), Ok(4));
    assert_eq!(v.len(), 3);
    assert_eq!(
        v.pop(),
        Err(MinLenVecError::NotEnoughElements { min: 3, actual: 3 })
    );
    assert_eq!(v.len(), 3);
    assert_eq!(
        v.pop(),
        Err(MinLenVecError::NotEnoughElements { min: 3, actual: 3 })
    );
    assert_eq!(v.len(), 3);
}

#[test]
fn test_min_len_vec_index() {
    let v = MinLenVec::<_, 3>::new(vec![1, 2, 3]).unwrap();
    assert_eq!(v[0], 1);
    assert_eq!(v[1], 2);
    assert_eq!(v[2], 3);
}

#[test]
fn test_min_len_vec_into_inner() {
    let v = MinLenVec::<_, 3>::new(vec![1, 2, 3]).unwrap();
    let inner = v.into_inner();
    assert_eq!(inner, vec![1, 2, 3]);
}

#[test]
fn test_min_len_vec_from() {
    let v = MinLenVec::<_, 3>::from([1, 2, 3]);
    assert_eq!(v.len(), 3);
    assert_eq!(v[0], 1);
    assert_eq!(v[1], 2);
    assert_eq!(v[2], 3);
}

#[test]
fn test_first() {
    let v = MinLenVec::<_, 3>::new(vec![1, 2, 3]).unwrap();
    assert_eq!(v.first(), &1);
}

#[test]
fn test_last() {
    let v = MinLenVec::<_, 4>::new(vec![1, 2, 3, 4]).unwrap();
    assert_eq!(v.last(), &4);
}

#[test]
fn test_one_or_more_macro() {
    let v = OneOrMore::new(vec!["one"]).expect("a vector of length 1 or more provided");
    assert_eq!(v.into_inner(), vec!["one"]);

    let v = OneOrMore::new(vec![1, 2, 3]).expect("a vector of length 1 or more provided");
    assert_eq!(v.into_inner(), vec![1, 2, 3]);
}

#[test]
fn test_two_or_more_macro() {
    let v = TwoOrMore::new(vec!["one", "two"]).expect("a vector of length 2 or more provided");
    assert_eq!(v.into_inner(), vec!["one", "two"]);

    let v = TwoOrMore::new(vec![1, 2, 3]).expect("a vector of length 2 or more provided");
    assert_eq!(v.into_inner(), vec![1, 2, 3]);
}

#[test]
fn test_try_into() {
    let v = vec![1, 2];
    let mlv: MinLenVec<_, 2> = TryFrom::try_from(v).unwrap();

    assert_eq!(mlv.len(), 2);
    assert_eq!(mlv[0], 1);
    assert_eq!(mlv[1], 2);

    let v = vec![1];
    assert!(matches!(
        MinLenVec::<_, 2>::try_from(v),
        Err(MinLenVecError::NotEnoughElements { min: 2, actual: 1 })
    ));
}
