use stream_core::array::{
    ArrayError, ArrayImpl, PrimitiveArray, PrimitiveArrayBuilder, PrimitiveArrayItemType,
};

fn helper_test_builder<T: PrimitiveArrayItemType>(
    data: Vec<Option<T>>,
) -> Result<PrimitiveArray<T>, ArrayError> {
    let mut builder = PrimitiveArrayBuilder::<T>::new(data.len())?;
    for d in data {
        builder.append(d)?;
    }
    builder.finish()
}

#[test]
fn test_i16_builder() {
    let arr = helper_test_builder::<i16>(
        (0..1000)
            .map(|x| if x % 2 == 0 { None } else { Some(x) })
            .collect(),
    )
    .unwrap();
    if !matches!(ArrayImpl::from(arr), ArrayImpl::Int16(_)) {
        unreachable!()
    }
}

#[test]
fn test_i32_builder() {
    let arr = helper_test_builder::<i32>(
        (0..1000)
            .map(|x| if x % 2 == 0 { None } else { Some(x) })
            .collect(),
    )
    .unwrap();
    if !matches!(ArrayImpl::from(arr), ArrayImpl::Int32(_)) {
        unreachable!()
    }
}

#[test]
fn test_i64_builder() {
    let arr = helper_test_builder::<i64>(
        (0..1000)
            .map(|x| if x % 2 == 0 { None } else { Some(x) })
            .collect(),
    )
    .unwrap();
    if !matches!(ArrayImpl::from(arr), ArrayImpl::Int64(_)) {
        unreachable!()
    }
}

#[test]
fn builder_keeps_values_and_nulls() {
    let arr = helper_test_builder::<i32>(vec![Some(5), None, Some(-7)]).unwrap();
    assert_eq!(arr.len(), 3);
    assert_eq!(arr.value_at(0), Some(5));
    assert_eq!(arr.value_at(1), None);
    assert!(arr.is_null(1));
    assert!(!arr.is_null(2));
    assert_eq!(arr.value_at(2), Some(-7));
}

#[test]
fn from_slice_matches_input() {
    let data = [Some(1i64), None, Some(3)];
    let arr = PrimitiveArray::from_slice(&data).unwrap();
    assert_eq!(arr.len(), 3);
    assert_eq!(arr.value_at(0), Some(1));
    assert_eq!(arr.value_at(1), None);
    assert_eq!(arr.value_at(2), Some(3));
}

#[test]
fn empty_array() {
    let arr = PrimitiveArray::<i16>::from_slice(&[]).unwrap();
    assert_eq!(arr.len(), 0);
    assert_eq!(ArrayImpl::from(arr).len(), 0);
}

#[test]
fn append_array_concatenates() {
    let first = PrimitiveArray::from_slice(&[Some(1i16), None]).unwrap();
    let mut builder = PrimitiveArrayBuilder::<i16>::new(0).unwrap();
    builder.append(Some(9)).unwrap();
    builder.append_array(&first).unwrap();
    let arr = builder.finish().unwrap();
    assert_eq!(arr.len(), 3);
    assert_eq!(arr.value_at(0), Some(9));
    assert_eq!(arr.value_at(1), Some(1));
    assert_eq!(arr.value_at(2), None);
}

#[test]
fn erased_array_keeps_length() {
    let arr = PrimitiveArray::from_slice(&[Some(4i32), Some(5), None, None]).unwrap();
    let erased = i32::erase_array_type(arr);
    assert!(matches!(erased, ArrayImpl::Int32(_)));
    assert_eq!(erased.len(), 4);
}
