use std::cell::Cell;

use algebra::capability::{Addition, Constructible};
use algebra::error::AlgebraError;
use algebra::sint4::{SInt4, SInt4Algebra};
use algebra::storage::{IndexedDataSource, VecSource};
use algebra::transform::transform_list;

fn source_of(vals: &[i8]) -> VecSource<SInt4> {
    VecSource::new(vals.iter().map(|v| SInt4 { val: *v }).collect())
}

fn values_of(src: VecSource<SInt4>) -> Vec<i8> {
    src.into_vec().iter().map(|c| c.val).collect()
}

#[test]
fn get_out_of_range_is_an_index_error_and_leaves_holder() {
    let src = source_of(&[1, 2, 3]);
    let mut holder = SInt4 { val: -4 };
    assert_eq!(src.get(5, &mut holder), Err(AlgebraError::Index));
    assert_eq!(holder.val, -4);
    assert_eq!(src.get(3, &mut holder), Err(AlgebraError::Index));
    assert_eq!(holder.val, -4);
    assert_eq!(src.get(u64::MAX, &mut holder), Err(AlgebraError::Index));
    assert_eq!(holder.val, -4);
}

#[test]
fn get_in_range_overwrites_holder() {
    let src = source_of(&[1, 2, 3]);
    assert_eq!(src.size(), 3);
    let mut holder = SInt4 { val: -4 };
    for (i, want) in [1i8, 2, 3].iter().enumerate() {
        assert_eq!(src.get(i as u64, &mut holder), Ok(()));
        assert_eq!(holder.val, *want);
    }
}

#[test]
fn set_copies_value_and_keeps_the_rest() {
    let mut src = source_of(&[1, 2, 3]);
    let value = SInt4 { val: 7 };
    assert_eq!(src.set(1, &value), Ok(()));
    assert_eq!(value.val, 7);
    assert_eq!(src.size(), 3);
    assert_eq!(values_of(src), vec![1, 7, 3]);
}

#[test]
fn set_out_of_range_is_an_index_error_and_leaves_storage() {
    let mut src = source_of(&[1, 2, 3]);
    assert_eq!(src.set(3, &SInt4 { val: 7 }), Err(AlgebraError::Index));
    assert_eq!(src.set(5, &SInt4 { val: 7 }), Err(AlgebraError::Index));
    assert_eq!(src.size(), 3);
    assert_eq!(values_of(src), vec![1, 2, 3]);
}

#[test]
fn empty_source_has_no_valid_index() {
    let mut src = source_of(&[]);
    assert_eq!(src.size(), 0);
    let mut holder = SInt4 { val: 2 };
    assert_eq!(src.get(0, &mut holder), Err(AlgebraError::Index));
    assert_eq!(holder.val, 2);
    assert_eq!(src.set(0, &holder), Err(AlgebraError::Index));
}

#[test]
fn transform_list_over_empty_storage_calls_nothing() {
    let alg = SInt4Algebra {};
    let calls = Cell::new(0u32);
    let mut src = source_of(&[]);
    let r = transform_list(
        &alg,
        &|x: SInt4| {
            calls.set(calls.get() + 1);
            x
        },
        &mut src,
    );
    assert_eq!(r, Ok(()));
    assert_eq!(calls.get(), 0);
    assert_eq!(src.size(), 0);
    assert_eq!(values_of(src), Vec::<i8>::new());
}

#[test]
fn transform_list_doubles_one_two_three() {
    let alg = SInt4Algebra {};
    let calls = Cell::new(0u32);
    let mut src = source_of(&[1, 2, 3]);
    let r = transform_list(
        &alg,
        &|x: SInt4| {
            calls.set(calls.get() + 1);
            let mut y = x;
            alg.double(&mut y).unwrap();
            y
        },
        &mut src,
    );
    assert_eq!(r, Ok(()));
    assert_eq!(calls.get(), 3);
    assert_eq!(values_of(src), vec![2, 4, 6]);
}

#[test]
fn transform_list_reaches_the_last_element() {
    let alg = SInt4Algebra {};
    let mut single = source_of(&[7]);
    let one = SInt4 { val: 1 };
    let r = transform_list(
        &alg,
        &|x: SInt4| {
            let mut y = x;
            alg.add2b(&one, &mut y).unwrap();
            y
        },
        &mut single,
    );
    assert_eq!(r, Ok(()));
    assert_eq!(values_of(single), vec![-8]);
}

#[test]
fn transform_list_visits_in_index_order() {
    let alg = SInt4Algebra {};
    let seen = std::cell::RefCell::new(Vec::new());
    let mut src = source_of(&[5, -8, 0, 7]);
    let r = transform_list(
        &alg,
        &|x: SInt4| {
            seen.borrow_mut().push(x.val);
            alg.ctor()
        },
        &mut src,
    );
    assert_eq!(r, Ok(()));
    assert_eq!(*seen.borrow(), vec![5, -8, 0, 7]);
    assert_eq!(values_of(src), vec![0, 0, 0, 0]);
}
