use rust_try_lib::utils::closure::Cons;

use std::any::Any;
use std::cell::Cell;
use std::rc::Rc;

struct Test;

#[test]
fn is_unbox_takes_ownership() {
    let a = Box::new(Test {});
    let b = &*a;
    a.as_ref();
    b.type_id();
}

#[test]
fn closure_ref() {
    let x = Test {};
    let mut asdf = Test {};
    let a = move |_h: &mut Test| {
        let _y = &x;
    };
    let mut b = Cons::new(a);
    b.get()(&mut asdf);
    b.get()(&mut asdf);
    b.get_mut()(&mut asdf);
    b.get_once()(&mut asdf);
}

#[test]
fn closure_mut() {
    let mut x = Test {};
    let mut asdf = Test {};
    let a = move |_h: &mut Test| {
        let _y = &mut x;
    };
    let mut b = Cons::new(a);
    b.get_mut()(&mut asdf);
    b.get_mut()(&mut asdf);
}

#[test]
fn closure_once() {
    let x = Test {};
    let mut asdf = Test {};
    let a = move |_h: &mut Test| {
        let _y = x;
    };
    let b = Cons::new(a);
    b.get_once()(&mut asdf);
}

#[test]
fn cons_hands_back_the_same_closure() {
    let hits = Rc::new(Cell::new(0));
    let seen = hits.clone();
    let mut asdf = Test {};
    let a = move |_h: &mut Test| {
        seen.set(seen.get() + 1);
    };
    let mut b = Cons::new(a);
    b.get()(&mut asdf);
    b.get_mut()(&mut asdf);
    b.get_once()(&mut asdf);
    assert_eq!(hits.get(), 3);
}
