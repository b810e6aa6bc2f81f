use std::cell::RefCell;
use std::fmt::Debug;
use std::sync::{Arc, Mutex};

struct Salary {
    salary: u8,
}

struct Company<T> {
    member: T,
}

impl<T> Company<T> {
    fn member(&self) -> &T {
        &self.member
    }
}

trait Showable {
    fn show(&self) {}
}

#[derive(Debug)]
struct Shown {}

impl Showable for Shown {}

fn show_it<T: Showable>(a: &T) {
    a.show();
}

fn print_it<T: Debug + 'static>(input: T) -> String {
    format!("'static value passed in is: {:?}", input)
}

fn consume(d2: &mut i32) {
    *d2 = 2;
}

trait A {
    fn show(&self) -> &'static str;
    fn show1(&self) -> &'static str;
}

trait B: A {
    fn show(&self) -> &'static str;
}

struct C;

impl A for C {
    fn show(&self) -> &'static str {
        "A::show()"
    }

    fn show1(&self) -> &'static str {
        "A::show1()"
    }
}

impl B for C {
    fn show(&self) -> &'static str {
        "b"
    }
}

struct Dropped<'a> {
    log: &'a RefCell<Vec<&'static str>>,
    name: &'static str,
}

impl<'a> Drop for Dropped<'a> {
    fn drop(&mut self) {
        self.log.borrow_mut().push(self.name);
    }
}

#[test]
fn test_arc() {
    let value = Arc::new(1);
    let copy = value.clone();
    let b: Box<i32> = Box::new(1);
    assert_eq!(*copy, *b);
    assert_eq!(Arc::strong_count(&value), 2);
}

#[test]
fn test_arc_mut() {
    let a = Arc::new(RefCell::new(Salary { salary: 1 }));
    (&*a).borrow_mut().salary = 100;
    assert_eq!(a.borrow().salary, 100);
    let b = Mutex::new(Salary { salary: 1 });
    b.lock().unwrap().salary = 100;
    assert_eq!(b.lock().unwrap().salary, 100);
}

#[test]
fn test_generic() {
    let c = Company { member: 3u8 };
    assert_eq!(*c.member(), 3);
}

#[test]
fn test_test_translate() {
    let a = Shown {};
    show_it(&a);
    assert_eq!(print_it(a), "'static value passed in is: Shown");
    let mut d = 1;
    let d1 = &mut d;
    consume(d1);
    assert_eq!(*d1, 2);
}

#[test]
fn test_duplicate_name_abstract_func() {
    let c = C;
    let as_a = &c as &dyn A;
    assert_eq!(as_a.show1(), "A::show1()");
    assert_eq!(A::show(&c), "A::show()");
    assert_eq!(B::show(&c), "b");
    let mut a = Option::Some(1);
    let a = a.as_mut().unwrap();
    *a += 1;
    assert_eq!(*a, 2);
}

#[test]
fn test_closure() {
    let mut a = 1;
    let mut f = || {
        a = a + 1;
    };
    f();
    assert_eq!(a, 2);
    let mut b = String::from("hello");
    let pushed_data = || {
        b.push_str(" world!");
        b
    };
    assert_eq!(pushed_data(), "hello world!");
}

#[test]
fn test_drop() {
    let log = RefCell::new(Vec::new());
    {
        let user = Dropped { log: &log, name: "user drop" };
        log.borrow_mut().push("aaaaaaaaaa");
        let company = (Dropped { log: &log, name: "company drop" }, user);
        drop(company);
    }
    assert_eq!(*log.borrow(), vec!["aaaaaaaaaa", "company drop", "user drop"]);
}
