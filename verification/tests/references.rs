use helium::references::{Cloneable, NonNullRef, RawRef};

#[test]
fn it_works() {
    let value = 42;
    let ref_value = RawRef::from(&value);
    assert_eq!(*ref_value, 42);

    println!("{:?}", ref_value);

    println!("{:?}", ref_value.clone())
}

#[test]
fn non_null_ref_reads_through() {
    let value = String::from("hello");
    let r = NonNullRef::from(&value);
    assert_eq!(r.as_str(), "hello");
    assert_eq!(r.clone().len(), 5);
}

#[test]
fn cloneable_holds_a_copy() {
    let value = vec![1, 2, 3];
    let c = Cloneable::from(&value);
    assert_eq!(*c, vec![1, 2, 3]);
    let d = Cloneable::from_ref(&value);
    assert_eq!(d.len(), 3);
}
