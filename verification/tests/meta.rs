use lib::meta::prod::Prod;

#[test]
fn split() {
    let x = (1, ("Hello", ()));
    let (a, (b, ())) = x.split();
    assert_eq!(a, 1);
    assert_eq!(b, "Hello");
}

#[test]
fn split_of_a_single_and_of_unit() {
    let (a, ()) = (7,).split();
    assert_eq!(a, 7);
    let ((), ()) = ().split();
}
