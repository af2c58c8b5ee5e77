use lib::meta::list::List;
use lib::meta::sum::{Either, Sum};

#[test]
fn list_split_and_canonical_sum() {
    let (h, t) = ('a', ('b', ())).split();
    assert_eq!(h, 'a');
    assert_eq!(t, ('b', ()));
    match Either::<u8, char>::Right('z').to_canonical() {
        Either::Right(c) => assert_eq!(c, 'z'),
        Either::Left(_) => panic!("the canonical form keeps the side"),
    }
}
