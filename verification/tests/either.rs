use lib::either::Either;
use lib::gen::either::GenEither;
use lib::gen::iter::wrap::Wrap;
use lib::gen::map::ret::MapReturn;
use lib::gen::{GenResult, Generator};

fn finish<G: Generator>(g: G) -> (Vec<G::Yield>, G::Return) {
    let mut items = vec![];
    let mut g = g;
    loop {
        match g.next() {
            GenResult::Yield(i, rest) => {
                g = rest;
                items.push(i);
            }
            GenResult::Return(r) => return (items, r),
        }
    }
}

#[test]
fn collapse_gives_either_side() {
    assert_eq!(Either::<u8, u8>::Former(1).collapse(), 1);
    assert_eq!(Either::<u8, u8>::Latter(2).collapse(), 2);
}

#[test]
fn either_runs_as_the_generator_it_holds() {
    let a = (0..3).wrap().map_return(|_| "a");
    let b = (7..9).wrap().map_return(|_| "b");
    let pick = |former: bool| if former { Either::Former(a) } else { Either::Latter(b) };
    let (items, r) = finish(pick(true));
    assert_eq!(items, [0, 1, 2]);
    assert_eq!(r, "a");

    let a = (0..3).wrap().map_return(|_| "a");
    let b = (7..9).wrap().map_return(|_| "b");
    let e: Either<_, _> = if a.0.0.start > 100 { Either::Former(a) } else { Either::Latter(b) };
    let (items, r) = finish(e);
    assert_eq!(items, [7, 8]);
    assert_eq!(r, "b");
}

#[test]
fn gen_either_runs_as_the_generator_it_holds() {
    let a = (0..2).wrap().map_return(|_| 'a');
    let b = (5..6).wrap().map_return(|_| 'b');
    let e: GenEither<_, _> = if a.0.0.end > 1 { GenEither::Former(a) } else { GenEither::Latter(b) };
    let (items, r) = finish(e);
    assert_eq!(items, [0, 1]);
    assert_eq!(r, 'a');
}
