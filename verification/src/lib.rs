pub mod cat;
pub mod co;
pub mod comb;
pub mod either;
pub mod fsm;
pub mod gen;
pub mod iter;
pub mod join;
pub mod map;
pub mod meta;
pub mod never;
pub mod race;
