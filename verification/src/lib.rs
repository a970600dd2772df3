// A chess move-generation engine on bitboards: precomputed attack masks for
// the non-sliding pieces, magic-bitboard tables for the sliders, pseudo-legal
// enumeration with a king-safety filter, move application, and a perft
// driver, with the board invariants proved across parsing and play.

pub mod attack;
pub mod bits;
pub mod board;
pub mod fen;
pub mod magic;
pub mod masks;
pub mod moveapply;
pub mod perft;
pub mod position;
pub mod rays;
pub mod rng;
pub mod tokens;
