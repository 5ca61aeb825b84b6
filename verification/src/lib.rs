pub mod card;
pub mod deck;
pub mod rng;
pub mod text;
