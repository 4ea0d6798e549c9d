//! Experience and levels for editor skills, earned from recorded keystrokes.
//!
//! Keystrokes are tokenized ([`lexer`], as [`grammar`] states), each token is
//! classified into a skill ([`parse_utils`]), the experience of a batch is summed
//! per skill ([`batch`]), and levels are derived from total experience ([`levels`]).
pub mod batch;
pub mod grammar;
pub mod levels;
pub mod lexer;
pub mod motions;
pub mod parse_utils;
pub mod skill_data;
pub mod skills;
pub mod token;
