pub mod enums;
pub mod game;
pub mod generics;
pub mod ownership;
pub mod restaurant;
pub mod structs;
pub mod validation;
