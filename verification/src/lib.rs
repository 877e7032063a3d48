//! Primality of 64-bit unsigned integers by trial division, proved against
//! the mathematical definition of a prime number.

pub mod command;
pub mod decimal;
pub mod prime;
pub mod sqrt;
