//! The controllers that a board can carry.

pub mod mc;
