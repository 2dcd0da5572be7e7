//! # tada
//!
//! The heart of a command-line [todo.txt](https://github.com/todotxt/todo.txt)
//! manager: reading a line as a task, what is read off a task's description,
//! rescheduling and repairing tasks, and showing lists of them.
//!
//! The day it is today is an argument wherever it counts, so that every
//! function gives the same result for the same arguments.

pub mod action;
pub mod date;
pub mod item;
pub mod list;
pub mod sorting;
pub mod text;
pub mod util;
