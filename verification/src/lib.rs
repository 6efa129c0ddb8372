//! An interpreter for a small expression language.
//!
//! A program is a run of statements: assignments and expressions over
//! numbers, texts, booleans, lists and objects. Every expression statement
//! prints one line.
//!
//! [`analisador_sintatico`] reads the text of a program into its syntax
//! tree, [`analisador_semantico`] evaluates the tree, and
//! [`analisador_semantico::avaliar`] does both.
//!
//! # Numbers
//!
//! Numbers are IEEE-754 binary64 values, held as their 64 bits. The library
//! compares them and tests them for zero itself. Their arithmetic and their
//! decimal reading and writing are the caller's: the caller hands the
//! results in as a table of [`analisador_semantico::numeros::Known`] facts.
//! An evaluation that lacks a fact stops with
//! [`analisador_semantico::semantica::Stop::Need`], which names the fact; the
//! caller adds it to the table and evaluates again:
//!
//! ```text
//! let mut known = Known::new();
//! loop {
//!     match avaliar(source, &known) {
//!         Err(Failure::Stopped(Stop::Need(request))) => /* learn the fact */,
//!         result => return result,
//!     }
//! }
//! ```
//!
//! An evaluation never asks for a fact that the table holds, and what it
//! gives without asking it gives with every larger table
//! ([`analisador_semantico::leis`]).
#![allow(non_camel_case_types)]

pub mod analisador_semantico;
pub mod analisador_sintatico;
pub mod texto;
