//! A line-oriented diff library.
//!
//! The core computes a minimal edit script between two sequences of text
//! lines with a longest-common-subsequence (LCS) dynamic program over a
//! dense two-dimensional table, then reconstructs the script by
//! backtracking through the table.  A small singly linked list with an
//! owned node chain rounds out the crate.

pub mod diff;
pub mod diff_laws;
pub mod grid;
pub mod linked_list;
