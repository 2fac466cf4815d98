//! A todo list kept in plain text files: due dates and due times read from free-form
//! text, the store of tab-separated records, and the operations on a list.

pub mod calendar;
pub mod clock;
pub mod due_date;
pub mod due_time;
pub mod levenshtein;
pub mod model;
pub mod numerals;
pub mod records;
pub mod service;
pub mod split;
pub mod text;
