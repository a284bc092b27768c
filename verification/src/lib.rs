//! Small, independent utilities: counting the occurrences of a weekday in a
//! range of dates, formatting integers as ordinal numbers, and obfuscating
//! e-mail addresses and phone numbers.

pub mod decimal;
pub mod integer;
pub mod task_01;
pub mod task_02;
pub mod task_03;
pub mod text;
