//! A to-do list kept in a csv file: records, the store that holds them, and
//! the screens of an interactive session over that store.
pub mod text;
pub mod todo_record;
pub mod todo_db;
pub mod todos;
