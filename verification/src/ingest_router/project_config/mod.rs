pub mod splitter;
