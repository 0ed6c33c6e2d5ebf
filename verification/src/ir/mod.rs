pub mod path_pattern;
