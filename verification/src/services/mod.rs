pub mod driver_injector;
pub mod error_detector;
pub mod timeline_analyzer;
pub mod tree_pruner;
pub mod finder_resolver;
pub mod log_parser;
pub mod main_search;
