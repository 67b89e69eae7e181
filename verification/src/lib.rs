pub mod text;
pub mod darktable_cli;
pub mod database;
pub mod fs;
pub mod main_loop;
pub mod num;
pub mod path_map;
pub mod scan;
pub mod test_support;
pub mod watcher;
pub mod xmp;
pub mod immich;
