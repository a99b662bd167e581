pub mod file_completer;
