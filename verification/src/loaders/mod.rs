pub mod archiver;
pub mod csv_writer;
pub mod output;
