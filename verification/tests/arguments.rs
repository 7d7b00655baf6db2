use infinite_package_manager::utils::args::{Args, LogLevel, Subcommands};
use infinite_package_manager::utils::error::AppError;

fn args(verbose: u8, quiet: bool) -> Args {
    Args { verbose, quiet, command: Subcommands::Repo }
}

#[test]
fn verbosity_chooses_the_log_level() {
    assert_eq!(args(0, false).log_level(), LogLevel::Info);
    assert_eq!(args(1, false).log_level(), LogLevel::Debug);
    assert_eq!(args(2, false).log_level(), LogLevel::Trace);
    assert_eq!(args(255, false).log_level(), LogLevel::Trace);
    assert_eq!(args(0, true).log_level(), LogLevel::Off);
    assert_eq!(args(3, true).log_level(), LogLevel::Off);
}

#[test]
fn app_error_carries_the_io_error() {
    let e = AppError::Io(std::io::Error::new(std::io::ErrorKind::NotFound, "gone"));
    match e {
        AppError::Io(inner) => assert_eq!(inner.kind(), std::io::ErrorKind::NotFound),
        AppError::Unknown => panic!("wrong variant"),
    }
    assert!(matches!(AppError::Unknown, AppError::Unknown));
}
