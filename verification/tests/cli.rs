use sandbox_serve::cli::bind_address;
use sandbox_serve::cli::index_notice;
use sandbox_serve::cli::serving_notice;
use sandbox_serve::cli::parse_args;
use sandbox_serve::cli::parse_number;
use sandbox_serve::cli::ArgsError;
use sandbox_serve::cli::Options;
use sandbox_serve::cli::DEFAULT_PORT;

fn args(items: &[&str]) -> Vec<String> {
    items.iter().map(|item| item.to_string()).collect()
}

#[test]
fn no_arguments_give_the_defaults() {
    assert_eq!(DEFAULT_PORT, 8000);
    assert_eq!(parse_args(&args(&[])), Ok(Options { force: false, port: 8000 }));
}

#[test]
fn port_is_read() {
    assert_eq!(parse_args(&args(&["8080"])), Ok(Options { force: false, port: 8080 }));
    assert_eq!(parse_args(&args(&["1"])), Ok(Options { force: false, port: 1 }));
    assert_eq!(parse_args(&args(&["65535"])), Ok(Options { force: false, port: 65535 }));
}

#[test]
fn force_is_read_wherever_it_stands() {
    assert_eq!(parse_args(&args(&["--force"])), Ok(Options { force: true, port: 8000 }));
    assert_eq!(parse_args(&args(&["--force", "9000"])), Ok(Options { force: true, port: 9000 }));
    assert_eq!(parse_args(&args(&["9000", "--force"])), Ok(Options { force: true, port: 9000 }));
    assert_eq!(
        parse_args(&args(&["--force", "9000", "--force"])),
        Ok(Options { force: true, port: 9000 })
    );
}

#[test]
fn unknown_flag_is_refused() {
    assert_eq!(parse_args(&args(&["-x"])), Err(ArgsError::UnknownFlag("-x".to_string())));
    assert_eq!(parse_args(&args(&["--port"])), Err(ArgsError::UnknownFlag("--port".to_string())));
    assert_eq!(parse_args(&args(&["-"])), Err(ArgsError::UnknownFlag("-".to_string())));
    assert_eq!(parse_args(&args(&["-1"])), Err(ArgsError::UnknownFlag("-1".to_string())));
    assert_eq!(
        parse_args(&args(&["--force=1"])),
        Err(ArgsError::UnknownFlag("--force=1".to_string()))
    );
}

#[test]
fn port_that_is_no_number_is_refused() {
    assert_eq!(parse_args(&args(&["abc"])), Err(ArgsError::PortNotANumber));
    assert_eq!(parse_args(&args(&[""])), Err(ArgsError::PortNotANumber));
    assert_eq!(parse_args(&args(&["80a"])), Err(ArgsError::PortNotANumber));
    assert_eq!(parse_args(&args(&[" 80"])), Err(ArgsError::PortNotANumber));
    assert_eq!(parse_args(&args(&["8 0"])), Err(ArgsError::PortNotANumber));
    assert_eq!(parse_args(&args(&["65536"])), Err(ArgsError::PortNotANumber));
    assert_eq!(parse_args(&args(&["70000"])), Err(ArgsError::PortNotANumber));
    assert_eq!(parse_args(&args(&["99999999999999999999999"])), Err(ArgsError::PortNotANumber));
}

#[test]
fn port_zero_is_refused() {
    assert_eq!(parse_args(&args(&["0"])), Err(ArgsError::PortOutOfRange));
    assert_eq!(parse_args(&args(&["000"])), Err(ArgsError::PortOutOfRange));
}

#[test]
fn second_positional_is_refused() {
    assert_eq!(parse_args(&args(&["80", "81"])), Err(ArgsError::TooManyPositionals));
    assert_eq!(parse_args(&args(&["80", "abc"])), Err(ArgsError::TooManyPositionals));
    assert_eq!(parse_args(&args(&["80", "--force", "x"])), Err(ArgsError::TooManyPositionals));
}

#[test]
fn first_offending_argument_decides() {
    assert_eq!(parse_args(&args(&["abc", "-x"])), Err(ArgsError::PortNotANumber));
    assert_eq!(parse_args(&args(&["-x", "abc"])), Err(ArgsError::UnknownFlag("-x".to_string())));
    assert_eq!(parse_args(&args(&["80", "-x", "81"])), Err(ArgsError::UnknownFlag("-x".to_string())));
}

#[test]
fn numbers_are_read_as_the_standard_parser_reads_them() {
    for text in ["", "+", "0", "7", "+7", "007", "65535", "65536", "0065535", "+65535", "++1", "1+",
        "-1", "1e3", "0x10", "12345678901234567890", "\u{663}", "4\u{e9}"]
    {
        assert_eq!(parse_number(text), text.parse::<u16>().ok(), "text {:?}", text);
    }
}

#[test]
fn parse_number_reads_digits() {
    assert_eq!(parse_number("8000"), Some(8000));
    assert_eq!(parse_number("+80"), Some(80));
    assert_eq!(parse_number("0080"), Some(80));
    assert_eq!(parse_number("65535"), Some(65535));
    assert_eq!(parse_number("65536"), None);
    assert_eq!(parse_number("+"), None);
    assert_eq!(parse_number(""), None);
}

#[test]
fn messages_are_fixed() {
    assert_eq!(ArgsError::UnknownFlag("-x".to_string()).message(), "Unknown flag: -x");
    assert_eq!(ArgsError::PortNotANumber.message(), "Port must be a number between 1 and 65535");
    assert_eq!(ArgsError::PortOutOfRange.message(), "Port must be between 1 and 65535");
    assert_eq!(ArgsError::TooManyPositionals.message(), "Too many positional arguments");
}

#[test]
fn bind_address_is_all_interfaces() {
    assert_eq!(bind_address(8000), "[::]:8000");
    assert_eq!(bind_address(1), "[::]:1");
    assert_eq!(bind_address(65535), "[::]:65535");
}

#[test]
fn startup_notices_are_fixed() {
    assert_eq!(serving_notice("/srv/files", "[::]:8000"), "Serving /srv/files on http://[::]:8000");
    assert_eq!(index_notice(), "Index is disabled; only direct file paths are allowed.");
}
