use ferrino::boards::{boards, find_board};
use ferrino::cli::{exit_status, listing, plan_command, Action, CliError, Command};

fn strings(v: &[&str]) -> Vec<String> {
    v.iter().map(|s| s.to_string()).collect()
}

#[test]
fn board_table_in_listing_order() {
    let table = boards();
    let names: Vec<&str> = table.iter().map(|b| b.name).collect();
    assert_eq!(names, vec!["microbit", "rpi-pico", "rpi-pico-w"]);
    assert_eq!(table[0].feature, "ferrino/board+microbit");
    assert_eq!(table[0].chip, "nRF52833_xxAA");
    assert_eq!(table[0].target, "thumbv7em-none-eabihf");
    assert_eq!(table[2].chip, "RP2040");
    assert_eq!(table[2].target, "thumbv6m-none-eabi");
}

#[test]
fn find_board_by_exact_name() {
    let b = find_board("rpi-pico").unwrap();
    assert_eq!(b.feature, "ferrino/board+rpi-pico");
    let w = find_board("rpi-pico-w").unwrap();
    assert_eq!(w.feature, "ferrino/board+rpi-pico-w");
    assert!(find_board("rpi").is_none());
    assert!(find_board("Microbit").is_none());
    assert!(find_board("").is_none());
}

#[test]
fn list_boards_prints_heading_and_tabbed_names() {
    assert_eq!(
        listing(),
        strings(&["Supported boards:", "\tmicrobit", "\trpi-pico", "\trpi-pico-w"])
    );
    match plan_command(&Command::ListBoards) {
        Ok(Action::Print(lines)) => assert_eq!(lines, listing()),
        _ => panic!("listing expected"),
    }
}

#[test]
fn build_starts_cargo_build_for_the_board() {
    match plan_command(&Command::Build { board: "microbit".to_string() }) {
        Ok(Action::Cargo { args, failure }) => {
            assert_eq!(failure, "error building firmware");
            assert_eq!(
            args,
            strings(&[
                "build",
                "--release",
                "--target",
                "thumbv7em-none-eabihf",
                "--features",
                "ferrino/board+microbit",
            ])
        )
        }
        _ => panic!("cargo invocation expected"),
    }
}

#[test]
fn run_hands_the_chip_to_the_runner() {
    match plan_command(&Command::Run { board: "rpi-pico-w".to_string() }) {
        Ok(Action::Cargo { args, failure }) => {
            assert_eq!(failure, "error running firmware");
            assert_eq!(
            args,
            strings(&[
                "run",
                "--release",
                "--target",
                "thumbv6m-none-eabi",
                "--features",
                "ferrino/board+rpi-pico-w",
                "--",
                "--chip",
                "RP2040",
            ])
        )
        }
        _ => panic!("cargo invocation expected"),
    }
}

#[test]
fn unknown_board_is_refused() {
    for cmd in [
        Command::Build { board: "arduino".to_string() },
        Command::Run { board: "arduino".to_string() },
    ] {
        match plan_command(&cmd) {
            Err(e) => {
                assert_eq!(e.message(), "Selected board not found: arduino");
                assert_eq!(e.exit_code(), -1);
                match e {
                    CliError::BoardNotFound(name) => assert_eq!(name, "arduino"),
                }
            }
            Ok(_) => panic!("refusal expected"),
        }
    }
}

#[test]
fn every_listed_board_is_accepted() {
    for b in boards() {
        assert!(plan_command(&Command::Build { board: b.name.to_string() }).is_ok());
        assert!(plan_command(&Command::Run { board: b.name.to_string() }).is_ok());
    }
}

#[test]
fn exit_status_follows_cargo() {
    assert_eq!(exit_status(Some(0)), 0);
    assert_eq!(exit_status(Some(101)), 101);
    assert_eq!(exit_status(None), -1);
}
