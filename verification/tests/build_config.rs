use ferrino::build_config::{
    board_from_env_var, board_from_env_vars, cfg_directive, memory_layout, rustc_cfgs,
};

fn strings(v: &[&str]) -> Vec<String> {
    v.iter().map(|s| s.to_string()).collect()
}

#[test]
fn cfgs_for_cortex_m_targets() {
    assert_eq!(rustc_cfgs("thumbv6m-none-eabi"), strings(&["cortex_m", "armv6m"]));
    assert_eq!(rustc_cfgs("thumbv7m-none-eabi"), strings(&["cortex_m", "armv7m"]));
    assert_eq!(
        rustc_cfgs("thumbv7em-none-eabihf"),
        strings(&["cortex_m", "armv7m", "armv7em", "has_fpu"])
    );
    assert_eq!(
        rustc_cfgs("thumbv7em-none-eabi"),
        strings(&["cortex_m", "armv7m", "armv7em"])
    );
    assert_eq!(
        rustc_cfgs("thumbv8m.base-none-eabi"),
        strings(&["cortex_m", "armv8m", "armv8m_base"])
    );
    assert_eq!(
        rustc_cfgs("thumbv8m.main-none-eabihf"),
        strings(&["cortex_m", "armv8m", "armv8m_main", "has_fpu"])
    );
}

#[test]
fn cfgs_for_other_targets() {
    assert!(rustc_cfgs("x86_64-unknown-linux-gnu").is_empty());
    assert!(rustc_cfgs("riscv32imac-unknown-none-elf").is_empty());
    assert_eq!(rustc_cfgs("armv7r-none-eabihf"), strings(&["has_fpu"]));
    assert!(rustc_cfgs("armv7-unknown-linux-gnueabihf").is_empty());
    assert!(rustc_cfgs("").is_empty());
}

#[test]
fn cfg_directive_line() {
    assert_eq!(cfg_directive("cortex_m"), "cargo:rustc-cfg=cortex_m");
}

#[test]
fn board_name_from_feature_variable() {
    assert_eq!(
        board_from_env_var("CARGO_FEATURE_BOARD+RPI_PICO_W"),
        Some("rpi-pico-w".to_string())
    );
    assert_eq!(
        board_from_env_var("CARGO_FEATURE_BOARD+MICROBIT"),
        Some("microbit".to_string())
    );
    assert_eq!(board_from_env_var("CARGO_FEATURE_BOARD+"), Some(String::new()));
    assert_eq!(board_from_env_var("CARGO_FEATURE_STD"), None);
    assert_eq!(board_from_env_var("cargo_feature_board+x"), None);
    assert_eq!(board_from_env_var("CARGO_FEATURE_BOARD+Ä_X9"), Some("Ä-x9".to_string()));
}

#[test]
fn first_board_variable_wins() {
    let vars = strings(&[
        "PATH",
        "CARGO_FEATURE_STD",
        "CARGO_FEATURE_BOARD+RPI_PICO",
        "CARGO_FEATURE_BOARD+MICROBIT",
    ]);
    assert_eq!(board_from_env_vars(&vars), Some("rpi-pico".to_string()));
    assert_eq!(board_from_env_vars(&strings(&["PATH", "HOME"])), None);
    assert_eq!(board_from_env_vars(&Vec::new()), None);
}

#[test]
fn memory_layout_paths() {
    let m = memory_layout("/tmp/out", "microbit");
    assert_eq!(m.data_dir, "src/boards/microbit");
    assert_eq!(m.out_dir, "/tmp/out/boards/microbit");
    assert_eq!(m.out_file, "/tmp/out/boards/microbit/memory.x");
    assert_eq!(
        m.directives,
        strings(&[
            "cargo:rerun-if-changed=build.rs",
            "cargo:rustc-link-search=/tmp/out/boards/microbit",
        ])
    );
}
