use ferrino::boards::boards;
use ferrino::build_config::{board_from_env_var, rustc_cfgs};
use ferrino::entry::{select_entry, EntryKind, EntryTarget};

/// The variable cargo sets for an enabled feature of the package.
fn cargo_feature_var(feature: &str) -> String {
    format!("CARGO_FEATURE_{}", feature.to_uppercase().replace('-', "_"))
}

#[test]
fn each_board_feature_reaches_the_build_step_as_its_board() {
    for b in boards() {
        let feature = b.feature.strip_prefix("ferrino/").unwrap();
        let var = cargo_feature_var(feature);
        assert_eq!(board_from_env_var(&var), Some(b.name.to_string()));
    }
}

#[test]
fn each_board_target_gets_the_cortex_m_entry() {
    for b in boards() {
        let cfgs = rustc_cfgs(b.target);
        assert!(cfgs.iter().any(|c| c == "cortex_m"));
        for (riscv32, wasm, std) in [(false, false, false), (true, true, true)] {
            let t = EntryTarget { cortex_m: true, riscv32, wasm, std };
            assert_eq!(select_entry(&t), Some(EntryKind::CortexM));
        }
    }
}

#[test]
fn board_names_are_distinct() {
    let table = boards();
    for i in 0..table.len() {
        for j in (i + 1)..table.len() {
            assert_ne!(table[i].name, table[j].name);
        }
    }
}
