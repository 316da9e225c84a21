use ferrino::entry::{
    check_main_signature, select_entry, validate_main, EntryKind, EntryTarget, MainSignature,
    DeclaredReturn, SignatureError, return_type_allowed,
};

fn good() -> MainSignature {
    MainSignature {
        is_async: true,
        has_abi: false,
        is_variadic: false,
        output: DeclaredReturn::Omitted,
        arg_count: 2,
    }
}

#[test]
fn entry_follows_target_in_priority_order() {
    let t = |cortex_m, riscv32, wasm, std| EntryTarget { cortex_m, riscv32, wasm, std };
    assert_eq!(select_entry(&t(true, true, true, true)), Some(EntryKind::CortexM));
    assert_eq!(select_entry(&t(false, true, true, true)), Some(EntryKind::Riscv));
    assert_eq!(select_entry(&t(false, false, true, true)), Some(EntryKind::Wasm));
    assert_eq!(select_entry(&t(false, false, false, true)), Some(EntryKind::Std));
    assert_eq!(select_entry(&t(false, false, false, false)), None);
}

#[test]
fn well_formed_main_is_accepted() {
    assert!(validate_main(&good()).is_ok());
    for output in [DeclaredReturn::Omitted, DeclaredReturn::Tuple(0), DeclaredReturn::Never] {
        assert!(validate_main(&MainSignature { output, ..good() }).is_ok());
    }
}

#[test]
fn each_broken_rule_is_reported() {
    assert_eq!(
        check_main_signature(&MainSignature { is_async: false, ..good() }),
        vec![SignatureError::NotAsync]
    );
    assert_eq!(
        check_main_signature(&MainSignature { has_abi: true, ..good() }),
        vec![SignatureError::AbiQualifier]
    );
    assert_eq!(
        check_main_signature(&MainSignature { is_variadic: true, ..good() }),
        vec![SignatureError::Variadic]
    );
    assert_eq!(
        check_main_signature(&MainSignature { output: DeclaredReturn::Other, ..good() }),
        vec![SignatureError::ReturnType]
    );
    assert_eq!(
        check_main_signature(&MainSignature { output: DeclaredReturn::Tuple(2), ..good() }),
        vec![SignatureError::ReturnType]
    );
    assert_eq!(
        check_main_signature(&MainSignature { arg_count: 1, ..good() }),
        vec![SignatureError::ArgumentCount]
    );
}

#[test]
fn all_broken_rules_in_order() {
    let bad = MainSignature {
        is_async: false,
        has_abi: true,
        is_variadic: true,
        output: DeclaredReturn::Other,
        arg_count: 0,
    };
    assert_eq!(
        validate_main(&bad),
        Err(vec![
            SignatureError::NotAsync,
            SignatureError::AbiQualifier,
            SignatureError::Variadic,
            SignatureError::ReturnType,
            SignatureError::ArgumentCount,
        ])
    );
}

#[test]
fn messages() {
    assert_eq!(SignatureError::NotAsync.message(), "main function must be async");
    assert_eq!(
        SignatureError::AbiQualifier.message(),
        "main function must not have an ABI qualifier"
    );
    assert_eq!(SignatureError::Variadic.message(), "main function must not be variadic");
    assert_eq!(
        SignatureError::ReturnType.message(),
        "main function must either not return a value, return `()` or return `!`"
    );
    assert_eq!(
        SignatureError::ArgumentCount.message(),
        "main function must have 2 arguments: the device and the spawner."
    );
}

#[test]
fn return_types_allowed_on_main() {
    assert!(return_type_allowed(&DeclaredReturn::Omitted));
    assert!(return_type_allowed(&DeclaredReturn::Tuple(0)));
    assert!(return_type_allowed(&DeclaredReturn::Never));
    assert!(!return_type_allowed(&DeclaredReturn::Tuple(1)));
    assert!(!return_type_allowed(&DeclaredReturn::Other));
}
