//! Properties that tie the command line tool, the build step and the entry
//! point together.

use vstd::prelude::*;
use crate::boards::{BoardView, board_names, board_table, lookup_board};
use crate::build_config::{
    MemoryLayout, board_dir_char, board_dir_name, board_of_var, board_of_vars, layout_of,
    target_cfgs,
};
use crate::cli::{run_args, build_args, listing_lines, strings_view};
use crate::entry::{
    DeclaredReturn, EntryKind, EntryTarget, MainSignature, SignatureError, entry_for,
    signature_errors,
};
use crate::spi::{PinAction, bits_schedule, word_bits_spec, words_schedule, write_schedule};

verus! {

/// A character that may stand in a board name: a lower case ASCII letter,
/// a digit or `-`.
pub open spec fn board_name_char(c: char) -> bool {
    ('a' <= c && c <= 'z') || ('0' <= c && c <= '9') || c == '-'
}

/// The character cargo uses for `c` in the name of a feature's
/// environment variable: upper case for a lower case ASCII letter, `_` for
/// `-`, else `c` itself.
pub open spec fn cargo_env_char(c: char) -> char {
    if 'a' <= c && c <= 'z' {
        ((c as u32) - 32) as char
    } else if c == '-' {
        '_'
    } else {
        c
    }
}

/// The environment variable cargo sets for the build step of a package
/// whose feature `feature` is on.
pub open spec fn cargo_feature_var(feature: Seq<char>) -> Seq<char> {
    "CARGO_FEATURE_"@ + feature.map_values(|c: char| cargo_env_char(c))
}

proof fn lemma_prefix_map()
    ensures
        "CARGO_FEATURE_"@ + "board+"@.map_values(|c: char| cargo_env_char(c))
            =~= "CARGO_FEATURE_BOARD+"@,
{
    reveal_strlit("CARGO_FEATURE_");
    reveal_strlit("board+");
    reveal_strlit("CARGO_FEATURE_BOARD+");
}

/// A board feature named `board+NAME`, once cargo has turned it into an
/// environment variable, leads the build step back to board `NAME`, for
/// every `NAME` made of lower case ASCII letters, digits and `-`.
pub proof fn lemma_board_feature_round_trip(name: Seq<char>)
    requires
        forall|i: int| 0 <= i < name.len() ==> board_name_char(#[trigger] name[i]),
    ensures
        board_of_var(cargo_feature_var("board+"@ + name)) == Some(name),
{
    let mapped = name.map_values(|c: char| cargo_env_char(c));
    lemma_prefix_map();
    reveal_strlit("board+");
    let var = cargo_feature_var("board+"@ + name);
    assert(("board+"@ + name).map_values(|c: char| cargo_env_char(c)) =~= "board+"@.map_values(
        |c: char| cargo_env_char(c),
    ) + mapped);
    assert(var =~= "CARGO_FEATURE_BOARD+"@ + mapped);
    reveal_strlit("CARGO_FEATURE_BOARD+");
    assert("CARGO_FEATURE_BOARD+"@.is_prefix_of(var));
    assert(var.skip(20) =~= mapped);
    assert forall|i: int| 0 <= i < name.len() implies board_dir_char(
        #[trigger] cargo_env_char(name[i]),
    ) == name[i] by {
        assert(board_name_char(name[i]));
    }
    assert(board_dir_name(mapped) =~= name);
}

/// Every supported board's feature has the form `ferrino/board+NAME` where
/// `NAME` is the board's name and is made of lower case ASCII letters,
/// digits and `-`.
pub proof fn lemma_board_features_name_their_board(i: int)
    requires
        0 <= i < board_table().len(),
    ensures
        board_table()[i].feature == "ferrino/"@ + ("board+"@ + board_table()[i].name),
        forall|j: int|
            0 <= j < board_table()[i].name.len() ==> board_name_char(
                #[trigger] board_table()[i].name[j],
            ),
{
    reveal_strlit("ferrino/");
    reveal_strlit("board+");
    reveal_strlit("microbit");
    reveal_strlit("rpi-pico");
    reveal_strlit("rpi-pico-w");
    reveal_strlit("ferrino/board+microbit");
    reveal_strlit("ferrino/board+rpi-pico");
    reveal_strlit("ferrino/board+rpi-pico-w");
    assert(board_table()[i].feature =~= "ferrino/"@ + ("board+"@ + board_table()[i].name));
}

/// The board that the command line tool selects with `--board NAME` is the
/// board whose memory layout the build step copies: the package feature it
/// turns on reaches the build step as a variable that names the same board.
pub proof fn lemma_selected_board_reaches_build_step(i: int)
    requires
        0 <= i < board_table().len(),
    ensures
        board_table()[i].feature.skip(8) == "board+"@ + board_table()[i].name,
        board_of_var(cargo_feature_var(board_table()[i].feature.skip(8))) == Some(
            board_table()[i].name,
        ),
{
    lemma_board_features_name_their_board(i);
    reveal_strlit("ferrino/");
    let b = board_table()[i];
    assert(b.feature.skip(8) =~= "board+"@ + b.name);
    lemma_board_feature_round_trip(b.name);
}

/// A name is found in a board table exactly when the table lists it, and
/// what is found carries that name.
pub proof fn lemma_found_iff_listed(table: Seq<BoardView>, name: Seq<char>)
    ensures
        lookup_board(table, name) is Some <==> board_names(table).contains(name),
        lookup_board(table, name) matches Some(b) ==> b.name == name && table.contains(b),
    decreases table.len(),
{
    if table.len() > 0 {
        lemma_found_iff_listed(table.drop_last(), name);
        let names = board_names(table);
        assert(board_names(table.drop_last()) =~= names.drop_last());
        if names.contains(name) && table.last().name != name {
            let k = choose|k: int| 0 <= k < names.len() && names[k] == name;
            assert(k != names.len() - 1);
            assert(names.drop_last()[k] == name);
        }
        if lookup_board(table, name) is Some && table.last().name != name {
            let b = lookup_board(table, name)->0;
            let k = choose|k: int| 0 <= k < table.drop_last().len() && table.drop_last()[k] == b;
            assert(table[k] == b);
        }
        if table.last().name == name {
            assert(names[names.len() - 1] == name);
            assert(table[table.len() - 1] == table.last());
        }
    }
}

/// The names of the supported boards are distinct.
pub proof fn lemma_board_names_distinct()
    ensures
        forall|i: int, j: int|
            0 <= i < j < board_table().len() ==> board_table()[i].name != board_table()[j].name,
{
    reveal_strlit("microbit");
    reveal_strlit("rpi-pico");
    reveal_strlit("rpi-pico-w");
    assert("microbit"@[0] != "rpi-pico"@[0]);
    assert("microbit"@[0] != "rpi-pico-w"@[0]);
    assert("rpi-pico"@.len() != "rpi-pico-w"@.len());
}

/// Every supported board's target turns on the `cortex_m` flag, so the
/// application gets the Cortex-M entry whatever features are on.
pub proof fn lemma_boards_get_cortex_m_entry(i: int, riscv32: bool, wasm: bool, std: bool)
    requires
        0 <= i < board_table().len(),
    ensures
        target_cfgs(board_table()[i].target).contains("cortex_m"@),
        entry_for(
            EntryTarget {
                cortex_m: target_cfgs(board_table()[i].target).contains("cortex_m"@),
                riscv32,
                wasm,
                std,
            },
        ) == Some(EntryKind::CortexM),
{
    reveal_strlit("thumbv7em-none-eabihf");
    reveal_strlit("thumbv6m-none-eabi");
    reveal_strlit("thumbv6m-");
    reveal_strlit("thumbv7m-");
    reveal_strlit("thumbv7em-");
    let t = board_table()[i].target;
    if i == 0 {
        assert(!"thumbv6m-"@.is_prefix_of(t)) by {
            assert(t.subrange(0, 9)[6] != "thumbv6m-"@[6]);
        }
        assert(!"thumbv7m-"@.is_prefix_of(t)) by {
            assert(t.subrange(0, 9)[7] != "thumbv7m-"@[7]);
        }
        assert("thumbv7em-"@.is_prefix_of(t)) by {
            assert("thumbv7em-"@ =~= t.subrange(0, 10));
        }
    } else {
        assert("thumbv6m-"@.is_prefix_of(t)) by {
            assert("thumbv6m-"@ =~= t.subrange(0, 9));
        }
    }
    assert(target_cfgs(t)[0] == "cortex_m"@);
}

/// The boards the tool knows, each with its feature, probe chip and
/// target: the micro:bit runs on the nRF52833 and a hard-float Cortex-M4
/// target; both Raspberry Pi Pico boards run on the RP2040 and the ARMv6-M
/// target. No other name is known.
pub proof fn lemma_board_entries(name: Seq<char>)
    ensures
        name == "microbit"@ ==> lookup_board(board_table(), name) == Some(
            BoardView {
                name: "microbit"@,
                feature: "ferrino/board+microbit"@,
                chip: "nRF52833_xxAA"@,
                target: "thumbv7em-none-eabihf"@,
            },
        ),
        name == "rpi-pico"@ ==> lookup_board(board_table(), name) == Some(
            BoardView {
                name: "rpi-pico"@,
                feature: "ferrino/board+rpi-pico"@,
                chip: "RP2040"@,
                target: "thumbv6m-none-eabi"@,
            },
        ),
        name == "rpi-pico-w"@ ==> lookup_board(board_table(), name) == Some(
            BoardView {
                name: "rpi-pico-w"@,
                feature: "ferrino/board+rpi-pico-w"@,
                chip: "RP2040"@,
                target: "thumbv6m-none-eabi"@,
            },
        ),
        (name != "microbit"@ && name != "rpi-pico"@ && name != "rpi-pico-w"@) ==> lookup_board(
            board_table(),
            name,
        ) is None,
{
    lemma_board_names_distinct();
    let t = board_table();
    assert(t[0].name != t[1].name);
    assert(t[0].name != t[2].name);
    assert(t[1].name != t[2].name);
    let t2 = t.drop_last();
    let t1 = t2.drop_last();
    let t0 = t1.drop_last();
    assert(t0 =~= Seq::<BoardView>::empty());
    assert(t1.last() == t[0]);
    assert(t2.last() == t[1]);
    assert(t.last() == t[2]);
    assert(lookup_board(t0, name) is None);
    assert(lookup_board(t1, name) == if t[0].name == name {
        Some(t[0])
    } else {
        None
    });
    assert(lookup_board(t2, name) == if t[1].name == name {
        Some(t[1])
    } else {
        lookup_board(t1, name)
    });
}

/// Boards built for the same target are flashed through the same probe
/// chip, and every board's feature names the board.
pub proof fn lemma_same_target_same_chip(i: int, j: int)
    requires
        0 <= i < board_table().len(),
        0 <= j < board_table().len(),
    ensures
        board_table()[i].target == board_table()[j].target ==> board_table()[i].chip
            == board_table()[j].chip,
        board_table()[i].feature == "ferrino/board+"@ + board_table()[i].name,
{
    reveal_strlit("thumbv7em-none-eabihf");
    reveal_strlit("thumbv6m-none-eabi");
    reveal_strlit("ferrino/board+");
    reveal_strlit("microbit");
    reveal_strlit("rpi-pico");
    reveal_strlit("rpi-pico-w");
    reveal_strlit("ferrino/board+microbit");
    reveal_strlit("ferrino/board+rpi-pico");
    reveal_strlit("ferrino/board+rpi-pico-w");
    assert("thumbv7em-none-eabihf"@[6] != "thumbv6m-none-eabi"@[6]);
    assert(board_table()[i].feature =~= "ferrino/board+"@ + board_table()[i].name);
}

/// Running on a supported board hands the probe that board's chip, and
/// building or running targets that board's target with its feature on.
pub proof fn lemma_cargo_args_follow_the_board(name: Seq<char>)
    ensures
        lookup_board(board_table(), name) matches Some(b) ==> {
            &&& run_args(b).len() == 9
            &&& run_args(b)[0] == "run"@
            &&& run_args(b)[1] == "--release"@
            &&& run_args(b)[2] == "--target"@
            &&& run_args(b)[3] == b.target
            &&& run_args(b)[4] == "--features"@
            &&& run_args(b)[5] == b.feature
            &&& run_args(b)[6] == "--"@
            &&& run_args(b)[7] == "--chip"@
            &&& run_args(b)[8] == b.chip
            &&& build_args(b).len() == 6
            &&& build_args(b)[0] == "build"@
            &&& build_args(b)[1] == "--release"@
            &&& build_args(b)[2] == "--target"@
            &&& build_args(b)[3] == b.target
            &&& build_args(b)[4] == "--features"@
            &&& build_args(b)[5] == b.feature
            &&& b.name == name
        },
        name == "rpi-pico"@ ==> run_args(lookup_board(board_table(), name)->0).last() == "RP2040"@,
        name == "rpi-pico-w"@ ==> run_args(lookup_board(board_table(), name)->0).last()
            == "RP2040"@,
        name == "microbit"@ ==> run_args(lookup_board(board_table(), name)->0).last()
            == "nRF52833_xxAA"@,
{
    lemma_board_entries(name);
    lemma_found_iff_listed(board_table(), name);
}

proof fn lemma_cfg_names_differ()
    ensures
        "has_fpu"@ != "cortex_m"@,
        "has_fpu"@ != "armv6m"@,
        "has_fpu"@ != "armv7m"@,
        "has_fpu"@ != "armv7em"@,
        "has_fpu"@ != "armv8m"@,
        "has_fpu"@ != "armv8m_base"@,
        "has_fpu"@ != "armv8m_main"@,
        "cortex_m"@ != "armv6m"@,
        "cortex_m"@ != "armv7m"@,
        "cortex_m"@ != "armv7em"@,
        "cortex_m"@ != "armv8m"@,
        "cortex_m"@ != "armv8m_base"@,
        "cortex_m"@ != "armv8m_main"@,
{
    reveal_strlit("has_fpu");
    reveal_strlit("cortex_m");
    reveal_strlit("armv6m");
    reveal_strlit("armv7m");
    reveal_strlit("armv7em");
    reveal_strlit("armv8m");
    reveal_strlit("armv8m_base");
    reveal_strlit("armv8m_main");
    assert("has_fpu"@[0] != "cortex_m"@[0]);
    assert("has_fpu"@[0] != "armv6m"@[0]);
    assert("has_fpu"@[0] != "armv7m"@[0]);
    assert("has_fpu"@[0] != "armv7em"@[0]);
    assert("has_fpu"@[0] != "armv8m"@[0]);
    assert("has_fpu"@[0] != "armv8m_base"@[0]);
    assert("has_fpu"@[0] != "armv8m_main"@[0]);
    assert("cortex_m"@[0] != "armv6m"@[0]);
    assert("cortex_m"@[0] != "armv7m"@[0]);
    assert("cortex_m"@[0] != "armv7em"@[0]);
    assert("cortex_m"@[0] != "armv8m"@[0]);
    assert("cortex_m"@[0] != "armv8m_base"@[0]);
    assert("cortex_m"@[0] != "armv8m_main"@[0]);
}

/// A target turns on `has_fpu` exactly when it ends in `-eabihf` (a
/// hard-float ABI), and then as its last flag; it turns on `cortex_m`
/// exactly when it is one of the Cortex-M thumb targets, and then as its
/// first flag.
pub proof fn lemma_target_flags(t: Seq<char>)
    ensures
        target_cfgs(t).contains("has_fpu"@) <==> "-eabihf"@.is_suffix_of(t),
        "-eabihf"@.is_suffix_of(t) ==> target_cfgs(t).last() == "has_fpu"@,
        target_cfgs(t).contains("cortex_m"@) <==> ("thumbv6m-"@.is_prefix_of(t)
            || "thumbv7m-"@.is_prefix_of(t) || "thumbv7em-"@.is_prefix_of(t)
            || "thumbv8m.base"@.is_prefix_of(t) || "thumbv8m.main"@.is_prefix_of(t)),
        target_cfgs(t).contains("cortex_m"@) ==> target_cfgs(t)[0] == "cortex_m"@,
        "thumbv6m-"@.is_prefix_of(t) ==> target_cfgs(t).take(2) == seq!["cortex_m"@, "armv6m"@],
        "thumbv7m-"@.is_prefix_of(t) ==> target_cfgs(t).take(2) == seq!["cortex_m"@, "armv7m"@],
        "thumbv7em-"@.is_prefix_of(t) ==> target_cfgs(t).take(3) == seq![
            "cortex_m"@,
            "armv7m"@,
            "armv7em"@,
        ],
        "thumbv8m.base"@.is_prefix_of(t) ==> target_cfgs(t).take(3) == seq![
            "cortex_m"@,
            "armv8m"@,
            "armv8m_base"@,
        ],
        "thumbv8m.main"@.is_prefix_of(t) ==> target_cfgs(t).take(3) == seq![
            "cortex_m"@,
            "armv8m"@,
            "armv8m_main"@,
        ],
        target_cfgs(t).len() <= 4,
{
    lemma_cfg_names_differ();
    let c = target_cfgs(t);
    if c.contains("has_fpu"@) && !"-eabihf"@.is_suffix_of(t) {
        let k = choose|k: int| 0 <= k < c.len() && c[k] == "has_fpu"@;
        assert(false);
    }
    if "-eabihf"@.is_suffix_of(t) {
        assert(c[c.len() - 1] == "has_fpu"@);
    }
    let cortex = "thumbv6m-"@.is_prefix_of(t) || "thumbv7m-"@.is_prefix_of(t)
        || "thumbv7em-"@.is_prefix_of(t) || "thumbv8m.base"@.is_prefix_of(t)
        || "thumbv8m.main"@.is_prefix_of(t);
    if cortex {
        assert(c[0] == "cortex_m"@);
    }
    reveal_strlit("thumbv6m-");
    reveal_strlit("thumbv7m-");
    reveal_strlit("thumbv7em-");
    if "thumbv6m-"@.is_prefix_of(t) {
        assert(c.take(2) =~= seq!["cortex_m"@, "armv6m"@]);
    } else if "thumbv7m-"@.is_prefix_of(t) {
        assert(c.take(2) =~= seq!["cortex_m"@, "armv7m"@]);
    }
    if "thumbv7em-"@.is_prefix_of(t) {
        assert(!"thumbv6m-"@.is_prefix_of(t)) by {
            assert(t.subrange(0, 9)[6] != "thumbv6m-"@[6]);
        }
        assert(!"thumbv7m-"@.is_prefix_of(t)) by {
            assert(t.subrange(0, 9)[7] != "thumbv7m-"@[7]);
        }
        assert(c.take(3) =~= seq!["cortex_m"@, "armv7m"@, "armv7em"@]);
    }
    reveal_strlit("thumbv8m.base");
    reveal_strlit("thumbv8m.main");
    if "thumbv8m.base"@.is_prefix_of(t) {
        assert(!"thumbv6m-"@.is_prefix_of(t)) by {
            assert(t.subrange(0, 9)[6] != "thumbv6m-"@[6]);
        }
        assert(!"thumbv7m-"@.is_prefix_of(t)) by {
            assert(t.subrange(0, 9)[6] != "thumbv7m-"@[6]);
        }
        assert(!"thumbv7em-"@.is_prefix_of(t)) by {
            assert(t.subrange(0, 10)[6] != "thumbv7em-"@[6]);
        }
        assert(c.take(3) =~= seq!["cortex_m"@, "armv8m"@, "armv8m_base"@]);
    }
    if "thumbv8m.main"@.is_prefix_of(t) {
        assert(!"thumbv6m-"@.is_prefix_of(t)) by {
            assert(t.subrange(0, 9)[6] != "thumbv6m-"@[6]);
        }
        assert(!"thumbv7m-"@.is_prefix_of(t)) by {
            assert(t.subrange(0, 9)[6] != "thumbv7m-"@[6]);
        }
        assert(!"thumbv7em-"@.is_prefix_of(t)) by {
            assert(t.subrange(0, 10)[6] != "thumbv7em-"@[6]);
        }
        assert(!"thumbv8m.base"@.is_prefix_of(t)) by {
            assert(t.subrange(0, 13)[9] != "thumbv8m.base"@[9]);
        }
        assert(c.take(3) =~= seq!["cortex_m"@, "armv8m"@, "armv8m_main"@]);
    }
    if c.contains("cortex_m"@) && !cortex {
        let k = choose|k: int| 0 <= k < c.len() && c[k] == "cortex_m"@;
        assert(false);
    }
}

/// The entry code follows the target: Cortex-M whenever the `cortex_m` flag
/// is on; otherwise RISC-V on a 32-bit RISC-V target; otherwise the
/// WebAssembly start function with the `wasm` feature; otherwise the hosted
/// `main` with the `std` feature; and none only when none of these holds.
pub proof fn lemma_entry_choice(t: EntryTarget)
    ensures
        t.cortex_m ==> entry_for(t) == Some(EntryKind::CortexM),
        !t.cortex_m && t.riscv32 ==> entry_for(t) == Some(EntryKind::Riscv),
        !t.cortex_m && !t.riscv32 && t.wasm ==> entry_for(t) == Some(EntryKind::Wasm),
        !t.cortex_m && !t.riscv32 && !t.wasm && t.std ==> entry_for(t) == Some(EntryKind::Std),
        entry_for(t) is None <==> (!t.cortex_m && !t.riscv32 && !t.wasm && !t.std),
{
}

/// The memory layout is read from the board's own directory under
/// `src/boards/`, named exactly as the board is; it is copied to the
/// directory of the same name under `boards/` in the build output, as
/// `memory.x`; and the linker is told to search that very directory.
pub proof fn lemma_memory_layout_paths(m: MemoryLayout, out: Seq<char>, board: Seq<char>)
    requires
        layout_of(m, out, board),
    ensures
        m.data_dir@ == "src/boards/"@ + board,
        m.data_dir@.skip(11) == board,
        m.out_dir@.take(out.len() as int) == out,
        m.out_dir@.skip(out.len() + 8int) == board,
        m.data_dir@.skip(11) == m.out_dir@.skip(out.len() + 8int),
        m.out_file@ == m.out_dir@ + "/memory.x"@,
        strings_view(m.directives@).len() == 2,
        strings_view(m.directives@)[0] == "cargo:rerun-if-changed=build.rs"@,
        strings_view(m.directives@)[1] == "cargo:rustc-link-search="@ + m.out_dir@,
{
    reveal_strlit("src/boards/");
    reveal_strlit("/boards/");
    assert(("src/boards/"@ + board).skip(11) =~= board);
    assert((out + "/boards/"@ + board).skip(out.len() + 8int) =~= board);
    assert((out + "/boards/"@ + board).take(out.len() as int) =~= out);
}

/// The board comes from the first board feature variable: there is one
/// exactly when some variable names a board, and then it is the board of
/// the earliest such variable, wherever it stands among the others.
pub proof fn lemma_first_board_variable(vars: Seq<Seq<char>>)
    ensures
        board_of_vars(vars) is Some <==> exists|i: int|
            0 <= i < vars.len() && (#[trigger] board_of_var(vars[i])) is Some,
        board_of_vars(vars) is Some ==> exists|i: int|
            0 <= i < vars.len() && board_of_vars(vars) == #[trigger] board_of_var(vars[i]) && (
            forall|j: int| 0 <= j < i ==> (#[trigger] board_of_var(vars[j])) is None),
    decreases vars.len(),
{
    if vars.len() > 0 {
        let rest = vars.drop_first();
        lemma_first_board_variable(rest);
        if board_of_var(vars[0]) is Some {
            assert(board_of_var(vars[0]) is Some);
        } else {
            if exists|i: int| 0 <= i < vars.len() && (#[trigger] board_of_var(vars[i])) is Some {
                let i = choose|i: int|
                    0 <= i < vars.len() && (#[trigger] board_of_var(vars[i])) is Some;
                assert(i > 0);
                assert(rest[i - 1] == vars[i]);
                assert(board_of_var(rest[i - 1]) is Some);
            }
            if board_of_vars(rest) is Some {
                let i = choose|i: int|
                    0 <= i < rest.len() && board_of_vars(rest) == #[trigger] board_of_var(rest[i])
                        && (forall|j: int| 0 <= j < i ==> (#[trigger] board_of_var(rest[j])) is None);
                assert(vars[i + 1] == rest[i]);
                assert forall|j: int| 0 <= j < i + 1 implies (#[trigger] board_of_var(vars[j])) is None by {
                    if j > 0 {
                        assert(vars[j] == rest[j - 1]);
                        assert(board_of_var(rest[j - 1]) is None);
                    }
                }
                assert(board_of_vars(vars) == board_of_var(vars[i + 1]));
            }
        }
    }
}

/// The board listing is a heading followed by one tab-indented line per
/// board, in the order micro:bit, Pico, Pico W.
pub proof fn lemma_listing_lines()
    ensures
        listing_lines(board_table()) == seq![
            "Supported boards:"@,
            "\t"@ + "microbit"@,
            "\t"@ + "rpi-pico"@,
            "\t"@ + "rpi-pico-w"@,
        ],
{
    assert(listing_lines(board_table()) =~= seq![
        "Supported boards:"@,
        "\t"@ + "microbit"@,
        "\t"@ + "rpi-pico"@,
        "\t"@ + "rpi-pico-w"@,
    ]);
}

/// Where a rule stands in the order in which the checks are made.
pub open spec fn rule_rank(e: SignatureError) -> int {
    match e {
        SignatureError::NotAsync => 0,
        SignatureError::AbiQualifier => 1,
        SignatureError::Variadic => 2,
        SignatureError::ReturnType => 3,
        SignatureError::ArgumentCount => 4,
    }
}

/// Each rule is reported exactly when `main` breaks it (a non-`async` fn, an
/// ABI qualifier, a variadic list, a return type other than none, `()` or
/// `!`, a parameter count other than two), at most once, and the reports
/// come in the order the rules are checked.
pub proof fn lemma_signature_reports(sig: MainSignature)
    ensures
        signature_errors(sig).contains(SignatureError::NotAsync) <==> !sig.is_async,
        signature_errors(sig).contains(SignatureError::AbiQualifier) <==> sig.has_abi,
        signature_errors(sig).contains(SignatureError::Variadic) <==> sig.is_variadic,
        signature_errors(sig).contains(SignatureError::ReturnType) <==> !(
        sig.output == DeclaredReturn::Omitted || sig.output == DeclaredReturn::Tuple(0)
            || sig.output == DeclaredReturn::Never),
        signature_errors(sig).contains(SignatureError::ArgumentCount) <==> sig.arg_count != 2,
        in_rule_order(signature_errors(sig)),
{
    let ret_ok = sig.output == DeclaredReturn::Omitted || sig.output == DeclaredReturn::Tuple(0)
        || sig.output == DeclaredReturn::Never;
    let s0 = if !sig.is_async {
        seq![SignatureError::NotAsync]
    } else {
        Seq::empty()
    };
    let s1 = if sig.has_abi {
        seq![SignatureError::AbiQualifier]
    } else {
        Seq::empty()
    };
    let s2 = if sig.is_variadic {
        seq![SignatureError::Variadic]
    } else {
        Seq::empty()
    };
    let s3 = if !ret_ok {
        seq![SignatureError::ReturnType]
    } else {
        Seq::empty()
    };
    let s4 = if sig.arg_count != 2 {
        seq![SignatureError::ArgumentCount]
    } else {
        Seq::empty()
    };
    assert(signature_errors(sig) == s0 + s1 + s2 + s3 + s4);
    lemma_extend_ranked(Seq::empty(), s0, 0);
    assert(Seq::<SignatureError>::empty() + s0 =~= s0);
    lemma_extend_ranked(s0, s1, 1);
    lemma_extend_ranked(s0 + s1, s2, 2);
    lemma_extend_ranked(s0 + s1 + s2, s3, 3);
    lemma_extend_ranked(s0 + s1 + s2 + s3, s4, 4);
    lemma_singleton_contains(SignatureError::NotAsync);
    lemma_singleton_contains(SignatureError::AbiQualifier);
    lemma_singleton_contains(SignatureError::Variadic);
    lemma_singleton_contains(SignatureError::ReturnType);
    lemma_singleton_contains(SignatureError::ArgumentCount);
    assert((s0 + s1 + s2 + s3 + s4).contains(SignatureError::NotAsync) == (s0.contains(SignatureError::NotAsync) || s1.contains(SignatureError::NotAsync)
        || s2.contains(SignatureError::NotAsync) || s3.contains(SignatureError::NotAsync) || s4.contains(SignatureError::NotAsync)));
    assert((s0 + s1 + s2 + s3 + s4).contains(SignatureError::AbiQualifier) == (s0.contains(SignatureError::AbiQualifier) || s1.contains(SignatureError::AbiQualifier)
        || s2.contains(SignatureError::AbiQualifier) || s3.contains(SignatureError::AbiQualifier) || s4.contains(SignatureError::AbiQualifier)));
    assert((s0 + s1 + s2 + s3 + s4).contains(SignatureError::Variadic) == (s0.contains(SignatureError::Variadic) || s1.contains(SignatureError::Variadic)
        || s2.contains(SignatureError::Variadic) || s3.contains(SignatureError::Variadic) || s4.contains(SignatureError::Variadic)));
    assert((s0 + s1 + s2 + s3 + s4).contains(SignatureError::ReturnType) == (s0.contains(SignatureError::ReturnType) || s1.contains(SignatureError::ReturnType)
        || s2.contains(SignatureError::ReturnType) || s3.contains(SignatureError::ReturnType) || s4.contains(SignatureError::ReturnType)));
    assert((s0 + s1 + s2 + s3 + s4).contains(SignatureError::ArgumentCount) == (s0.contains(SignatureError::ArgumentCount) || s1.contains(SignatureError::ArgumentCount)
        || s2.contains(SignatureError::ArgumentCount) || s3.contains(SignatureError::ArgumentCount) || s4.contains(SignatureError::ArgumentCount)));
}

/// Every rule in `s` comes after the ones before it in the check order.
pub open spec fn in_rule_order(s: Seq<SignatureError>) -> bool {
    forall|i: int, j: int| 0 <= i < j < s.len() ==> rule_rank(s[i]) < rule_rank(s[j])
}

proof fn lemma_singleton_contains(x: SignatureError)
    ensures
        forall|y: SignatureError| seq![x].contains(y) <==> y == x,
        forall|y: SignatureError| !Seq::<SignatureError>::empty().contains(y),
{
    assert(seq![x][0] == x);
}

proof fn lemma_extend_ranked(s: Seq<SignatureError>, t: Seq<SignatureError>, k: int)
    requires
        in_rule_order(s),
        forall|i: int| 0 <= i < s.len() ==> rule_rank(#[trigger] s[i]) < k,
        t.len() <= 1,
        forall|i: int| 0 <= i < t.len() ==> rule_rank(#[trigger] t[i]) == k,
    ensures
        in_rule_order(s + t),
        forall|i: int| 0 <= i < (s + t).len() ==> rule_rank(#[trigger] (s + t)[i]) <= k,
        forall|x: SignatureError| (s + t).contains(x) <==> s.contains(x) || t.contains(x),
{
    let u = s + t;
    assert forall|x: SignatureError| u.contains(x) implies s.contains(x) || t.contains(x) by {
        let i = choose|i: int| 0 <= i < u.len() && u[i] == x;
        if i < s.len() {
            assert(s[i] == x);
        } else {
            assert(t[i - s.len()] == x);
        }
    }
    assert forall|x: SignatureError| s.contains(x) || t.contains(x) implies u.contains(x) by {
        if s.contains(x) {
            let i = choose|i: int| 0 <= i < s.len() && s[i] == x;
            assert(u[i] == x);
        } else {
            let i = choose|i: int| 0 <= i < t.len() && t[i] == x;
            assert(u[s.len() + i] == x);
        }
    }
    assert forall|i: int, j: int| 0 <= i < j < u.len() implies rule_rank(u[i]) < rule_rank(
        u[j],
    ) by {
        if j >= s.len() {
            assert(u[j] == t[j - s.len()]);
            assert(i < s.len());
            assert(u[i] == s[i]);
        }
    }
    assert forall|i: int| 0 <= i < u.len() implies rule_rank(#[trigger] u[i]) <= k by {
        if i < s.len() {
            assert(u[i] == s[i]);
        } else {
            assert(u[i] == t[i - s.len()]);
        }
    }
}

/// A word goes out most significant bit first: the first data bit written
/// is the word's top bit and the last is its lowest bit.
pub proof fn lemma_write_msb_first(w: u32)
    ensures
        word_bits_spec(w)[0] == (w >= 0x8000_0000),
        word_bits_spec(w)[31] == (w % 2 == 1),
        write_schedule(seq![w])[2] == if w >= 0x8000_0000 {
            PinAction::DataHigh
        } else {
            PinAction::DataLow
        },
{
    assert(((w >> 31u32) & 1u32 == 1u32) == (w >= 0x8000_0000u32)) by (bit_vector);
    assert(((w >> 0u32) & 1u32 == 1u32) == (w % 2 == 1)) by (bit_vector);
    crate::spi::lemma_read_returns_written_words(seq![w]);
    assert(seq![w].drop_last() =~= Seq::<u32>::empty());
    assert(seq![w].last() == w);
    let bits = word_bits_spec(w);
    crate::spi::lemma_bits_schedule_prefix(bits);
    assert(bits_schedule(bits)[3 * 0int] == PinAction::ClockLow);
    assert(words_schedule(Seq::<u32>::empty()) == Seq::<PinAction>::empty());
    assert(words_schedule(seq![w]) =~= bits_schedule(bits));
    assert(write_schedule(seq![w])[2] == bits_schedule(bits)[1]);
}

} // verus!
