//! What the framework's build step derives from the compilation target and
//! from the board feature that cargo hands it: the `rustc` configuration
//! flags, the selected board's name, and where its memory layout goes.

use vstd::prelude::*;
use crate::text::{ends_with, owned, push_char, starts_with};
use crate::cli::strings_view;

verus! {

/// The configuration flags a target triple turns on, in the order in which
/// they are emitted.
pub open spec fn target_cfgs(target: Seq<char>) -> Seq<Seq<char>> {
    let arch: Seq<Seq<char>> = if "thumbv6m-"@.is_prefix_of(target) {
        seq!["cortex_m"@, "armv6m"@]
    } else if "thumbv7m-"@.is_prefix_of(target) {
        seq!["cortex_m"@, "armv7m"@]
    } else if "thumbv7em-"@.is_prefix_of(target) {
        seq!["cortex_m"@, "armv7m"@, "armv7em"@]
    } else if "thumbv8m.base"@.is_prefix_of(target) {
        seq!["cortex_m"@, "armv8m"@, "armv8m_base"@]
    } else if "thumbv8m.main"@.is_prefix_of(target) {
        seq!["cortex_m"@, "armv8m"@, "armv8m_main"@]
    } else {
        Seq::empty()
    };
    if "-eabihf"@.is_suffix_of(target) {
        arch.push("has_fpu"@)
    } else {
        arch
    }
}

/// The build-script line that turns on configuration flag `cfg`.
pub open spec fn cfg_line(cfg: Seq<char>) -> Seq<char> {
    "cargo:rustc-cfg="@ + cfg
}

fn push_all(v: &mut Vec<String>, names: &[&str])
    ensures
        strings_view(final(v)@) == strings_view(old(v)@) + names@.map_values(|n: &str| n@),
{
    let mut i: usize = 0;
    while i < names.len()
        invariant
            i <= names@.len(),
            strings_view(v@) == strings_view(old(v)@) + names@.take(i as int).map_values(
                |n: &str| n@,
            ),
        decreases names@.len() - i,
    {
        let ghost before = v@;
        v.push(owned(names[i]));
        assert(strings_view(v@) =~= strings_view(before).push(names@[i as int]@));
        assert(names@.take(i + 1) =~= names@.take(i as int).push(names@[i as int]));
        assert(names@.take(i + 1).map_values(|n: &str| n@) =~= names@.take(i as int).map_values(
            |n: &str| n@,
        ).push(names@[i as int]@));
        i = i + 1;
    }
    assert(names@.take(names@.len() as int) =~= names@);
}

/// The configuration flags that `target` turns on.
pub fn rustc_cfgs(target: &str) -> (v: Vec<String>)
    ensures
        strings_view(v@) == target_cfgs(target@),
{
    let mut v: Vec<String> = Vec::new();
    if starts_with(target, "thumbv6m-") {
        push_all(&mut v, &["cortex_m", "armv6m"]);
    } else if starts_with(target, "thumbv7m-") {
        push_all(&mut v, &["cortex_m", "armv7m"]);
    } else if starts_with(target, "thumbv7em-") {
        push_all(&mut v, &["cortex_m", "armv7m", "armv7em"]);
    } else if starts_with(target, "thumbv8m.base") {
        push_all(&mut v, &["cortex_m", "armv8m", "armv8m_base"]);
    } else if starts_with(target, "thumbv8m.main") {
        push_all(&mut v, &["cortex_m", "armv8m", "armv8m_main"]);
    }
    if ends_with(target, "-eabihf") {
        push_all(&mut v, &["has_fpu"]);
    }
    assert(strings_view(v@) =~= target_cfgs(target@));
    v
}

/// The build-script line that turns on configuration flag `cfg`.
pub fn cfg_directive(cfg: &str) -> (line: String)
    ensures
        line@ == cfg_line(cfg@),
{
    let mut line: String = owned("cargo:rustc-cfg=");
    line.append(cfg);
    line
}

/// The prefix of the environment variable by which cargo tells the build
/// step that a `board+...` feature is on.
pub open spec fn board_var_prefix() -> Seq<char> {
    "CARGO_FEATURE_BOARD+"@
}

/// One character of a board directory name: ASCII upper case letters are
/// taken to lower case and `_` becomes `-`; any other character stays.
pub open spec fn board_dir_char(c: char) -> char {
    if c == '_' {
        '-'
    } else if 'A' <= c && c <= 'Z' {
        ((c as u32) + 32) as char
    } else {
        c
    }
}

/// The board directory name for the part of the feature variable that
/// follows the prefix.
pub open spec fn board_dir_name(rest: Seq<char>) -> Seq<char> {
    rest.map_values(|c: char| board_dir_char(c))
}

/// The board that an environment variable selects, if it is a board
/// feature variable.
pub open spec fn board_of_var(var: Seq<char>) -> Option<Seq<char>> {
    if board_var_prefix().is_prefix_of(var) {
        Some(board_dir_name(var.skip(board_var_prefix().len() as int)))
    } else {
        None
    }
}

/// The board selected by the first board feature variable among `vars`.
pub open spec fn board_of_vars(vars: Seq<Seq<char>>) -> Option<Seq<char>>
    decreases vars.len(),
{
    if vars.len() == 0 {
        None
    } else if board_of_var(vars[0]) is Some {
        board_of_var(vars[0])
    } else {
        board_of_vars(vars.drop_first())
    }
}

fn dir_char(c: char) -> (d: char)
    ensures
        d == board_dir_char(c),
{
    if c == '_' {
        '-'
    } else if 'A' <= c && c <= 'Z' {
        let b: u8 = c as u8;
        assert(b as int == c as int);
        ((b + 32) as char)
    } else {
        c
    }
}

/// The board that an environment variable selects: for a name that begins
/// with `CARGO_FEATURE_BOARD+`, the rest of it in lower case with `_`
/// turned to `-`; for any other name, none.
pub fn board_from_env_var(var: &str) -> (r: Option<String>)
    ensures
        match r {
            Some(name) => board_of_var(var@) == Some(name@),
            None => board_of_var(var@) is None,
        },
{
    if !starts_with(var, "CARGO_FEATURE_BOARD+") {
        return None;
    }
    let n: usize = var.unicode_len();
    let start: usize = 20;
    assert(board_var_prefix().len() == 20) by {
        reveal_strlit("CARGO_FEATURE_BOARD+");
    }
    let ghost rest = var@.skip(20);
    let mut name: String = String::new();
    let mut i: usize = start;
    while i < n
        invariant
            n == var@.len(),
            start == 20,
            start <= i <= n,
            rest == var@.skip(20),
            name@ =~= board_dir_name(rest.take(i - start)),
        decreases n - i,
    {
        let c: char = var.get_char(i);
        let d: char = dir_char(c);
        push_char(&mut name, d);
        assert(rest.take(i + 1 - start) =~= rest.take(i - start).push(c));
        i = i + 1;
    }
    assert(rest.take(n - start) =~= rest);
    Some(name)
}

/// The board selected by the first board feature variable among the names
/// of the environment variables, taken in the order given.
pub fn board_from_env_vars(vars: &Vec<String>) -> (r: Option<String>)
    ensures
        match r {
            Some(name) => board_of_vars(strings_view(vars@)) == Some(name@),
            None => board_of_vars(strings_view(vars@)) is None,
        },
{
    let ghost views = strings_view(vars@);
    assert(views.skip(0) =~= views);
    let mut i: usize = 0;
    while i < vars.len()
        invariant
            views == strings_view(vars@),
            i <= vars@.len(),
            board_of_vars(views) == board_of_vars(views.skip(i as int)),
        decreases vars@.len() - i,
    {
        assert(views.skip(i as int)[0] == vars@[i as int]@);
        assert(views.skip(i as int).drop_first() =~= views.skip(i + 1));
        match board_from_env_var(vars[i].as_str()) {
            Some(name) => {
                return Some(name);
            },
            None => {},
        }
        i = i + 1;
    }
    assert(views.skip(i as int).len() == 0);
    None
}

/// Where the build step finds and puts the selected board's memory layout,
/// and the lines it hands back to cargo.
pub struct MemoryLayout {
    /// The board's directory in the framework's sources.
    pub data_dir: String,
    /// The directory for the board under the build output directory.
    pub out_dir: String,
    /// The memory layout file written there.
    pub out_file: String,
    /// The build-script lines to print afterwards.
    pub directives: Vec<String>,
}

/// `out` followed by the board's directory under it.
pub open spec fn out_board_dir(out: Seq<char>, board: Seq<char>) -> Seq<char> {
    out + "/boards/"@ + board
}

/// The layout owed for build output directory `out` and board `board`.
pub open spec fn layout_of(m: MemoryLayout, out: Seq<char>, board: Seq<char>) -> bool {
    &&& m.data_dir@ == "src/boards/"@ + board
    &&& m.out_dir@ == out_board_dir(out, board)
    &&& m.out_file@ == out_board_dir(out, board) + "/memory.x"@
    &&& strings_view(m.directives@) == seq![
        "cargo:rerun-if-changed=build.rs"@,
        "cargo:rustc-link-search="@ + out_board_dir(out, board),
    ]
}

/// The paths and lines for copying board `board`'s memory layout into the
/// build output directory `out`.
pub fn memory_layout(out: &str, board: &str) -> (m: MemoryLayout)
    ensures
        layout_of(m, out@, board@),
{
    let mut data_dir: String = owned("src/boards/");
    data_dir.append(board);
    let mut out_dir: String = owned(out);
    out_dir.append("/boards/");
    out_dir.append(board);
    let mut out_file: String = out_dir.clone();
    out_file.append("/memory.x");
    let mut link: String = owned("cargo:rustc-link-search=");
    link.append(out_dir.as_str());
    let mut directives: Vec<String> = Vec::new();
    directives.push(owned("cargo:rerun-if-changed=build.rs"));
    directives.push(link);
    let m = MemoryLayout { data_dir, out_dir, out_file, directives };
    assert(strings_view(m.directives@) =~= seq![
        "cargo:rerun-if-changed=build.rs"@,
        "cargo:rustc-link-search="@ + out_board_dir(out@, board@),
    ]);
    m
}

} // verus!
