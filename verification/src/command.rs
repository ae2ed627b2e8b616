//! Exact command lines for every external process the tool spawns.
//!
//! Each builder pins down the program name and the full argument list,
//! so that the binary around the library can only run precisely the
//! commands stated here.

use vstd::prelude::*;

verus! {

/// A command line: the program to spawn and its arguments, in order.
pub struct CmdSpec {
    pub program: String,
    pub args: Vec<String>,
}

/// The compile stage: a release cross-build for the board's target.
pub fn build_command() -> (r: CmdSpec)
    ensures
        r.program@ == "cargo"@,
        r.args@.len() == 6,
        r.args@[0]@ == "build"@,
        r.args@[1]@ == "--verbose"@,
        r.args@[2]@ == "--release"@,
        r.args@[3]@ == "--target=thumbv7em-none-eabi"@,
        r.args@[4]@ == "--features"@,
        r.args@[5]@ == "mcu_k20"@,
{
    let mut args: Vec<String> = Vec::new();
    args.push(String::from_str("build"));
    args.push(String::from_str("--verbose"));
    args.push(String::from_str("--release"));
    args.push(String::from_str("--target=thumbv7em-none-eabi"));
    args.push(String::from_str("--features"));
    args.push(String::from_str("mcu_k20"));
    CmdSpec { program: String::from_str("cargo"), args }
}

/// The release directory the compile stage drops the artifact in.
pub open spec fn release_dir() -> Seq<char> {
    "target/thumbv7em-none-eabi/release/"@
}

/// The convert stage: turn the built artifact into a flashable hex
/// image, and the path that image is written to.
pub fn make_hex_command(binname: &str) -> (r: (CmdSpec, String))
    ensures
        r.0.program@ == "arm-none-eabi-objcopy"@,
        r.0.args@.len() == 6,
        r.0.args@[0]@ == "-O"@,
        r.0.args@[1]@ == "ihex"@,
        r.0.args@[2]@ == "-R"@,
        r.0.args@[3]@ == ".eeprom"@,
        r.0.args@[4]@ == release_dir() + binname@,
        r.0.args@[5]@ == r.1@,
        r.1@ == release_dir() + binname@ + ".hex"@,
{
    let elf = String::from_str("target/thumbv7em-none-eabi/release/").concat(binname);
    let hexfile = elf.clone().concat(".hex");
    let mut args: Vec<String> = Vec::new();
    args.push(String::from_str("-O"));
    args.push(String::from_str("ihex"));
    args.push(String::from_str("-R"));
    args.push(String::from_str(".eeprom"));
    args.push(elf);
    args.push(hexfile.clone());
    (CmdSpec { program: String::from_str("arm-none-eabi-objcopy"), args }, hexfile)
}

/// The argument list of the flash stage: the fixed options, then one
/// reboot option for each flag that is set, then the hex image's path.
pub open spec fn upload_args_spec(
    no_reboot: bool,
    hard_reboot: bool,
    soft_reboot: bool,
    hexfile: Seq<char>,
) -> Seq<Seq<char>> {
    let base = seq!["-w"@, "--mcu"@, "mk20dx256"@];
    let with_n = if no_reboot {
        base.push("-n"@)
    } else {
        base
    };
    let with_r = if hard_reboot {
        with_n.push("-r"@)
    } else {
        with_n
    };
    let with_s = if soft_reboot {
        with_r.push("-s"@)
    } else {
        with_r
    };
    with_s.push(hexfile)
}

/// The flash stage: hand the hex image to the device-flashing utility,
/// with the reboot behaviour the flags ask for.
pub fn upload_command(
    no_reboot: bool,
    hard_reboot: bool,
    soft_reboot: bool,
    hexfile: &str,
) -> (r: CmdSpec)
    ensures
        r.program@ == "teensy_loader_cli"@,
        r.args.deep_view() == upload_args_spec(no_reboot, hard_reboot, soft_reboot, hexfile@),
{
    let mut args: Vec<String> = Vec::new();
    args.push(String::from_str("-w"));
    args.push(String::from_str("--mcu"));
    args.push(String::from_str("mk20dx256"));
    if no_reboot {
        args.push(String::from_str("-n"));
    }
    if hard_reboot {
        args.push(String::from_str("-r"));
    }
    if soft_reboot {
        args.push(String::from_str("-s"));
    }
    args.push(String::from_str(hexfile));
    proof {
        assert(args.deep_view() =~= upload_args_spec(no_reboot, hard_reboot, soft_reboot, hexfile@));
    }
    CmdSpec { program: String::from_str("teensy_loader_cli"), args }
}

/// The scaffolding step that creates the new project directory.
pub fn cargo_new_command(name: &str) -> (r: CmdSpec)
    ensures
        r.program@ == "cargo"@,
        r.args@.len() == 3,
        r.args@[0]@ == "new"@,
        r.args@[1]@ == name@,
        r.args@[2]@ == "--bin"@,
{
    let mut args: Vec<String> = Vec::new();
    args.push(String::from_str("new"));
    args.push(String::from_str(name));
    args.push(String::from_str("--bin"));
    CmdSpec { program: String::from_str("cargo"), args }
}

/// The toolchain introspection command whose output names the active
/// toolchain.
pub fn rustup_show_command() -> (r: CmdSpec)
    ensures
        r.program@ == "rustup"@,
        r.args@.len() == 1,
        r.args@[0]@ == "show"@,
{
    let mut args: Vec<String> = Vec::new();
    args.push(String::from_str("show"));
    CmdSpec { program: String::from_str("rustup"), args }
}

} // verus!
