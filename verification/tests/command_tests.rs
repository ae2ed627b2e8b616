use cargo_teensy::command::{
    build_command, cargo_new_command, make_hex_command, rustup_show_command, upload_command,
};

#[test]
fn build_command_is_the_release_cross_build() {
    let c = build_command();
    assert_eq!(c.program, "cargo");
    assert_eq!(
        c.args,
        vec![
            "build",
            "--verbose",
            "--release",
            "--target=thumbv7em-none-eabi",
            "--features",
            "mcu_k20",
        ]
    );
}

#[test]
fn make_hex_command_names_artifact_and_image() {
    let (c, hexfile) = make_hex_command("blink");
    assert_eq!(hexfile, "target/thumbv7em-none-eabi/release/blink.hex");
    assert_eq!(c.program, "arm-none-eabi-objcopy");
    assert_eq!(
        c.args,
        vec![
            "-O",
            "ihex",
            "-R",
            ".eeprom",
            "target/thumbv7em-none-eabi/release/blink",
            "target/thumbv7em-none-eabi/release/blink.hex",
        ]
    );
}

#[test]
fn upload_command_without_flags_has_only_the_fixed_options() {
    let c = upload_command(false, false, false, "fw.hex");
    assert_eq!(c.program, "teensy_loader_cli");
    assert_eq!(c.args, vec!["-w", "--mcu", "mk20dx256", "fw.hex"]);
}

#[test]
fn upload_command_adds_one_option_per_reboot_flag() {
    let c = upload_command(true, true, true, "fw.hex");
    assert_eq!(
        c.args,
        vec!["-w", "--mcu", "mk20dx256", "-n", "-r", "-s", "fw.hex"]
    );
}

#[test]
fn upload_command_adds_only_the_set_flag() {
    let c = upload_command(false, true, false, "fw.hex");
    assert_eq!(c.args, vec!["-w", "--mcu", "mk20dx256", "-r", "fw.hex"]);
    let c = upload_command(false, false, true, "fw.hex");
    assert_eq!(c.args, vec!["-w", "--mcu", "mk20dx256", "-s", "fw.hex"]);
    let c = upload_command(true, false, false, "fw.hex");
    assert_eq!(c.args, vec!["-w", "--mcu", "mk20dx256", "-n", "fw.hex"]);
}

#[test]
fn cargo_new_command_creates_a_binary_project() {
    let c = cargo_new_command("blink");
    assert_eq!(c.program, "cargo");
    assert_eq!(c.args, vec!["new", "blink", "--bin"]);
}

#[test]
fn rustup_show_command_is_the_introspection_call() {
    let c = rustup_show_command();
    assert_eq!(c.program, "rustup");
    assert_eq!(c.args, vec!["show"]);
}
