use jura_os::QemuExitCode;

#[test]
fn exit_codes_are_the_values_of_the_exit_port() {
    assert_eq!(QemuExitCode::Success.code(), 0x10);
    assert_eq!(QemuExitCode::Failed.code(), 0x11);
    assert_ne!(QemuExitCode::Success, QemuExitCode::Failed);
}
