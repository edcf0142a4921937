use method_studio::locate::platform_dir;
use method_studio::locate::python_executable;
use method_studio::locate::rscript_executable;

#[test]
fn test_platform_constants() {
    assert_eq!(platform_dir("macos", "aarch64"), "macos-arm64");
    assert_eq!(platform_dir("macos", "x86_64"), "macos-x64");
    assert_eq!(platform_dir("windows", "x86_64"), "windows-x64");
}

#[test]
fn test_executable_names() {
    assert_eq!(rscript_executable("windows"), "Rscript.exe");
    assert_eq!(python_executable("windows"), "python.exe");
    assert_eq!(rscript_executable("macos"), "Rscript");
    assert_eq!(python_executable("macos"), "python3");
}

#[test]
fn platform_fallback_is_unsupported() {
    assert_eq!(platform_dir("freebsd", "riscv64"), "unsupported");
    assert_eq!(platform_dir("linux", "x86_64"), "linux-x64");
}
