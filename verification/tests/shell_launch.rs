use kernel_core::abi::{errmsg, E2BIG, EACCES, EIO, ENOENT, ENOTDIR, EISDIR};
use kernel_core::exec::elfparse::ElfError;
use kernel_core::exec::process::LaunchError;
use kernel_core::shell::launch::{launch_refusal, launch_report, name_error, program_paths, search_failure};

#[test]
fn error_codes_read_as_the_c_library_words_them() {
    assert_eq!(errmsg(ENOENT), "No such file or directory");
    assert_eq!(errmsg(EACCES), "Permission denied");
    assert_eq!(errmsg(EISDIR), "Is a directory");
    assert_eq!(errmsg(E2BIG), "Argument list too long");
    assert_eq!(errmsg(-1000), "Unknown error");
}

#[test]
fn a_bare_name_is_looked_up_in_bin_then_with_exe() {
    assert_eq!(program_paths("cat", "/home"), Ok(vec!["/bin/cat".to_string(), "/bin/cat.exe".to_string()]));
}

#[test]
fn a_word_with_a_slash_is_a_path_from_the_working_directory() {
    assert_eq!(program_paths("./prog", "/tests"), Ok(vec!["/tests/prog".to_string()]));
    assert_eq!(program_paths("/bin/../bin/ls", "/"), Ok(vec!["/bin/ls".to_string()]));
    assert_eq!(program_paths("x/", "/"), Ok(vec!["/x".to_string()]));
}

#[test]
fn a_missing_bare_name_moves_on_and_then_is_not_found() {
    assert_eq!(search_failure(true, ENOENT, false), None);
    assert_eq!(search_failure(true, ENOTDIR, false), None);
    assert_eq!(search_failure(true, ENOENT, true), Some("command not found"));
    assert_eq!(search_failure(true, EIO, false), Some("Input/output error"));
    assert_eq!(search_failure(false, ENOENT, true), Some("No such file or directory"));
}

#[test]
fn a_program_must_be_a_runnable_file_of_bounded_size() {
    assert_eq!(launch_refusal("bin", true, 0x30, 0, 100), Some("bin: Is a directory".to_string()));
    assert_eq!(launch_refusal("notes", false, 0x00, 10, 100), Some("notes: Permission denied".to_string()));
    assert_eq!(launch_refusal("big", false, 0x20, 101, 100), Some("big: cannot execute: Exec format error".to_string()));
    assert_eq!(launch_refusal("ok", false, 0x21, 100, 100), None);
}

#[test]
fn what_is_reported_after_a_run() {
    assert_eq!(launch_report("p", Ok(0)), None);
    assert_eq!(launch_report("p", Ok(3)), Some("exit 3".to_string()));
    assert_eq!(launch_report("p", Ok(-1)), Some("exit -1".to_string()));
    assert_eq!(launch_report("p", Ok(139)), Some("exit 139".to_string()));
    assert_eq!(launch_report("p", Ok(i32::MIN)), Some("exit -2147483648".to_string()));
    assert_eq!(launch_report("p", Err(LaunchError::ArgsTooBig)), Some("p: Argument list too long".to_string()));
    assert_eq!(
        launch_report("p", Err(LaunchError::Elf(ElfError::WrongMachine))),
        Some("p: cannot execute: Exec format error".to_string())
    );
}

#[test]
fn a_name_and_an_error() {
    assert_eq!(name_error("out.txt", EACCES), "out.txt: Permission denied");
}
