use my_agent::tools::{apply_edit, format_bash_output, is_readonly_bash};

#[test]
fn readonly_commands_classified() {
    assert!(is_readonly_bash("ls -la"));
    assert!(is_readonly_bash("cat file.txt"));
    assert!(is_readonly_bash("git status"));
    assert!(is_readonly_bash("grep -r foo src | head"));
    assert!(is_readonly_bash("git log --oneline"));
}

#[test]
fn mutating_commands_not_readonly() {
    assert!(!is_readonly_bash("rm -rf x"));
    assert!(!is_readonly_bash("git commit -m x"));
    assert!(!is_readonly_bash("cargo build"));
    assert!(!is_readonly_bash("ls && rm x"));
    assert!(!is_readonly_bash("echo hi > file"));
    assert!(!is_readonly_bash(""));
}

#[test]
fn pipes_of_readonly_commands_are_readonly() {
    assert!(is_readonly_bash("cat a.txt | grep x | wc -l"));
    assert!(is_readonly_bash("  pwd ; ls  "));
    assert!(is_readonly_bash("git diff\ngit show HEAD"));
}

#[test]
fn separators_and_redirects_make_commands_mutating() {
    assert!(!is_readonly_bash("ls |"));
    assert!(!is_readonly_bash("ls; rm -rf /"));
    assert!(!is_readonly_bash("cat x 2> err.txt"));
    assert!(!is_readonly_bash("   "));
    assert!(!is_readonly_bash("LS"));
}

#[test]
fn bash_report_formats_exit_code_and_streams() {
    assert_eq!(format_bash_output(Some(0), "out", "err"), "exit=0\nstdout:\nout\nstderr:\nerr");
    assert_eq!(format_bash_output(Some(127), "", "not found"), "exit=127\nstdout:\n\nstderr:\nnot found");
    assert_eq!(format_bash_output(None, "a", ""), "exit=-1\nstdout:\na\nstderr:\n");
    assert_eq!(format_bash_output(Some(i32::MIN), "", ""), "exit=-2147483648\nstdout:\n\nstderr:\n");
}

#[test]
fn edit_replaces_only_the_first_occurrence() {
    assert_eq!(apply_edit("a b a", "a", "c"), Some("c b a".to_string()));
    assert_eq!(apply_edit("hello", "xyz", "q"), None);
    assert_eq!(apply_edit("héllo wörld", "wö", "WO"), Some("héllo WOrld".to_string()));
    assert_eq!(apply_edit("abc", "", "X"), Some("Xabc".to_string()));
}

#[test]
fn find_that_acts_is_mutating() {
    assert!(!is_readonly_bash("find . -delete"));
    assert!(!is_readonly_bash("find . -name x -exec rm {} +"));
    assert!(!is_readonly_bash("find src -execdir touch y {} +"));
    assert!(!is_readonly_bash("find . -ok rm {} +"));
    assert!(!is_readonly_bash("find . -fprint out.txt"));
    assert!(!is_readonly_bash("find / -fls listing"));
    assert!(is_readonly_bash("find . -name '*.rs'"));
    assert!(is_readonly_bash("find"));
}

#[test]
fn readonly_commands_match_by_prefix() {
    assert!(is_readonly_bash("lsblk"));
    assert!(is_readonly_bash("lsof -i"));
    assert!(is_readonly_bash("findmnt"));
    assert!(is_readonly_bash("pwdx 1"));
    assert!(is_readonly_bash("git show-branch"));
    assert!(is_readonly_bash("cat<file"));
    assert!(is_readonly_bash("ls\t-l"));
    assert!(!is_readonly_bash("git stash"));
}
