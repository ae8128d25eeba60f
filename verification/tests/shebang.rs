use litebox::errno::Errno;
use litebox::shim::shebang::{parse_shebang, resolve_shebang, Shebang};

#[test]
fn test_parse_shebang_basic() {
    // Basic interpreter only
    assert_eq!(
        parse_shebang(b"#!/bin/bash\necho hello\n"),
        Some(("/bin/bash", None))
    );

    // Interpreter with single argument
    assert_eq!(
        parse_shebang(b"#!/usr/bin/env python3\nimport sys\n"),
        Some(("/usr/bin/env", Some("python3")))
    );

    // Leading spaces after #!
    assert_eq!(parse_shebang(b"#!  /bin/sh\n"), Some(("/bin/sh", None)));

    // Trailing spaces
    assert_eq!(parse_shebang(b"#!/bin/sh  \n"), Some(("/bin/sh", None)));

    // Argument with extra whitespace
    assert_eq!(
        parse_shebang(b"#!/usr/bin/env  -S python3\n"),
        Some(("/usr/bin/env", Some("-S python3")))
    );

    // No newline (truncated line, still valid)
    assert_eq!(parse_shebang(b"#!/bin/bash"), Some(("/bin/bash", None)));

    // Not a shebang
    assert_eq!(parse_shebang(b"\x7fELF"), None);

    // Empty after #!
    assert_eq!(parse_shebang(b"#!\n"), None);

    // Too short
    assert_eq!(parse_shebang(b"#"), None);
    assert_eq!(parse_shebang(b""), None);

    // Tab separator
    assert_eq!(
        parse_shebang(b"#!/usr/bin/env\tpython3\n"),
        Some(("/usr/bin/env", Some("python3")))
    );
}

#[test]
fn shebang_lines_must_be_text() {
    assert_eq!(parse_shebang(b"#!/bin/\xff\n"), None);
    assert_eq!(parse_shebang(b"#! \t \n"), None);
    // White space beyond ASCII is trimmed too, but only blanks and tabs separate.
    assert_eq!(
        parse_shebang("#!\u{3000}/bin/sh\u{a0}-x\n".as_bytes()),
        Some(("/bin/sh\u{a0}-x", None))
    );
}

fn args(list: &[&str]) -> Vec<Vec<u8>> {
    list.iter().map(|s| s.as_bytes().to_vec()).collect()
}

#[test]
fn search_follows_interpreters() {
    let search = resolve_shebang("/home/run.py".to_string(), args(&["run.py", "a", "b"]));
    assert_eq!(search.path(), Some("/home/run.py"));
    let search = search.advance(Ok(b"#!/usr/bin/env -S python3\n"));
    assert_eq!(search.path(), Some("/usr/bin/env"));
    match search.advance(Ok(b"\x7fELF")) {
        Shebang::Found { path, argv } => {
            assert_eq!(path, "/usr/bin/env");
            assert_eq!(
                argv,
                args(&["/usr/bin/env", "-S python3", "/home/run.py", "a", "b"])
            );
        }
        _ => panic!("the program should have been found"),
    }
}

#[test]
fn search_without_interpreter_changes_nothing() {
    let search = resolve_shebang("/bin/ls".to_string(), args(&["ls"]));
    match search.advance(Ok(b"\x7fELF")) {
        Shebang::Found { path, argv } => {
            assert_eq!(path, "/bin/ls");
            assert_eq!(argv, args(&["ls"]));
        }
        _ => panic!("the program should have been found"),
    }
}

#[test]
fn search_gives_up_on_loops() {
    let mut search = resolve_shebang("/loop".to_string(), Vec::new());
    let mut files = 0;
    while search.path().is_some() {
        search = search.advance(Ok(b"#!/loop\n"));
        files += 1;
    }
    assert_eq!(files, 6);
    assert!(matches!(search, Shebang::Failed(Errno::ELOOP)));
}

#[test]
fn search_passes_errors_on() {
    let search = resolve_shebang("/none".to_string(), Vec::new());
    assert!(matches!(
        search.advance(Err(Errno::ENOENT)),
        Shebang::Failed(Errno::ENOENT)
    ));
    let search = resolve_shebang("/zero".to_string(), Vec::new());
    assert!(matches!(
        search.advance(Ok(b"#!/bin/s\0h\n")),
        Shebang::Failed(Errno::EINVAL)
    ));
}
