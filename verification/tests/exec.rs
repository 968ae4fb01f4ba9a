//! A program to run and the environment it inherits.

use nomux::exec::{environment, exec_answer, key_of, shadowed, Program, REPORT_LEN};
use nomux::trouble::Kind;

/// Rows of bytes.
fn rows(entries: &[&[u8]]) -> Vec<Vec<u8>> {
    entries.iter().map(|entry| entry.to_vec()).collect()
}

#[test]
fn an_override_shadows_only_the_variable_it_names() {
    let overrides = rows(&[b"TERM=xterm", b"NOMUX_SESSION=work"]);

    for shadow in [b"TERM=vt100".as_slice(), b"TERM=", b"NOMUX_SESSION=other"] {
        assert!(
            shadowed(shadow, &overrides),
            "{shadow:?} names an overridden variable and must not reach the child"
        );
    }
    for kept in [
        b"TERMINAL=x".as_slice(),
        b"TERMCAP=x",
        b"NOMUX_SESSION_ID=x",
        b"PATH=/bin",
        // No `=` at all: not a variable, so not one this can be asked to override.
        b"MALFORMED",
        b"",
    ] {
        assert!(
            !shadowed(kept, &overrides),
            "{kept:?} names no overridden variable and must reach the child unchanged"
        );
    }
}

#[test]
fn an_environment_entry_that_could_not_be_read_back_is_refused() {
    let mut program = Program::new(b"/bin/sh", b"sh").expect("a program path with no NUL in it");
    for (key, value) in [
        ("", b"x".as_slice()),
        ("A=B", b"x"),
        ("A\0B", b"x"),
        ("A", b"x\0y"),
    ] {
        assert_eq!(
            program.env(key.as_bytes(), value),
            Err(Kind::InvalidInput),
            "{key:?}={value:?} is not an entry a child could read back"
        );
    }
    assert!(
        program.args.first().is_some_and(|argv0| argv0 == b"sh"),
        "argv[0] is the name the program is run under, not the path it is loaded from"
    );
}

/// A NUL is refused wherever it would end a string early, and changes nothing.
#[test]
fn a_nul_is_refused_everywhere() {
    assert_eq!(Program::new(b"/bin\0/sh", b"sh").err(), Some(Kind::InvalidInput));
    assert_eq!(Program::new(b"/bin/sh", b"s\0h").err(), Some(Kind::InvalidInput));
    let mut program = Program::new(b"/bin/sh", b"-sh").unwrap();
    assert_eq!(program.arg(b"a\0b"), Err(Kind::InvalidInput));
    assert_eq!(program.current_dir(b"/\0"), Err(Kind::InvalidInput));
    assert_eq!(program.arg(b"ab"), Ok(()));
    assert_eq!(program.current_dir(b"/tmp"), Ok(()));
    assert_eq!(program.args, rows(&[b"-sh", b"ab"]));
    assert_eq!(program.dir.as_deref(), Some(b"/tmp".as_slice()));
}

/// Setting a variable again replaces it, and leaves the others in their order.
#[test]
fn a_variable_is_set_once() {
    let mut program = Program::new(b"/bin/sh", b"sh").unwrap();
    program.env(b"A", b"1").unwrap();
    program.env(b"B", b"2").unwrap();
    program.env(b"A", b"3=4").unwrap();
    assert_eq!(program.overrides, rows(&[b"B=2", b"A=3=4"]));
    assert_eq!(key_of(b"A=3=4"), Some(b"A".as_slice()));
    assert_eq!(key_of(b"A"), None);
}

/// What the first entry that names `key` says.
fn read<'a>(env: &'a [Vec<u8>], key: &[u8]) -> Option<&'a [u8]> {
    env.iter()
        .find(|entry| key_of(entry) == Some(key))
        .map(|entry| entry.as_slice())
}

/// A child reads an override under its key and what it inherited under every other, even
/// where the inherited environment holds a variable twice.
#[test]
fn a_child_reads_overrides_first_and_inherits_the_rest() {
    let inherited = rows(&[b"TERM=a", b"PATH=/bin", b"TERM=b", b"odd", b"PATH=/usr/bin"]);
    let overrides = rows(&[b"TERM=xterm", b"NEW=1"]);
    let env = environment(&inherited, &overrides);
    assert_eq!(
        env,
        rows(&[b"PATH=/bin", b"odd", b"PATH=/usr/bin", b"TERM=xterm", b"NEW=1"])
    );
    assert_eq!(read(&env, b"TERM"), Some(b"TERM=xterm".as_slice()));
    assert_eq!(read(&env, b"PATH"), Some(b"PATH=/bin".as_slice()));
    assert_eq!(read(&env, b"NEW"), Some(b"NEW=1".as_slice()));
    assert_eq!(read(&env, b"GONE"), None);
}

/// A child that failed is heard by its number, and one that became its program by silence.
#[test]
fn a_failed_exec_is_heard() {
    for number in [2, 13, 0, 1, 256, -1, i32::MAX, i32::MIN] {
        let report = number.to_ne_bytes();
        assert_eq!(report.len(), REPORT_LEN);
        let heard = i32::from_ne_bytes(report);
        assert_eq!(exec_answer(report.len(), heard), Some(number));
        for cut in 0..REPORT_LEN {
            assert_eq!(exec_answer(cut, heard), None, "a report cut short says nothing");
        }
    }
}
