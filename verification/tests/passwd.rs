//! The password database.

use nomux::passwd::lookup;

const SAMPLE: &[u8] = b"root:x:0:0:root:/root:/bin/bash\n\
                        daemon:x:1:1:daemon:/usr/sbin:/usr/sbin/nologin\n\
                        noshell:x:1000:1000:No Shell:/home/noshell:\n\
                        fornwall:x:1001:1001:Fredrik,,,:/home/fornwall:/usr/bin/zsh\n";

/// The name and the shell found for a uid.
fn found(contents: &[u8], uid: u32) -> Option<(String, Option<Vec<u8>>)> {
    lookup(contents, uid).map(|entry| (entry.name, entry.shell))
}

#[test]
fn finds_the_name_and_shell_for_a_uid() {
    assert_eq!(
        found(SAMPLE, 1001),
        Some(("fornwall".to_owned(), Some(b"/usr/bin/zsh".to_vec())))
    );
    assert_eq!(lookup(SAMPLE, 0).unwrap().name, "root");
}

#[test]
fn an_empty_shell_field_is_absent_rather_than_empty() {
    assert_eq!(lookup(SAMPLE, 1000).unwrap().shell, None);
}

#[test]
fn an_unknown_uid_is_a_miss() {
    assert_eq!(found(SAMPLE, 4242), None);
}

/// One unparseable line must not hide the entries around it, and a uid field that is not a
/// number must never be read as uid 0.
#[test]
fn malformed_lines_are_skipped() {
    let contents = b"\n\
                     garbage\n\
                     short:x\n\
                     bad:x:notanumber:0::/:/bin/sh\n\
                     real:x:7:7::/home/real:/bin/dash\n";
    assert_eq!(found(contents, 0), None);
    assert_eq!(
        found(contents, 7),
        Some(("real".to_owned(), Some(b"/bin/dash".to_vec())))
    );
}

/// `ö` as the single byte 0xF6 is what an account predating the host's move to UTF-8 still
/// carries, and decoding the file as text fails on all of it at once.
#[test]
fn a_latin_1_gecos_field_costs_nobody_their_shell() {
    let contents = b"bjorn:x:1000:1000:Bj\xf6rn Str\xf6m:/home/bjorn:/bin/bash\n\
                     fornwall:x:1001:1001:Fredrik,,,:/home/fornwall:/usr/bin/zsh\n";
    // Not the user whose line holds the byte, ...
    assert_eq!(
        lookup(contents, 1001).unwrap().shell,
        Some(b"/usr/bin/zsh".to_vec())
    );
    // ... and not that user either, whose own two fields are ASCII.
    assert_eq!(
        found(contents, 1000),
        Some(("bjorn".to_owned(), Some(b"/bin/bash".to_vec())))
    );
}

/// A path is bytes all the way to the program it names.
#[test]
fn a_shell_path_outside_utf8_survives_as_its_bytes() {
    assert_eq!(
        lookup(b"odd:x:5:5::/home/odd:/opt/sh\xff\n", 5)
            .unwrap()
            .shell,
        Some(b"/opt/sh\xff".to_vec())
    );
}

/// A login name outside UTF-8 loses its own line, and only its own line.
#[test]
fn a_name_outside_utf8_skips_only_its_own_line() {
    let contents = b"o\xffdd:x:9:9::/home/odd:/bin/dash\n\
                     real:x:10:10::/home/real:/bin/bash\n";
    assert_eq!(found(contents, 9), None);
    assert_eq!(lookup(contents, 10).unwrap().name, "real");
}

/// Nothing enforces the newline being a terminator: a hand-edited database can end mid-line,
/// and a CRLF one would otherwise hand back a shell path with a carriage return on the end.
#[test]
fn the_last_line_parses_however_it_ends() {
    for contents in [
        &b"real:x:7:7::/home/real:/bin/dash"[..],
        &b"real:x:7:7::/home/real:/bin/dash\r\n"[..],
    ] {
        assert_eq!(
            lookup(contents, 7).unwrap().shell,
            Some(b"/bin/dash".to_vec())
        );
    }
}

/// The first line of a uid decides, and a number that is none of a user's is nobody's.
#[test]
fn the_first_line_of_a_uid_decides() {
    let contents = b"a:x:3:3::/:/bin/a\nb:x:3:3::/:/bin/b\nc:x:-3:3::/:/bin/c\n:x:4:4::/:/bin/d\n";
    assert_eq!(found(contents, 3), Some(("a".to_owned(), Some(b"/bin/a".to_vec()))));
    assert_eq!(found(contents, 4), None, "a line without a name is no entry");
}
