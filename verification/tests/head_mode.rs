use headcat::head::{head_bytes, head_run, Config, Fetched, FetchedSource, HeadBody, Limit};
use headcat::lines::{head_lines, split_lines};
use headcat::source::{make_diag, resolve, Source};

#[test]
fn head_emits_first_n_lines() {
    let data: Vec<u8> = b"one\ntwo\nthree\n".to_vec();
    assert_eq!(head_lines(&data, 2), b"one\ntwo\n".to_vec());
}

#[test]
fn head_line_limit_beyond_source_emits_all() {
    let data: Vec<u8> = b"one\ntwo\n".to_vec();
    assert_eq!(head_lines(&data, 10), b"one\ntwo\n".to_vec());
}

#[test]
fn head_keeps_missing_final_terminator() {
    let data: Vec<u8> = b"a\nb".to_vec();
    assert_eq!(head_lines(&data, 2), b"a\nb".to_vec());
    assert_eq!(head_lines(&data, 1), b"a\n".to_vec());
}

#[test]
fn head_of_empty_source_is_empty() {
    let data: Vec<u8> = Vec::new();
    assert_eq!(head_lines(&data, 3), Vec::<u8>::new());
}

#[test]
fn split_keeps_terminators() {
    let data: Vec<u8> = b"ab\nc".to_vec();
    assert_eq!(split_lines(&data), vec![b"ab\n".to_vec(), b"c".to_vec()]);
}

#[test]
fn head_bytes_emits_exact_prefix() {
    let data: Vec<u8> = b"hello".to_vec();
    assert_eq!(head_bytes(&data, 2), "he");
}

#[test]
fn head_bytes_beyond_source_emits_all() {
    let data: Vec<u8> = b"hi\n".to_vec();
    assert_eq!(head_bytes(&data, 100), "hi\n");
}

#[test]
fn head_bytes_replaces_invalid_sequences() {
    let data: Vec<u8> = vec![0xFF, b'a'];
    assert_eq!(head_bytes(&data, 2), "\u{FFFD}a");
    // Cutting a two-byte encoding in half leaves an invalid tail.
    let data: Vec<u8> = "é".as_bytes().to_vec();
    assert_eq!(head_bytes(&data, 1), "\u{FFFD}");
}

#[test]
fn head_run_isolates_open_failures() {
    let sources = vec![
        FetchedSource {
            name: "a.txt".to_string(),
            fetch: Fetched::Data(b"x\ny\n".to_vec()),
        },
        FetchedSource {
            name: "missing.txt".to_string(),
            fetch: Fetched::Failed("No such file or directory (os error 2)".to_string()),
        },
        FetchedSource {
            name: "b.txt".to_string(),
            fetch: Fetched::Data(b"z\n".to_vec()),
        },
    ];
    let r = head_run(&sources, &Limit::Lines(1));
    assert_eq!(r.len(), 3);

    assert!(r[0].diag.is_none());
    assert_eq!(r[0].header.as_deref(), Some("==> a.txt <==\n"));
    match &r[0].body {
        HeadBody::Raw(v) => assert_eq!(v, &b"x\n".to_vec()),
        HeadBody::Text(_) => panic!("line mode emits raw bytes"),
    }

    assert_eq!(
        r[1].diag.as_deref(),
        Some("missing.txt: No such file or directory (os error 2)")
    );
    assert!(r[1].header.is_none());
    match &r[1].body {
        HeadBody::Raw(v) => assert!(v.is_empty()),
        HeadBody::Text(_) => panic!("a skipped source emits nothing"),
    }

    assert!(r[2].diag.is_none());
    assert_eq!(r[2].header.as_deref(), Some("\n==> b.txt <==\n"));
    match &r[2].body {
        HeadBody::Raw(v) => assert_eq!(v, &b"z\n".to_vec()),
        HeadBody::Text(_) => panic!("line mode emits raw bytes"),
    }
}

#[test]
fn head_run_empty_source_still_gets_header() {
    let sources = vec![
        FetchedSource {
            name: "empty.txt".to_string(),
            fetch: Fetched::Data(Vec::new()),
        },
        FetchedSource {
            name: "b.txt".to_string(),
            fetch: Fetched::Data(b"z\n".to_vec()),
        },
    ];
    let r = head_run(&sources, &Limit::Lines(3));
    assert_eq!(r[0].header.as_deref(), Some("==> empty.txt <==\n"));
    match &r[0].body {
        HeadBody::Raw(v) => assert!(v.is_empty()),
        HeadBody::Text(_) => panic!("line mode emits raw bytes"),
    }
    assert_eq!(r[1].header.as_deref(), Some("\n==> b.txt <==\n"));
}

#[test]
fn head_run_byte_mode_emits_decoded_text() {
    let sources = vec![FetchedSource {
        name: "a.txt".to_string(),
        fetch: Fetched::Data(b"hello\n".to_vec()),
    }];
    let r = head_run(&sources, &Limit::Bytes(4));
    match &r[0].body {
        HeadBody::Text(t) => assert_eq!(t, "hell"),
        HeadBody::Raw(_) => panic!("byte mode emits decoded text"),
    }
}

#[test]
fn head_run_single_source_has_no_header() {
    let sources = vec![FetchedSource {
        name: "a.txt".to_string(),
        fetch: Fetched::Data(b"x\n".to_vec()),
    }];
    let r = head_run(&sources, &Limit::Lines(5));
    assert_eq!(r.len(), 1);
    assert!(r[0].header.is_none());
}

#[test]
fn config_rejects_zero_and_nonnumeric_lines() {
    let r = Config::from_options(vec!["f".to_string()], Some("0".to_string()), None);
    assert_eq!(
        r.unwrap_err(),
        "error: invalid value '0' for '--lines <LINES>': invalid digit found in string"
    );
    let r = Config::from_options(vec!["f".to_string()], Some("abc".to_string()), None);
    assert_eq!(
        r.unwrap_err(),
        "error: invalid value 'abc' for '--lines <LINES>': invalid digit found in string"
    );
}

#[test]
fn config_rejects_zero_and_nonnumeric_bytes() {
    let r = Config::from_options(vec!["f".to_string()], None, Some("0".to_string()));
    assert_eq!(
        r.unwrap_err(),
        "invalid value '0' for '--bytes <BYTES>': invalid digit found in string"
    );
    let r = Config::from_options(vec!["f".to_string()], None, Some("abc".to_string()));
    assert_eq!(
        r.unwrap_err(),
        "invalid value 'abc' for '--bytes <BYTES>': invalid digit found in string"
    );
}

#[test]
fn config_defaults_to_ten_lines_and_stdin() {
    let c = Config::from_options(Vec::new(), None, None).unwrap();
    match c.limit {
        Limit::Lines(n) => assert_eq!(n, 10),
        Limit::Bytes(_) => panic!("default is a line limit"),
    }
    assert_eq!(c.sources.len(), 1);
    assert!(matches!(c.sources[0], Source::Stdin));
}

#[test]
fn config_takes_byte_limit() {
    let c = Config::from_options(vec!["f".to_string()], None, Some("5".to_string())).unwrap();
    match c.limit {
        Limit::Bytes(b) => assert_eq!(b, 5),
        Limit::Lines(_) => panic!("a byte limit was configured"),
    }
    assert_eq!(c.sources.len(), 1);
    match &c.sources[0] {
        Source::Named(n) => assert_eq!(n, "f"),
        Source::Stdin => panic!("a named file was configured"),
    }
}

#[test]
fn dash_resolves_to_stdin() {
    assert!(matches!(resolve(&"-".to_string()), Source::Stdin));
    match resolve(&"./x".to_string()) {
        Source::Named(n) => assert_eq!(n, "./x"),
        Source::Stdin => panic!("a path is not the sentinel"),
    }
    match resolve(&"--".to_string()) {
        Source::Named(n) => assert_eq!(n, "--"),
        Source::Stdin => panic!("only the exact sentinel is stdin"),
    }
}

#[test]
fn diag_names_source_and_cause() {
    let d = make_diag(&"f.txt".to_string(), &"permission denied".to_string());
    assert_eq!(d, "f.txt: permission denied");
}
