use tomorrow::ramfs::{name_len, name_matches, parse_octal, Ramfs};

#[test]
fn octal_fields() {
    assert_eq!(parse_octal(b"00000000017\0"), 15);
    assert_eq!(parse_octal(b"0000644 \0\0\0\0"), 0o644);
    assert_eq!(parse_octal(b"\0\0\0\0\0\0\0\0\0\0\0\0"), 0);
    assert_eq!(parse_octal(b"77777777777\0"), 0o77777777777);
    assert_eq!(parse_octal(b"128"), 0o12);
}

#[test]
fn names_end_at_the_first_nul() {
    let mut raw = [0u8; 100];
    raw[..5].copy_from_slice(b"hello");
    assert_eq!(name_len(&raw), 5);
    assert!(name_matches(&raw, b"hello"));
    assert!(!name_matches(&raw, b"hell"));
    let full = [b'x'; 100];
    assert_eq!(name_len(&full), 100);
}

fn tar_entry(name: &[u8], data: &[u8]) -> Vec<u8> {
    let mut h = vec![0u8; 512];
    h[..name.len()].copy_from_slice(name);
    let size = format!("{:011o}\0", data.len());
    h[124..136].copy_from_slice(size.as_bytes());
    h.extend_from_slice(data);
    while h.len() % 512 != 0 {
        h.push(0);
    }
    h
}

fn archive() -> Vec<u8> {
    let mut a = tar_entry(b"readme.txt", b"Tomorrow OS\n");
    a.extend(tar_entry(b"empty", b""));
    a.extend(tar_entry(b"big", &[7u8; 600]));
    a.extend(vec![0u8; 1024]);
    a
}

#[test]
fn init_loads_every_file_of_the_archive() {
    let fs = Ramfs::init(&archive());
    assert_eq!(fs.len(), 3);
    assert_eq!(
        fs.list(),
        vec![(b"readme.txt".to_vec(), 12), (b"empty".to_vec(), 0), (b"big".to_vec(), 600)]
    );
    assert_eq!(fs.find(b"readme.txt"), Some(&b"Tomorrow OS\n"[..]));
    assert_eq!(fs.find(b"big").unwrap().len(), 600);
    assert_eq!(fs.find(b"missing"), None);
}

#[test]
fn init_stops_at_a_file_that_runs_past_the_end() {
    let mut a = tar_entry(b"ok", b"1");
    let mut bad = tar_entry(b"cut", &[1u8; 100]);
    bad.truncate(512 + 50);
    a.extend(bad);
    let fs = Ramfs::init(&a);
    assert_eq!(fs.len(), 1);
    assert_eq!(fs.find(b"cut"), None);
}

#[test]
fn read_after_write() {
    let mut fs = Ramfs::init(&archive());
    assert!(fs.write(b"empty", b"now full"));
    assert_eq!(fs.find(b"empty"), Some(&b"now full"[..]));
    // Other files are untouched.
    assert_eq!(fs.find(b"readme.txt"), Some(&b"Tomorrow OS\n"[..]));
    assert!(!fs.write(b"nothere", b"x"));
    assert_eq!(fs.len(), 3);
}

#[test]
fn create_adds_an_empty_file_once() {
    let mut fs = Ramfs::new();
    assert!(fs.create(b"notes"));
    assert_eq!(fs.find(b"notes"), Some(&b""[..]));
    assert!(!fs.create(b"notes"));
    assert_eq!(fs.len(), 1);
    assert!(fs.write(b"notes", b"abc"));
    assert_eq!(fs.find(b"notes"), Some(&b"abc"[..]));
}

#[test]
fn create_cuts_long_names_to_99_bytes() {
    let mut fs = Ramfs::new();
    let long = [b'n'; 120];
    assert!(fs.create(&long));
    assert_eq!(fs.find(&long), None);
    assert_eq!(fs.find(&long[..99]), Some(&b""[..]));
}
