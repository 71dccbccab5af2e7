use std::collections::BTreeMap;

use arxide::arclib::MD5Crypt;
use arxide::crypt::{Crypt, CryptType};
use arxide::file_helper::{DirEntry, FileHelper};
use arxide::game::{BuiltinKeys, Game};
use arxide::resolver::Outcome;
use arxide::scanner::stem_of;
use arxide::Error;

type Files = BTreeMap<String, Vec<u8>>;

fn keys() -> BuiltinKeys {
    BuiltinKeys { umapd: (1u8..=43).collect() }
}

fn files(entries: &[(&str, &[u8])]) -> Files {
    entries.iter().map(|(name, data)| (String::from(*name), data.to_vec())).collect()
}

/// Carries a run out on files that are held in memory: what a file is called
/// here is its path below the root. It gives back what was written and what
/// was reported.
fn run(manifest: &str, input: &Files, encrypt: bool) -> (Files, Vec<String>) {
    let mut output = Files::new();
    let mut report = Vec::new();
    let helper = FileHelper::new(
        vec![String::from("in")],
        vec![String::from("out")],
        Ok(false),
        None,
    )
    .unwrap();
    let crypt =
        Crypt::new(CryptType::Unspecified, None, Game::UmaPD, Crypt::load_file_list(manifest))
            .unwrap();
    let (cipher, mut resolver) = crypt.process(&keys(), encrypt).unwrap().unwrap();

    for path in crypt.file_list.items() {
        let plan = resolver.resolve(path);
        let outcome = match input.get(&plan.source) {
            None => Outcome::NotFound,
            Some(data) => {
                output.insert(plan.dest.clone(), plan.transform(&cipher, data));
                Outcome::Done
            }
        };
        if let Err(e) = resolver.record(&plan, outcome) {
            report.push(e.message());
        }
    }

    let scanner = resolver.finish();
    let listing: Vec<DirEntry> = input
        .keys()
        .filter(|name| !name.contains('/'))
        .map(|name| DirEntry { name: name.clone(), is_file: true })
        .collect();
    for file in helper.input_iter(&listing) {
        let name = file.last().unwrap();
        match scanner.scan(&stem_of(name)) {
            Err(e) => report.push(e.message()),
            Ok(None) => {}
            Ok(Some(seed)) => {
                let target = helper.output_path_for(&file).unwrap();
                assert_eq!(target.len(), 2);
                assert_eq!(target[0], "out");
                output.insert(target[1].clone(), cipher.apply(&seed, &input[name]));
            }
        }
    }
    (output, report)
}

const LISTED: &str = "a.txt\r\nmovie/intro.wmv\r\n\r\ndata/chara/001.bin\r\n";

fn plain() -> Files {
    files(&[
        ("a.txt", b"first file"),
        ("movie/intro.wmv", b"video container"),
        ("data/chara/001.bin", b"a character"),
    ])
}

#[test]
fn encrypting_stores_every_entry_under_its_digest() {
    let (stored, report) = run(LISTED, &plain(), true);
    let names: Vec<&str> = stored.keys().map(String::as_str).collect();
    assert_eq!(
        names,
        vec![
            "5b84dcae1bb20c924133f46d1954a037.bin",
            "a5e54d1fd7bb69a228ef0dcd2431367e.bin",
            "cba00ae1a4d46517503f90ec5640dc39.bin",
        ]
    );
    assert_eq!(stored["cba00ae1a4d46517503f90ec5640dc39.bin"], b"video container");
    assert_ne!(stored["a5e54d1fd7bb69a228ef0dcd2431367e.bin"], b"first file");
    assert_eq!(stored["a5e54d1fd7bb69a228ef0dcd2431367e.bin"].len(), 10);
    // The one file directly below the input root is no stored file.
    assert_eq!(report, vec!["Invalid file name, skipping: a"]);
}

#[test]
fn decrypting_what_was_encrypted_gives_the_files_back() {
    let (stored, _) = run(LISTED, &plain(), true);
    let (restored, report) = run(LISTED, &stored, false);
    assert_eq!(restored, plain());
    assert!(report.is_empty());
}

#[test]
fn a_listed_file_that_is_missing_is_reported_and_the_run_goes_on() {
    let mut input = plain();
    input.remove("movie/intro.wmv");
    let (stored, report) = run(LISTED, &input, true);
    assert_eq!(stored.len(), 2);
    assert!(report.contains(&String::from("File doesn't exist, skipping: movie/intro.wmv")));
    assert!(stored.contains_key("5b84dcae1bb20c924133f46d1954a037.bin"));
}

#[test]
fn without_a_manifest_stored_files_are_deciphered_under_their_names() {
    let (stored, _) = run(LISTED, &plain(), true);
    let (found, report) = run("", &stored, false);
    assert!(report.is_empty());
    assert_eq!(found.len(), 3);
    assert_eq!(found["a5e54d1fd7bb69a228ef0dcd2431367e.bin"], b"first file");
    assert_eq!(found["5b84dcae1bb20c924133f46d1954a037.bin"], b"a character");
    // A video container was stored as it is, so the cipher garbles it.
    assert_ne!(found["cba00ae1a4d46517503f90ec5640dc39.bin"], b"video container");
}

#[test]
fn a_stray_file_beside_listed_ones_is_processed_once() {
    let (mut stored, _) = run(LISTED, &plain(), true);
    let cipher = MD5Crypt::new(&keys().umapd).unwrap();
    let stray = "900150983cd24fb0d6963f7d28e17f72";
    stored.insert(format!("{stray}.bin"), cipher.apply(stray, b"not listed"));
    stored.insert(String::from("readme.txt"), b"hello".to_vec());
    let (restored, report) = run(LISTED, &stored, false);
    assert_eq!(restored.len(), 4);
    assert_eq!(restored["a.txt"], b"first file");
    assert_eq!(restored["900150983cd24fb0d6963f7d28e17f72.bin"], b"not listed");
    assert!(!restored.contains_key("a5e54d1fd7bb69a228ef0dcd2431367e.bin"));
    assert_eq!(report, vec!["Invalid file name, skipping: readme"]);
}

#[test]
fn a_run_without_a_secret_does_not_start() {
    let crypt = Crypt::new(CryptType::MD5, None, Game::Unspecified, Crypt::load_file_list(LISTED))
        .unwrap();
    assert!(matches!(crypt.process(&keys(), true), Err(Error::KeyNotFound)));
}
