use arxide::arclib;
use arxide::crypt::{Crypt, CryptType};
use arxide::game::{BuiltinKeys, Game, MD5Key};
use arxide::string_set::StringSet;
use arxide::Error;

fn keys() -> BuiltinKeys {
    BuiltinKeys { umapd: (1u8..=43).collect() }
}

fn config(type_: CryptType, key: Option<Vec<u8>>, game: Game) -> Crypt {
    Crypt { type_, key, game, file_list: StringSet::new() }
}

#[test]
fn no_title_has_no_profile() {
    assert_eq!(Game::Unspecified.key(), None);
}

#[test]
fn a_title_has_its_profile() {
    assert_eq!(Game::UmaPD.key(), Some(MD5Key::UmaPD));
}

#[test]
fn defaults_are_unspecified() {
    assert_eq!(Game::default(), Game::Unspecified);
    assert_eq!(CryptType::default(), CryptType::Unspecified);
    assert_eq!(MD5Key::default(), MD5Key::UmaPD);
}

#[test]
fn a_profile_gives_its_secret_from_the_table() {
    let table = keys();
    assert_eq!(MD5Key::UmaPD.data(&table), &table.umapd[..]);
}

#[test]
fn a_key_file_goes_before_the_title() {
    let crypt = config(CryptType::MD5, Some(vec![9u8; 43]), Game::UmaPD).cipher(&keys()).unwrap();
    assert_eq!(crypt.key, [9u8; 43]);
}

#[test]
fn the_title_selects_the_built_in_secret() {
    let crypt = config(CryptType::MD5, None, Game::UmaPD).cipher(&keys()).unwrap();
    assert_eq!(crypt.key.to_vec(), keys().umapd);
}

#[test]
fn no_key_file_and_no_title_is_an_error() {
    let res = config(CryptType::MD5, None, Game::Unspecified).cipher(&keys());
    assert!(matches!(res, Err(Error::KeyNotFound)));
}

#[test]
fn a_key_file_of_the_wrong_length_is_an_error() {
    let res = config(CryptType::MD5, Some(vec![0u8; 16]), Game::UmaPD).cipher(&keys());
    assert!(matches!(
        res,
        Err(Error::ArclibError(arclib::Error::InvalidKeyLength(43, 16)))
    ));
}

#[test]
fn a_built_in_secret_of_the_wrong_length_is_an_error() {
    let table = BuiltinKeys { umapd: vec![] };
    let res = config(CryptType::MD5, None, Game::UmaPD).cipher(&table);
    assert!(matches!(
        res,
        Err(Error::ArclibError(arclib::Error::InvalidKeyLength(43, 0)))
    ));
}

#[test]
fn without_a_cipher_there_is_nothing_to_do() {
    let res = config(CryptType::Unspecified, None, Game::Unspecified).process(&keys(), true);
    assert!(matches!(res, Ok(None)));
}

#[test]
fn a_run_starts_with_its_cipher_and_nothing_consumed() {
    let res = config(CryptType::MD5, None, Game::UmaPD).process(&keys(), false);
    match res {
        Ok(Some((crypt, resolver))) => {
            assert_eq!(crypt.key.to_vec(), keys().umapd);
            let plan = resolver.resolve("a.txt");
            assert_eq!(plan.dest, "a.txt");
            let scanner = resolver.finish();
            assert!(matches!(scanner.scan(&plan.digest), Ok(Some(_))));
        }
        _ => panic!("the run did not start"),
    }
}

#[test]
fn a_run_does_not_start_without_a_secret() {
    let res = config(CryptType::MD5, None, Game::Unspecified).process(&keys(), true);
    assert!(matches!(res, Err(Error::KeyNotFound)));
    let res = config(CryptType::MD5, Some(vec![1, 2, 3]), Game::Unspecified).process(&keys(), true);
    assert!(matches!(
        res,
        Err(Error::ArclibError(arclib::Error::InvalidKeyLength(43, 3)))
    ));
}

#[test]
fn an_error_of_the_cipher_becomes_an_error_of_the_run() {
    let err = Error::from(arclib::Error::InvalidKeyLength(43, 5));
    assert!(matches!(err, Error::ArclibError(arclib::Error::InvalidKeyLength(43, 5))));
}

#[test]
fn with_nothing_named_the_built_in_title_stands_in() {
    let crypt = Crypt::new(CryptType::Unspecified, None, Game::Unspecified, StringSet::new()).unwrap();
    assert_eq!(crypt.game, Game::UmaPD);
    assert_eq!(crypt.type_, CryptType::MD5);
    assert_eq!(crypt.key, None);
}

#[test]
fn a_title_brings_its_cipher() {
    let crypt = Crypt::new(CryptType::Unspecified, Some(vec![1]), Game::UmaPD, StringSet::new()).unwrap();
    assert_eq!(crypt.game, Game::UmaPD);
    assert_eq!(crypt.type_, CryptType::MD5);
    assert_eq!(crypt.key, Some(vec![1]));
}

#[test]
fn a_key_file_alone_names_no_cipher() {
    assert!(Crypt::new(CryptType::Unspecified, Some(vec![1]), Game::Unspecified, StringSet::new()).is_none());
}

#[test]
fn a_cipher_alone_is_kept_without_a_title() {
    let crypt = Crypt::new(CryptType::MD5, None, Game::Unspecified, StringSet::new()).unwrap();
    assert_eq!(crypt.game, Game::Unspecified);
    assert_eq!(crypt.type_, CryptType::MD5);
    let crypt = Crypt::new(CryptType::MD5, Some(vec![2; 43]), Game::Unspecified, StringSet::new()).unwrap();
    assert_eq!(crypt.game, Game::Unspecified);
    assert_eq!(crypt.key, Some(vec![2; 43]));
}

#[test]
fn the_manifest_is_kept_as_it_was_given() {
    let list = Crypt::load_file_list("a.txt\nb.txt\n");
    let crypt = Crypt::new(CryptType::MD5, None, Game::UmaPD, list).unwrap();
    assert_eq!(crypt.file_list.len(), 2);
    assert!(crypt.file_list.contains("b.txt"));
}
