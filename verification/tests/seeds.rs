use fact_cli::errors::FactError;
use fact_cli::seeds::{check_decision_value, identity_seed, ledger_init_seed, seed_file_seed};

const SEED: &str = "00112233445566778899AABBCCDDEEFF00112233445566778899aabbccddeeff";

#[test]
fn seeds_decode_to_32_bytes() {
    let seed = identity_seed(SEED).unwrap();
    assert_eq!(seed.len(), 32);
    assert_eq!(seed[..4], [0x00, 0x11, 0x22, 0x33]);
    assert_eq!(seed[10], 0xaa);
    assert_eq!(seed[31], 0xff);
    assert_eq!(seed_file_seed(&format!("  {SEED}\n")).unwrap(), seed);
    assert_eq!(ledger_init_seed(Some(SEED)).unwrap(), Some(seed));
    assert!(ledger_init_seed(None).unwrap().is_none());
}

#[test]
fn seed_errors() {
    match identity_seed("abc") {
        Err(FactError::Hex(m)) => assert_eq!(m, "Odd number of digits"),
        other => panic!("{other:?}"),
    }
    match identity_seed("zz") {
        Err(FactError::Hex(m)) => assert_eq!(m, "Invalid character 'z' at position 0"),
        other => panic!("{other:?}"),
    }
    match identity_seed("0011") {
        Err(FactError::User(m)) => assert_eq!(m, "identity seed must be 32 bytes"),
        other => panic!("{other:?}"),
    }
    match ledger_init_seed(Some("0g")) {
        Err(FactError::User(m)) => assert_eq!(m, "Invalid character 'g' at position 1"),
        other => panic!("{other:?}"),
    }
    match ledger_init_seed(Some("00")) {
        Err(FactError::User(m)) => assert_eq!(m, "--seed must decode to exactly 32 bytes"),
        other => panic!("{other:?}"),
    }
    assert!(check_decision_value("accepted").is_ok());
    assert!(check_decision_value("rejected").is_ok());
    match check_decision_value("maybe") {
        Err(FactError::User(m)) => assert_eq!(m, "decision value must be accepted or rejected"),
        other => panic!("{other:?}"),
    }
}
