use apecast::etherscan::{balance_cut_ok, balance_outcome, EtherscanClient};
use apecast::text::{concatenate, contains, first_part, i64_to_decimal, join, same_text, split_once, starts_with, u64_to_decimal};

#[test]
fn decimal_rendering() {
    assert_eq!(u64_to_decimal(0), "0");
    assert_eq!(u64_to_decimal(9), "9");
    assert_eq!(u64_to_decimal(10), "10");
    assert_eq!(u64_to_decimal(u64::MAX), u64::MAX.to_string());
    assert_eq!(i64_to_decimal(-42), "-42");
    assert_eq!(i64_to_decimal(i64::MIN), i64::MIN.to_string());
    assert_eq!(i64_to_decimal(i64::MAX), i64::MAX.to_string());
}

#[test]
fn joining_and_concatenating() {
    assert_eq!(join(&vec![], ", "), "");
    assert_eq!(join(&vec!["a".to_string()], ", "), "a");
    assert_eq!(join(&vec!["a".to_string(), "b".to_string(), "c".to_string()], ", "), "a, b, c");
    assert_eq!(concatenate("ape", "coin"), "apecoin");
}

#[test]
fn splitting_and_searching() {
    assert_eq!(split_once("sub:price", ':'), Some(("sub", "price")));
    assert_eq!(split_once("sub:a:b", ':'), Some(("sub", "a:b")));
    assert_eq!(split_once("nothing", ':'), None);
    assert_eq!(split_once(":", ':'), Some(("", "")));
    assert_eq!(first_part("0xabc def", ' '), "0xabc");
    assert_eq!(first_part("0xabc", ' '), "0xabc");
    assert!(starts_with("0x12", "0x"));
    assert!(!starts_with("0", "0x"));
    assert!(starts_with("anything", ""));
    assert!(contains("Fund the ape", "ape"));
    assert!(contains("ape", ""));
    assert!(!contains("ap", "ape"));
    assert!(contains("ñandú ape", "ú a"));
    assert!(same_text("a", "a"));
    assert!(!same_text("a", "b"));
}

#[test]
fn etherscan_client_token() {
    assert_eq!(EtherscanClient::new(None).token(), "");
    assert_eq!(EtherscanClient::new(Some("my-token".to_string())).token(), "my-token");
}

#[test]
fn etherscan_balance_url() {
    let client = EtherscanClient::new(Some("KEY".to_string()));
    assert_eq!(
        client.balance_url("0xabc"),
        "https://api.etherscan.io/api?module=account&action=tokenbalance&contractaddress=0x4d224452801aced8b2f0aebe155379bb5d594381&address=0xabc&tag=latest&apikey=KEY"
    );
    let anonymous = EtherscanClient::new(None);
    assert!(anonymous.balance_url("0x1").ends_with("&address=0x1&tag=latest&apikey="));
}

#[test]
fn etherscan_balance_outcome() {
    assert_eq!(balance_outcome(0, "", "NOTOK"), Err("NOTOK".to_string()));
    assert_eq!(balance_outcome(2, "123456789012345678", "Invalid"), Err("Invalid".to_string()));
    assert_eq!(balance_outcome(1, "1234567890123456789000", "OK"), Ok("1234567".to_string()));
    assert_eq!(balance_outcome(1, "123456789012345", "OK"), Ok("".to_string()));
    assert!(balance_cut_ok("123456789012345"));
    assert!(!balance_cut_ok("12345678901234"));
    // 'é' takes two bytes: cutting 15 bytes from the end lands inside it.
    assert!(!balance_cut_ok("é12345678901234"));
    assert!(balance_cut_ok("é123456789012345"));
}
