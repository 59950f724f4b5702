use multisig_demo::config::member_list;
use multisig_demo::config::pubkey_arg;
use multisig_demo::config::pubkey_or_signer_path;
use multisig_demo::config::Config;
use multisig_demo::config::KeypairArg;
use multisig_demo::config::UrlArg;
use multisig_demo::pda::id;
use multisig_demo::pubkey::Pubkey;
use solana_program::pubkey::ParsePubkeyError;

fn config_file() -> Config {
    Config {
        json_rpc_url: "https://api.devnet.solana.com".to_string(),
        keypair_path: "/home/member/.config/solana/id.json".to_string(),
    }
}

#[test]
fn url_argument_goes_before_the_configuration() {
    let given = UrlArg { url: Some("http://localhost:8899".to_string()) };
    assert_eq!(given.resolve(Some(&config_file())), Some("http://localhost:8899".to_string()));
    assert_eq!(given.resolve(None), Some("http://localhost:8899".to_string()));
    let absent = UrlArg { url: None };
    assert_eq!(
        absent.resolve(Some(&config_file())),
        Some("https://api.devnet.solana.com".to_string())
    );
    assert_eq!(absent.resolve(None), None);
}

#[test]
fn keypair_argument_goes_before_the_configuration() {
    let given = KeypairArg {
        keypair: Some("usb://ledger".to_string()),
        skip_seed_phrase_validation: false,
        confirm_key: true,
    };
    assert_eq!(given.resolve(Some(&config_file())), Some("usb://ledger".to_string()));
    assert_eq!(given.resolve(None), Some("usb://ledger".to_string()));
    let absent =
        KeypairArg { keypair: None, skip_seed_phrase_validation: true, confirm_key: false };
    assert_eq!(
        absent.resolve(Some(&config_file())),
        Some("/home/member/.config/solana/id.json".to_string())
    );
    assert_eq!(absent.resolve(None), None);
}

#[test]
fn addresses_are_read_in_base_58() {
    assert_eq!(pubkey_arg("H1wPJB59dvpLrMmdcJ6dxQSMmXsm6TSRxkNUtC4CFDs1"), Ok(id()));
    assert_eq!(pubkey_arg("11111111111111111111111111111111"), Ok(Pubkey::default()));
    assert_eq!(pubkey_arg("H1wPJB59dvpL"), Err(ParsePubkeyError::WrongSize));
    assert_eq!(pubkey_arg(""), Err(ParsePubkeyError::WrongSize));
    assert_eq!(
        pubkey_arg("H1wPJB59dvpLrMmdcJ6dxQSMmXsm6TSRxkNUtC4CFDs0"),
        Err(ParsePubkeyError::Invalid)
    );
    assert_eq!(
        pubkey_arg("H1wPJB59dvpLrMmdcJ6dxQSMmXsm6TSRxkNUtC4CFDs1H1wPJB59dvpL"),
        Err(ParsePubkeyError::WrongSize)
    );
}

#[test]
fn what_is_no_address_is_left_to_be_read_as_a_signer() {
    assert_eq!(pubkey_or_signer_path("H1wPJB59dvpLrMmdcJ6dxQSMmXsm6TSRxkNUtC4CFDs1"), Some(id()));
    assert_eq!(pubkey_or_signer_path("~/.config/solana/id.json"), None);
    assert_eq!(pubkey_or_signer_path("usb://ledger?key=0"), None);
}

#[test]
fn member_list_keeps_what_was_resolved() {
    let a = Pubkey { bytes: [1; 32] };
    let b = Pubkey { bytes: [2; 32] };
    let payer = Pubkey { bytes: [9; 32] };
    assert_eq!(member_list(&vec![], None), vec![]);
    assert_eq!(member_list(&vec![], Some(payer)), vec![payer]);
    assert_eq!(member_list(&vec![Some(a), None, Some(b), None], None), vec![a, b]);
    assert_eq!(member_list(&vec![None, Some(b), Some(a)], Some(payer)), vec![b, a, payer]);
    assert_eq!(member_list(&vec![Some(a), Some(a)], Some(a)), vec![a, a, a]);
}
