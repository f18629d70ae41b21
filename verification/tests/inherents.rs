use kulupu::author::author_account;
use kulupu::inherents::{
    author_accepted, hard_forks, kulupu_inherent_data_providers, PalletIdentifiers, ProviderData,
    SLAG_RAVINE,
};

const PLAIN: &str = "000102030405060708090a0b0c0d0e0f101112131415161718191a1b1c1d1eff";

fn account() -> Vec<u8> {
    let mut bytes: Vec<u8> = (0..32).collect();
    bytes[31] = 255;
    bytes
}

fn identifiers() -> PalletIdentifiers {
    PalletIdentifiers { anyupgrade: *b"anyupgra", rewards: *b"rewards_" }
}

#[test]
fn author_with_and_without_prefix() {
    assert_eq!(author_account(PLAIN), Some(account()));
    assert_eq!(author_account(&format!("0x{}", PLAIN)), Some(account()));
}

#[test]
fn author_of_either_case_and_with_blanks() {
    assert_eq!(author_account(&PLAIN.to_uppercase()), Some(account()));
    let spaced = format!("0x{} \t\r\n{}", &PLAIN[..31], &PLAIN[31..]);
    assert_eq!(author_account(&spaced), Some(account()));
}

#[test]
fn author_that_names_no_account() {
    assert_eq!(author_account(""), None);
    assert_eq!(author_account("0"), None);
    assert_eq!(author_account("0x"), None);
    assert_eq!(author_account(&PLAIN[1..]), None);
    assert_eq!(author_account(&PLAIN[2..]), None);
    assert_eq!(author_account(&format!("{}00", PLAIN)), None);
    assert_eq!(author_account(&format!("0X{}", PLAIN)), None);
    assert_eq!(author_account(&format!("0x0x{}", PLAIN)), None);
    assert_eq!(author_account(&format!(" 0x{}", PLAIN)), None);
    assert_eq!(author_account(&PLAIN.replace("ff", "fg")), None);
    assert_eq!(author_account(&PLAIN.replace("ff", "\u{e9}")), None);
}

#[test]
fn slag_ravine_is_the_only_hard_fork() {
    let upgrades = hard_forks(vec![7, 8]);
    assert_eq!(SLAG_RAVINE, 100000);
    assert_eq!(upgrades.len(), 1);
    assert_eq!(upgrades.get(&100000), Some(&vec![7, 8]));
}

#[test]
fn node_with_author_has_three_providers() {
    let ids = identifiers();
    let providers = kulupu_inherent_data_providers(Some(PLAIN), &ids, vec![1, 2, 3]).unwrap();
    assert!(providers.registered.has_provider(b"timstap0"));
    assert!(!providers.registered.has_provider(b"anyupgra"));
    assert!(!providers.registered.has_provider(b"rewards_"));
    assert_eq!(providers.pending.len(), 2);
    assert_eq!(providers.pending[0].identifier, *b"anyupgra");
    match &providers.pending[0].data {
        ProviderData::AnyUpgrade(start, upgrades) => {
            assert_eq!(*start, 0);
            assert_eq!(upgrades.len(), 1);
            assert_eq!(upgrades.get(&100000), Some(&vec![1, 2, 3]));
        }
        other => panic!("{:?}", other),
    }
    assert_eq!(providers.pending[1].identifier, *b"rewards_");
    match &providers.pending[1].data {
        ProviderData::Rewards(encoded) => assert_eq!(*encoded, account()),
        other => panic!("{:?}", other),
    }
}

#[test]
fn registered_time_is_provided() {
    let providers = kulupu_inherent_data_providers(None, &identifiers(), vec![]).unwrap();
    let data = providers.registered.create_inherent_data().unwrap();
    assert_eq!(data.len(), 1);
    assert!(data.get_data::<u64>(b"timstap0").unwrap().unwrap() > 0);
    assert!(providers.registered.register_provider(sp_timestamp::InherentDataProvider).is_err());
}

#[test]
fn node_without_author_has_no_reward() {
    let providers = kulupu_inherent_data_providers(None, &identifiers(), vec![9]).unwrap();
    assert_eq!(providers.pending.len(), 1);
    assert_eq!(providers.pending[0].identifier, *b"anyupgra");
}

#[test]
fn taken_identifiers_are_left_out() {
    let ids = PalletIdentifiers { anyupgrade: *b"timstap0", rewards: *b"rewards_" };
    let providers = kulupu_inherent_data_providers(Some(PLAIN), &ids, vec![]).unwrap();
    assert_eq!(providers.pending.len(), 1);
    assert_eq!(providers.pending[0].identifier, *b"rewards_");

    let ids = PalletIdentifiers { anyupgrade: *b"anyupgra", rewards: *b"anyupgra" };
    let providers = kulupu_inherent_data_providers(Some("no account"), &ids, vec![]).unwrap();
    assert_eq!(providers.pending.len(), 1);
    assert!(matches!(providers.pending[0].data, ProviderData::AnyUpgrade(0, _)));

    let ids = PalletIdentifiers { anyupgrade: *b"anyupgra", rewards: *b"timstap0" };
    let providers = kulupu_inherent_data_providers(Some(PLAIN), &ids, vec![]).unwrap();
    assert_eq!(providers.pending.len(), 1);
}

#[test]
fn only_an_author_whose_turn_comes_must_name_an_account() {
    let ids = identifiers();
    assert!(author_accepted(None, &ids));
    assert!(author_accepted(Some(PLAIN), &ids));
    assert!(!author_accepted(Some("no account"), &ids));
    let ids = PalletIdentifiers { anyupgrade: *b"anyupgra", rewards: *b"anyupgra" };
    assert!(author_accepted(Some("no account"), &ids));
    let ids = PalletIdentifiers { anyupgrade: *b"anyupgra", rewards: *b"timstap0" };
    assert!(author_accepted(Some("no account"), &ids));
}
