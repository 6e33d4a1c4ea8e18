use anchor_lang::prelude::Pubkey;
use std::str::FromStr;
use yevefi::config::{TokenBadge, YevefisConfigExtension};

#[test]
fn config_extension_test_initialize() {
    let mut config_extension = YevefisConfigExtension {
        yevefis_config: Pubkey::default().to_bytes(),
        config_extension_authority: Pubkey::default().to_bytes(),
        token_badge_authority: Pubkey::default().to_bytes(),
    };
    let yevefis_config = Pubkey::from_str("2LecshUwdy9xi7meFgHtFJQNSKk4KdTrcpvaB56dP2NQ").unwrap();
    let default_authority = Pubkey::from_str("orcaEKTdK7LKz57vaAYr9QeNsVEPfiu6QeMU1kektZE").unwrap();
    let result = config_extension.initialize(yevefis_config.to_bytes(), default_authority.to_bytes());
    assert!(result.is_ok());
    assert_eq!(yevefis_config.to_bytes(), config_extension.yevefis_config);
    assert_eq!(default_authority.to_bytes(), config_extension.config_extension_authority);
    assert_eq!(default_authority.to_bytes(), config_extension.token_badge_authority);
}

#[test]
fn test_update_config_extension_authority() {
    let mut config_extension = YevefisConfigExtension {
        yevefis_config: Pubkey::default().to_bytes(),
        config_extension_authority: Pubkey::default().to_bytes(),
        token_badge_authority: Pubkey::default().to_bytes(),
    };
    let config_extension_authority = Pubkey::from_str("orcaEKTdK7LKz57vaAYr9QeNsVEPfiu6QeMU1kektZE").unwrap();
    config_extension.update_config_extension_authority(config_extension_authority.to_bytes());
    assert_eq!(config_extension_authority.to_bytes(), config_extension.config_extension_authority);
    assert_eq!(Pubkey::default().to_bytes(), config_extension.token_badge_authority);
}

#[test]
fn test_update_token_badge_authority() {
    let mut config_extension = YevefisConfigExtension {
        yevefis_config: Pubkey::default().to_bytes(),
        config_extension_authority: Pubkey::default().to_bytes(),
        token_badge_authority: Pubkey::default().to_bytes(),
    };
    let token_badge_authority = Pubkey::from_str("orcaEKTdK7LKz57vaAYr9QeNsVEPfiu6QeMU1kektZE").unwrap();
    config_extension.update_token_badge_authority(token_badge_authority.to_bytes());
    assert_eq!(token_badge_authority.to_bytes(), config_extension.token_badge_authority);
    assert_eq!(Pubkey::default().to_bytes(), config_extension.config_extension_authority);
}

#[test]
fn test_default() {
    let token_badge = TokenBadge { ..Default::default() };
    assert_eq!(token_badge.yevefis_config, Pubkey::default().to_bytes());
    assert_eq!(token_badge.token_mint, Pubkey::default().to_bytes());
}

#[test]
fn token_badge_test_initialize() {
    let mut token_badge = TokenBadge { ..Default::default() };
    let yevefis_config = Pubkey::from_str("2LecshUwdy9xi7meFgHtFJQNSKk4KdTrcpvaB56dP2NQ").unwrap();
    let token_mint = Pubkey::from_str("orcaEKTdK7LKz57vaAYr9QeNsVEPfiu6QeMU1kektZE").unwrap();
    let result = token_badge.initialize(yevefis_config.to_bytes(), token_mint.to_bytes());
    assert!(result.is_ok());
    assert_eq!(yevefis_config.to_bytes(), token_badge.yevefis_config);
    assert_eq!(token_mint.to_bytes(), token_badge.token_mint);
}
