use vstd::prelude::*;
use crate::errors::ErrorCode;
use crate::yevefi::AccountKey;

verus! {

/// Authorities that extend a pools configuration.
#[derive(Clone, Copy, Debug, Default, PartialEq, Eq)]
pub struct YevefisConfigExtension {
    pub yevefis_config: AccountKey,
    pub config_extension_authority: AccountKey,
    pub token_badge_authority: AccountKey,
}

impl YevefisConfigExtension {
    /// Binds the extension to its configuration, with one authority for both roles.
    pub fn initialize(&mut self, yevefis_config: AccountKey, default_authority: AccountKey) -> (r: Result<(), ErrorCode>)
        ensures
            r is Ok,
            *final(self) == (YevefisConfigExtension {
                yevefis_config,
                config_extension_authority: default_authority,
                token_badge_authority: default_authority,
            }),
    {
        self.yevefis_config = yevefis_config;
        self.config_extension_authority = default_authority;
        self.token_badge_authority = default_authority;
        Ok(())
    }

    pub fn update_config_extension_authority(&mut self, config_extension_authority: AccountKey)
        ensures
            *final(self) == (YevefisConfigExtension { config_extension_authority, ..*old(self) }),
    {
        self.config_extension_authority = config_extension_authority;
    }

    pub fn update_token_badge_authority(&mut self, token_badge_authority: AccountKey)
        ensures
            *final(self) == (YevefisConfigExtension { token_badge_authority, ..*old(self) }),
    {
        self.token_badge_authority = token_badge_authority;
    }
}

/// Marks a token mint as accepted by a pools configuration.
#[derive(Clone, Copy, Debug, Default, PartialEq, Eq)]
pub struct TokenBadge {
    pub yevefis_config: AccountKey,
    pub token_mint: AccountKey,
}

impl TokenBadge {
    pub fn initialize(&mut self, yevefis_config: AccountKey, token_mint: AccountKey) -> (r: Result<(), ErrorCode>)
        ensures
            r is Ok,
            *final(self) == (TokenBadge { yevefis_config, token_mint }),
    {
        self.yevefis_config = yevefis_config;
        self.token_mint = token_mint;
        Ok(())
    }
}

} // verus!
