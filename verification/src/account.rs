//! Player accounts and the choice of how to sign in.

use vstd::prelude::*;
use vstd::string::StringExecFns;

verus! {

/// A signed-in Microsoft account, as the identity service returns it.
#[derive(Debug, PartialEq, Eq)]
pub struct MicrosoftAccount {
    pub xuid: String,
    /// When the access token expires, in seconds since the epoch.
    pub exp: u64,
    pub uuid: String,
    pub username: String,
    pub access_token: String,
    pub refresh_token: String,
    pub client_id: String,
}

/// What a `MicrosoftAccount` means.
pub struct AccountView {
    pub xuid: Seq<char>,
    pub exp: u64,
    pub uuid: Seq<char>,
    pub username: Seq<char>,
    pub access_token: Seq<char>,
    pub refresh_token: Seq<char>,
    pub client_id: Seq<char>,
}

impl View for MicrosoftAccount {
    type V = AccountView;

    open spec fn view(&self) -> AccountView {
        AccountView {
            xuid: self.xuid@,
            exp: self.exp,
            uuid: self.uuid@,
            username: self.username@,
            access_token: self.access_token@,
            refresh_token: self.refresh_token@,
            client_id: self.client_id@,
        }
    }
}

impl Clone for MicrosoftAccount {
    fn clone(&self) -> (copy: Self)
        ensures
            copy == *self,
    {
        MicrosoftAccount {
            xuid: self.xuid.clone(),
            exp: self.exp,
            uuid: self.uuid.clone(),
            username: self.username.clone(),
            access_token: self.access_token.clone(),
            refresh_token: self.refresh_token.clone(),
            client_id: self.client_id.clone(),
        }
    }
}

/// What the player has chosen in the launcher.
#[derive(Debug, PartialEq, Eq)]
pub struct UserSettings {
    pub username: String,
    /// Memory for the game, in whole gigabytes.
    pub allocated_ram: u16,
    /// `"offline"` or `"microsoft"`.
    pub auth_method: String,
    pub microsoft_account: Option<MicrosoftAccount>,
    pub client_token: Option<String>,
}

/// How the game is started: with a Microsoft account or without one.
#[derive(Debug, PartialEq, Eq)]
pub enum AuthChoice {
    Microsoft {
        username: String,
        xuid: String,
        uuid: String,
        access_token: String,
        refresh_token: String,
    },
    Offline { username: String },
}

/// What an `AuthChoice` means.
pub enum AuthChoiceView {
    Microsoft {
        username: Seq<char>,
        xuid: Seq<char>,
        uuid: Seq<char>,
        access_token: Seq<char>,
        refresh_token: Seq<char>,
    },
    Offline { username: Seq<char> },
}

impl View for AuthChoice {
    type V = AuthChoiceView;

    open spec fn view(&self) -> AuthChoiceView {
        match *self {
            AuthChoice::Microsoft { username, xuid, uuid, access_token, refresh_token } => {
                AuthChoiceView::Microsoft {
                    username: username@,
                    xuid: xuid@,
                    uuid: uuid@,
                    access_token: access_token@,
                    refresh_token: refresh_token@,
                }
            },
            AuthChoice::Offline { username } => AuthChoiceView::Offline { username: username@ },
        }
    }
}

/// The sign-in that the settings call for: the Microsoft account if the
/// method is `"microsoft"` and an account is stored, else offline play under
/// the settings' user name.
pub open spec fn chosen_auth(
    auth_method: Seq<char>,
    username: Seq<char>,
    account: Option<AccountView>,
) -> AuthChoiceView {
    match account {
        Some(stored) if auth_method == "microsoft"@ => AuthChoiceView::Microsoft {
            username: stored.username,
            xuid: stored.xuid,
            uuid: stored.uuid,
            access_token: stored.access_token,
            refresh_token: stored.refresh_token,
        },
        _ => AuthChoiceView::Offline { username },
    }
}

/// The memory to give the game: what the settings ask for, but not less than
/// one gigabyte.
pub open spec fn memory_gigabytes(allocated_ram: u16) -> u16 {
    if allocated_ram < 1 {
        1
    } else {
        allocated_ram
    }
}

impl UserSettings {
    /// Picks the sign-in that these settings call for.
    pub fn auth_choice(&self) -> (choice: AuthChoice)
        ensures
            choice@ == chosen_auth(
                self.auth_method@,
                self.username@,
                match self.microsoft_account {
                    Some(account) => Some(account@),
                    None => None,
                },
            ),
    {
        let wanted = String::from_str("microsoft");
        let microsoft = self.auth_method == wanted;
        match &self.microsoft_account {
            Some(account) => {
                if microsoft {
                    AuthChoice::Microsoft {
                        username: account.username.clone(),
                        xuid: account.xuid.clone(),
                        uuid: account.uuid.clone(),
                        access_token: account.access_token.clone(),
                        refresh_token: account.refresh_token.clone(),
                    }
                } else {
                    AuthChoice::Offline { username: self.username.clone() }
                }
            },
            None => AuthChoice::Offline { username: self.username.clone() },
        }
    }

    /// The memory to give the game, in whole gigabytes.
    pub fn memory(&self) -> (gigabytes: u16)
        ensures
            gigabytes == memory_gigabytes(self.allocated_ram),
    {
        if self.allocated_ram < 1 {
            1
        } else {
            self.allocated_ram
        }
    }
}

} // verus!
