//! The data the downloader keeps: accounts in its configuration file and the
//! tokens that a Reddit login yields.

use vstd::prelude::*;

verus! {

/// A Reddit account name together with the JWT that was issued for it.
pub struct AccountToken {
    username: String,
    jwt_token: String,
}

impl AccountToken {
    /// The account name.
    pub closed spec fn spec_username(&self) -> Seq<char> {
        self.username@
    }

    /// The JWT issued for the account.
    pub closed spec fn spec_jwt_token(&self) -> Seq<char> {
        self.jwt_token@
    }

    /// Pairs an account name with its JWT.
    pub fn new(username: String, jwt_token: String) -> (token: Self)
        ensures
            token.spec_username() == username@,
            token.spec_jwt_token() == jwt_token@,
    {
        AccountToken { username, jwt_token }
    }
}

/// One account of the configuration: a user name with a password, a JWT, or both.
pub struct Account {
    pub username: String,
    pub password: Option<String>,
    pub jwt_token: Option<String>,
}

impl Clone for Account {
    fn clone(&self) -> (copy: Self)
        ensures
            copy == *self,
    {
        let password = match &self.password {
            Some(p) => Some(p.clone()),
            None => None,
        };
        let jwt_token = match &self.jwt_token {
            Some(t) => Some(t.clone()),
            None => None,
        };
        Account { username: self.username.clone(), password, jwt_token }
    }
}

impl Account {
    /// An account that logs in with a user name and a password; it has no JWT yet.
    pub fn with_credentials(username: String, password: String) -> (account: Self)
        ensures
            account.username == username,
            account.password == Some(password),
            account.jwt_token is None,
    {
        Account { username, password: Some(password), jwt_token: None }
    }

    /// An account known by its JWT alone; it has no password.
    pub fn with_token(username: String, jwt_token: String) -> (account: Self)
        ensures
            account.username == username,
            account.password is None,
            account.jwt_token == Some(jwt_token),
    {
        Account { username, password: None, jwt_token: Some(jwt_token) }
    }
}

/// The whole configuration file: the list of accounts, in the order they were added.
pub struct AppConfig {
    pub accounts: Vec<Account>,
}

impl AppConfig {
    /// A configuration holding exactly the given accounts.
    pub fn new(accounts: Vec<Account>) -> (config: Self)
        ensures
            config.accounts == accounts,
    {
        AppConfig { accounts }
    }

    /// The configuration written when none exists yet: no accounts.
    pub fn new_empty() -> (config: Self)
        ensures
            config.accounts@ == Seq::<Account>::empty(),
    {
        AppConfig { accounts: Vec::new() }
    }
}

/// The first of `accounts` whose user name is `username`.
pub open spec fn first_named(accounts: Seq<Account>, username: Seq<char>) -> Option<Account>
    decreases accounts.len(),
{
    if accounts.len() == 0 {
        None
    } else if accounts[0].username@ == username {
        Some(accounts[0])
    } else {
        first_named(accounts.drop_first(), username)
    }
}

/// An account that still has to log in: it has a password and no JWT.
pub open spec fn needs_login(account: Account) -> bool {
    account.jwt_token is None && account.password is Some
}

/// The user name and password of each account that still has to log in, in
/// the order of `accounts`.
pub open spec fn logins_due(accounts: Seq<Account>) -> Seq<(String, String)>
    decreases accounts.len(),
{
    if accounts.len() == 0 {
        Seq::empty()
    } else {
        let earlier = logins_due(accounts.drop_last());
        let last = accounts.last();
        if needs_login(last) {
            earlier.push((last.username, last.password->0))
        } else {
            earlier
        }
    }
}

impl AppConfig {
    /// The first account with this user name, if there is one.
    pub fn find_account(&self, username: &String) -> (found: Option<Account>)
        ensures
            found == first_named(self.accounts@, username@),
    {
        let mut i: usize = 0;
        proof {
            assert(self.accounts@.skip(0) =~= self.accounts@);
        }
        while i < self.accounts.len()
            invariant
                i <= self.accounts@.len(),
                first_named(self.accounts@, username@) == first_named(
                    self.accounts@.skip(i as int),
                    username@,
                ),
            decreases self.accounts@.len() - i,
        {
            proof {
                let rest = self.accounts@.skip(i as int);
                assert(rest[0] == self.accounts@[i as int]);
                assert(rest.drop_first() =~= self.accounts@.skip(i + 1));
            }
            if self.accounts[i].username == *username {
                return Some(self.accounts[i].clone());
            }
            i = i + 1;
        }
        None
    }

    /// The configuration with `account` added after the others.
    pub fn with_account(&self, account: Account) -> (config: AppConfig)
        ensures
            config.accounts@ == self.accounts@.push(account),
    {
        let mut accounts: Vec<Account> = Vec::new();
        let mut i: usize = 0;
        while i < self.accounts.len()
            invariant
                i <= self.accounts@.len(),
                accounts@ == self.accounts@.take(i as int),
            decreases self.accounts@.len() - i,
        {
            accounts.push(self.accounts[i].clone());
            assert(accounts@ =~= self.accounts@.take(i + 1));
            i = i + 1;
        }
        assert(accounts@ =~= self.accounts@);
        accounts.push(account);
        AppConfig { accounts }
    }

    /// The configuration without the account at `index`.
    pub fn without_account(&self, index: usize) -> (config: AppConfig)
        requires
            index < self.accounts@.len(),
        ensures
            config.accounts@ == self.accounts@.remove(index as int),
    {
        let mut accounts: Vec<Account> = Vec::new();
        let mut i: usize = 0;
        while i < self.accounts.len()
            invariant
                index < self.accounts@.len(),
                i <= self.accounts@.len(),
                accounts@ == (if i <= index {
                    self.accounts@.take(i as int)
                } else {
                    self.accounts@.take(i as int).remove(index as int)
                }),
            decreases self.accounts@.len() - i,
        {
            if i != index {
                accounts.push(self.accounts[i].clone());
            }
            proof {
                if i < index {
                    assert(accounts@ =~= self.accounts@.take(i + 1));
                } else if i == index {
                    assert(self.accounts@.take(i + 1).remove(index as int) =~= self.accounts@.take(
                        i as int,
                    ));
                } else {
                    assert(accounts@ =~= self.accounts@.take(i + 1).remove(index as int));
                }
            }
            i = i + 1;
        }
        assert(self.accounts@.take(self.accounts@.len() as int) =~= self.accounts@);
        AppConfig { accounts }
    }

    /// The user name and password of each account that still has to log in.
    pub fn logins_due(&self) -> (logins: Vec<(String, String)>)
        ensures
            logins@ == logins_due(self.accounts@),
    {
        let mut logins: Vec<(String, String)> = Vec::new();
        let mut i: usize = 0;
        while i < self.accounts.len()
            invariant
                i <= self.accounts@.len(),
                logins@ == logins_due(self.accounts@.take(i as int)),
            decreases self.accounts@.len() - i,
        {
            proof {
                assert(self.accounts@.take(i + 1).drop_last() =~= self.accounts@.take(i as int));
            }
            let account = &self.accounts[i];
            if account.jwt_token.is_none() {
                match &account.password {
                    Some(password) => {
                        logins.push((account.username.clone(), password.clone()));
                    },
                    None => {},
                }
            }
            i = i + 1;
        }
        assert(self.accounts@.take(self.accounts@.len() as int) =~= self.accounts@);
        logins
    }
}

/// The two cookies that a successful Reddit login yields.
pub struct Token {
    pub reddit_session: String,
    pub jwt_token: String,
}

impl Clone for Token {
    fn clone(&self) -> (copy: Self)
        ensures
            copy == *self,
    {
        Token { reddit_session: self.reddit_session.clone(), jwt_token: self.jwt_token.clone() }
    }
}

impl Token {
    /// Pairs a `reddit_session` cookie with a `token_v2` JWT.
    pub fn new(reddit_session: String, jwt_token: String) -> (token: Self)
        ensures
            token.reddit_session == reddit_session,
            token.jwt_token == jwt_token,
    {
        Token { reddit_session, jwt_token }
    }
}

} // verus!
