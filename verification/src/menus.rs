//! What each menu does with the line that the user typed.

use vstd::prelude::*;

use crate::input::{parse_typed_number, typed_u32, typed_usize};

verus! {

/// The first menu: account management, the downloader, or leaving.
pub struct MainMenu;

/// The account menu: adding, editing and removing accounts.
pub struct AccountMenu;

/// The downloader, which logs the configured accounts in.
pub struct DownloadMenu;

/// What the main menu does with a typed line.
#[derive(PartialEq, Eq, Structural, Debug, Clone, Copy)]
pub enum MainMenuChoice {
    AccountManagement,
    StartDownloader,
    Exit,
    /// A number that names no entry.
    InvalidOption,
    /// Not a number.
    InvalidInput,
}

/// What the account menu does with a typed line.
#[derive(PartialEq, Eq, Structural, Debug, Clone, Copy)]
pub enum AccountMenuChoice {
    AddAccount,
    EditAccount,
    RemoveAccount,
    Back,
    /// A number that names no entry.
    InvalidOption,
    /// Not a number.
    InvalidInput,
}

/// What the add-account menu does with a typed line.
#[derive(PartialEq, Eq, Structural, Debug, Clone, Copy)]
pub enum AddAccountChoice {
    WithCredentials,
    WithToken,
    Back,
    /// A number that names no entry.
    InvalidOption,
    /// Not a number.
    InvalidInput,
}

/// What the remove-account menu does with the number that was typed.
#[derive(PartialEq, Eq, Structural, Debug, Clone, Copy)]
pub enum RemovalChoice {
    /// The number after the last account: go back.
    Back,
    /// Remove the account at this position.
    Remove(usize),
    /// A number past the entries.
    OutOfBounds,
    /// Not a number.
    InvalidInput,
}

/// The main menu's entries are numbered 1 to 3.
pub open spec fn main_menu_choice(line: Seq<char>) -> MainMenuChoice {
    match typed_u32(line) {
        None => MainMenuChoice::InvalidInput,
        Some(n) => if n == 1 {
            MainMenuChoice::AccountManagement
        } else if n == 2 {
            MainMenuChoice::StartDownloader
        } else if n == 3 {
            MainMenuChoice::Exit
        } else {
            MainMenuChoice::InvalidOption
        },
    }
}

/// The account menu's entries are numbered 1 to 4.
pub open spec fn account_menu_choice(line: Seq<char>) -> AccountMenuChoice {
    match typed_u32(line) {
        None => AccountMenuChoice::InvalidInput,
        Some(n) => if n == 1 {
            AccountMenuChoice::AddAccount
        } else if n == 2 {
            AccountMenuChoice::EditAccount
        } else if n == 3 {
            AccountMenuChoice::RemoveAccount
        } else if n == 4 {
            AccountMenuChoice::Back
        } else {
            AccountMenuChoice::InvalidOption
        },
    }
}

/// The add-account menu's entries are numbered 1 to 3.
pub open spec fn add_account_choice(line: Seq<char>) -> AddAccountChoice {
    match typed_u32(line) {
        None => AddAccountChoice::InvalidInput,
        Some(n) => if n == 1 {
            AddAccountChoice::WithCredentials
        } else if n == 2 {
            AddAccountChoice::WithToken
        } else if n == 3 {
            AddAccountChoice::Back
        } else {
            AddAccountChoice::InvalidOption
        },
    }
}

/// The remove-account menu lists the accounts from 1 and then "back".
pub open spec fn removal_choice(selection: Option<usize>, account_count: usize) -> RemovalChoice {
    match selection {
        None => RemovalChoice::InvalidInput,
        Some(n) => if n == account_count + 1 {
            RemovalChoice::Back
        } else if n <= account_count {
            RemovalChoice::Remove((n - 1) as usize)
        } else {
            RemovalChoice::OutOfBounds
        },
    }
}

/// The number on a typed line, read as `u32`.
fn menu_number(line: &str) -> (number: Option<u64>)
    ensures
        match typed_u32(line@) {
            Some(n) => number == Some(n as u64),
            None => number is None,
        },
{
    parse_typed_number(line, u32::MAX as u64)
}

impl MainMenu {
    /// What the main menu does with the typed line.
    pub fn choice(selected_option: &str) -> (choice: MainMenuChoice)
        ensures
            choice == main_menu_choice(selected_option@),
    {
        match menu_number(selected_option) {
            None => MainMenuChoice::InvalidInput,
            Some(1) => MainMenuChoice::AccountManagement,
            Some(2) => MainMenuChoice::StartDownloader,
            Some(3) => MainMenuChoice::Exit,
            Some(_) => MainMenuChoice::InvalidOption,
        }
    }
}

impl AccountMenu {
    /// What the account menu does with the typed line.
    pub fn choice(selected_option: &str) -> (choice: AccountMenuChoice)
        ensures
            choice == account_menu_choice(selected_option@),
    {
        match menu_number(selected_option) {
            None => AccountMenuChoice::InvalidInput,
            Some(1) => AccountMenuChoice::AddAccount,
            Some(2) => AccountMenuChoice::EditAccount,
            Some(3) => AccountMenuChoice::RemoveAccount,
            Some(4) => AccountMenuChoice::Back,
            Some(_) => AccountMenuChoice::InvalidOption,
        }
    }

    /// What the add-account menu does with the typed line.
    pub fn add_account_choice(selected_option: &str) -> (choice: AddAccountChoice)
        ensures
            choice == add_account_choice(selected_option@),
    {
        match menu_number(selected_option) {
            None => AddAccountChoice::InvalidInput,
            Some(1) => AddAccountChoice::WithCredentials,
            Some(2) => AddAccountChoice::WithToken,
            Some(3) => AddAccountChoice::Back,
            Some(_) => AddAccountChoice::InvalidOption,
        }
    }

    /// The number typed in the remove-account menu, read as `usize`.
    pub fn removal_selection(selected_option: &str) -> (selection: Option<usize>)
        ensures
            match typed_usize(selected_option@) {
                Some(n) => selection == Some(n as usize),
                None => selection is None,
            },
    {
        match parse_typed_number(selected_option, usize::MAX as u64) {
            None => None,
            Some(n) => Some(n as usize),
        }
    }

    /// What the remove-account menu does with the number that was typed,
    /// among `account_count` accounts. The number 0 names no account and
    /// comes before the first; it is not taken.
    pub fn removal_choice(selection: Option<usize>, account_count: usize) -> (choice: RemovalChoice)
        requires
            account_count < usize::MAX,
            selection != Some(0usize),
        ensures
            choice == removal_choice(selection, account_count),
    {
        match selection {
            None => RemovalChoice::InvalidInput,
            Some(n) => if n == account_count + 1 {
                RemovalChoice::Back
            } else if n <= account_count {
                RemovalChoice::Remove(n - 1)
            } else {
                RemovalChoice::OutOfBounds
            },
        }
    }

    /// Editing an account does nothing yet.
    pub fn edit_account() {
    }
}

} // verus!
