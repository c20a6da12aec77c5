//! Properties that hold across the library's operations.

use vstd::prelude::*;
use vstd::utf8::encode_utf8;

use crate::config::{config_dir_path, join_path, APP_DIR_NAME, CONFIG_FILE_NAME};
use crate::bindings::{base64url_nopad_decoded, json_object_members};
use crate::input::{is_unicode_space, trim_text, typed_u32};
use crate::menus::{
    account_menu_choice, add_account_choice, main_menu_choice, removal_choice, AccountMenuChoice,
    AddAccountChoice, MainMenuChoice, RemovalChoice,
};
use crate::models::{first_named, logins_due, needs_login, Account};
use crate::reddit::{jwt_expiry, payload_expiry};
use crate::response::{
    cookie_in_headers, cookie_in_value, is_header_text, is_set_cookie, jwt_cookie, session_cookie,
    HeaderLine,
};
use crate::text::{
    has_prefix, lemma_split_last, lemma_split_step, lemma_trim_end_at, lemma_trim_start_at, split_on,
    strip_prefix_repeatedly,
};

verus! {

/// Adding an account changes no lookup that already found an account, and
/// makes a lookup of the new account's name that found nothing find it.
pub proof fn law_lookup_after_adding(accounts: Seq<Account>, account: Account, username: Seq<char>)
    ensures
        first_named(accounts.push(account), username) == match first_named(accounts, username) {
            Some(found) => Some(found),
            None => if account.username@ == username {
                Some(account)
            } else {
                None
            },
        },
    decreases accounts.len(),
{
    if accounts.len() > 0 {
        assert(accounts.push(account)[0] == accounts[0]);
        assert(accounts.push(account).drop_first() =~= accounts.drop_first().push(account));
        law_lookup_after_adding(accounts.drop_first(), account, username);
    } else {
        assert(accounts.push(account)[0] == account);
        assert(first_named(accounts.push(account).drop_first(), username) is None);
    }
}

/// Removing the account that was added last gives back the accounts that
/// were there before.
pub proof fn law_removing_the_added_account(accounts: Seq<Account>, account: Account)
    ensures
        accounts.push(account).remove(accounts.len() as int) == accounts,
{
    assert(accounts.push(account).remove(accounts.len() as int) =~= accounts);
}

/// An added account is due to log in after the others exactly when it has a
/// password and no JWT; the logins due before stay as they were.
pub proof fn law_logins_due_after_adding(accounts: Seq<Account>, account: Account)
    ensures
        logins_due(accounts.push(account)) == if needs_login(account) {
            logins_due(accounts).push((account.username, account.password->0))
        } else {
            logins_due(accounts)
        },
{
    assert(accounts.push(account).drop_last() =~= accounts);
}

/// Trimming a typed line removes exactly the white space around its text.
pub proof fn law_trim_removes_surrounding_space(
    before: Seq<char>,
    text: Seq<char>,
    after: Seq<char>,
)
    requires
        forall|i: int| 0 <= i < before.len() ==> is_unicode_space(#[trigger] before[i]),
        forall|i: int| 0 <= i < after.len() ==> is_unicode_space(#[trigger] after[i]),
        text.len() > 0 ==> !is_unicode_space(text[0]) && !is_unicode_space(text.last()),
    ensures
        trim_text(before + text + after) == text,
{
    let skip = |c: char| is_unicode_space(c);
    let line = before + text + after;
    if text.len() == 0 {
        assert forall|k: int| 0 <= k < line.len() implies skip(#[trigger] line[k]) by {
            if k < before.len() {
                assert(line[k] == before[k]);
            } else {
                assert(line[k] == after[k - before.len()]);
            }
        }
        lemma_trim_start_at(line, skip, line.len() as int);
        let rest = line.skip(line.len() as int);
        lemma_trim_end_at(rest, skip, 0);
        assert(rest.take(0) =~= text);
    } else {
        assert forall|k: int| 0 <= k < before.len() implies skip(#[trigger] line[k]) by {
            assert(line[k] == before[k]);
        }
        assert(line[before.len() as int] == text[0]);
        lemma_trim_start_at(line, skip, before.len() as int);
        let rest = line.skip(before.len() as int);
        assert(rest =~= text + after);
        assert forall|k: int| text.len() <= k < rest.len() implies skip(#[trigger] rest[k]) by {
            assert(rest[k] == after[k - text.len()]);
        }
        assert(rest[text.len() - 1] == text.last());
        lemma_trim_end_at(rest, skip, text.len() as int);
        assert(rest.take(text.len() as int) =~= text);
    }
}

/// A leading `Bearer ` does not change what a JWT's expiry comes to, the
/// message of a failure included.
pub proof fn law_bearer_prefix_is_ignored(token: Seq<u8>)
    ensures
        jwt_expiry(encode_utf8("Bearer "@) + token) == jwt_expiry(token),
{
    let bearer = encode_utf8("Bearer "@);
    reveal_strlit("Bearer ");
    assert(bearer.len() > 0) by {
        reveal_with_fuel(encode_utf8, 2);
    }
    let line = bearer + token;
    assert(line.take(bearer.len() as int) =~= bearer);
    assert(has_prefix(line, bearer));
    assert(line.skip(bearer.len() as int) =~= token);
    assert(strip_prefix_repeatedly(line, bearer) == strip_prefix_repeatedly(token, bearer));
}

/// No byte of `s` is a dot.
pub open spec fn has_no_dot(s: Seq<u8>) -> bool {
    forall|k: int| 0 <= k < s.len() ==> #[trigger] s[k] != '.' as u8
}

proof fn lemma_bearer_has_no_dot()
    ensures
        has_no_dot(encode_utf8("Bearer "@)),
        encode_utf8("Bearer "@).len() > 0,
{
    reveal_strlit("Bearer ");
    let chars = "Bearer "@;
    assert(vstd::utf8::is_ascii_chars(chars));
    vstd::utf8::is_ascii_chars_encode_utf8(chars);
    let bytes = encode_utf8(chars);
    assert forall|k: int| 0 <= k < bytes.len() implies #[trigger] bytes[k] != '.' as u8 by {
        assert(chars[k] as u8 == bytes[k]);
    }
}

proof fn lemma_strip_keeps_no_dot(h: Seq<u8>, p: Seq<u8>)
    requires
        has_no_dot(h),
    ensures
        has_no_dot(strip_prefix_repeatedly(h, p)),
    decreases h.len(),
{
    if p.len() > 0 && has_prefix(h, p) {
        let rest = h.skip(p.len() as int);
        assert forall|k: int| 0 <= k < rest.len() implies #[trigger] rest[k] != '.' as u8 by {
            assert(rest[k] == h[k + p.len()]);
        }
        lemma_strip_keeps_no_dot(rest, p);
    }
}

/// Stripping a dot-free prefix stops at a dot: it acts on the part before it.
proof fn lemma_strip_stops_at_dot(h: Seq<u8>, r: Seq<u8>, p: Seq<u8>)
    requires
        has_no_dot(p),
        p.len() > 0,
        r.len() > 0,
        r[0] == '.' as u8,
    ensures
        strip_prefix_repeatedly(h + r, p) == strip_prefix_repeatedly(h, p) + r,
    decreases h.len(),
{
    let s = h + r;
    if has_prefix(h, p) {
        assert(s.take(p.len() as int) =~= h.take(p.len() as int));
        assert(s.skip(p.len() as int) =~= h.skip(p.len() as int) + r);
        lemma_strip_stops_at_dot(h.skip(p.len() as int), r, p);
    } else {
        if has_prefix(s, p) {
            if p.len() <= h.len() {
                assert(s.take(p.len() as int) =~= h.take(p.len() as int));
            } else {
                assert(s.take(p.len() as int)[h.len() as int] == r[0]);
            }
        }
    }
}

/// The expiry of a token made of three dot-free parts joined by dots is what
/// its middle part holds: the first and last parts, and any `Bearer ` in
/// front, do not matter.
pub proof fn law_expiry_is_decided_by_the_middle_part(
    head: Seq<u8>,
    payload: Seq<u8>,
    signature: Seq<u8>,
)
    requires
        has_no_dot(head),
        has_no_dot(payload),
        has_no_dot(signature),
    ensures
        jwt_expiry(head + seq!['.' as u8] + payload + seq!['.' as u8] + signature)
            == payload_expiry(payload),
{
    let dot = '.' as u8;
    let bearer = encode_utf8("Bearer "@);
    lemma_bearer_has_no_dot();
    let rest = seq![dot] + payload + seq![dot] + signature;
    let token = head + seq![dot] + payload + seq![dot] + signature;
    assert(token =~= head + rest);
    lemma_strip_stops_at_dot(head, rest, bearer);
    let first = strip_prefix_repeatedly(head, bearer);
    lemma_strip_keeps_no_dot(head, bearer);
    let stripped = first + rest;
    lemma_split_step(stripped, dot, first.len() as int);
    assert(stripped.take(first.len() as int) =~= first);
    let tail = stripped.skip(first.len() as int + 1);
    assert(tail =~= payload + seq![dot] + signature);
    lemma_split_step(tail, dot, payload.len() as int);
    assert(tail.take(payload.len() as int) =~= payload);
    assert(tail.skip(payload.len() as int + 1) =~= signature);
    lemma_split_last(signature, dot);
    assert(split_on(stripped, dot) =~= seq![first, payload, signature]);
}

/// The cookie that a later `set-cookie` header sets wins over the earlier
/// ones; any other header changes nothing.
pub proof fn law_later_cookie_wins(headers: Seq<HeaderLine>, header: HeaderLine, prefix: Seq<u8>)
    ensures
        cookie_in_headers(headers.push(header), prefix) == if is_set_cookie(header)
            && cookie_in_value(header.1@, prefix) is Some {
            cookie_in_value(header.1@, prefix)
        } else {
            cookie_in_headers(headers, prefix)
        },
{
    assert(headers.push(header).drop_last() =~= headers);
}

/// With a system configuration directory that names a directory (not empty,
/// no trailing `/`), the configuration file is `rplaceDownloader/config.json`
/// inside it.
pub proof fn law_config_file_location(system_config_dir: Seq<char>)
    requires
        system_config_dir.len() > 0,
        system_config_dir.last() != '/',
    ensures
        join_path(config_dir_path(Some(system_config_dir)), CONFIG_FILE_NAME@)
            == system_config_dir + "/rplaceDownloader/config.json"@,
{
    reveal_strlit("rplaceDownloader");
    reveal_strlit("config.json");
    reveal_strlit("/rplaceDownloader/config.json");
    let dir = config_dir_path(Some(system_config_dir));
    assert(dir =~= system_config_dir + seq!['/'] + APP_DIR_NAME@);
    assert(dir.last() == 'r');
    assert(join_path(dir, CONFIG_FILE_NAME@) =~= system_config_dir
        + "/rplaceDownloader/config.json"@);
}

/// Header text is exactly what `HeaderValue::to_str` accepts: every byte is
/// visible ASCII (space to `~`, commas and all) or a tab.
pub proof fn law_header_text_is_visible_ascii(value: Seq<u8>)
    ensures
        is_header_text(value) <==> forall|i: int|
            0 <= i < value.len() ==> (0x20 <= #[trigger] value[i] && value[i] <= 0x7e)
                || value[i] == 0x09,
{
}

/// In the remove-account menu, typing the number `n` that lists an account
/// removes the account at position `n - 1`, the one listed with `n`; the
/// number after the last account goes back; a larger number is out of range.
pub proof fn law_removal_takes_the_listed_account(n: usize, account_count: usize)
    requires
        account_count < usize::MAX,
    ensures
        1 <= n <= account_count ==> removal_choice(Some(n), account_count) == RemovalChoice::Remove(
            (n - 1) as usize,
        ),
        n == account_count + 1 ==> removal_choice(Some(n), account_count) == RemovalChoice::Back,
        n > account_count + 1 ==> removal_choice(Some(n), account_count)
            == RemovalChoice::OutOfBounds,
        removal_choice(None, account_count) == RemovalChoice::InvalidInput,
{
}

/// What a menu does depends only on the number read from the trimmed line:
/// two lines that read as the same number (or both as none) select the same
/// entry in each menu.
pub proof fn law_menus_read_only_the_number(first: Seq<char>, second: Seq<char>)
    requires
        typed_u32(first) == typed_u32(second),
    ensures
        main_menu_choice(first) == main_menu_choice(second),
        account_menu_choice(first) == account_menu_choice(second),
        add_account_choice(first) == add_account_choice(second),
{
}

/// The main menu's entries: 1 manages accounts, 2 starts the downloader,
/// 3 leaves; any other number names no entry, and a line that is not a
/// number is invalid input.
pub proof fn law_main_menu_entries(line: Seq<char>)
    ensures
        typed_u32(line) == Some(1nat) ==> main_menu_choice(line) == MainMenuChoice::AccountManagement,
        typed_u32(line) == Some(2nat) ==> main_menu_choice(line) == MainMenuChoice::StartDownloader,
        typed_u32(line) == Some(3nat) ==> main_menu_choice(line) == MainMenuChoice::Exit,
        typed_u32(line) matches Some(n) && (n < 1 || n > 3) ==> main_menu_choice(line)
            == MainMenuChoice::InvalidOption,
        typed_u32(line) is None ==> main_menu_choice(line) == MainMenuChoice::InvalidInput,
{
}

/// The account menu's entries: 1 adds, 2 edits, 3 removes, 4 goes back.
pub proof fn law_account_menu_entries(line: Seq<char>)
    ensures
        typed_u32(line) == Some(1nat) ==> account_menu_choice(line) == AccountMenuChoice::AddAccount,
        typed_u32(line) == Some(2nat) ==> account_menu_choice(line) == AccountMenuChoice::EditAccount,
        typed_u32(line) == Some(3nat) ==> account_menu_choice(line)
            == AccountMenuChoice::RemoveAccount,
        typed_u32(line) == Some(4nat) ==> account_menu_choice(line) == AccountMenuChoice::Back,
        typed_u32(line) matches Some(n) && (n < 1 || n > 4) ==> account_menu_choice(line)
            == AccountMenuChoice::InvalidOption,
        typed_u32(line) is None ==> account_menu_choice(line) == AccountMenuChoice::InvalidInput,
{
}

/// The add-account menu's entries: 1 with a password, 2 with a JWT, 3 back.
pub proof fn law_add_account_menu_entries(line: Seq<char>)
    ensures
        typed_u32(line) == Some(1nat) ==> add_account_choice(line)
            == AddAccountChoice::WithCredentials,
        typed_u32(line) == Some(2nat) ==> add_account_choice(line) == AddAccountChoice::WithToken,
        typed_u32(line) == Some(3nat) ==> add_account_choice(line) == AddAccountChoice::Back,
        typed_u32(line) matches Some(n) && (n < 1 || n > 3) ==> add_account_choice(line)
            == AddAccountChoice::InvalidOption,
        typed_u32(line) is None ==> add_account_choice(line) == AddAccountChoice::InvalidInput,
{
}

/// A line that holds one decimal digit, with any white space around it (the
/// line break that a read keeps included), reads as that digit.
pub proof fn law_single_digit_line(before: Seq<char>, digit: char, after: Seq<char>)
    requires
        forall|i: int| 0 <= i < before.len() ==> is_unicode_space(#[trigger] before[i]),
        forall|i: int| 0 <= i < after.len() ==> is_unicode_space(#[trigger] after[i]),
        '0' <= digit <= '9',
    ensures
        typed_u32(before + seq![digit] + after) == Some((digit as int - '0' as int) as nat),
{
    law_trim_removes_surrounding_space(before, seq![digit], after);
    let d = seq![digit];
    assert(crate::input::unsigned_digits(d) == d);
    assert(d.drop_last() =~= Seq::<char>::empty());
    assert(crate::input::decimal_value(d.drop_last()) == 0);
}

/// The expiry that a JWT's middle part gives is its `exp` member and nothing
/// else: where the part decodes to a JSON object, the expiry succeeds exactly
/// when the `exp` member is an `i64`, and then is that value, whatever the
/// other members hold.
pub proof fn law_expiry_is_the_exp_member(
    payload: Seq<u8>,
    json: Seq<u8>,
    members: Map<Seq<char>, Option<i64>>,
)
    requires
        base64url_nopad_decoded(payload) == Ok::<Seq<u8>, Seq<char>>(json),
        json_object_members(json) == Ok::<Map<Seq<char>, Option<i64>>, Seq<char>>(members),
    ensures
        payload_expiry(payload) is Ok <==> members.contains_key("exp"@) && members["exp"@] is Some,
        members.contains_key("exp"@) && members["exp"@] is Some ==> payload_expiry(payload)
            == Ok::<i64, Seq<char>>(members["exp"@]->0),
{
}

/// A middle part that is not base64, or whose bytes are not a JSON object,
/// gives no expiry.
pub proof fn law_expiry_needs_an_object(payload: Seq<u8>)
    ensures
        base64url_nopad_decoded(payload) is Err ==> payload_expiry(payload) is Err,
        base64url_nopad_decoded(payload) matches Ok(json) && json_object_members(json) is Err
            ==> payload_expiry(payload) is Err,
{
}

/// Trimming the end of a sequence keeps a prefix whose last element is not
/// trimmed.
proof fn lemma_trim_end_keeps_prefix<T>(s: Seq<T>, p: Seq<T>, skip: spec_fn(T) -> bool)
    requires
        has_prefix(s, p),
        p.len() > 0,
        !skip(p.last()),
    ensures
        has_prefix(crate::text::trim_end_by(s, skip), p),
    decreases s.len(),
{
    if s.len() > 0 && skip(s.last()) {
        if s.len() == p.len() {
            assert(s.take(p.len() as int)[p.len() - 1] == s.last());
        }
        let t = s.drop_last();
        assert(t.take(p.len() as int) =~= s.take(p.len() as int));
        lemma_trim_end_keeps_prefix(t, p, skip);
    }
}

/// The facts about a cookie name that reading it relies on: ASCII, no `;`,
/// and neither its first nor its last byte is white space.
pub open spec fn is_plain_cookie_prefix(prefix: Seq<u8>) -> bool {
    &&& prefix.len() > 0
    &&& forall|k: int| 0 <= k < prefix.len() ==> #[trigger] prefix[k] != ';' as u8
    &&& !crate::text::is_ascii_space(prefix[0])
    &&& !crate::text::is_ascii_space(prefix.last())
}

proof fn lemma_cookie_prefixes_are_plain()
    ensures
        is_plain_cookie_prefix(encode_utf8("token_v2="@)),
        is_plain_cookie_prefix(encode_utf8("reddit_session="@)),
{
    reveal_strlit("token_v2=");
    reveal_strlit("reddit_session=");
    let a = "token_v2="@;
    let b = "reddit_session="@;
    assert(vstd::utf8::is_ascii_chars(a));
    assert(vstd::utf8::is_ascii_chars(b));
    vstd::utf8::is_ascii_chars_encode_utf8(a);
    vstd::utf8::is_ascii_chars_encode_utf8(b);
    let ea = encode_utf8(a);
    let eb = encode_utf8(b);
    assert forall|k: int| 0 <= k < ea.len() implies #[trigger] ea[k] != ';' as u8 by {
        assert(a[k] as u8 == ea[k]);
    }
    assert forall|k: int| 0 <= k < eb.len() implies #[trigger] eb[k] != ';' as u8 by {
        assert(b[k] as u8 == eb[k]);
    }
    assert(a[0] as u8 == ea[0]);
    assert(a[a.len() - 1] as u8 == ea[ea.len() - 1]);
    assert(b[0] as u8 == eb[0]);
    assert(b[b.len() - 1] as u8 == eb[eb.len() - 1]);
}

/// A single `set-cookie` header whose first piece is `prefix` then `value`
/// gives `value`, untouched, as its cookie under `prefix`.
proof fn lemma_cookie_of_single_header(
    header: HeaderLine,
    prefix: Seq<u8>,
    value: Seq<u8>,
    rest: Seq<u8>,
)
    requires
        is_set_cookie(header),
        header.1@ == prefix + value + rest,
        is_plain_cookie_prefix(prefix),
        forall|k: int| 0 <= k < value.len() ==> #[trigger] value[k] != ';' as u8,
        !has_prefix(value, prefix),
        rest.len() == 0 || rest[0] == ';' as u8,
    ensures
        cookie_in_headers(seq![header], prefix) == Some(value),
{
    let semi = ';' as u8;
    let piece = prefix + value;
    let line = piece + rest;
    assert(header.1@ =~= line);
    assert forall|k: int| 0 <= k < piece.len() implies #[trigger] piece[k] != semi by {
        if k < prefix.len() {
            assert(piece[k] == prefix[k]);
        } else {
            assert(piece[k] == value[k - prefix.len()]);
        }
    }
    if rest.len() == 0 {
        assert(line =~= piece);
        lemma_split_last(piece, semi);
    } else {
        lemma_split_step(line, semi, piece.len() as int);
        assert(line.take(piece.len() as int) =~= piece);
    }
    let pieces = split_on(line, semi);
    assert(pieces[0] == piece);
    let skip = |b: u8| crate::text::is_ascii_space(b);
    assert(piece[0] == prefix[0]);
    lemma_trim_start_at(piece, skip, 0);
    assert(piece.skip(0) =~= piece);
    assert(piece.take(prefix.len() as int) =~= prefix);
    lemma_trim_end_keeps_prefix(piece, prefix, skip);
    assert(has_prefix(crate::text::trim_ascii(pieces[0]), prefix));
    assert(piece.skip(prefix.len() as int) =~= value);
    assert(strip_prefix_repeatedly(piece, prefix) == strip_prefix_repeatedly(value, prefix));
    assert(cookie_in_value(header.1@, prefix) == Some(value));
    assert(seq![header].last() == header);
}

/// The JWT read from a single `set-cookie` header `token_v2=` + `value`,
/// followed by nothing or by `;` and more attributes, is `value` whole, for
/// any value without `;` that does not itself start with `token_v2=`.
pub proof fn law_jwt_cookie_is_the_whole_value(header: HeaderLine, value: Seq<u8>, rest: Seq<u8>)
    requires
        is_set_cookie(header),
        header.1@ == encode_utf8("token_v2="@) + value + rest,
        forall|k: int| 0 <= k < value.len() ==> #[trigger] value[k] != ';' as u8,
        !has_prefix(value, encode_utf8("token_v2="@)),
        rest.len() == 0 || rest[0] == ';' as u8,
    ensures
        jwt_cookie(seq![header]) == Some(value),
{
    lemma_cookie_prefixes_are_plain();
    lemma_cookie_of_single_header(header, encode_utf8("token_v2="@), value, rest);
}

/// The session read from a single `set-cookie` header `reddit_session=` +
/// `id` + `tail`, where `tail` is empty or starts with `%`, is `id`, for any
/// `id` without `%` and a `tail` without `;`, followed by nothing or by `;`
/// and more attributes.
pub proof fn law_session_cookie_is_the_id(
    header: HeaderLine,
    id: Seq<u8>,
    tail: Seq<u8>,
    rest: Seq<u8>,
)
    requires
        is_set_cookie(header),
        header.1@ == encode_utf8("reddit_session="@) + id + tail + rest,
        forall|k: int| 0 <= k < id.len() ==> #[trigger] id[k] != ';' as u8 && id[k] != '%' as u8,
        forall|k: int| 0 <= k < tail.len() ==> #[trigger] tail[k] != ';' as u8,
        tail.len() == 0 || tail[0] == '%' as u8,
        !has_prefix(id + tail, encode_utf8("reddit_session="@)),
        rest.len() == 0 || rest[0] == ';' as u8,
    ensures
        session_cookie(seq![header]) == Some(id),
{
    let value = id + tail;
    assert forall|k: int| 0 <= k < value.len() implies #[trigger] value[k] != ';' as u8 by {
        if k < id.len() {
            assert(value[k] == id[k]);
        } else {
            assert(value[k] == tail[k - id.len()]);
        }
    }
    assert(header.1@ =~= encode_utf8("reddit_session="@) + value + rest);
    lemma_cookie_prefixes_are_plain();
    lemma_cookie_of_single_header(header, encode_utf8("reddit_session="@), value, rest);
    assert forall|k: int| 0 <= k < id.len() implies value[k] != '%' as u8 by {
        assert(value[k] == id[k]);
    }
    if tail.len() > 0 {
        assert(value[id.len() as int] == tail[0]);
    }
    crate::text::lemma_first_index_at(value, '%' as u8, id.len() as int);
    assert(value.take(id.len() as int) =~= id);
}

/// A response succeeded exactly when its status is in the 2xx range.
pub proof fn law_success_is_2xx(status: u16)
    ensures
        crate::response::is_success(status) <==> 200 <= status && status <= 299,
{
}

/// A run of decimal digits is read left to right: one more digit multiplies
/// what came before by ten and adds the digit's value; no digits read as 0.
pub proof fn law_digits_read_left_to_right(digits: Seq<char>, digit: char)
    requires
        '0' <= digit <= '9',
    ensures
        crate::input::decimal_value(Seq::<char>::empty()) == 0,
        crate::input::decimal_value(digits.push(digit)) == crate::input::decimal_value(digits)
            * 10 + (digit as int - '0' as int),
{
    assert(digits.push(digit).drop_last() =~= digits);
}

/// On a login page that begins with the CSRF marker, the token is what
/// follows the marker up to the next `"`.
pub proof fn law_csrf_token_follows_the_marker(token: Seq<u8>, rest: Seq<u8>)
    requires
        forall|k: int| 0 <= k < token.len() ==> #[trigger] token[k] != '"' as u8,
    ensures
        crate::response::csrf_token_of(
            encode_utf8(crate::response::CSRF_MARKER@) + token + seq!['"' as u8] + rest,
        ) == token,
{
    let marker = encode_utf8(crate::response::CSRF_MARKER@);
    let page = marker + token + seq!['"' as u8] + rest;
    assert(page.subrange(0, marker.len() as int) =~= marker);
    assert(crate::text::is_first_occurrence(page, marker, 0));
    let i = choose|i: int| crate::text::is_first_occurrence(page, marker, i);
    if i > 0 {
        assert(page.subrange(0, 0 + marker.len() as int) =~= marker);
    }
    let after = page.skip(marker.len() as int);
    assert(after =~= token + seq!['"' as u8] + rest);
    assert forall|k: int| 0 <= k < token.len() implies after[k] != '"' as u8 by {
        assert(after[k] == token[k]);
    }
    assert(after[token.len() as int] == '"' as u8);
    crate::text::lemma_first_index_at(after, '"' as u8, token.len() as int);
    assert(after.take(token.len() as int) =~= token);
}

/// A refresh checks the JWT's own expiry, and 0 (the epoch, long past) when
/// the JWT gives none.
pub proof fn law_refresh_checks_the_jwt_expiry(token: Seq<u8>)
    ensures
        jwt_expiry(token) matches Ok(n) ==> crate::reddit::expiry_or_zero(token) == n,
        jwt_expiry(token) is Err ==> crate::reddit::expiry_or_zero(token) == 0,
{
}

} // verus!
