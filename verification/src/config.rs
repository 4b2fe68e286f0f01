//! Accounts and runtime configuration.

use vstd::prelude::*;

use crate::number::{decimal_text, parse_i64, parse_u64, signed_text};
use crate::text::{eq_ignore_ascii_case, join, quoted, trim};

verus! {

// ---------------------------------------------------------------------------
// Accounts
// ---------------------------------------------------------------------------

/// One bookable `MonClub` identity: an account that can be authenticated as, and booked or
/// cancelled on behalf of. The primary account comes from the top-level settings; extra
/// accounts come from the users file.
pub struct Account {
    /// Human-friendly name used in replies (e.g. "tom").
    pub label: String,
    pub email: String,
    pub password: String,
    pub custom_id: String,
    /// Discord user id this account is linked to.
    pub discord_id: Option<u64>,
}

/// The contents of an [`Account`].
#[verifier::ext_equal]
pub struct AccountView {
    pub label: Seq<char>,
    pub email: Seq<char>,
    pub password: Seq<char>,
    pub custom_id: Seq<char>,
    pub discord_id: Option<u64>,
}

impl View for Account {
    type V = AccountView;

    open spec fn view(&self) -> AccountView {
        AccountView {
            label: self.label@,
            email: self.email@,
            password: self.password@,
            custom_id: self.custom_id@,
            discord_id: self.discord_id,
        }
    }
}

impl Clone for Account {
    fn clone(&self) -> (r: Self)
        ensures
            r == *self,
    {
        Account {
            label: self.label.clone(),
            email: self.email.clone(),
            password: self.password.clone(),
            custom_id: self.custom_id.clone(),
            discord_id: self.discord_id,
        }
    }
}

/// The contents of a list of accounts.
pub open spec fn account_views(list: Seq<Account>) -> Seq<AccountView> {
    list.map_values(|a: Account| a@)
}

/// Whether two accounts authenticate as the same member: a login is keyed by email within a
/// club, so the same email (ASCII case aside) and the same club mean the same member.
pub open spec fn same_member(a: AccountView, b: AccountView) -> bool {
    crate::text::same_ignoring_case(a.email, b.email) && a.custom_id == b.custom_id
}

/// Whether two accounts authenticate as the same `MonClub` identity.
pub fn same_identity(a: &Account, b: &Account) -> (r: bool)
    ensures
        r == same_member(a@, b@),
{
    eq_ignore_ascii_case(a.email.as_str(), b.email.as_str()) && a.custom_id == b.custom_id
}

/// Being the same member is an equivalence relation.
pub proof fn same_member_is_an_equivalence(a: AccountView, b: AccountView, c: AccountView)
    ensures
        same_member(a, a),
        same_member(a, b) ==> same_member(b, a),
        same_member(a, b) && same_member(b, c) ==> same_member(a, c),
{
    crate::text::same_ignoring_case_is_an_equivalence(a.email, b.email, c.email);
}

/// Whether some account of a list is the same member as `a`.
pub open spec fn member_listed(list: Seq<AccountView>, a: AccountView) -> bool {
    exists|i: int| 0 <= i < list.len() && same_member(#[trigger] list[i], a)
}

/// Whether some account of `list` is the same member as `a`.
pub fn lists_member(list: &Vec<Account>, a: &Account) -> (r: bool)
    ensures
        r == member_listed(account_views(list@), a@),
{
    let mut i: usize = 0;
    while i < list.len()
        invariant
            i <= list.len(),
            forall|j: int| 0 <= j < i ==> !same_member((#[trigger] list@[j])@, a@),
        decreases list.len() - i,
    {
        if same_identity(&list[i], a) {
            assert(account_views(list@)[i as int] == list@[i as int]@);
            return true;
        }
        i = i + 1;
    }
    proof {
        if member_listed(account_views(list@), a@) {
            let k = choose|k: int|
                0 <= k < account_views(list@).len() && same_member(
                    #[trigger] account_views(list@)[k],
                    a@,
                );
            assert(account_views(list@)[k] == list@[k]@);
        }
    }
    false
}

/// The accounts of a list, each member once: the first account of each member.
pub open spec fn distinct(list: Seq<AccountView>) -> Seq<AccountView>
    decreases list.len(),
{
    if list.len() == 0 {
        Seq::empty()
    } else {
        let kept = distinct(list.drop_last());
        if member_listed(kept, list.last()) {
            kept
        } else {
            kept.push(list.last())
        }
    }
}

/// Whether no member occurs twice in a list.
pub open spec fn no_member_twice(list: Seq<AccountView>) -> bool {
    forall|i: int, j: int|
        0 <= i < j < list.len() ==> !same_member(#[trigger] list[i], #[trigger] list[j])
}

/// Whether every account of `list` is the same member as an account of `kept`.
pub open spec fn covers(kept: Seq<AccountView>, list: Seq<AccountView>) -> bool {
    forall|i: int| 0 <= i < list.len() ==> member_listed(kept, #[trigger] list[i])
}

/// Removing repeated members leaves no member twice, loses no member, adds no account and
/// keeps the first account in front.
pub proof fn distinct_keeps_each_member_once(list: Seq<AccountView>)
    ensures
        no_member_twice(distinct(list)),
        covers(distinct(list), list),
        forall|i: int|
            0 <= i < distinct(list).len() ==> list.contains(#[trigger] distinct(list)[i]),
        list.len() > 0 ==> distinct(list).len() > 0 && distinct(list)[0] == list[0],
    decreases list.len(),
{
    if list.len() > 0 {
        let init = list.drop_last();
        let last = list.last();
        let kept = distinct(init);
        distinct_keeps_each_member_once(init);
        same_member_is_an_equivalence(last, last, last);
        assert forall|i: int| 0 <= i < list.len() implies member_listed(
            distinct(list),
            #[trigger] list[i],
        ) by {
            if i < init.len() {
                assert(list[i] == init[i]);
                let k = choose|k: int|
                    0 <= k < kept.len() && same_member(#[trigger] kept[k], init[i]);
                assert(distinct(list)[k] == kept[k]);
            } else {
                if !member_listed(kept, last) {
                    assert(distinct(list)[kept.len() as int] == last);
                }
            }
        }
        assert forall|i: int| 0 <= i < distinct(list).len() implies list.contains(
            #[trigger] distinct(list)[i],
        ) by {
            if i < kept.len() {
                assert(distinct(list)[i] == kept[i]);
                let k = choose|k: int| 0 <= k < init.len() && init[k] == kept[i];
                assert(list[k] == kept[i]);
            } else {
                assert(list[list.len() - 1] == last);
            }
        }
        if init.len() == 0 {
            assert(kept =~= Seq::empty());
        } else {
            assert(list[0] == init[0]);
        }
    }
}

/// The first account of a list that satisfies a condition.
pub open spec fn first_account(
    list: Seq<AccountView>,
    wanted: spec_fn(AccountView) -> bool,
) -> Option<AccountView>
    decreases list.len(),
{
    if list.len() == 0 {
        None
    } else if wanted(list[0]) {
        Some(list[0])
    } else {
        first_account(list.drop_first(), wanted)
    }
}

/// The first account of a list that is linked to a Discord user.
pub open spec fn linked_account(list: Seq<AccountView>, discord_id: u64) -> Option<AccountView> {
    first_account(list, |a: AccountView| a.discord_id == Some(discord_id))
}

/// The first account of a list that carries a label, ASCII case aside.
pub open spec fn labelled_account(list: Seq<AccountView>, label: Seq<char>) -> Option<AccountView> {
    first_account(list, |a: AccountView| crate::text::same_ignoring_case(a.label, label))
}

/// The contents of an optional account.
pub open spec fn optional_account(value: Option<Account>) -> Option<AccountView> {
    match value {
        Some(a) => Some(a@),
        None => None,
    }
}

/// A match found in the front of a list is the match of the whole list.
pub proof fn lemma_first_account_in_front(
    front: Seq<AccountView>,
    behind: Seq<AccountView>,
    wanted: spec_fn(AccountView) -> bool,
)
    ensures
        first_account(front + behind, wanted) == (match first_account(front, wanted) {
            Some(a) => Some(a),
            None => first_account(behind, wanted),
        }),
    decreases front.len(),
{
    if front.len() == 0 {
        assert(front + behind =~= behind);
    } else {
        lemma_first_account_in_front(front.drop_first(), behind, wanted);
        assert((front + behind).drop_first() =~= front.drop_first() + behind);
    }
}

// ---------------------------------------------------------------------------
// The users file
// ---------------------------------------------------------------------------

/// One entry of the users file. `custom_id` defaults to the club-wide one when omitted, since
/// the club is normally shared.
pub struct RawAccount {
    pub label: String,
    pub email: String,
    pub password: String,
    pub custom_id: Option<String>,
    pub discord_id: u64,
}

/// The account that an entry of the users file describes.
pub open spec fn entry_account(entry: RawAccount, default_custom_id: Seq<char>) -> AccountView {
    AccountView {
        label: entry.label@,
        email: entry.email@,
        password: entry.password@,
        custom_id: crate::text::text_or(entry.custom_id, default_custom_id),
        discord_id: Some(entry.discord_id),
    }
}

/// Turns the entries of the users file into accounts, in order, applying the default
/// `custom_id` to entries that omit one.
pub fn users_from_entries(entries: Vec<RawAccount>, default_custom_id: &str) -> (r: Vec<Account>)
    ensures
        account_views(r@) == entries@.map_values(
            |e: RawAccount| entry_account(e, default_custom_id@),
        ),
{
    let ghost all = entries@;
    let mut out: Vec<Account> = Vec::new();
    for entry in it: entries
        invariant
            it.seq() == all,
            account_views(out@) == all.take(it.index() as int).map_values(
                |e: RawAccount| entry_account(e, default_custom_id@),
            ),
    {
        let ghost n = it.index() as int;
        let ghost before = account_views(out@);
        let custom_id = match entry.custom_id {
            Some(id) => id,
            None => default_custom_id.to_owned(),
        };
        out.push(
            Account {
                label: entry.label,
                email: entry.email,
                password: entry.password,
                custom_id,
                discord_id: Some(entry.discord_id),
            },
        );
        assert(account_views(out@) =~= before.push(entry_account(all[n], default_custom_id@)));
        assert(account_views(out@) =~= all.take(n + 1).map_values(
            |e: RawAccount| entry_account(e, default_custom_id@),
        ));
    }
    assert(all.take(all.len() as int) =~= all);
    out
}

/// What reading the users file gave.
pub enum UsersFile {
    Contents(String),
    Missing,
    Unreadable(String),
}

/// What to do about the users file.
pub enum UsersStep {
    /// There are no extra users.
    NoUsers,
    /// Decode this text as a list of entries.
    Decode(String),
    /// Stop with this message.
    Fail(String),
}

/// Decides what follows from reading the users file: an absent or blank file means no extra
/// users, an unreadable one is reported rather than passed over.
pub fn users_file_step(read: UsersFile) -> (r: UsersStep)
    ensures
        match read {
            UsersFile::Missing => r is NoUsers,
            UsersFile::Unreadable(e) => r matches UsersStep::Fail(m) && m@
                == "failed to read users.json: "@ + e@,
            UsersFile::Contents(c) => if crate::text::trimmed(c@).len() == 0 {
                r is NoUsers
            } else {
                r matches UsersStep::Decode(t) && t@ == c@
            },
        },
{
    match read {
        UsersFile::Missing => UsersStep::NoUsers,
        UsersFile::Unreadable(e) => {
            let mut message = "failed to read users.json: ".to_owned();
            message.append(e.as_str());
            UsersStep::Fail(message)
        },
        UsersFile::Contents(contents) => {
            if trim(contents.as_str()).is_empty() {
                UsersStep::NoUsers
            } else {
                UsersStep::Decode(contents)
            }
        },
    }
}

/// The message for a users file that does not decode.
pub fn invalid_users_message(error: &str) -> (r: String)
    ensures
        r@ == "users.json is not valid JSON (expected an array of user objects): "@ + error@,
{
    let mut message =
        "users.json is not valid JSON (expected an array of user objects): ".to_owned();
    message.append(error);
    message
}

// ---------------------------------------------------------------------------
// Configuration
// ---------------------------------------------------------------------------

/// A geographic coordinate: the bits of a double-precision number, and its rendering.
pub struct Coordinate {
    pub bits: u64,
    pub text: String,
}

impl Clone for Coordinate {
    fn clone(&self) -> (r: Self)
        ensures
            r == *self,
    {
        Coordinate { bits: self.bits, text: self.text.clone() }
    }
}

/// The runtime configuration.
pub struct Config {
    pub email: String,
    pub password: String,
    pub custom_id: String,
    pub base_url: String,
    pub latitude: Option<Coordinate>,
    pub longitude: Option<Coordinate>,
    pub retry_duration: u64,
    pub retry_interval: u64,
    pub discord_token: Option<String>,
    pub discord_owner_id: Option<u64>,
    /// Discord channel the new-session watcher posts to. When unset, the watcher is disabled.
    pub new_sessions_channel_id: Option<u64>,
    /// How often (seconds) the new-session watcher polls.
    pub new_sessions_poll_interval: u64,
    /// How long (hours) before a session's start the booking window opens.
    pub booking_window_hours: i64,
    /// How often (seconds) a booking watch re-attempts a booking once the window is open but
    /// the session is full. Much slower than `retry_interval`, since a watch can run for days.
    pub watch_poll_interval: u64,
    /// Extra bookable accounts from the users file. These take precedence over the primary
    /// account when they share a Discord id or label (see [`Config::accounts`]).
    pub users: Vec<Account>,
}

/// Whether two configurations hold the same settings.
pub open spec fn same_settings(a: Config, b: Config) -> bool {
    &&& a.email == b.email
    &&& a.password == b.password
    &&& a.custom_id == b.custom_id
    &&& a.base_url == b.base_url
    &&& a.latitude == b.latitude
    &&& a.longitude == b.longitude
    &&& a.retry_duration == b.retry_duration
    &&& a.retry_interval == b.retry_interval
    &&& a.discord_token == b.discord_token
    &&& a.discord_owner_id == b.discord_owner_id
    &&& a.new_sessions_channel_id == b.new_sessions_channel_id
    &&& a.new_sessions_poll_interval == b.new_sessions_poll_interval
    &&& a.booking_window_hours == b.booking_window_hours
    &&& a.watch_poll_interval == b.watch_poll_interval
    &&& a.users@ == b.users@
}

/// A copy of a list of accounts.
pub fn copy_accounts(list: &Vec<Account>) -> (r: Vec<Account>)
    ensures
        r@ == list@,
{
    let mut out: Vec<Account> = Vec::new();
    let mut i: usize = 0;
    while i < list.len()
        invariant
            i <= list.len(),
            out@ == list@.take(i as int),
        decreases list.len() - i,
    {
        out.push(list[i].clone());
        assert(list@.take(i + 1) =~= list@.take(i as int).push(list@[i as int]));
        i = i + 1;
    }
    assert(list@.take(list@.len() as int) =~= list@);
    out
}

impl Clone for Config {
    fn clone(&self) -> (r: Self)
        ensures
            same_settings(r, *self),
    {
        let latitude = match &self.latitude {
            Some(c) => Some(c.clone()),
            None => None,
        };
        let longitude = match &self.longitude {
            Some(c) => Some(c.clone()),
            None => None,
        };
        let discord_token = match &self.discord_token {
            Some(t) => Some(t.clone()),
            None => None,
        };
        Config {
            email: self.email.clone(),
            password: self.password.clone(),
            custom_id: self.custom_id.clone(),
            base_url: self.base_url.clone(),
            latitude,
            longitude,
            retry_duration: self.retry_duration,
            retry_interval: self.retry_interval,
            discord_token,
            discord_owner_id: self.discord_owner_id,
            new_sessions_channel_id: self.new_sessions_channel_id,
            new_sessions_poll_interval: self.new_sessions_poll_interval,
            booking_window_hours: self.booking_window_hours,
            watch_poll_interval: self.watch_poll_interval,
            users: copy_accounts(&self.users),
        }
    }
}

/// The settings found in the environment, as text; coordinates are already decoded.
pub struct Environment {
    pub email: Option<String>,
    pub password: Option<String>,
    pub custom_id: Option<String>,
    pub base_url: Option<String>,
    pub latitude: Option<Coordinate>,
    pub longitude: Option<Coordinate>,
    pub retry_duration: Option<String>,
    pub retry_interval: Option<String>,
    pub discord_token: Option<String>,
    pub discord_owner_id: Option<String>,
    pub new_sessions_channel_id: Option<String>,
    pub new_sessions_poll_interval: Option<String>,
    pub booking_window_hours: Option<String>,
    pub watch_poll_interval: Option<String>,
}

/// A required setting that is not set.
#[derive(Debug, PartialEq, Eq, Clone, Copy, Structural)]
pub enum MissingSetting {
    CustomId,
    Email,
    Password,
    BaseUrl,
}

impl MissingSetting {
    /// The message for this missing setting.
    pub fn message(&self) -> (r: String)
        ensures
            r@ == (match *self {
                MissingSetting::CustomId => "CUSTOM_ID not set"@,
                MissingSetting::Email => "EMAIL not set"@,
                MissingSetting::Password => "PASSWORD not set"@,
                MissingSetting::BaseUrl => "BASE_URL not set"@,
            }),
    {
        match self {
            MissingSetting::CustomId => "CUSTOM_ID not set".to_owned(),
            MissingSetting::Email => "EMAIL not set".to_owned(),
            MissingSetting::Password => "PASSWORD not set".to_owned(),
            MissingSetting::BaseUrl => "BASE_URL not set".to_owned(),
        }
    }
}

/// The number that an optional setting holds; `None` when it is unset or not a number.
pub open spec fn setting_u64(value: Option<String>) -> Option<u64> {
    match value {
        Some(s) => crate::number::parsed_u64(s@),
        None => None,
    }
}

/// The number that an optional setting holds, or `default` when it is unset or not a number.
pub open spec fn setting_u64_or(value: Option<String>, default: u64) -> u64 {
    match setting_u64(value) {
        Some(n) => n,
        None => default,
    }
}

/// The signed number that an optional setting holds, or `default` when it is unset or not a
/// number.
pub open spec fn setting_i64_or(value: Option<String>, default: i64) -> i64 {
    match value {
        Some(s) => match crate::number::parsed_i64(s@) {
            Some(n) => n,
            None => default,
        },
        None => default,
    }
}

fn env_opt(value: &Option<String>) -> (r: Option<u64>)
    ensures
        r == setting_u64(*value),
{
    match value {
        Some(s) => parse_u64(s.as_str()),
        None => None,
    }
}

fn env_parse(value: &Option<String>, default: u64) -> (r: u64)
    ensures
        r == setting_u64_or(*value, default),
{
    match env_opt(value) {
        Some(n) => n,
        None => default,
    }
}

fn env_parse_signed(value: &Option<String>, default: i64) -> (r: i64)
    ensures
        r == setting_i64_or(*value, default),
{
    match value {
        Some(s) => match parse_i64(s.as_str()) {
            Some(n) => n,
            None => default,
        },
        None => default,
    }
}

impl Config {
    /// Builds the configuration from the settings of the environment and the extra users.
    pub fn from_env(env: Environment, users: Vec<Account>) -> (r: Result<Config, MissingSetting>)
        ensures
            r is Err <==> env.custom_id is None || env.email is None || env.password is None
                || env.base_url is None,
            r matches Err(missing) ==> missing == (if env.custom_id is None {
                MissingSetting::CustomId
            } else if env.email is None {
                MissingSetting::Email
            } else if env.password is None {
                MissingSetting::Password
            } else {
                MissingSetting::BaseUrl
            }),
            r matches Ok(c) ==> {
                &&& Some(c.email) == env.email
                &&& Some(c.password) == env.password
                &&& Some(c.custom_id) == env.custom_id
                &&& Some(c.base_url) == env.base_url
                &&& c.latitude == env.latitude
                &&& c.longitude == env.longitude
                &&& c.retry_duration == setting_u64_or(env.retry_duration, 300)
                &&& c.retry_interval == setting_u64_or(env.retry_interval, 5)
                &&& c.discord_token == (match env.discord_token {
                    Some(t) => if t@.len() == 0 {
                        None
                    } else {
                        Some(t)
                    },
                    None => None,
                })
                &&& c.discord_owner_id == setting_u64(env.discord_owner_id)
                &&& c.new_sessions_channel_id == setting_u64(env.new_sessions_channel_id)
                &&& c.new_sessions_poll_interval == setting_u64_or(
                    env.new_sessions_poll_interval,
                    60,
                )
                &&& c.booking_window_hours == setting_i64_or(env.booking_window_hours, 144)
                &&& c.watch_poll_interval == setting_u64_or(env.watch_poll_interval, 60)
                &&& c.users == users
            },
    {
        let custom_id = match env.custom_id {
            Some(v) => v,
            None => return Err(MissingSetting::CustomId),
        };
        let email = match env.email {
            Some(v) => v,
            None => return Err(MissingSetting::Email),
        };
        let password = match env.password {
            Some(v) => v,
            None => return Err(MissingSetting::Password),
        };
        let base_url = match env.base_url {
            Some(v) => v,
            None => return Err(MissingSetting::BaseUrl),
        };
        let discord_token = match env.discord_token {
            Some(token) => if token.as_str().is_empty() {
                None
            } else {
                Some(token)
            },
            None => None,
        };
        Ok(
            Config {
                email,
                password,
                custom_id,
                base_url,
                latitude: env.latitude,
                longitude: env.longitude,
                retry_duration: env_parse(&env.retry_duration, 300),
                retry_interval: env_parse(&env.retry_interval, 5),
                discord_token,
                discord_owner_id: env_opt(&env.discord_owner_id),
                new_sessions_channel_id: env_opt(&env.new_sessions_channel_id),
                new_sessions_poll_interval: env_parse(&env.new_sessions_poll_interval, 60),
                booking_window_hours: env_parse_signed(&env.booking_window_hours, 144),
                watch_poll_interval: env_parse(&env.watch_poll_interval, 60),
                users,
            },
        )
    }

    /// The primary account.
    pub open spec fn primary(&self) -> AccountView {
        AccountView {
            label: "me"@,
            email: self.email@,
            password: self.password@,
            custom_id: self.custom_id@,
            discord_id: self.discord_owner_id,
        }
    }

    /// All bookable accounts in resolution order.
    pub open spec fn all_accounts(&self) -> Seq<AccountView> {
        account_views(self.users@) + seq![self.primary()]
    }

    /// The members that can be booked for, the primary account in front.
    pub open spec fn members(&self) -> Seq<AccountView> {
        distinct(seq![self.primary()] + account_views(self.users@))
    }

    /// The primary account, linked to the Discord owner.
    pub fn primary_account(&self) -> (r: Account)
        ensures
            r@ == self.primary(),
    {
        Account {
            label: "me".to_owned(),
            email: self.email.clone(),
            password: self.password.clone(),
            custom_id: self.custom_id.clone(),
            discord_id: self.discord_owner_id,
        }
    }

    /// All bookable accounts in resolution order: users-file entries first, then the primary
    /// account. File entries come first so one that shares the owner's Discord id or label
    /// overrides the primary account, which remains the fallback for anyone else.
    pub fn accounts(&self) -> (r: Vec<Account>)
        ensures
            account_views(r@) == self.all_accounts(),
    {
        let mut all = copy_accounts(&self.users);
        all.push(self.primary_account());
        assert(account_views(all@) =~= self.all_accounts());
        all
    }

    /// Bookable accounts with entries of the same member collapsed to one, keeping the
    /// primary entry so the same person is never listed twice. Used for display and to decide
    /// whether a choice is even needed.
    pub fn distinct_accounts(&self) -> (r: Vec<Account>)
        ensures
            account_views(r@) == self.members(),
    {
        let ghost ordered = seq![self.primary()] + account_views(self.users@);
        let mut kept: Vec<Account> = Vec::new();
        kept.push(self.primary_account());
        proof {
            let first = ordered.take(1);
            assert(first.drop_last() =~= Seq::empty());
            assert(distinct(first.drop_last()) =~= Seq::empty());
            assert(first.last() == self.primary());
            assert(account_views(kept@) =~= distinct(first));
        }
        let mut i: usize = 0;
        while i < self.users.len()
            invariant
                i <= self.users.len(),
                ordered == seq![self.primary()] + account_views(self.users@),
                account_views(kept@) == distinct(ordered.take(i + 1)),
            decreases self.users.len() - i,
        {
            let ghost before = account_views(kept@);
            proof {
                assert(ordered.take(i + 2).drop_last() =~= ordered.take(i + 1));
                assert(ordered.take(i + 2).last() == self.users@[i as int]@);
            }
            if !lists_member(&kept, &self.users[i]) {
                kept.push(self.users[i].clone());
                assert(account_views(kept@) =~= before.push(self.users@[i as int]@));
            }
            i = i + 1;
        }
        assert(ordered.take(ordered.len() as int) =~= ordered);
        kept
    }

    /// Finds the account linked to a given Discord user id, if any.
    pub fn account_for_discord(&self, discord_id: u64) -> (r: Option<Account>)
        ensures
            optional_account(r) == linked_account(self.all_accounts(), discord_id),
    {
        let list = self.accounts();
        let ghost all = self.all_accounts();
        let ghost wanted = |a: AccountView| a.discord_id == Some(discord_id);
        let mut i: usize = 0;
        assert(all.skip(0) =~= all);
        while i < list.len()
            invariant
                i <= list.len(),
                all == self.all_accounts(),
                all == account_views(list@),
                wanted == |a: AccountView| a.discord_id == Some(discord_id),
                first_account(all, wanted) == first_account(all.skip(i as int), wanted),
            decreases list.len() - i,
        {
            assert(all.skip(i as int)[0] == list@[i as int]@);
            assert(all.skip(i as int).drop_first() =~= all.skip(i + 1));
            match list[i].discord_id {
                Some(id) => {
                    if id == discord_id {
                        return Some(list[i].clone());
                    }
                },
                None => {},
            }
            i = i + 1;
        }
        None
    }

    /// Finds the account with a given label, ASCII case aside, if any.
    pub fn account_for_label(&self, label: &str) -> (r: Option<Account>)
        ensures
            optional_account(r) == labelled_account(self.all_accounts(), label@),
    {
        let list = self.accounts();
        let ghost all = self.all_accounts();
        let ghost wanted = |a: AccountView| crate::text::same_ignoring_case(a.label, label@);
        let mut i: usize = 0;
        assert(all.skip(0) =~= all);
        while i < list.len()
            invariant
                i <= list.len(),
                all == self.all_accounts(),
                all == account_views(list@),
                wanted == |a: AccountView| crate::text::same_ignoring_case(a.label, label@),
                first_account(all, wanted) == first_account(all.skip(i as int), wanted),
            decreases list.len() - i,
        {
            assert(all.skip(i as int)[0] == list@[i as int]@);
            assert(all.skip(i as int).drop_first() =~= all.skip(i + 1));
            if eq_ignore_ascii_case(list[i].label.as_str(), label) {
                return Some(list[i].clone());
            }
            i = i + 1;
        }
        None
    }
}

/// An entry of the users file that reuses a Discord id of the primary account takes its place:
/// whatever the users list gives for an id is what the configuration gives, and the primary
/// account only answers for an id that no entry carries.
pub proof fn users_override_primary_by_discord_id(config: Config, discord_id: u64)
    ensures
        linked_account(config.all_accounts(), discord_id) == (match linked_account(
            account_views(config.users@),
            discord_id,
        ) {
            Some(entry) => Some(entry),
            None => if config.discord_owner_id == Some(discord_id) {
                Some(config.primary())
            } else {
                None
            },
        }),
{
    let wanted = |a: AccountView| a.discord_id == Some(discord_id);
    let one = seq![config.primary()];
    lemma_first_account_in_front(account_views(config.users@), one, wanted);
    assert(one.drop_first() =~= Seq::empty());
    assert(first_account(one.drop_first(), wanted) == None::<AccountView>);
}

/// An entry of the users file that reuses the primary account's label takes its place: the
/// primary account only answers for its label where no entry carries it.
pub proof fn users_override_primary_by_label(config: Config, label: Seq<char>)
    ensures
        labelled_account(config.all_accounts(), label) == (match labelled_account(
            account_views(config.users@),
            label,
        ) {
            Some(entry) => Some(entry),
            None => if crate::text::same_ignoring_case("me"@, label) {
                Some(config.primary())
            } else {
                None
            },
        }),
{
    let wanted = |a: AccountView| crate::text::same_ignoring_case(a.label, label);
    let one = seq![config.primary()];
    lemma_first_account_in_front(account_views(config.users@), one, wanted);
    assert(one.drop_first() =~= Seq::empty());
    assert(first_account(one.drop_first(), wanted) == None::<AccountView>);
}

/// The accounts offered for a choice name each member once, leave no configured account
/// without its member, and have the primary account in front.
pub proof fn offered_accounts_are_distinct(config: Config)
    ensures
        no_member_twice(config.members()),
        covers(config.members(), config.all_accounts()),
        config.members().len() > 0,
        config.members()[0] == config.primary(),
{
    let ordered = seq![config.primary()] + account_views(config.users@);
    distinct_keeps_each_member_once(ordered);
    assert forall|i: int| 0 <= i < config.all_accounts().len() implies member_listed(
        config.members(),
        #[trigger] config.all_accounts()[i],
    ) by {
        if i < config.users@.len() {
            assert(ordered[i + 1] == config.all_accounts()[i]);
        } else {
            assert(ordered[0] == config.all_accounts()[i]);
        }
    }
}

/// Without extra users, the primary account alone is bookable.
pub proof fn without_users_only_the_primary_is_bookable(config: Config)
    requires
        config.users@.len() == 0,
    ensures
        config.all_accounts() == seq![config.primary()],
        config.members() == seq![config.primary()],
{
    offered_accounts_are_distinct(config);
    assert(config.all_accounts() =~= seq![config.primary()]);
    assert(config.members().len() <= 1) by {
        let ordered = seq![config.primary()] + account_views(config.users@);
        assert(ordered =~= seq![config.primary()]);
        assert(ordered.drop_last() =~= Seq::empty());
        assert(distinct(ordered.drop_last()) =~= Seq::empty());
    }
    assert(config.members() =~= seq![config.primary()]);
}

// ---------------------------------------------------------------------------
// Renderings for diagnostics
// ---------------------------------------------------------------------------

/// The diagnostic rendering of an optional number.
pub open spec fn shown_number(value: Option<u64>) -> Seq<char> {
    match value {
        Some(n) => "Some("@ + crate::number::decimal(n as nat) + ")"@,
        None => "None"@,
    }
}

/// Renders an optional number for diagnostics.
pub fn show_number(value: Option<u64>) -> (r: String)
    ensures
        r@ == shown_number(value),
{
    match value {
        Some(n) => {
            let mut out = "Some(".to_owned();
            out.append(decimal_text(n).as_str());
            out.append(")");
            out
        },
        None => "None".to_owned(),
    }
}

/// The diagnostic rendering of a secret that may be set: whether it is, never what it is.
pub open spec fn shown_secret(set: bool) -> Seq<char> {
    if set {
        "Some(\"<redacted>\")"@
    } else {
        "None"@
    }
}

/// Renders whether a secret is set.
pub fn show_secret(secret: &Option<String>) -> (r: String)
    ensures
        r@ == shown_secret(*secret is Some),
{
    match secret {
        Some(_) => "Some(\"<redacted>\")".to_owned(),
        None => "None".to_owned(),
    }
}

/// The diagnostic rendering of an optional coordinate.
pub open spec fn shown_coordinate(value: Option<Coordinate>) -> Seq<char> {
    match value {
        Some(c) => "Some("@ + c.text@ + ")"@,
        None => "None"@,
    }
}

fn show_coordinate(value: &Option<Coordinate>) -> (r: String)
    ensures
        r@ == shown_coordinate(*value),
{
    match value {
        Some(c) => {
            let mut out = "Some(".to_owned();
            out.append(c.text.as_str());
            out.append(")");
            out
        },
        None => "None".to_owned(),
    }
}

/// The diagnostic rendering of an account: everything but the password.
pub open spec fn shown_account(a: AccountView) -> Seq<char> {
    "Account { label: "@ + crate::text::debug_quoted(a.label) + ", email: "@
        + crate::text::debug_quoted(a.email) + ", password: \"<redacted>\", custom_id: "@
        + crate::text::debug_quoted(a.custom_id) + ", discord_id: "@ + shown_number(a.discord_id)
        + " }"@
}

impl Account {
    /// Renders the account for diagnostics, with the password left out.
    pub fn debug_text(&self) -> (r: String)
        ensures
            r@ == shown_account(self@),
    {
        let mut out = "Account { label: ".to_owned();
        out.append(quoted(self.label.as_str()).as_str());
        out.append(", email: ");
        out.append(quoted(self.email.as_str()).as_str());
        out.append(", password: \"<redacted>\", custom_id: ");
        out.append(quoted(self.custom_id.as_str()).as_str());
        out.append(", discord_id: ");
        out.append(show_number(self.discord_id).as_str());
        out.append(" }");
        out
    }
}

/// The diagnostic rendering of a list of accounts.
pub open spec fn shown_accounts(list: Seq<AccountView>) -> Seq<char> {
    "["@ + crate::text::joined(list.map_values(|a: AccountView| shown_account(a)), ", "@) + "]"@
}

fn show_accounts(list: &Vec<Account>) -> (r: String)
    ensures
        r@ == shown_accounts(account_views(list@)),
{
    let ghost wanted = account_views(list@).map_values(|a: AccountView| shown_account(a));
    let mut parts: Vec<String> = Vec::new();
    let mut i: usize = 0;
    while i < list.len()
        invariant
            i <= list.len(),
            wanted == account_views(list@).map_values(|a: AccountView| shown_account(a)),
            crate::text::texts(parts@) == wanted.take(i as int),
        decreases list.len() - i,
    {
        let ghost before = crate::text::texts(parts@);
        parts.push(list[i].debug_text());
        proof {
            assert(wanted[i as int] == shown_account(list@[i as int]@));
            assert(crate::text::texts(parts@) =~= before.push(wanted[i as int]));
            assert(wanted.take(i + 1) =~= wanted.take(i as int).push(wanted[i as int]));
        }
        i = i + 1;
    }
    assert(wanted.take(wanted.len() as int) =~= wanted);
    let mut out = "[".to_owned();
    out.append(join(&parts, ", ").as_str());
    out.append("]");
    out
}

impl Config {
    /// The diagnostic rendering of the configuration: everything but passwords and tokens.
    pub open spec fn shown(&self) -> Seq<char> {
        "Config { email: "@ + crate::text::debug_quoted(self.email@)
            + ", password: \"<redacted>\", custom_id: "@ + crate::text::debug_quoted(
            self.custom_id@,
        ) + ", base_url: "@ + crate::text::debug_quoted(self.base_url@) + ", latitude: "@
            + shown_coordinate(self.latitude) + ", longitude: "@ + shown_coordinate(self.longitude)
            + ", retry_duration: "@ + crate::number::decimal(self.retry_duration as nat)
            + ", retry_interval: "@ + crate::number::decimal(self.retry_interval as nat)
            + ", discord_token: "@ + shown_secret(self.discord_token is Some)
            + ", discord_owner_id: "@ + shown_number(self.discord_owner_id)
            + ", new_sessions_channel_id: "@ + shown_number(self.new_sessions_channel_id)
            + ", new_sessions_poll_interval: "@ + crate::number::decimal(
            self.new_sessions_poll_interval as nat,
        ) + ", booking_window_hours: "@ + crate::number::signed_decimal(
            self.booking_window_hours as int,
        ) + ", watch_poll_interval: "@ + crate::number::decimal(self.watch_poll_interval as nat)
            + ", users: "@ + shown_accounts(account_views(self.users@)) + " }"@
    }

    /// Renders the configuration for diagnostics, with every secret left out.
    pub fn debug_text(&self) -> (r: String)
        ensures
            r@ == self.shown(),
    {
        let mut out = "Config { email: ".to_owned();
        out.append(quoted(self.email.as_str()).as_str());
        out.append(", password: \"<redacted>\", custom_id: ");
        out.append(quoted(self.custom_id.as_str()).as_str());
        out.append(", base_url: ");
        out.append(quoted(self.base_url.as_str()).as_str());
        out.append(", latitude: ");
        out.append(show_coordinate(&self.latitude).as_str());
        out.append(", longitude: ");
        out.append(show_coordinate(&self.longitude).as_str());
        out.append(", retry_duration: ");
        out.append(decimal_text(self.retry_duration).as_str());
        out.append(", retry_interval: ");
        out.append(decimal_text(self.retry_interval).as_str());
        out.append(", discord_token: ");
        out.append(show_secret(&self.discord_token).as_str());
        out.append(", discord_owner_id: ");
        out.append(show_number(self.discord_owner_id).as_str());
        out.append(", new_sessions_channel_id: ");
        out.append(show_number(self.new_sessions_channel_id).as_str());
        out.append(", new_sessions_poll_interval: ");
        out.append(decimal_text(self.new_sessions_poll_interval).as_str());
        out.append(", booking_window_hours: ");
        out.append(signed_text(self.booking_window_hours).as_str());
        out.append(", watch_poll_interval: ");
        out.append(decimal_text(self.watch_poll_interval).as_str());
        out.append(", users: ");
        out.append(show_accounts(&self.users).as_str());
        out.append(" }");
        out
    }
}

/// The diagnostic rendering of an account says nothing of its password.
pub proof fn account_rendering_hides_the_password(a: AccountView, b: AccountView)
    requires
        a.label == b.label,
        a.email == b.email,
        a.custom_id == b.custom_id,
        a.discord_id == b.discord_id,
    ensures
        shown_account(a) == shown_account(b),
{
}

/// The diagnostic rendering of a configuration says nothing of its passwords, nor of its token
/// beyond whether one is set.
pub proof fn config_rendering_hides_the_secrets(a: Config, b: Config)
    requires
        a.email@ == b.email@,
        a.custom_id@ == b.custom_id@,
        a.base_url@ == b.base_url@,
        shown_coordinate(a.latitude) == shown_coordinate(b.latitude),
        shown_coordinate(a.longitude) == shown_coordinate(b.longitude),
        a.retry_duration == b.retry_duration,
        a.retry_interval == b.retry_interval,
        a.discord_token is Some == b.discord_token is Some,
        a.discord_owner_id == b.discord_owner_id,
        a.new_sessions_channel_id == b.new_sessions_channel_id,
        a.new_sessions_poll_interval == b.new_sessions_poll_interval,
        a.booking_window_hours == b.booking_window_hours,
        a.watch_poll_interval == b.watch_poll_interval,
        a.users@.len() == b.users@.len(),
        forall|i: int|
            0 <= i < a.users@.len() ==> (#[trigger] a.users@[i]).label@ == b.users@[i].label@
                && a.users@[i].email@ == b.users@[i].email@ && a.users@[i].custom_id@
                == b.users@[i].custom_id@ && a.users@[i].discord_id == b.users@[i].discord_id,
    ensures
        a.shown() == b.shown(),
{
    let left = account_views(a.users@).map_values(|x: AccountView| shown_account(x));
    let right = account_views(b.users@).map_values(|x: AccountView| shown_account(x));
    assert forall|i: int| 0 <= i < left.len() implies left[i] == right[i] by {
        assert(a.users@[i].label@ == b.users@[i].label@);
    }
    assert(left =~= right);
}

// ---------------------------------------------------------------------------
// Laws
// ---------------------------------------------------------------------------

/// Two accounts are the same identity exactly where they are of the same club and their emails
/// differ at most in the case of ASCII letters; nothing else of them matters.
pub proof fn an_identity_is_an_email_within_a_club(a: Account, b: Account, r: bool)
    requires
        call_ensures(same_identity, (&a, &b), r),
    ensures
        r <==> a.custom_id@ == b.custom_id@ && a.email@.len() == b.email@.len() && forall|i: int|
            0 <= i < a.email@.len() ==> {
                ||| #[trigger] a.email@[i] == b.email@[i]
                ||| 'A' <= a.email@[i] <= 'Z' && b.email@[i] as int == a.email@[i] as int + 32
                ||| 'A' <= b.email@[i] <= 'Z' && a.email@[i] as int == b.email@[i] as int + 32
            },
{
    crate::text::only_ascii_case_is_ignored(a.email@, b.email@);
}

/// Whether an account is the first of a list that satisfies a condition.
pub open spec fn is_first_account(
    list: Seq<AccountView>,
    wanted: spec_fn(AccountView) -> bool,
    a: AccountView,
) -> bool {
    exists|i: int|
        0 <= i < list.len() && #[trigger] list[i] == a && wanted(a) && forall|j: int|
            0 <= j < i ==> !wanted(#[trigger] list[j])
}

/// A search finds an account exactly where one satisfies the condition, and then the first.
pub proof fn a_search_finds_the_first_account(
    list: Seq<AccountView>,
    wanted: spec_fn(AccountView) -> bool,
)
    ensures
        match first_account(list, wanted) {
            Some(a) => is_first_account(list, wanted, a),
            None => forall|i: int| 0 <= i < list.len() ==> !wanted(#[trigger] list[i]),
        },
    decreases list.len(),
{
    if list.len() > 0 {
        if wanted(list[0]) {
            assert(list[0] == list[0]);
        } else {
            let rest = list.drop_first();
            a_search_finds_the_first_account(rest, wanted);
            match first_account(list, wanted) {
                Some(a) => {
                    let i = choose|i: int|
                        0 <= i < rest.len() && #[trigger] rest[i] == a && wanted(a) && forall|
                            j: int,
                        | 0 <= j < i ==> !wanted(#[trigger] rest[j]);
                    assert(list[i + 1] == a);
                    assert forall|j: int| 0 <= j < i + 1 implies !wanted(#[trigger] list[j]) by {
                        if j > 0 {
                            assert(list[j] == rest[j - 1]);
                        }
                    }
                },
                None => {
                    assert forall|j: int| 0 <= j < list.len() implies !wanted(
                        #[trigger] list[j],
                    ) by {
                        if j > 0 {
                            assert(list[j] == rest[j - 1]);
                        }
                    }
                },
            }
        }
    }
}

/// The accounts are the extra users, in the order of their file, and behind them the primary
/// account, labelled `me`, made of the top-level settings and linked to the owner.
pub proof fn the_primary_account_comes_behind_the_users(
    config: Config,
    primary: Account,
    r: Vec<Account>,
)
    requires
        call_ensures(Config::primary_account, (&config,), primary),
        call_ensures(Config::accounts, (&config,), r),
    ensures
        primary.label@ == "me"@,
        primary.email@ == config.email@,
        primary.password@ == config.password@,
        primary.custom_id@ == config.custom_id@,
        primary.discord_id == config.discord_owner_id,
        r@.len() == config.users@.len() + 1,
        forall|i: int|
            0 <= i < config.users@.len() ==> (#[trigger] r@[i])@ == config.users@[i]@,
        r@[config.users@.len() as int]@ == primary@,
{
    assert(account_views(r@).len() == r@.len());
    assert forall|i: int| 0 <= i < r@.len() implies (#[trigger] r@[i])@ == account_views(
        r@,
    )[i] by {}
    assert forall|i: int| 0 <= i < config.users@.len() implies (#[trigger] r@[i])@
        == config.users@[i]@ by {
        assert(account_views(r@)[i] == account_views(config.users@)[i]);
    }
}

/// The account of a Discord user is the first that carries the user's id, and the account of a
/// label the first that carries it, ASCII case aside; both look through the users first and then
/// at the primary account. There is none only where no account fits.
pub proof fn accounts_are_found_by_id_and_label(
    config: Config,
    discord_id: u64,
    label: &str,
    linked: Option<Account>,
    labelled: Option<Account>,
    all: Vec<Account>,
)
    requires
        call_ensures(Config::account_for_discord, (&config, discord_id), linked),
        call_ensures(Config::account_for_label, (&config, label), labelled),
        call_ensures(Config::accounts, (&config,), all),
    ensures
        match linked {
            Some(a) => is_first_account(
                account_views(all@),
                |x: AccountView| x.discord_id == Some(discord_id),
                a@,
            ),
            None => forall|i: int|
                0 <= i < all@.len() ==> (#[trigger] all@[i]).discord_id != Some(discord_id),
        },
        match labelled {
            Some(a) => is_first_account(
                account_views(all@),
                |x: AccountView| crate::text::same_ignoring_case(x.label, label@),
                a@,
            ),
            None => forall|i: int|
                0 <= i < all@.len() ==> !crate::text::same_ignoring_case(
                    (#[trigger] all@[i]).label@,
                    label@,
                ),
        },
{
    let by_id = |x: AccountView| x.discord_id == Some(discord_id);
    let by_label = |x: AccountView| crate::text::same_ignoring_case(x.label, label@);
    a_search_finds_the_first_account(account_views(all@), by_id);
    a_search_finds_the_first_account(account_views(all@), by_label);
    if linked is None {
        assert forall|i: int| 0 <= i < all@.len() implies (#[trigger] all@[i]).discord_id != Some(
            discord_id,
        ) by {
            assert(!by_id(account_views(all@)[i]));
        }
    }
    if labelled is None {
        assert forall|i: int| 0 <= i < all@.len() implies !crate::text::same_ignoring_case(
            (#[trigger] all@[i]).label@,
            label@,
        ) by {
            assert(!by_label(account_views(all@)[i]));
        }
    }
}

/// The members to choose from are the primary account in front and every user who is nobody
/// listed before: each is a configured account, none is the same identity as another, and no
/// configured identity is missing.
pub proof fn every_member_is_offered_once(config: Config, r: Vec<Account>)
    requires
        call_ensures(Config::distinct_accounts, (&config,), r),
    ensures
        r@.len() > 0,
        r@[0]@ == config.primary(),
        forall|i: int|
            0 <= i < r@.len() ==> (#[trigger] r@[i])@ == config.primary() || exists|k: int|
                0 <= k < config.users@.len() && #[trigger] config.users@[k]@ == r@[i]@,
        forall|i: int, j: int|
            0 <= i < j < r@.len() ==> !same_member(
                (#[trigger] r@[i])@,
                (#[trigger] r@[j])@,
            ),
        forall|k: int|
            0 <= k < config.users@.len() ==> member_listed(
                account_views(r@),
                (#[trigger] config.users@[k])@,
            ),
{
    let views = account_views(r@);
    let ordered = seq![config.primary()] + account_views(config.users@);
    assert(views.len() == r@.len());
    assert(forall|i: int| 0 <= i < r@.len() ==> #[trigger] views[i] == r@[i]@);
    offered_accounts_are_distinct(config);
    distinct_keeps_each_member_once(ordered);
    assert forall|i: int| 0 <= i < r@.len() implies (#[trigger] r@[i])@ == config.primary()
        || exists|k: int|
        0 <= k < config.users@.len() && #[trigger] config.users@[k]@ == r@[i]@ by {
        assert(views[i] == r@[i]@);
        assert(ordered.contains(distinct(ordered)[i]));
        let n = choose|n: int| 0 <= n < ordered.len() && ordered[n] == views[i];
        if n > 0 {
            assert(config.users@[n - 1]@ == r@[i]@);
        }
    }
    assert forall|i: int, j: int| 0 <= i < j < r@.len() implies !same_member(
        (#[trigger] r@[i])@,
        (#[trigger] r@[j])@,
    ) by {
        assert(views[i] == r@[i]@ && views[j] == r@[j]@);
    }
    assert forall|k: int| 0 <= k < config.users@.len() implies member_listed(
        views,
        (#[trigger] config.users@[k])@,
    ) by {
        assert(config.all_accounts()[k] == config.users@[k]@);
    }
}

/// Each entry of the users file gives an account with its own label, email, password and Discord
/// id, and with its own club, or the common one where it names none.
pub proof fn each_entry_gives_an_account(
    entries: Vec<RawAccount>,
    default_custom_id: &str,
    r: Vec<Account>,
)
    requires
        call_ensures(users_from_entries, (entries, default_custom_id), r),
    ensures
        r@.len() == entries@.len(),
        forall|i: int|
            0 <= i < r@.len() ==> {
                let e = entries@[i];
                &&& (#[trigger] r@[i]).label@ == e.label@
                &&& r@[i].email@ == e.email@
                &&& r@[i].password@ == e.password@
                &&& r@[i].discord_id == Some(e.discord_id)
                &&& r@[i].custom_id@ == (match e.custom_id {
                    Some(id) => id@,
                    None => default_custom_id@,
                })
            },
{
    let views = account_views(r@);
    assert(views.len() == r@.len());
    assert forall|i: int| 0 <= i < r@.len() implies {
        let e = entries@[i];
        &&& (#[trigger] r@[i]).label@ == e.label@
        &&& r@[i].email@ == e.email@
        &&& r@[i].password@ == e.password@
        &&& r@[i].discord_id == Some(e.discord_id)
        &&& r@[i].custom_id@ == (match e.custom_id {
            Some(id) => id@,
            None => default_custom_id@,
        })
    } by {
        assert(views[i] == r@[i]@);
        assert(views[i] == entry_account(entries@[i], default_custom_id@));
    }
}

/// No users file and a blank one mean the same; any other contents are decoded as they are, and
/// a file that cannot be read is never passed over.
pub proof fn only_a_blank_users_file_is_passed_over(read: UsersFile, r: UsersStep)
    requires
        call_ensures(users_file_step, (read,), r),
    ensures
        read is Unreadable <==> r is Fail,
        r is NoUsers <==> read is Missing || (read matches UsersFile::Contents(c)
            && crate::text::trimmed(c@).len() == 0),
        read matches UsersFile::Contents(c) ==> (r matches UsersStep::Decode(t) ==> t@ == c@),
{
}

/// A setting that is missing or is no number takes its default: 300 seconds of attempts, one
/// every 5; 60 seconds between polls and between attempts at a full session; 144 hours of booking
/// window. A number that is given is taken.
pub proof fn settings_default_where_they_are_not_given(
    env: Environment,
    users: Vec<Account>,
    r: Result<Config, MissingSetting>,
)
    requires
        call_ensures(Config::from_env, (env, users), r),
    ensures
        r is Ok <==> env.email is Some && env.password is Some && env.custom_id is Some
            && env.base_url is Some,
        r matches Ok(c) ==> {
            &&& c.users == users
            &&& env.email == Some(c.email) && env.password == Some(c.password)
            &&& env.custom_id == Some(c.custom_id) && env.base_url == Some(c.base_url)
            &&& env.retry_duration is None ==> c.retry_duration == 300
            &&& env.retry_interval is None ==> c.retry_interval == 5
            &&& env.new_sessions_poll_interval is None ==> c.new_sessions_poll_interval == 60
            &&& env.watch_poll_interval is None ==> c.watch_poll_interval == 60
            &&& env.booking_window_hours is None ==> c.booking_window_hours == 144
            &&& env.discord_owner_id is None ==> c.discord_owner_id is None
            &&& env.new_sessions_channel_id is None ==> c.new_sessions_channel_id is None
            &&& env.discord_token matches Some(t) ==> t@.len() > 0 ==> c.discord_token == Some(t)
            &&& env.discord_token matches Some(t) ==> t@.len() == 0 ==> c.discord_token is None
            &&& env.discord_token is None ==> c.discord_token is None
            &&& number_taken(env.retry_duration, c.retry_duration, 300)
            &&& number_taken(env.retry_interval, c.retry_interval, 5)
            &&& number_taken(env.new_sessions_poll_interval, c.new_sessions_poll_interval, 60)
            &&& number_taken(env.watch_poll_interval, c.watch_poll_interval, 60)
            &&& env.discord_owner_id matches Some(s) ==> c.discord_owner_id
                == crate::number::parsed_u64(s@)
            &&& env.new_sessions_channel_id matches Some(s) ==> c.new_sessions_channel_id
                == crate::number::parsed_u64(s@)
            &&& env.booking_window_hours matches Some(s) ==> c.booking_window_hours == (
            match crate::number::parsed_i64(s@) {
                Some(n) => n,
                None => 144,
            })
        },
{
}

/// Whether a setting holds the number that is given for it, or its default where that is none.
pub open spec fn number_taken(given: Option<String>, value: u64, default: u64) -> bool {
    given matches Some(s) ==> match crate::number::parsed_u64(s@) {
        Some(n) => value == n,
        None => value == default,
    }
}

/// Removing repeated members of a longer list keeps what it keeps of its front, in front: the
/// accounts that are kept stay in order.
pub proof fn kept_accounts_stay_in_order(front: Seq<AccountView>, behind: Seq<AccountView>)
    ensures
        distinct(front).len() <= distinct(front + behind).len(),
        distinct(front + behind).take(distinct(front).len() as int) == distinct(front),
        forall|i: int|
            distinct(front).len() <= i < distinct(front + behind).len() ==> behind.contains(
                #[trigger] distinct(front + behind)[i],
            ),
    decreases behind.len(),
{
    if behind.len() == 0 {
        assert(front + behind =~= front);
        assert(distinct(front).take(distinct(front).len() as int) =~= distinct(front));
    } else {
        let less = behind.drop_last();
        let all = front + behind;
        kept_accounts_stay_in_order(front, less);
        assert(all.drop_last() =~= front + less);
        assert(all.last() == behind.last());
        let n = distinct(front).len() as int;
        assert(distinct(all).take(n) =~= distinct(front + less).take(n));
        assert forall|i: int| n <= i < distinct(all).len() implies behind.contains(
            #[trigger] distinct(all)[i],
        ) by {
            if i < distinct(front + less).len() {
                assert(distinct(all)[i] == distinct(front + less)[i]);
                let k = choose|k: int| 0 <= k < less.len() && less[k] == distinct(all)[i];
                assert(behind[k] == distinct(all)[i]);
            } else {
                assert(behind[behind.len() - 1] == distinct(all)[i]);
            }
        }
    }
}

/// The diagnostic rendering of an account shows everything of it but its password.
pub proof fn an_account_is_shown_without_its_password(account: Account, r: String)
    requires
        call_ensures(Account::debug_text, (&account,), r),
    ensures
        r@ == "Account { label: "@ + crate::text::debug_quoted(account.label@) + ", email: "@
            + crate::text::debug_quoted(account.email@)
            + ", password: \"<redacted>\", custom_id: "@ + crate::text::debug_quoted(
            account.custom_id@,
        ) + ", discord_id: "@ + (match account.discord_id {
            Some(id) => "Some("@ + crate::number::decimal(id as nat) + ")"@,
            None => "None"@,
        }) + " }"@,
{
}

/// A copy of a configuration has the same settings, every one of them, and the same users.
pub proof fn a_copy_has_the_same_settings(config: Config, r: Config)
    requires
        call_ensures(Config::clone, (&config,), r),
    ensures
        r.email@ == config.email@ && r.password@ == config.password@ && r.custom_id@
            == config.custom_id@ && r.base_url@ == config.base_url@,
        r.latitude == config.latitude && r.longitude == config.longitude,
        r.retry_duration == config.retry_duration && r.retry_interval == config.retry_interval,
        r.discord_token == config.discord_token && r.discord_owner_id == config.discord_owner_id,
        r.new_sessions_channel_id == config.new_sessions_channel_id,
        r.new_sessions_poll_interval == config.new_sessions_poll_interval,
        r.booking_window_hours == config.booking_window_hours,
        r.watch_poll_interval == config.watch_poll_interval,
        r.users@ == config.users@,
{
}

} // verus!
