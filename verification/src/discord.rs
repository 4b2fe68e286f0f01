//! The people that a Discord command comes from and is for.

use vstd::prelude::*;

use crate::config::{
    a_search_finds_the_first_account, account_views, distinct, distinct_keeps_each_member_once,
    is_first_account, labelled_account, linked_account, lists_member, member_listed,
    no_member_twice, offered_accounts_are_distinct, optional_account, Account, AccountView,
    Config,
};
use crate::number::{
    decimal, decimal_reads_back, is_digit, parse_u64, parsed_u64, parsing_undoes_rendering,
};
use crate::text::{
    begins_with, ends_with, eq_ignore_ascii_case, join, joined, same_ignoring_case,
    split_whitespace, strip_prefix, strip_suffix, texts, trim_start_matches, without_leading, words,
};

verus! {

/// Whether a command's author may use it: everyone where no owner is set, else the owner alone.
pub fn is_owner(owner_id: Option<u64>, author: u64) -> (r: bool)
    ensures
        r == (owner_id is None || owner_id == Some(author)),
{
    match owner_id {
        None => true,
        Some(id) => id == author,
    }
}

/// The reply to a command whose author may not use it.
pub fn unauthorized_reply() -> (r: String)
    ensures
        r@ == "Unauthorized."@,
{
    "Unauthorized.".to_owned()
}

// ---------------------------------------------------------------------------
// Mentions
// ---------------------------------------------------------------------------

/// `s` without a single leading `!`.
pub open spec fn after_bang(s: Seq<char>) -> Seq<char> {
    if begins_with(s, "!"@) {
        s.skip(1)
    } else {
        s
    }
}

/// The user id that a mention names: `<@123>`, or `<@!123>` for a nickname.
pub open spec fn mentioned(token: Seq<char>) -> Option<u64> {
    if begins_with(token, "<@"@) && ends_with(token.skip(2), ">"@) {
        parsed_u64(after_bang(token.subrange(2, token.len() - 1)))
    } else {
        None
    }
}

/// Extracts a Discord user id from a mention token like `<@123>` or `<@!123>`.
pub fn parse_mention(token: &str) -> (r: Option<u64>)
    ensures
        r == mentioned(token@),
{
    proof {
        reveal_strlit("<@");
        reveal_strlit(">");
        reveal_strlit("!");
    }
    let tail = match strip_prefix(token, "<@") {
        Some(tail) => tail,
        None => {
            return None;
        },
    };
    assert(token@.subrange(0, 2) =~= "<@"@);
    assert(tail@ =~= token@.skip(2));
    let inner = match strip_suffix(tail, ">") {
        Some(inner) => inner,
        None => {
            return None;
        },
    };
    proof {
        assert(tail@.subrange(tail@.len() - 1, tail@.len() as int) =~= ">"@);
        assert(inner@ =~= token@.subrange(2, token@.len() - 1));
    }
    match strip_prefix(inner, "!") {
        Some(id) => {
            proof {
                assert(inner@.subrange(0, 1) =~= "!"@);
                assert(id@ =~= inner@.skip(1));
            }
            parse_u64(id)
        },
        None => parse_u64(inner),
    }
}

/// Mentioning a user, plainly or by nickname, names that user.
pub proof fn mention_names_the_user(id: u64)
    ensures
        mentioned("<@"@ + decimal(id as nat) + ">"@) == Some(id),
        mentioned("<@!"@ + decimal(id as nat) + ">"@) == Some(id),
{
    reveal_strlit("<@");
    reveal_strlit("<@!");
    reveal_strlit(">");
    reveal_strlit("!");
    let digits = decimal(id as nat);
    decimal_reads_back(id as nat);
    parsing_undoes_rendering(id);
    assert(is_digit(digits[0]));
    let plain = "<@"@ + digits + ">"@;
    assert(plain.subrange(0, 2) =~= "<@"@);
    assert(plain.skip(2).subrange(plain.skip(2).len() - 1, plain.skip(2).len() as int) =~= ">"@);
    assert(plain.subrange(2, plain.len() - 1) =~= digits);
    assert(!begins_with(digits, "!"@)) by {
        if begins_with(digits, "!"@) {
            assert(digits.subrange(0, 1)[0] == '!');
        }
    }
    let nick = "<@!"@ + digits + ">"@;
    assert(nick.subrange(0, 2) =~= "<@"@);
    assert(nick.skip(2).subrange(nick.skip(2).len() - 1, nick.skip(2).len() as int) =~= ">"@);
    let inner = nick.subrange(2, nick.len() - 1);
    assert(inner.subrange(0, 1) =~= "!"@);
    assert(inner.skip(1) =~= digits);
}

/// Whether a token means every configured account.
pub open spec fn means_everyone(token: Seq<char>) -> bool {
    let word = without_leading(token, '@');
    same_ignoring_case(word, "everyone"@) || same_ignoring_case(word, "all"@)
}

/// Whether a token means every configured account: `@everyone`, `everyone` or `all`, ASCII case
/// aside.
pub fn is_everyone(token: &str) -> (r: bool)
    ensures
        r == means_everyone(token@),
{
    let word = trim_start_matches(token, '@');
    eq_ignore_ascii_case(word, "everyone") || eq_ignore_ascii_case(word, "all")
}

// ---------------------------------------------------------------------------
// Targets
// ---------------------------------------------------------------------------

/// The account that a token names: by mention or Discord id, else by label.
pub open spec fn named_account(
    accounts: Seq<AccountView>,
    token: Seq<char>,
) -> Option<AccountView> {
    let id = match mentioned(token) {
        Some(id) => Some(id),
        None => parsed_u64(token),
    };
    let linked = match id {
        Some(id) => linked_account(accounts, id),
        None => None,
    };
    match linked {
        Some(a) => Some(a),
        None => labelled_account(accounts, token),
    }
}

/// The accounts that the tokens of a list name, in order, one for each token that names any.
pub open spec fn named_accounts(
    accounts: Seq<AccountView>,
    tokens: Seq<Seq<char>>,
) -> Seq<AccountView>
    decreases tokens.len(),
{
    if tokens.len() == 0 {
        Seq::empty()
    } else {
        let before = named_accounts(accounts, tokens.drop_last());
        match named_account(accounts, tokens.last()) {
            Some(a) => before.push(a),
            None => before,
        }
    }
}

/// The tokens of a list that name no account, in order.
pub open spec fn unresolved(accounts: Seq<AccountView>, tokens: Seq<Seq<char>>) -> Seq<Seq<char>>
    decreases tokens.len(),
{
    if tokens.len() == 0 {
        Seq::empty()
    } else {
        let before = unresolved(accounts, tokens.drop_last());
        if named_account(accounts, tokens.last()) is None {
            before.push(tokens.last())
        } else {
            before
        }
    }
}

/// The tokens of an optional list of people.
pub open spec fn people(users: Option<&str>) -> Seq<Seq<char>> {
    match users {
        Some(list) => words(list@),
        None => Seq::empty(),
    }
}

/// Whether one of the tokens means everyone.
pub open spec fn for_everyone(tokens: Seq<Seq<char>>) -> bool {
    exists|i: int| 0 <= i < tokens.len() && means_everyone(#[trigger] tokens[i])
}

/// The accounts that a command is for, or the tokens that name nobody.
pub open spec fn targets(config: Config, caller: u64, tokens: Seq<Seq<char>>) -> Result<
    Seq<AccountView>,
    Seq<Seq<char>>,
> {
    let all = config.all_accounts();
    if tokens.len() == 0 {
        Ok(
            match linked_account(all, caller) {
                Some(own) => seq![own],
                None => seq![config.primary()],
            },
        )
    } else if for_everyone(tokens) {
        Ok(config.members())
    } else if unresolved(all, tokens).len() > 0 {
        Err(unresolved(all, tokens))
    } else {
        Ok(distinct(named_accounts(all, tokens)))
    }
}

fn find_account(config: &Config, token: &str) -> (r: Option<Account>)
    ensures
        optional_account(r) == named_account(config.all_accounts(), token@),
{
    let id = match parse_mention(token) {
        Some(id) => Some(id),
        None => parse_u64(token),
    };
    let linked = match id {
        Some(id) => config.account_for_discord(id),
        None => None,
    };
    match linked {
        Some(a) => Some(a),
        None => config.account_for_label(token),
    }
}

fn any_everyone(tokens: &Vec<String>) -> (r: bool)
    ensures
        r == for_everyone(texts(tokens@)),
{
    let mut i: usize = 0;
    while i < tokens.len()
        invariant
            i <= tokens.len(),
            forall|j: int| 0 <= j < i ==> !means_everyone(#[trigger] texts(tokens@)[j]),
        decreases tokens.len() - i,
    {
        assert(texts(tokens@)[i as int] == tokens@[i as int]@);
        if is_everyone(tokens[i].as_str()) {
            return true;
        }
        i = i + 1;
    }
    false
}

/// Resolves the optional list of people to the accounts a command acts on.
///
/// Without a list, or with a blank one, that is the caller's own linked account, or the primary
/// account where the caller is not linked. `@everyone` (or `everyone`, `all`) means every
/// configured account. Otherwise each token, separated by white space, is a Discord mention
/// (`<@id>`), a raw Discord id, or an account label. Each member is targeted once. The error
/// names the tokens that name nobody.
pub fn resolve_targets(config: &Config, caller: u64, users: Option<&str>) -> (r: Result<
    Vec<Account>,
    String,
>)
    ensures
        match targets(*config, caller, people(users)) {
            Ok(list) => r matches Ok(accounts) && account_views(accounts@) == list,
            Err(tokens) => r matches Err(message) && message@
                == "No linked MonClub account for: "@ + joined(tokens, ", "@),
        },
{
    let tokens: Vec<String> = match users {
        Some(list) => split_whitespace(list),
        None => Vec::new(),
    };
    let ghost wanted = people(users);
    let ghost all = config.all_accounts();
    assert(texts(tokens@) =~= wanted);
    if tokens.is_empty() {
        let account = match config.account_for_discord(caller) {
            Some(own) => own,
            None => config.primary_account(),
        };
        let mut accounts: Vec<Account> = Vec::new();
        accounts.push(account);
        assert(account_views(accounts@) =~= seq![account@]);
        return Ok(accounts);
    }
    if any_everyone(&tokens) {
        return Ok(config.distinct_accounts());
    }
    let mut resolved: Vec<Account> = Vec::new();
    let mut missing: Vec<String> = Vec::new();
    let mut i: usize = 0;
    proof {
        assert(named_accounts(all, wanted.take(0)) =~= Seq::empty());
        assert(unresolved(all, wanted.take(0)) =~= Seq::empty());
        assert(account_views(resolved@) =~= distinct(named_accounts(all, wanted.take(0))));
        assert(texts(missing@) =~= unresolved(all, wanted.take(0)));
    }
    while i < tokens.len()
        invariant
            i <= tokens.len(),
            all == config.all_accounts(),
            texts(tokens@) == wanted,
            account_views(resolved@) == distinct(named_accounts(all, wanted.take(i as int))),
            texts(missing@) == unresolved(all, wanted.take(i as int)),
        decreases tokens.len() - i,
    {
        let ghost front = wanted.take(i + 1);
        let ghost before = account_views(resolved@);
        let ghost left = texts(missing@);
        proof {
            assert(wanted[i as int] == tokens@[i as int]@);
            assert(front.drop_last() =~= wanted.take(i as int));
        }
        match find_account(config, tokens[i].as_str()) {
            Some(account) => {
                proof {
                    let found = named_accounts(all, front);
                    assert(found.drop_last() =~= named_accounts(all, wanted.take(i as int)));
                    assert(found.last() == account@);
                }
                if !lists_member(&resolved, &account) {
                    resolved.push(account);
                    assert(account_views(resolved@) =~= before.push(account@));
                }
            },
            None => {
                missing.push(tokens[i].clone());
                assert(texts(missing@) =~= left.push(wanted[i as int]));
            },
        }
        i = i + 1;
    }
    assert(wanted.take(wanted.len() as int) =~= wanted);
    assert(texts(missing@).len() == missing@.len());
    if !missing.is_empty() {
        let mut message = "No linked MonClub account for: ".to_owned();
        message.append(join(&missing, ", ").as_str());
        return Err(message);
    }
    Ok(resolved)
}

/// Where every token names an account, there is one account for each.
proof fn lemma_all_named(accounts: Seq<AccountView>, tokens: Seq<Seq<char>>)
    requires
        unresolved(accounts, tokens).len() == 0,
    ensures
        named_accounts(accounts, tokens).len() == tokens.len(),
        forall|i: int|
            0 <= i < tokens.len() ==> named_account(accounts, #[trigger] tokens[i]) == Some(
                named_accounts(accounts, tokens)[i],
            ),
    decreases tokens.len(),
{
    if tokens.len() > 0 {
        let front = tokens.drop_last();
        lemma_all_named(accounts, front);
        assert forall|i: int| 0 <= i < tokens.len() implies named_account(
            accounts,
            #[trigger] tokens[i],
        ) == Some(named_accounts(accounts, tokens)[i]) by {
            if i < front.len() {
                assert(front[i] == tokens[i]);
            }
        }
    }
}

/// A command that is resolved is for somebody, and for nobody twice.
pub proof fn targets_are_distinct_and_some(config: Config, caller: u64, tokens: Seq<Seq<char>>)
    ensures
        targets(config, caller, tokens) matches Ok(list) ==> list.len() > 0 && no_member_twice(
            list,
        ),
{
    let all = config.all_accounts();
    offered_accounts_are_distinct(config);
    distinct_keeps_each_member_once(named_accounts(all, tokens));
    if tokens.len() > 0 && unresolved(all, tokens).len() == 0 {
        lemma_all_named(all, tokens);
    }
}

/// A command that names people reaches each of them: the member of every account that a token
/// names is targeted.
pub proof fn everybody_named_is_targeted(
    config: Config,
    caller: u64,
    tokens: Seq<Seq<char>>,
    i: int,
)
    requires
        0 <= i < tokens.len(),
    ensures
        targets(config, caller, tokens) matches Ok(list) ==> (named_account(
            config.all_accounts(),
            tokens[i],
        ) matches Some(a) ==> member_listed(list, a)),
{
    let all = config.all_accounts();
    if for_everyone(tokens) {
        offered_accounts_are_distinct(config);
        if let Some(a) = named_account(all, tokens[i]) {
            lemma_named_is_configured(all, tokens[i]);
            let k = choose|k: int| 0 <= k < all.len() && all[k] == a;
            assert(member_listed(config.members(), all[k]));
        }
    } else if unresolved(all, tokens).len() == 0 {
        lemma_all_named(all, tokens);
        distinct_keeps_each_member_once(named_accounts(all, tokens));
        assert(member_listed(
            distinct(named_accounts(all, tokens)),
            named_accounts(all, tokens)[i],
        ));
    }
}

/// An account that a token names is one of the configured accounts.
proof fn lemma_named_is_configured(accounts: Seq<AccountView>, token: Seq<char>)
    ensures
        named_account(accounts, token) matches Some(a) ==> exists|k: int|
            0 <= k < accounts.len() && #[trigger] accounts[k] == a,
{
    assert forall|wanted: spec_fn(AccountView) -> bool|
        (#[trigger] crate::config::first_account(accounts, wanted) matches Some(a) ==> exists|
            k: int,
        | 0 <= k < accounts.len() && #[trigger] accounts[k] == a) by {
        lemma_first_is_listed(accounts, wanted);
    }
}

proof fn lemma_first_is_listed(
    accounts: Seq<AccountView>,
    wanted: spec_fn(AccountView) -> bool,
)
    ensures
        crate::config::first_account(accounts, wanted) matches Some(a) ==> exists|k: int|
            0 <= k < accounts.len() && #[trigger] accounts[k] == a,
    decreases accounts.len(),
{
    if accounts.len() > 0 && !wanted(accounts[0]) {
        lemma_first_is_listed(accounts.drop_first(), wanted);
        if let Some(a) = crate::config::first_account(accounts, wanted) {
            let k = choose|k: int|
                0 <= k < accounts.drop_first().len() && #[trigger] accounts.drop_first()[k] == a;
            assert(accounts[k + 1] == a);
        }
    }
}

// ---------------------------------------------------------------------------
// Laws
// ---------------------------------------------------------------------------

/// Without an owner everybody may use a command; with one, the owner may and nobody else.
pub proof fn only_the_owner_may_use_a_command(owner: u64, author: u64, open: bool, own: bool)
    requires
        call_ensures(is_owner, (None, author), open),
        call_ensures(is_owner, (Some(owner), author), own),
    ensures
        open,
        own <==> owner == author,
{
}

/// A token names a user by mention only where it has the form of one: `<@`, perhaps a `!`, a
/// number, `>`; and it then names the user of that number.
pub proof fn only_mentions_name_users(token: &str, r: Option<u64>)
    requires
        call_ensures(parse_mention, (token,), r),
    ensures
        r matches Some(id) ==> exists|inner: Seq<char>|
            parsed_u64(inner) == Some(id) && (token@ == #[trigger] ("<@"@ + inner + ">"@)
                || token@ == "<@!"@ + inner + ">"@),
{
    if let Some(id) = r {
        reveal_strlit("<@");
        reveal_strlit("<@!");
        reveal_strlit(">");
        reveal_strlit("!");
        let t = token@;
        let inside = t.subrange(2, t.len() - 1);
        let inner = after_bang(inside);
        let tail = t.skip(2);
        assert(t.subrange(0, 2) =~= "<@"@);
        assert(tail.subrange(tail.len() - 1, tail.len() as int) =~= ">"@);
        assert(t =~= "<@"@ + inside + ">"@) by {
            assert(t.subrange(0, 2)[0] == t[0] && t.subrange(0, 2)[1] == t[1]);
            assert(tail.subrange(tail.len() - 1, tail.len() as int)[0] == t[t.len() - 1]);
        }
        if begins_with(inside, "!"@) {
            assert(inside.subrange(0, 1)[0] == inside[0]);
            assert(t =~= "<@!"@ + inner + ">"@);
        }
        let plain = "<@"@ + inner + ">"@;
        assert(parsed_u64(inner) == Some(id) && (t == plain || t == "<@!"@ + inner + ">"@));
    }
}

/// `everyone` and `all` mean everyone, in any ASCII case, with any number of `@` in front; no
/// other word does.
pub proof fn everyone_is_meant_by_two_words(token: Seq<char>)
    ensures
        means_everyone(seq!['@'] + token) == means_everyone(token),
        token.len() == 0 || token[0] != '@' ==> (means_everyone(token) <==> same_ignoring_case(
            token,
            "everyone"@,
        ) || same_ignoring_case(token, "all"@)),
{
    assert((seq!['@'] + token).drop_first() =~= token);
}

/// Whether a token names an account: the first that is linked to the user whom the token mentions
/// or whose id it is, or, where no account is, the first whose label it is, ASCII case aside.
#[verifier::opaque]
pub open spec fn token_names(all: Seq<AccountView>, token: Seq<char>, a: AccountView) -> bool {
    let by_label = |x: AccountView| same_ignoring_case(x.label, token);
    let id = match mentioned(token) {
        Some(id) => Some(id),
        None => parsed_u64(token),
    };
    match id {
        Some(id) => if exists|i: int|
            0 <= i < all.len() && (#[trigger] all[i]).discord_id == Some(id) {
            is_first_account(all, |x: AccountView| x.discord_id == Some(id), a)
        } else {
            is_first_account(all, by_label, a)
        },
        None => is_first_account(all, by_label, a),
    }
}

proof fn lemma_first_is_unique(
    all: Seq<AccountView>,
    wanted: spec_fn(AccountView) -> bool,
    a: AccountView,
    b: AccountView,
)
    requires
        is_first_account(all, wanted, a),
        is_first_account(all, wanted, b),
    ensures
        a == b,
{
    let i = choose|i: int|
        0 <= i < all.len() && #[trigger] all[i] == a && wanted(a) && forall|j: int|
            0 <= j < i ==> !wanted(#[trigger] all[j]);
    let k = choose|k: int|
        0 <= k < all.len() && #[trigger] all[k] == b && wanted(b) && forall|j: int|
            0 <= j < k ==> !wanted(#[trigger] all[j]);
    if i < k {
        assert(!wanted(all[i]));
    } else if k < i {
        assert(!wanted(all[k]));
    }
}

proof fn lemma_token_names(all: Seq<AccountView>, token: Seq<char>)
    ensures
        named_account(all, token) matches Some(a) ==> token_names(all, token, a),
        named_account(all, token) is None ==> forall|a: AccountView|
            !#[trigger] token_names(all, token, a),
{
    reveal(token_names);
    let by_label = |x: AccountView| same_ignoring_case(x.label, token);
    a_search_finds_the_first_account(all, by_label);
    let id = match mentioned(token) {
        Some(id) => Some(id),
        None => parsed_u64(token),
    };
    if let Some(id) = id {
        let by_id = |x: AccountView| x.discord_id == Some(id);
        a_search_finds_the_first_account(all, by_id);
        match linked_account(all, id) {
            Some(a) => {
                let i = choose|i: int|
                    0 <= i < all.len() && #[trigger] all[i] == a && by_id(a) && forall|j: int|
                        0 <= j < i ==> !by_id(#[trigger] all[j]);
                assert(all[i].discord_id == Some(id));
            },
            None => {
                assert forall|i: int| 0 <= i < all.len() implies (#[trigger] all[i]).discord_id
                    != Some(id) by {
                    assert(!by_id(all[i]));
                }
            },
        }
    }
    if named_account(all, token) is None {
        assert forall|a: AccountView| !#[trigger] token_names(all, token, a) by {
            if is_first_account(all, by_label, a) {
                let i = choose|i: int|
                    0 <= i < all.len() && #[trigger] all[i] == a && by_label(a) && forall|j: int|
                        0 <= j < i ==> !by_label(#[trigger] all[j]);
                assert(!by_label(all[i]));
            }
        }
    }
}

/// A command without people, or with none but white space, is for its author's own account: the
/// first that is linked to the author, or else the primary account.
pub proof fn without_people_a_command_is_for_its_author(
    config: Config,
    caller: u64,
    users: Option<&str>,
    r: Result<Vec<Account>, String>,
)
    requires
        call_ensures(resolve_targets, (&config, caller, users), r),
        users is None || words(users->0@).len() == 0,
    ensures
        r matches Ok(list) && list@.len() == 1 && {
            let all = account_views(config.users@).push(config.primary());
            if exists|i: int|
                0 <= i < all.len() && (#[trigger] all[i]).discord_id == Some(caller) {
                is_first_account(
                    all,
                    |x: AccountView| x.discord_id == Some(caller),
                    list@[0]@,
                )
            } else {
                list@[0]@ == config.primary()
            }
        },
{
    let all = account_views(config.users@).push(config.primary());
    assert(config.all_accounts() =~= all);
    let by_id = |x: AccountView| x.discord_id == Some(caller);
    a_search_finds_the_first_account(all, by_id);
    let list = r->Ok_0;
    assert(account_views(list@).len() == list@.len());
    assert(account_views(list@)[0] == list@[0]@);
    if exists|i: int| 0 <= i < all.len() && (#[trigger] all[i]).discord_id == Some(caller) {
        let i = choose|i: int| 0 <= i < all.len() && (#[trigger] all[i]).discord_id == Some(caller);
        assert(by_id(all[i]));
    } else if let Some(a) = linked_account(all, caller) {
        let i = choose|i: int|
            0 <= i < all.len() && #[trigger] all[i] == a && by_id(a) && forall|j: int|
                0 <= j < i ==> !by_id(#[trigger] all[j]);
        assert(all[i].discord_id == Some(caller));
    }
}

/// A command for everyone is for every configured identity, the primary account in front, each
/// once, whatever else is said with it.
pub proof fn everyone_is_every_configured_member(
    config: Config,
    caller: u64,
    users: &str,
    k: int,
    r: Result<Vec<Account>, String>,
)
    requires
        call_ensures(resolve_targets, (&config, caller, Some(users)), r),
        0 <= k < words(users@).len(),
        means_everyone(words(users@)[k]),
    ensures
        r matches Ok(list) && {
            &&& list@.len() > 0
            &&& list@[0]@ == config.primary()
            &&& no_member_twice(account_views(list@))
            &&& forall|i: int|
                0 <= i < config.users@.len() ==> member_listed(
                    account_views(list@),
                    (#[trigger] config.users@[i])@,
                )
        },
{
    offered_accounts_are_distinct(config);
    let list = r->Ok_0;
    assert(account_views(list@).len() == list@.len());
    assert(account_views(list@)[0] == list@[0]@);
    assert forall|i: int| 0 <= i < config.users@.len() implies member_listed(
        account_views(list@),
        (#[trigger] config.users@[i])@,
    ) by {
        assert(config.all_accounts()[i] == config.users@[i]@);
    }
}

/// A command that names people is refused exactly where a token names nobody, and the refusal
/// gives all such tokens, in order.
pub proof fn a_command_is_refused_for_whom_nobody_knows(
    config: Config,
    caller: u64,
    users: &str,
    r: Result<Vec<Account>, String>,
)
    requires
        call_ensures(resolve_targets, (&config, caller, Some(users)), r),
        words(users@).len() > 0,
        !for_everyone(words(users@)),
    ensures
        ({
            let all = account_views(config.users@).push(config.primary());
            let nobody = words(users@).filter(
                |t: Seq<char>| forall|a: AccountView| !#[trigger] token_names(all, t, a),
            );
            &&& r is Err <==> nobody.len() > 0
            &&& r matches Err(message) ==> message@ == "No linked MonClub account for: "@ + joined(
                nobody,
                ", "@,
            )
        }),
{
    let all = account_views(config.users@).push(config.primary());
    assert(config.all_accounts() =~= all);
    assert(people(Some(users)) == words(users@));
    lemma_unresolved(all, words(users@));
}

/// A command that names people, and is not refused, is for each of them: whatever account a token
/// names, its member is targeted, and nobody is targeted twice.
pub proof fn a_command_reaches_those_it_names(
    config: Config,
    caller: u64,
    users: &str,
    list: Vec<Account>,
    k: int,
    a: AccountView,
)
    requires
        call_ensures(
            resolve_targets,
            (&config, caller, Some(users)),
            Ok::<Vec<Account>, String>(list),
        ),
        0 <= k < words(users@).len(),
        !for_everyone(words(users@)),
        token_names(account_views(config.users@).push(config.primary()), words(users@)[k], a),
    ensures
        member_listed(account_views(list@), a),
        no_member_twice(account_views(list@)),
{
    let all = account_views(config.users@).push(config.primary());
    let tokens = words(users@);
    let named = named_accounts(all, tokens);
    assert(config.all_accounts() =~= all);
    assert(people(Some(users)) == tokens);
    lemma_all_named(all, tokens);
    distinct_keeps_each_member_once(named);
    lemma_token_names(all, tokens[k]);
    a_token_names_one_account(all, tokens[k], a, named[k]);
    assert(member_listed(distinct(named), named[k]));
}

/// A command that names people is for nobody else: every account that it targets is one that a
/// token names.
pub proof fn a_command_reaches_nobody_else(
    config: Config,
    caller: u64,
    users: &str,
    list: Vec<Account>,
    i: int,
)
    requires
        call_ensures(
            resolve_targets,
            (&config, caller, Some(users)),
            Ok::<Vec<Account>, String>(list),
        ),
        words(users@).len() > 0,
        !for_everyone(words(users@)),
        0 <= i < list@.len(),
    ensures
        exists|k: int|
            0 <= k < words(users@).len() && token_names(
                account_views(config.users@).push(config.primary()),
                #[trigger] words(users@)[k],
                list@[i]@,
            ),
{
    let all = account_views(config.users@).push(config.primary());
    let tokens = words(users@);
    let named = named_accounts(all, tokens);
    assert(config.all_accounts() =~= all);
    assert(people(Some(users)) == tokens);
    lemma_all_named(all, tokens);
    distinct_keeps_each_member_once(named);
    assert(account_views(list@)[i] == list@[i]@);
    assert(named.contains(distinct(named)[i]));
    let k = choose|k: int| 0 <= k < named.len() && named[k] == list@[i]@;
    lemma_token_names(all, tokens[k]);
    assert(token_names(all, tokens[k], list@[i]@));
}

/// A command is for everyone where one of its tokens means everyone, and only there.
pub proof fn one_token_is_enough_for_everyone(tokens: Seq<Seq<char>>)
    ensures
        for_everyone(tokens) <==> exists|k: int|
            0 <= k < tokens.len() && #[trigger] means_everyone(tokens[k]),
{
    if for_everyone(tokens) {
        let k = choose|k: int| 0 <= k < tokens.len() && means_everyone(#[trigger] tokens[k]);
        assert(means_everyone(tokens[k]));
    }
}

proof fn lemma_unresolved(all: Seq<AccountView>, tokens: Seq<Seq<char>>)
    ensures
        unresolved(all, tokens) == tokens.filter(
            |t: Seq<char>| forall|a: AccountView| !#[trigger] token_names(all, t, a),
        ),
    decreases tokens.len(),
{
    reveal(Seq::filter);
    if tokens.len() > 0 {
        lemma_unresolved(all, tokens.drop_last());
        lemma_token_names(all, tokens.last());
    }
    assert(unresolved(all, tokens) =~= tokens.filter(
        |t: Seq<char>| forall|a: AccountView| !#[trigger] token_names(all, t, a),
    ));
}

/// A token names at most one account.
pub proof fn a_token_names_one_account(
    all: Seq<AccountView>,
    token: Seq<char>,
    a: AccountView,
    b: AccountView,
)
    requires
        token_names(all, token, a),
        token_names(all, token, b),
    ensures
        a == b,
{
    reveal(token_names);
    let by_label = |x: AccountView| same_ignoring_case(x.label, token);
    let id = match mentioned(token) {
        Some(id) => Some(id),
        None => parsed_u64(token),
    };
    match id {
        Some(id) => if exists|i: int|
            0 <= i < all.len() && (#[trigger] all[i]).discord_id == Some(id) {
            lemma_first_is_unique(all, |x: AccountView| x.discord_id == Some(id), a, b);
        } else {
            lemma_first_is_unique(all, by_label, a, b);
        },
        None => {
            lemma_first_is_unique(all, by_label, a, b);
        },
    }
}

} // verus!
