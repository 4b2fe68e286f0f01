//! Whom a booking or a cancellation is for.

use vstd::prelude::*;

use crate::client::MonClubClient;
use crate::config::{
    a_search_finds_the_first_account, account_views, covers, distinct,
    distinct_keeps_each_member_once, is_first_account, labelled_account, lists_member,
    member_listed, no_member_twice, offered_accounts_are_distinct, Account, AccountView,
};
use crate::text::{entries, same_ignoring_case, split_entries, texts};

verus! {

/// Whom an action is for.
pub enum Targets {
    /// These accounts.
    Chosen(Vec<Account>),
    /// Whichever of these accounts is selected when asked; the one at `preselected` is selected
    /// from the start.
    Ask { prompt: String, choices: Vec<Account>, preselected: usize },
}

/// Why no target was found.
#[derive(Debug)]
pub enum TargetError {
    /// No account carries this label.
    UnknownLabel(String),
    /// The list of labels names nobody.
    EmptyList,
    /// Nobody was selected.
    NothingSelected,
}

impl TargetError {
    /// The message of this error.
    pub open spec fn shown(&self) -> Seq<char> {
        match *self {
            TargetError::UnknownLabel(label) => "Unknown --for label '"@ + label@
                + "' (not in users.json or the primary account)"@,
            TargetError::EmptyList => "--for was provided but empty"@,
            TargetError::NothingSelected => "No account selected."@,
        }
    }

    /// Renders the message of this error.
    pub fn to_text(&self) -> (r: String)
        ensures
            r@ == self.shown(),
    {
        match self {
            TargetError::UnknownLabel(label) => {
                let mut out = "Unknown --for label '".to_owned();
                out.append(label.as_str());
                out.append("' (not in users.json or the primary account)");
                out
            },
            TargetError::EmptyList => "--for was provided but empty".to_owned(),
            TargetError::NothingSelected => "No account selected.".to_owned(),
        }
    }
}

/// The first label of a list that no account carries.
pub open spec fn first_unknown(
    accounts: Seq<AccountView>,
    labels: Seq<Seq<char>>,
) -> Option<Seq<char>>
    decreases labels.len(),
{
    if labels.len() == 0 {
        None
    } else {
        match first_unknown(accounts, labels.drop_last()) {
            Some(label) => Some(label),
            None => if labelled_account(accounts, labels.last()) is None {
                Some(labels.last())
            } else {
                None
            },
        }
    }
}

/// The accounts that the labels of a list name, one for each label.
pub open spec fn labelled_accounts(
    accounts: Seq<AccountView>,
    labels: Seq<Seq<char>>,
) -> Seq<AccountView> {
    labels.map_values(|label: Seq<char>| labelled_account(accounts, label)->0)
}

/// The members that a comma-separated list of labels names, each once.
pub open spec fn named_members(accounts: Seq<AccountView>, list: Seq<char>) -> Seq<AccountView> {
    distinct(labelled_accounts(accounts, entries(list)))
}

/// Resolves a comma-separated list of labels.
fn resolve_labels(client: &MonClubClient, list: &str) -> (r: Result<Vec<Account>, TargetError>)
    ensures
        match first_unknown(client@.config.all_accounts(), entries(list@)) {
            Some(label) => r matches Err(TargetError::UnknownLabel(l)) && l@ == label,
            None => if entries(list@).len() == 0 {
                r matches Err(TargetError::EmptyList)
            } else {
                r matches Ok(targets) && account_views(targets@) == named_members(
                    client@.config.all_accounts(),
                    list@,
                )
            },
        },
{
    let config = client.config();
    let labels = split_entries(list);
    let ghost all = config.all_accounts();
    let ghost wanted = entries(list@);
    let mut targets: Vec<Account> = Vec::new();
    let mut i: usize = 0;
    proof {
        assert(labelled_accounts(all, wanted.take(0)) =~= Seq::empty());
        assert(account_views(targets@) =~= distinct(labelled_accounts(all, wanted.take(0))));
    }
    while i < labels.len()
        invariant
            i <= labels.len(),
            *config == client@.config,
            all == config.all_accounts(),
            wanted == entries(list@),
            texts(labels@) == wanted,
            first_unknown(all, wanted.take(i as int)) is None,
            account_views(targets@) == distinct(labelled_accounts(all, wanted.take(i as int))),
        decreases labels.len() - i,
    {
        let ghost front = wanted.take(i + 1);
        proof {
            assert(wanted[i as int] == labels@[i as int]@);
            assert(front.drop_last() =~= wanted.take(i as int));
        }
        match config.account_for_label(labels[i].as_str()) {
            Some(account) => {
                let ghost before = account_views(targets@);
                proof {
                    let found = labelled_accounts(all, front);
                    assert(found.drop_last() =~= labelled_accounts(all, wanted.take(i as int)));
                    assert(found.last() == account@);
                }
                if !lists_member(&targets, &account) {
                    targets.push(account);
                    assert(account_views(targets@) =~= before.push(account@));
                }
            },
            None => {
                proof {
                    lemma_unknown_stays(all, wanted, i + 1);
                }
                return Err(TargetError::UnknownLabel(labels[i].clone()));
            },
        }
        i = i + 1;
    }
    proof {
        assert(wanted.take(wanted.len() as int) =~= wanted);
        distinct_keeps_each_member_once(labelled_accounts(all, wanted));
        assert(account_views(targets@).len() == targets@.len());
    }
    if targets.is_empty() {
        return Err(TargetError::EmptyList);
    }
    Ok(targets)
}

proof fn lemma_unknown_stays(accounts: Seq<AccountView>, labels: Seq<Seq<char>>, n: int)
    requires
        0 <= n <= labels.len(),
        first_unknown(accounts, labels.take(n)) is Some,
    ensures
        first_unknown(accounts, labels) == first_unknown(accounts, labels.take(n)),
    decreases labels.len() - n,
{
    if n < labels.len() {
        assert(labels.take(n + 1).drop_last() =~= labels.take(n));
        lemma_unknown_stays(accounts, labels, n + 1);
    } else {
        assert(labels.take(n) =~= labels);
    }
}

impl MonClubClient {
    /// Resolves which accounts an action targets.
    ///
    /// An explicit list of labels (comma-separated) wins. Without one, a choice is asked for
    /// only where more than one member is configured; where only the primary account exists, it
    /// is targeted silently.
    pub fn resolve_targets(&self, for_arg: Option<&str>, prompt: &str) -> (r: Result<
        Targets,
        TargetError,
    >)
        ensures
            match for_arg {
                Some(list) => match first_unknown(
                    self@.config.all_accounts(),
                    entries(list@),
                ) {
                    Some(label) => r matches Err(TargetError::UnknownLabel(l)) && l@ == label,
                    None => if entries(list@).len() == 0 {
                        r matches Err(TargetError::EmptyList)
                    } else {
                        r matches Ok(Targets::Chosen(targets)) && account_views(targets@)
                            == named_members(self@.config.all_accounts(), list@)
                    },
                },
                None => if self@.config.members().len() == 1 {
                    r matches Ok(Targets::Chosen(targets)) && account_views(targets@)
                        == self@.config.members()
                } else {
                    r matches Ok(Targets::Ask { prompt: p, choices, preselected }) && p@
                        == prompt@ && account_views(choices@) == self@.config.members()
                        && preselected == 0
                },
            },
    {
        if let Some(list) = for_arg {
            return match resolve_labels(self, list) {
                Ok(targets) => Ok(Targets::Chosen(targets)),
                Err(e) => Err(e),
            };
        }
        let accounts = self.config().distinct_accounts();
        proof {
            crate::config::offered_accounts_are_distinct(self@.config);
            assert(account_views(accounts@).len() == accounts@.len());
        }
        if accounts.len() <= 1 {
            return Ok(Targets::Chosen(accounts));
        }
        Ok(Targets::Ask { prompt: prompt.to_owned(), choices: accounts, preselected: 0 })
    }
}

/// How an account is shown among the choices.
pub fn choice_text(account: &Account) -> (r: String)
    ensures
        r@ == account.label@ + " ("@ + account.email@ + ")"@,
{
    let mut out = account.label.clone();
    out.append(" (");
    out.append(account.email.as_str());
    out.append(")");
    out
}

/// Takes in a selection: somebody must be selected.
pub fn confirm_selection(selected: Vec<Account>) -> (r: Result<Vec<Account>, TargetError>)
    ensures
        if selected@.len() == 0 {
            r matches Err(TargetError::NothingSelected)
        } else {
            r == Ok::<Vec<Account>, TargetError>(selected)
        },
{
    if selected.is_empty() {
        Err(TargetError::NothingSelected)
    } else {
        Ok(selected)
    }
}

/// A list of labels that is resolved names each member once, and every label's member is among
/// the targets.
pub proof fn named_members_are_distinct(accounts: Seq<AccountView>, list: Seq<char>)
    ensures
        no_member_twice(named_members(accounts, list)),
        covers(
            named_members(accounts, list),
            labelled_accounts(accounts, entries(list)),
        ),
        entries(list).len() > 0 ==> named_members(accounts, list).len() > 0,
{
    distinct_keeps_each_member_once(labelled_accounts(accounts, entries(list)));
}

/// Whether a label, ASCII case aside, is carried by no account of a list.
pub open spec fn carried_by_none(all: Seq<AccountView>, label: Seq<char>) -> bool {
    forall|i: int| 0 <= i < all.len() ==> !same_ignoring_case((#[trigger] all[i]).label, label)
}

/// A list of labels is refused exactly where it is empty or where a label is carried by no
/// account, and the refusal names the first such label; nothing is asked then.
pub proof fn labels_are_refused_where_nobody_carries_them(
    client: MonClubClient,
    list: &str,
    prompt: &str,
    r: Result<Targets, TargetError>,
)
    requires
        call_ensures(MonClubClient::resolve_targets, (&client, Some(list), prompt), r),
    ensures
        ({
            let all = account_views(client@.config.users@).push(client@.config.primary());
            let labels = entries(list@);
            match r {
                Err(TargetError::UnknownLabel(l)) => exists|k: int|
                    0 <= k < labels.len() && #[trigger] labels[k] == l@ && carried_by_none(
                        all,
                        labels[k],
                    ) && forall|j: int|
                        0 <= j < k ==> !carried_by_none(all, #[trigger] labels[j]),
                Err(TargetError::EmptyList) => labels.len() == 0,
                Err(TargetError::NothingSelected) => false,
                Ok(Targets::Ask { .. }) => false,
                Ok(Targets::Chosen(_)) => labels.len() > 0 && forall|k: int|
                    0 <= k < labels.len() ==> !carried_by_none(all, #[trigger] labels[k]),
            }
        }),
{
    let config = client@.config;
    let all = account_views(config.users@).push(config.primary());
    assert(config.all_accounts() =~= all);
    lemma_first_unknown(all, entries(list@));
}

/// A list of labels targets the account that each of them names: for each the first that carries
/// it, users before the primary account; nobody is targeted twice.
pub proof fn labels_target_those_who_carry_them(
    client: MonClubClient,
    list: &str,
    prompt: &str,
    targets: Vec<Account>,
    k: int,
)
    requires
        call_ensures(
            MonClubClient::resolve_targets,
            (&client, Some(list), prompt),
            Ok::<Targets, TargetError>(Targets::Chosen(targets)),
        ),
        0 <= k < entries(list@).len(),
    ensures
        no_member_twice(account_views(targets@)),
        exists|a: AccountView|
            label_names(
                account_views(client@.config.users@).push(client@.config.primary()),
                entries(list@)[k],
                a,
            ) && #[trigger] member_listed(account_views(targets@), a),
{
    let config = client@.config;
    let all = account_views(config.users@).push(config.primary());
    let labels = entries(list@);
    let named = labelled_accounts(all, labels);
    assert(config.all_accounts() =~= all);
    lemma_first_unknown(all, labels);
    distinct_keeps_each_member_once(named);
    assert(!carried_by_none(all, labels[k]));
    lemma_label_names(all, labels[k]);
    assert(member_listed(distinct(named), named[k]));
    assert(label_names(all, labels[k], named[k]));
}

/// A list of labels targets nobody else: every account that it targets is one that a label names.
pub proof fn labels_target_nobody_else(
    client: MonClubClient,
    list: &str,
    prompt: &str,
    targets: Vec<Account>,
    i: int,
)
    requires
        call_ensures(
            MonClubClient::resolve_targets,
            (&client, Some(list), prompt),
            Ok::<Targets, TargetError>(Targets::Chosen(targets)),
        ),
        0 <= i < targets@.len(),
    ensures
        exists|k: int|
            0 <= k < entries(list@).len() && label_names(
                account_views(client@.config.users@).push(client@.config.primary()),
                #[trigger] entries(list@)[k],
                targets@[i]@,
            ),
{
    let config = client@.config;
    let all = account_views(config.users@).push(config.primary());
    let labels = entries(list@);
    let named = labelled_accounts(all, labels);
    assert(config.all_accounts() =~= all);
    lemma_first_unknown(all, labels);
    distinct_keeps_each_member_once(named);
    assert(account_views(targets@)[i] == targets@[i]@);
    assert(named.contains(distinct(named)[i]));
    let k = choose|k: int| 0 <= k < named.len() && named[k] == targets@[i]@;
    assert(!carried_by_none(all, labels[k]));
    lemma_label_names(all, labels[k]);
    assert(label_names(all, labels[k], targets@[i]@));
}

/// Whether a label names an account: the first that carries it, ASCII case aside.
pub open spec fn label_names(all: Seq<AccountView>, label: Seq<char>, a: AccountView) -> bool {
    is_first_account(all, |x: AccountView| same_ignoring_case(x.label, label), a)
}

proof fn lemma_label_names(all: Seq<AccountView>, label: Seq<char>)
    ensures
        labelled_account(all, label) is None <==> carried_by_none(all, label),
        labelled_account(all, label) matches Some(a) ==> label_names(all, label, a),
{
    let by_label = |x: AccountView| same_ignoring_case(x.label, label);
    a_search_finds_the_first_account(all, by_label);
    match labelled_account(all, label) {
        Some(a) => {
            let i = choose|i: int|
                0 <= i < all.len() && #[trigger] all[i] == a && by_label(a) && forall|j: int|
                    0 <= j < i ==> !by_label(#[trigger] all[j]);
            assert(same_ignoring_case(all[i].label, label));
        },
        None => {
            assert forall|i: int| 0 <= i < all.len() implies !same_ignoring_case(
                (#[trigger] all[i]).label,
                label,
            ) by {
                assert(!by_label(all[i]));
            }
        },
    }
}

proof fn lemma_first_unknown(all: Seq<AccountView>, labels: Seq<Seq<char>>)
    ensures
        match first_unknown(all, labels) {
            Some(label) => exists|k: int|
                0 <= k < labels.len() && #[trigger] labels[k] == label && carried_by_none(
                    all,
                    labels[k],
                ) && forall|j: int| 0 <= j < k ==> !carried_by_none(all, #[trigger] labels[j]),
            None => forall|k: int|
                0 <= k < labels.len() ==> !carried_by_none(all, #[trigger] labels[k]),
        },
    decreases labels.len(),
{
    if labels.len() > 0 {
        let front = labels.drop_last();
        let last = labels.len() - 1;
        lemma_first_unknown(all, front);
        lemma_label_names(all, labels.last());
        match first_unknown(all, front) {
            Some(label) => {
                let k = choose|k: int|
                    0 <= k < front.len() && #[trigger] front[k] == label && carried_by_none(
                        all,
                        front[k],
                    ) && forall|j: int| 0 <= j < k ==> !carried_by_none(all, #[trigger] front[j]);
                assert(labels[k] == label);
                assert forall|j: int| 0 <= j < k implies !carried_by_none(
                    all,
                    #[trigger] labels[j],
                ) by {
                    assert(front[j] == labels[j]);
                }
            },
            None => {
                assert forall|j: int| 0 <= j < last implies !carried_by_none(
                    all,
                    #[trigger] labels[j],
                ) by {
                    assert(front[j] == labels[j]);
                }
                assert(labels[last] == labels.last());
            },
        }
    }
}

/// Without a list of labels the primary account is taken silently where it is the only identity;
/// otherwise the choice is among all identities, the primary account in front and selected, and
/// the question is the one that was given.
pub proof fn a_choice_is_asked_for_only_among_several(
    client: MonClubClient,
    prompt: &str,
    r: Result<Targets, TargetError>,
)
    requires
        call_ensures(MonClubClient::resolve_targets, (&client, None, prompt), r),
    ensures
        r is Ok,
        client@.config.users@.len() == 0 ==> (r matches Ok(Targets::Chosen(list)) && list@.len()
            == 1 && list@[0]@ == client@.config.primary()),
        r matches Ok(Targets::Chosen(list)) ==> list@.len() == 1 && list@[0]@
            == client@.config.primary() && forall|i: int|
            0 <= i < client@.config.users@.len() ==> crate::config::same_member(
                client@.config.primary(),
                (#[trigger] client@.config.users@[i])@,
            ),
        r matches Ok(Targets::Ask { prompt: p, choices, preselected }) ==> {
            &&& p@ == prompt@
            &&& preselected == 0
            &&& choices@.len() > 1
            &&& choices@[0]@ == client@.config.primary()
            &&& no_member_twice(account_views(choices@))
            &&& forall|i: int|
                0 <= i < client@.config.users@.len() ==> member_listed(
                    account_views(choices@),
                    (#[trigger] client@.config.users@[i])@,
                )
        },
{
    let config = client@.config;
    offered_accounts_are_distinct(config);
    if config.users@.len() == 0 {
        crate::config::without_users_only_the_primary_is_bookable(config);
    }
    assert forall|i: int| 0 <= i < config.users@.len() implies member_listed(
        config.members(),
        (#[trigger] config.users@[i])@,
    ) by {
        assert(config.all_accounts()[i] == config.users@[i]@);
    }
    if let Ok(Targets::Chosen(list)) = r {
        assert(account_views(list@).len() == list@.len());
        assert(account_views(list@)[0] == list@[0]@);
        assert forall|i: int| 0 <= i < config.users@.len() implies crate::config::same_member(
            config.primary(),
            (#[trigger] config.users@[i])@,
        ) by {
            assert(member_listed(config.members(), config.users@[i]@));
        }
    }
    if let Ok(Targets::Ask { prompt: p, choices, preselected }) = r {
        assert(account_views(choices@).len() == choices@.len());
        assert(account_views(choices@)[0] == choices@[0]@);
    }
}

/// A selection is taken as it is, unless nobody is selected.
pub proof fn a_selection_is_taken_as_it_is(
    selected: Vec<Account>,
    r: Result<Vec<Account>, TargetError>,
)
    requires
        call_ensures(confirm_selection, (selected,), r),
    ensures
        r is Err <==> selected@.len() == 0,
        r matches Ok(list) ==> list@ == selected@,
{
}

/// A refusal says what is wrong, and quotes the label that nobody carries; a choice shows the
/// label and the email of the account.
pub proof fn a_refusal_quotes_the_label(e: TargetError, r: String, account: Account, choice: String)
    requires
        call_ensures(TargetError::to_text, (&e,), r),
        call_ensures(choice_text, (&account,), choice),
    ensures
        e matches TargetError::UnknownLabel(label) ==> r@ == "Unknown --for label '"@ + label@
            + "' (not in users.json or the primary account)"@,
        e is EmptyList ==> r@ == "--for was provided but empty"@,
        e is NothingSelected ==> r@ == "No account selected."@,
        choice@ == account.label@ + " ("@ + account.email@ + ")"@,
{
}

} // verus!
