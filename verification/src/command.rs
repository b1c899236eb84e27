//! The commands that people can give the bot, and what the bot answers.

use vstd::prelude::*;
use vstd::string::StrSliceExecFns;
use vstd::string::StringExecFns;
use vstd::utf8::encode_utf8;

use crate::error::Error;
use crate::error::ErrorKind;
use crate::error::InnerError;
use crate::error::WithContext;
use crate::model::views;
use crate::storage::Storage;
use crate::storage::StorageView;
use crate::text::push_char;
use crate::text::push_signed_decimal;
use crate::text::signed_decimal;
use crate::ugocoin::account::coin_text;
use crate::ugocoin::account::find_account;
use crate::ugocoin::account::get_central_bank_account;
use crate::ugocoin::account::get_user_account;
use crate::ugocoin::account::AccountView;
use crate::ugocoin::account::Ugocoin;
use crate::user::find_user;
use crate::user::get_all_users;
use crate::user::get_user;
use crate::user::UserView;

verus! {

/// The commands of the bot.
#[derive(Debug, Clone, Copy, PartialEq, Eq, Structural)]
pub enum Command {
    /// Greets whoever gives it.
    Test,
    /// Shows what everybody owns.
    Balance,
}

/// One line of the table of balances.
#[derive(Debug)]
pub struct BalanceInfo {
    pub name: String,
    pub balance: Ugocoin,
    pub streak: i64,
}

/// What a [`BalanceInfo`] is in contracts; the balance is in ugocents.
pub struct BalanceInfoView {
    pub name: Seq<char>,
    pub balance: int,
    pub streak: int,
}

impl View for BalanceInfo {
    type V = BalanceInfoView;

    open spec fn view(&self) -> BalanceInfoView {
        BalanceInfoView { name: self.name@, balance: self.balance@, streak: self.streak as int }
    }
}

/// The name under which the central bank appears in the table of balances.
pub open spec fn central_bank_name() -> Seq<char> {
    "UGOcoin Central Bank"@
}

impl Command {
    /// The name by which the command is given.
    pub open spec fn name_text(self) -> Seq<char> {
        match self {
            Command::Test => "test"@,
            Command::Balance => "balances"@,
        }
    }

    /// The command of the name `name`, if there is one.
    pub open spec fn of_name(name: Seq<char>) -> Option<Command> {
        if name == Command::Test.name_text() {
            Some(Command::Test)
        } else if name == Command::Balance.name_text() {
            Some(Command::Balance)
        } else {
            None
        }
    }

    /// The name by which the command is given.
    pub fn name(&self) -> (name: &'static str)
        ensures
            name@ == self.name_text(),
    {
        match self {
            Command::Test => "test",
            Command::Balance => "balances",
        }
    }

    /// What the command is for, in a line.
    pub fn description(&self) -> (description: &'static str)
        ensures
            description@ == (match self {
                Command::Test => "A test command for the UGO bot"@,
                Command::Balance => "Display balances for all employees, in the name of financial transparency."@,
            }),
    {
        match self {
            Command::Test => "A test command for the UGO bot",
            Command::Balance => "Display balances for all employees, in the name of financial transparency.",
        }
    }

    /// The command of the name `name`, if there is one.
    pub fn from_name(name: &str) -> (command: Option<Command>)
        ensures
            command == Command::of_name(name@),
    {
        let wanted = String::from_str(name);
        if wanted == String::from_str(Command::Test.name()) {
            Some(Command::Test)
        } else if wanted == String::from_str(Command::Balance.name()) {
            Some(Command::Balance)
        } else {
            None
        }
    }
}

/// The commands to make known to the chat platform: every command, once.
pub fn register_commands() -> (commands: Vec<Command>)
    ensures
        commands@ == seq![Command::Test, Command::Balance],
{
    let mut commands: Vec<Command> = Vec::new();
    commands.push(Command::Test);
    commands.push(Command::Balance);
    commands
}

/// The lines of the table for `users`, in their order: each user with the
/// balance of the user's account. Nothing where a user has no account.
pub open spec fn user_infos(users: Seq<UserView>, accounts: Seq<AccountView>) -> Option<
    Seq<BalanceInfoView>,
>
    decreases users.len(),
{
    if users.len() == 0 {
        Some(Seq::empty())
    } else {
        match (
            user_infos(users.drop_last(), accounts),
            find_account(accounts, Some(users.last().id)),
        ) {
            (Some(infos), Some(account)) => Some(
                infos.push(
                    BalanceInfoView {
                        name: users.last().display_name,
                        balance: account.balance,
                        streak: users.last().streak,
                    },
                ),
            ),
            _ => None,
        }
    }
}

/// The lines of the table of balances before they are put in order: every
/// user, then the central bank. Nothing where an account is missing.
pub open spec fn balance_infos(db: StorageView) -> Option<Seq<BalanceInfoView>> {
    match (user_infos(db.users, db.ugocoin_accounts), find_account(db.ugocoin_accounts, None)) {
        (Some(infos), Some(central)) => Some(
            infos.push(
                BalanceInfoView { name: central_bank_name(), balance: central.balance, streak: 0 },
            ),
        ),
        _ => None,
    }
}

/// Where `info` goes into lines that are in order: before the first line
/// whose balance is not above its own.
pub open spec fn rank_of(ranked: Seq<BalanceInfoView>, info: BalanceInfoView) -> int
    decreases ranked.len(),
{
    if ranked.len() == 0 {
        0
    } else if ranked[0].balance <= info.balance {
        0
    } else {
        1 + rank_of(ranked.drop_first(), info)
    }
}

/// The lines in order: the highest balance first, and of lines with the
/// same balance the one that came later first.
pub open spec fn ranked(infos: Seq<BalanceInfoView>) -> Seq<BalanceInfoView>
    decreases infos.len(),
{
    if infos.len() == 0 {
        Seq::empty()
    } else {
        let before = ranked(infos.drop_last());
        before.insert(rank_of(before, infos.last()), infos.last())
    }
}

/// How many bytes `text` takes in UTF-8, as a string tells its length.
pub open spec fn byte_len(text: Seq<char>) -> nat {
    (encode_utf8(text).len() as usize) as nat
}

/// The width of the column of names: the most bytes that a name takes.
pub open spec fn name_width(infos: Seq<BalanceInfoView>) -> nat
    decreases infos.len(),
{
    if infos.len() == 0 {
        0
    } else if byte_len(infos.last().name) > name_width(infos.drop_last()) {
        byte_len(infos.last().name)
    } else {
        name_width(infos.drop_last())
    }
}

/// The width of the column of balances: the most bytes that a balance takes
/// as it is shown.
pub open spec fn coin_width(infos: Seq<BalanceInfoView>) -> nat
    decreases infos.len(),
{
    if infos.len() == 0 {
        0
    } else if byte_len(coin_text(infos.last().balance)) > coin_width(infos.drop_last()) {
        byte_len(coin_text(infos.last().balance))
    } else {
        coin_width(infos.drop_last())
    }
}

/// `text` with blanks behind it where it has fewer than `width` characters.
pub open spec fn left_aligned(text: Seq<char>, width: nat) -> Seq<char> {
    if text.len() >= width {
        text
    } else {
        text + Seq::new((width - text.len()) as nat, |i: int| ' ')
    }
}

/// One line of the table: name, balance and streak, in columns.
pub open spec fn balance_line(info: BalanceInfoView, names: nat, coins: nat) -> Seq<char> {
    left_aligned(info.name, names) + " | "@ + left_aligned(coin_text(info.balance), coins)
        + " | (scrum streak "@ + signed_decimal(info.streak) + ")\n"@
}

/// The lines of the table, one after the other.
pub open spec fn balance_lines(infos: Seq<BalanceInfoView>, names: nat, coins: nat) -> Seq<char>
    decreases infos.len(),
{
    if infos.len() == 0 {
        Seq::empty()
    } else {
        balance_lines(infos.drop_last(), names, coins) + balance_line(infos.last(), names, coins)
    }
}

/// The answer to the command that shows the balances.
pub open spec fn balances_text(infos: Seq<BalanceInfoView>) -> Seq<char> {
    "Current UGOcoin balances:\n\n```"@ + balance_lines(
        ranked(infos),
        name_width(infos),
        coin_width(infos),
    ) + "```"@
}

/// The answer of the bot to the command `name`, given by the chat identity
/// `discord_id`, or the kind of failure.
pub open spec fn run_command_spec(db: StorageView, name: Seq<char>, discord_id: u64) -> Result<
    Seq<char>,
    ErrorKind,
> {
    match Command::of_name(name) {
        Some(Command::Test) => match find_user(db.users, db.users_discord_ids, discord_id) {
            Some(user) => Ok("Hello "@ + user.display_name),
            None => Err(ErrorKind::UserNotFound),
        },
        Some(Command::Balance) => match balance_infos(db) {
            Some(infos) => Ok(balances_text(infos)),
            None => Err(ErrorKind::Database),
        },
        None => Err(ErrorKind::CommandNotFound),
    }
}

/// Gathers the lines of the table of balances.
fn gather_balance_infos(db: &Storage) -> (res: Result<Vec<BalanceInfo>, Error>)
    ensures
        match res {
            Ok(infos) => balance_infos(db@) == Some(views(infos@)),
            Err(err) => balance_infos(db@) is None && err.error.kind() == ErrorKind::Database,
        },
{
    let users = match get_all_users(db) {
        Ok(users) => users,
        Err(err) => {
            return Err(err);
        },
    };
    let mut balance_infos: Vec<BalanceInfo> = Vec::new();
    let ghost all = db@.users;
    let ghost accounts = db@.ugocoin_accounts;
    let mut i: usize = 0;
    assert(all.take(0) =~= Seq::<UserView>::empty());
    assert(views(balance_infos@) =~= Seq::<BalanceInfoView>::empty());
    while i < users.len()
        invariant
            i <= users.len(),
            users@ == db.users@,
            all == db@.users,
            accounts == db@.ugocoin_accounts,
            user_infos(all.take(i as int), accounts) == Some(views(balance_infos@)),
        decreases users.len() - i,
    {
        proof {
            assert(all.take(i + 1).drop_last() =~= all.take(i as int));
            assert(all.take(i + 1).last() == users@[i as int]@);
        }
        let account = match get_user_account(db, &users[i]) {
            Ok(account) => account,
            Err(err) => {
                proof {
                    lemma_user_infos_stop(all, accounts, i as int + 1);
                }
                return Err(err);
            },
        };
        let ghost before = views(balance_infos@);
        balance_infos.push(
            BalanceInfo {
                name: users[i].display_name.clone(),
                balance: account.balance,
                streak: users[i].streak,
            },
        );
        assert(views(balance_infos@) =~= before.push(
            BalanceInfoView {
                name: users@[i as int]@.display_name,
                balance: account@.balance,
                streak: users@[i as int]@.streak,
            },
        ));
        i += 1;
    }
    assert(all.take(i as int) =~= all);
    let central_account = match get_central_bank_account(db) {
        Ok(account) => account,
        Err(err) => {
            return Err(err);
        },
    };
    let ghost before = views(balance_infos@);
    balance_infos.push(
        BalanceInfo {
            name: String::from_str("UGOcoin Central Bank"),
            balance: central_account.balance,
            streak: 0,
        },
    );
    assert(views(balance_infos@) =~= before.push(
        BalanceInfoView {
            name: central_bank_name(),
            balance: central_account@.balance,
            streak: 0,
        },
    ));
    Ok(balance_infos)
}

/// Once a user without an account is met, the lines cannot be gathered,
/// whoever follows.
proof fn lemma_user_infos_stop(users: Seq<UserView>, accounts: Seq<AccountView>, n: int)
    requires
        0 <= n <= users.len(),
        user_infos(users.take(n), accounts) is None,
    ensures
        user_infos(users, accounts) is None,
    decreases users.len() - n,
{
    if n < users.len() {
        assert(users.take(n + 1).drop_last() =~= users.take(n));
        lemma_user_infos_stop(users, accounts, n + 1);
    } else {
        assert(users.take(n) =~= users);
    }
}

/// Finds the place of `info` among lines that are in order.
fn find_rank(ranked: &Vec<BalanceInfo>, info: &BalanceInfo) -> (place: usize)
    ensures
        place == rank_of(views(ranked@), info@),
        place <= ranked@.len(),
{
    let ghost rows = views(ranked@);
    let mut i: usize = 0;
    assert(rows.skip(0) =~= rows);
    while i < ranked.len()
        invariant
            i <= ranked.len(),
            rows == views(ranked@),
            rank_of(rows, info@) == i + rank_of(rows.skip(i as int), info@),
        decreases ranked.len() - i,
    {
        proof {
            assert(rows.skip(i as int)[0] == ranked@[i as int]@);
            assert(rows.skip(i as int).drop_first() =~= rows.skip(i + 1));
        }
        if ranked[i].balance.as_ugocents() <= info.balance.as_ugocents() {
            return i;
        }
        i += 1;
    }
    i
}

/// Puts the lines in order: the highest balance first.
fn rank(infos: Vec<BalanceInfo>) -> (in_order: Vec<BalanceInfo>)
    ensures
        views(in_order@) == ranked(views(infos@)),
{
    let ghost all = views(infos@);
    let mut infos = infos;
    let mut in_order: Vec<BalanceInfo> = Vec::new();
    let mut taken: Vec<BalanceInfo> = Vec::new();
    // Lines are taken from the end, so turn them round first.
    let count = infos.len();
    let ghost total = count as nat;
    while infos.len() > 0
        invariant
            infos@.len() + taken@.len() == total,
            total == all.len(),
            total <= usize::MAX,
            views(infos@) =~= all.take(infos@.len() as int),
            forall|j: int|
                0 <= j < taken@.len() ==> (#[trigger] taken@[j])@ == all[total - 1 - j],
        decreases infos.len(),
    {
        let ghost left = views(infos@);
        let last = infos.pop().unwrap();
        assert(last@ == left[left.len() - 1]);
        taken.push(last);
    }
    assert(views(in_order@) =~= ranked(all.take(0)));
    let mut done: usize = 0;
    while taken.len() > 0
        invariant
            done + taken@.len() == total,
            total == all.len(),
            total <= usize::MAX,
            forall|j: int|
                0 <= j < taken@.len() ==> (#[trigger] taken@[j])@ == all[total - 1 - j],
            views(in_order@) =~= ranked(all.take(done as int)),
        decreases taken.len(),
    {
        let next = taken.pop().unwrap();
        proof {
            assert(next@ == all[done as int]);
            assert(all.take(done + 1).drop_last() =~= all.take(done as int));
            assert(all.take(done + 1).last() == next@);
        }
        let place = find_rank(&in_order, &next);
        let ghost before = views(in_order@);
        in_order.insert(place, next);
        assert(views(in_order@) =~= before.insert(place as int, next@));
        done += 1;
    }
    assert(all.take(done as int) =~= all);
    in_order
}

/// Appends `text`, and blanks behind it up to `width` characters.
fn push_left_aligned(out: &mut String, text: &str, width: usize)
    ensures
        final(out)@ == old(out)@ + left_aligned(text@, width as nat),
{
    out.append(text);
    let len = text.unicode_len();
    let mut i: usize = len;
    while i < width
        invariant
            len == text@.len(),
            len <= i,
            i <= width || i == len,
            out@ =~= old(out)@ + text@ + Seq::new((i - len) as nat, |j: int| ' '),
        decreases width - i,
    {
        push_char(out, ' ');
        i += 1;
    }
    assert(out@ =~= old(out)@ + left_aligned(text@, width as nat));
}

/// Writes the answer to the command that shows the balances.
pub fn format_balances(infos: Vec<BalanceInfo>) -> (text: String)
    ensures
        text@ == balances_text(views(infos@)),
{
    let ghost all = views(infos@);
    let mut max_name_width: usize = 0;
    let mut max_coin_width: usize = 0;
    let mut i: usize = 0;
    assert(all.take(0) =~= Seq::<BalanceInfoView>::empty());
    while i < infos.len()
        invariant
            i <= infos.len(),
            all == views(infos@),
            max_name_width == name_width(all.take(i as int)),
            max_coin_width == coin_width(all.take(i as int)),
        decreases infos.len() - i,
    {
        proof {
            assert(all.take(i + 1).drop_last() =~= all.take(i as int));
            assert(all.take(i + 1).last() == infos@[i as int]@);
        }
        let name_len = infos[i].name.as_str().len();
        if name_len > max_name_width {
            max_name_width = name_len;
        }
        let coin_len = infos[i].balance.to_string().as_str().len();
        if coin_len > max_coin_width {
            max_coin_width = coin_len;
        }
        i += 1;
    }
    assert(all.take(i as int) =~= all);
    let in_order = rank(infos);
    let ghost rows = views(in_order@);
    let mut text = String::from_str("Current UGOcoin balances:\n\n```");
    let ghost opening = text@;
    let mut k: usize = 0;
    assert(rows.take(0) =~= Seq::<BalanceInfoView>::empty());
    while k < in_order.len()
        invariant
            k <= in_order.len(),
            rows == views(in_order@),
            text@ =~= opening + balance_lines(
                rows.take(k as int),
                max_name_width as nat,
                max_coin_width as nat,
            ),
        decreases in_order.len() - k,
    {
        proof {
            assert(rows.take(k + 1).drop_last() =~= rows.take(k as int));
            assert(rows.take(k + 1).last() == in_order@[k as int]@);
        }
        let ghost so_far = text@;
        push_left_aligned(&mut text, in_order[k].name.as_str(), max_name_width);
        text.append(" | ");
        let coins = in_order[k].balance.to_string();
        push_left_aligned(&mut text, coins.as_str(), max_coin_width);
        text.append(" | (scrum streak ");
        push_signed_decimal(&mut text, in_order[k].streak);
        text.append(")\n");
        assert(text@ =~= so_far + balance_line(
            in_order@[k as int]@,
            max_name_width as nat,
            max_coin_width as nat,
        ));
        k += 1;
    }
    assert(rows.take(k as int) =~= rows);
    text.append("```");
    text
}

/// Answers the command `name`, given by the chat identity `discord_id`.
pub fn run_command(db: &Storage, name: &str, discord_id: u64) -> (res: Result<String, Error>)
    ensures
        match res {
            Ok(answer) => run_command_spec(db@, name@, discord_id) == Ok::<Seq<char>, ErrorKind>(
                answer@,
            ),
            Err(err) => run_command_spec(db@, name@, discord_id) == Err::<Seq<char>, ErrorKind>(
                err.error.kind(),
            ),
        },
{
    match Command::from_name(name) {
        Some(Command::Test) => {
            let user = match get_user(db, discord_id).with_context("Fetching command user") {
                Ok(user) => user,
                Err(err) => {
                    return Err(err);
                },
            };
            let mut content = String::from_str("Hello ");
            content.append(user.display_name.as_str());
            Ok(content)
        },
        Some(Command::Balance) => {
            let infos = match gather_balance_infos(db) {
                Ok(infos) => infos,
                Err(err) => {
                    return Err(err);
                },
            };
            Ok(format_balances(infos))
        },
        None => Err(Error::new(InnerError::CommandNotFound(String::from_str(name)))),
    }
}

/// The place of a line among lines that are in order lies behind every
/// higher balance and before every balance that is not higher.
pub proof fn lemma_rank_of(ranked: Seq<BalanceInfoView>, info: BalanceInfoView)
    requires
        forall|i: int, j: int|
            0 <= i < j < ranked.len() ==> (#[trigger] ranked[i]).balance >= (
            #[trigger] ranked[j]).balance,
    ensures
        0 <= rank_of(ranked, info) <= ranked.len(),
        forall|i: int|
            0 <= i < rank_of(ranked, info) ==> (#[trigger] ranked[i]).balance > info.balance,
        forall|i: int|
            rank_of(ranked, info) <= i < ranked.len() ==> (#[trigger] ranked[i]).balance
                <= info.balance,
    decreases ranked.len(),
{
    if ranked.len() > 0 {
        if ranked[0].balance <= info.balance {
            assert forall|i: int| 0 <= i < ranked.len() implies (#[trigger] ranked[i]).balance
                <= info.balance by {
                if i > 0 {
                    assert(ranked[0].balance >= ranked[i].balance);
                }
            }
        } else {
            let rest = ranked.drop_first();
            assert forall|i: int, j: int| 0 <= i < j < rest.len() implies (
            #[trigger] rest[i]).balance >= (#[trigger] rest[j]).balance by {
                assert(rest[i] == ranked[i + 1] && rest[j] == ranked[j + 1]);
            }
            lemma_rank_of(rest, info);
            let place = rank_of(ranked, info);
            assert forall|i: int| 0 <= i < place implies (#[trigger] ranked[i]).balance
                > info.balance by {
                if i > 0 {
                    assert(rest[i - 1] == ranked[i]);
                }
            }
            assert forall|i: int| place <= i < ranked.len() implies (#[trigger] ranked[i]).balance
                <= info.balance by {
                assert(rest[i - 1] == ranked[i]);
            }
        }
    }
}

/// The table shows every line once, the highest balance first.
pub proof fn lemma_ranked_in_order(infos: Seq<BalanceInfoView>)
    ensures
        ranked(infos).to_multiset() == infos.to_multiset(),
        ranked(infos).len() == infos.len(),
        forall|i: int, j: int|
            0 <= i < j < ranked(infos).len() ==> (#[trigger] ranked(infos)[i]).balance >= (
            #[trigger] ranked(infos)[j]).balance,
    decreases infos.len(),
{
    if infos.len() == 0 {
        assert(ranked(infos) =~= infos);
    } else {
        let front = infos.drop_last();
        let before = ranked(front);
        let last = infos.last();
        let place = rank_of(before, last);
        lemma_ranked_in_order(front);
        lemma_rank_of(before, last);
        vstd::seq_lib::to_multiset_insert(before, place, last);
        vstd::seq_lib::to_multiset_build(front, last);
        assert(front.push(last) =~= infos);
        let after = ranked(infos);
        assert forall|i: int, j: int| 0 <= i < j < after.len() implies (
        #[trigger] after[i]).balance >= (#[trigger] after[j]).balance by {
            if j < place {
                assert(after[i] == before[i] && after[j] == before[j]);
            } else if j == place {
                assert(after[i] == before[i]);
            } else if i < place {
                assert(after[i] == before[i] && after[j] == before[j - 1]);
                assert(before[i].balance > last.balance);
                assert(before[j - 1].balance <= last.balance);
            } else if i == place {
                assert(after[j] == before[j - 1]);
            } else {
                assert(after[i] == before[i - 1] && after[j] == before[j - 1]);
            }
        }
    }
}

} // verus!
