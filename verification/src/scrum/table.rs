//! The scrums table.

use vstd::prelude::*;

use crate::datetime::LocalDateTime;
use crate::error::Error;
use crate::error::ErrorKind;
use crate::error::database_error;
use crate::error::failure;
use crate::model::lemma_views_push;
use crate::model::views;
use crate::scrum::Scrum;
use crate::scrum::ScrumView;
use crate::scrum::date_to_scrum_db_format;
use crate::storage::Storage;
use crate::storage::StorageView;
use crate::text::decimal;
use crate::text::push_decimal;

verus! {

/// A scrum of the day whose text is `date`.
pub open spec fn on_date(date: Seq<char>) -> spec_fn(ScrumView) -> bool {
    |scrum: ScrumView| scrum.scrum_date == date
}

/// A scrum whose poll is the message whose id reads `message_id`.
pub open spec fn of_message(message_id: Seq<char>) -> spec_fn(ScrumView) -> bool {
    |scrum: ScrumView| scrum.message_id == message_id
}

/// Whether `k` is the first row of `scrums` that is `wanted`.
pub open spec fn is_scrum_at(scrums: Seq<ScrumView>, wanted: spec_fn(ScrumView) -> bool, k: int) -> bool {
    &&& 0 <= k < scrums.len()
    &&& wanted(scrums[k])
    &&& forall|j: int| 0 <= j < k ==> !wanted(#[trigger] scrums[j])
}

/// The first row of `scrums` that is `wanted`, if there is one.
pub open spec fn find_scrum(scrums: Seq<ScrumView>, wanted: spec_fn(ScrumView) -> bool) -> Option<
    ScrumView,
> {
    if exists|k: int| is_scrum_at(scrums, wanted, k) {
        Some(scrums[choose|k: int| is_scrum_at(scrums, wanted, k)])
    } else {
        None
    }
}

/// The scrums table with every scrum of the id `id` closed.
pub open spec fn closed(scrums: Seq<ScrumView>, id: int) -> Seq<ScrumView> {
    Seq::new(
        scrums.len(),
        |i: int|
            if scrums[i].id == id {
                ScrumView { is_open: false, ..scrums[i] }
            } else {
                scrums[i]
            },
    )
}

/// The store after [`create_scrum_row`], and the kind of failure if it
/// failed. A day has one scrum at most: a second row for a day is refused.
pub open spec fn create_scrum_row_spec(db: StorageView, date: Seq<char>, message_id: u64) -> (
    StorageView,
    Option<ErrorKind>,
) {
    if find_scrum(db.scrums, on_date(date)) is Some || db.scrums.len() >= i64::MAX {
        (db, Some(ErrorKind::Database))
    } else {
        (
            StorageView {
                scrums: db.scrums.push(
                    ScrumView {
                        id: db.scrums.len() as int + 1,
                        is_open: true,
                        scrum_date: date,
                        message_id: decimal(message_id as nat),
                    },
                ),
                ..db
            },
            None,
        )
    }
}

fn first_scrum(scrums: &Vec<Scrum>, by_date: bool, text: &String) -> (found: Option<usize>)
    ensures
        match found {
            Some(k) => k < scrums@.len() && find_scrum(
                views(scrums@),
                if by_date {
                    on_date(text@)
                } else {
                    of_message(text@)
                },
            ) == Some(scrums@[k as int]@),
            None => find_scrum(
                views(scrums@),
                if by_date {
                    on_date(text@)
                } else {
                    of_message(text@)
                },
            ) is None,
        },
{
    let ghost rows = views(scrums@);
    let ghost wanted = if by_date {
        on_date(text@)
    } else {
        of_message(text@)
    };
    let mut k: usize = 0;
    while k < scrums.len()
        invariant
            k <= scrums.len(),
            rows == views(scrums@),
            wanted == (if by_date {
                on_date(text@)
            } else {
                of_message(text@)
            }),
            forall|j: int| 0 <= j < k ==> !wanted(#[trigger] rows[j]),
        decreases scrums.len() - k,
    {
        proof {
            assert(rows[k as int] == scrums@[k as int]@);
        }
        let same = if by_date {
            scrums[k].scrum_date == *text
        } else {
            scrums[k].message_id == *text
        };
        if same {
            proof {
                assert(is_scrum_at(rows, wanted, k as int));
                let c = choose|c: int| is_scrum_at(rows, wanted, c);
                assert(wanted(rows[c]));
                assert(c == k);
            }
            return Some(k);
        }
        k += 1;
    }
    proof {
        assert forall|c: int| !is_scrum_at(rows, wanted, c) by {
            if 0 <= c < rows.len() {
                assert(!wanted(rows[c]));
            }
        }
    }
    None
}

/// Writes the row of a new, open scrum for the day of `datetime`, whose poll
/// is the message `message_id`.
pub fn create_scrum_row(db: &mut Storage, datetime: &LocalDateTime, message_id: u64) -> (res: Result<
    (),
    Error,
>)
    requires
        datetime.date.is_valid(),
    ensures
        (final(db)@, failure(res)) == create_scrum_row_spec(
            old(db)@,
            datetime.date.text(),
            message_id,
        ),
        res is Err ==> *final(db) == *old(db),
        final(db).users == old(db).users,
        final(db).users_discord_ids == old(db).users_discord_ids,
        final(db).scrum_responses == old(db).scrum_responses,
        final(db).ugocoin_accounts == old(db).ugocoin_accounts,
        final(db).ugocoin_tx_logs == old(db).ugocoin_tx_logs,
{
    let date_str = date_to_scrum_db_format(datetime);
    let mut message_str = String::new();
    push_decimal(&mut message_str, message_id);
    assert(message_str@ =~= decimal(message_id as nat));
    if first_scrum(&db.scrums, true, &date_str).is_some() {
        return Err(database_error("UNIQUE constraint failed: scrums.scrum_date"));
    }
    let rows = db.scrums.len();
    if rows as u64 >= i64::MAX as u64 {
        return Err(database_error("integer overflow"));
    }
    let row = Scrum {
        id: rows as i64 + 1,
        is_open: true,
        scrum_date: date_str,
        message_id: message_str,
    };
    proof {
        lemma_views_push(db.scrums@, row);
    }
    db.scrums.push(row);
    Ok(())
}

/// The scrum whose poll is the message `message_id`, if there is one.
pub fn get_scrum_from_message(db: &Storage, message_id: u64) -> (res: Result<Option<Scrum>, Error>)
    ensures
        res matches Ok(found) && (match found {
            Some(scrum) => Some(scrum@),
            None => None,
        }) == find_scrum(db@.scrums, of_message(decimal(message_id as nat))),
{
    let mut message_str = String::new();
    push_decimal(&mut message_str, message_id);
    assert(message_str@ =~= decimal(message_id as nat));
    match first_scrum(&db.scrums, false, &message_str) {
        Some(k) => Ok(Some(db.scrums[k].clone())),
        None => Ok(None),
    }
}

/// The scrum of the day of `datetime`, if there is one.
pub fn get_scrum_for_date(db: &Storage, datetime: &LocalDateTime) -> (res: Result<
    Option<Scrum>,
    Error,
>)
    requires
        datetime.date.is_valid(),
    ensures
        res matches Ok(found) && (match found {
            Some(scrum) => Some(scrum@),
            None => None,
        }) == find_scrum(db@.scrums, on_date(datetime.date.text())),
{
    let date_str = date_to_scrum_db_format(datetime);
    match first_scrum(&db.scrums, true, &date_str) {
        Some(k) => Ok(Some(db.scrums[k].clone())),
        None => Ok(None),
    }
}

/// Closes every scrum of the id `id`. A closed scrum stays closed.
pub(crate) fn mark_closed(db: &mut Storage, id: i64)
    ensures
        final(db)@ == (StorageView { scrums: closed(old(db)@.scrums, id as int), ..old(db)@ }),
        final(db).users == old(db).users,
        final(db).users_discord_ids == old(db).users_discord_ids,
        final(db).scrum_responses == old(db).scrum_responses,
        final(db).ugocoin_accounts == old(db).ugocoin_accounts,
        final(db).ugocoin_tx_logs == old(db).ugocoin_tx_logs,
{
    let mut i: usize = 0;
    while i < db.scrums.len()
        invariant
            i <= db.scrums.len(),
            db.scrums@.len() == old(db).scrums@.len(),
            db.users == old(db).users,
            db.users_discord_ids == old(db).users_discord_ids,
            db.scrum_responses == old(db).scrum_responses,
            db.ugocoin_accounts == old(db).ugocoin_accounts,
            db.ugocoin_tx_logs == old(db).ugocoin_tx_logs,
            forall|j: int|
                #![trigger db.scrums@[j]]
                i <= j < db.scrums@.len() ==> db.scrums@[j] == old(db).scrums@[j],
            forall|j: int|
                #![trigger db.scrums@[j]]
                0 <= j < i ==> db.scrums@[j]@ == closed(views(old(db).scrums@), id as int)[j],
        decreases db.scrums.len() - i,
    {
        proof {
            assert(views(old(db).scrums@)[i as int] == old(db).scrums@[i as int]@);
        }
        if db.scrums[i].id == id {
            let row = Scrum {
                id: db.scrums[i].id,
                is_open: false,
                scrum_date: db.scrums[i].scrum_date.clone(),
                message_id: db.scrums[i].message_id.clone(),
            };
            db.scrums.set(i, row);
        }
        i += 1;
    }
    assert(db@.scrums =~= closed(old(db)@.scrums, id as int));
}

} // verus!
