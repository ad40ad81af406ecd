//! Which stored month reports an expense mutation makes stale: the months a command
//! touches, drawn from the months the ledger already knows, in calendar order.
use vstd::prelude::*;

use crate::calendar::{date_before, date_lt, first_of_month, lemma_date_total, representable, CivilDate};
use crate::error::Error;
use crate::expense_commands::ExpenseMutationCommand;
use crate::expense_types::NormalizedExpenseRow;
use crate::recurring::{month_start, occurrence_key_parts, parse_occurrence_key, parsed_month_start};

verus! {

/// Months strictly increase along the list: each appears once, in calendar order.
pub open spec fn months_ordered(s: Seq<CivilDate>) -> bool {
    forall|i: int, j: int| 0 <= i < j < s.len() ==> date_before(#[trigger] s[i], #[trigger] s[j])
}

/// Adds a month to an ordered list of distinct months.
pub fn insert_month(months: &mut Vec<CivilDate>, m: CivilDate)
    requires
        months_ordered(old(months)@),
    ensures
        months_ordered(final(months)@),
        final(months)@.to_set() == old(months)@.to_set().insert(m),
{
    let ghost s = months@;
    let mut p: usize = 0;
    while p < months.len() && date_lt(months[p], m)
        invariant
            0 <= p <= months@.len(),
            s == months@,
            months_ordered(s),
            forall|j: int| 0 <= j < p ==> date_before(#[trigger] s[j], m),
        decreases months@.len() - p,
    {
        p = p + 1;
    }
    if p < months.len() && months[p] == m {
        proof {
            assert(s[p as int] == m);
            assert(s.contains(m));
            assert(months@.to_set() =~= s.to_set().insert(m));
        }
        return;
    }
    proof {
        if p < s.len() {
            lemma_date_total(s[p as int], m);
            assert(date_before(m, s[p as int]));
        }
    }
    months.insert(p, m);
    proof {
        let n = s.insert(p as int, m);
        assert(months@ =~= n);
        assert forall|a: int, b: int| 0 <= a < b < n.len() implies date_before(#[trigger] n[a], #[trigger] n[b]) by {
            if a < p && b < p {
                assert(n[a] == s[a] && n[b] == s[b]);
            } else if a < p && b == p {
                assert(n[a] == s[a]);
            } else if a < p && b > p {
                assert(n[a] == s[a] && n[b] == s[b - 1]);
                crate::calendar::lemma_date_transitive(s[a], m, s[b - 1]);
            } else if a == p {
                assert(n[b] == s[b - 1]);
                if b - 1 > p {
                    crate::calendar::lemma_date_transitive(m, s[p as int], s[b - 1]);
                }
            } else {
                assert(n[a] == s[a - 1] && n[b] == s[b - 1]);
            }
        }
        assert forall|x: CivilDate| n.to_set().contains(x) <==> s.to_set().insert(m).contains(x) by {
            if n.contains(x) {
                let k = choose|k: int| 0 <= k < n.len() && n[k] == x;
                if k < p {
                    assert(s[k] == x);
                } else if k > p {
                    assert(s[k - 1] == x);
                }
            }
            if s.contains(x) {
                let k = choose|k: int| 0 <= k < s.len() && s[k] == x;
                if k < p {
                    assert(n[k] == x);
                } else {
                    assert(n[k + 1] == x);
                }
            }
            if x == m {
                assert(n[p as int] == m);
            }
        }
        assert(n.to_set() =~= s.to_set().insert(m));
    }
}

/// The known months on or after `from` (and, when given, not after `to`).
pub open spec fn known_between(known: Seq<CivilDate>, from: CivilDate, to: Option<CivilDate>) -> Set<CivilDate> {
    known.to_set().filter(
        |m: CivilDate|
            !date_before(m, from) && match to {
                Some(t) => !date_before(t, m),
                None => true,
            },
    )
}

/// The months an import's rows were posted in.
pub open spec fn row_months(rows: Seq<NormalizedExpenseRow>) -> Set<CivilDate> {
    Set::new(|m: CivilDate| exists|i: int| 0 <= i < rows.len() && first_of_month(#[trigger] rows[i].posted_date) == m)
}

/// The month a valid occurrence key names.
pub open spec fn key_month(key: Seq<char>) -> CivilDate {
    let parts = occurrence_key_parts(key)->0;
    parsed_month_start(parts.1)->0
}

/// Whether an occurrence key reads back.
pub open spec fn key_reads(key: Seq<char>) -> bool {
    occurrence_key_parts(key) matches Some(p) && parsed_month_start(p.1) is Some
}

/// Whether working out a command's months fails: a date whose month cannot be
/// represented, or an occurrence key that does not read back.
pub open spec fn refresh_fails(command: ExpenseMutationCommand) -> bool {
    match command {
        ExpenseMutationCommand::Import { input, .. } => (exists|i: int|
            0 <= i < input.rows@.len() && !representable(first_of_month(#[trigger] input.rows@[i].posted_date)))
            || !representable(first_of_month(input.coverage_start)) || !representable(
            first_of_month(input.coverage_end),
        ),
        ExpenseMutationCommand::CreateRecurring(input) => !representable(first_of_month(input.start_date)),
        ExpenseMutationCommand::ConfirmRecurringPaid { occurrence_key, input } => !key_reads(occurrence_key@)
            || (input.paid_date matches Some(d) && !representable(first_of_month(d))),
        ExpenseMutationCommand::MatchRecurring { occurrence_key, .. } => !key_reads(occurrence_key@),
        _ => false,
    }
}

/// The month reports a command makes stale, given the months the ledger knows and the
/// first day of the current month.
pub open spec fn refresh_months(
    command: ExpenseMutationCommand,
    known: Seq<CivilDate>,
    current_month: CivilDate,
) -> Set<CivilDate> {
    match command {
        ExpenseMutationCommand::Import { input, .. } => row_months(input.rows@).union(
            known_between(known, first_of_month(input.coverage_start), Some(first_of_month(input.coverage_end))),
        ),
        ExpenseMutationCommand::UpdateSource { .. } => known.to_set(),
        ExpenseMutationCommand::ResolveReview { .. } => known.to_set(),
        ExpenseMutationCommand::OverrideTransaction { .. } => known.to_set(),
        ExpenseMutationCommand::CreateRecurring(input) => known_between(known, first_of_month(input.start_date), None),
        ExpenseMutationCommand::UpdateRecurring { input, .. } => known_between(known, input.effective_from_month, None),
        ExpenseMutationCommand::DeleteRecurring { .. } => known_between(known, current_month, None),
        ExpenseMutationCommand::ConfirmRecurringPaid { occurrence_key, input } => match input.paid_date {
            Some(d) => set![key_month(occurrence_key@), first_of_month(d)],
            None => set![key_month(occurrence_key@)],
        },
        ExpenseMutationCommand::MatchRecurring { occurrence_key, .. } => known.to_set().insert(key_month(occurrence_key@)),
        _ => Set::empty(),
    }
}

/// Adds the known months within a range.
fn add_known(months: &mut Vec<CivilDate>, known: &Vec<CivilDate>, from: CivilDate, to: Option<CivilDate>)
    requires
        months_ordered(old(months)@),
    ensures
        months_ordered(final(months)@),
        final(months)@.to_set() == old(months)@.to_set().union(known_between(known@, from, to)),
{
    let ghost start = months@.to_set();
    let mut i: usize = 0;
    while i < known.len()
        invariant
            0 <= i <= known@.len(),
            months_ordered(months@),
            months@.to_set() == start.union(known_between(known@.subrange(0, i as int), from, to)),
        decreases known@.len() - i,
    {
        let m = known[i];
        let within = !date_lt(m, from) && match to {
            Some(t) => !date_lt(t, m),
            None => true,
        };
        let ghost before = months@.to_set();
        if within {
            insert_month(months, m);
        }
        i = i + 1;
        proof {
            let prefix = known@.subrange(0, i as int);
            assert(prefix =~= known@.subrange(0, i - 1).push(m));
            known@.subrange(0, i - 1).lemma_push_to_set_commute(m);
            assert(known_between(prefix, from, to) =~= if within {
                known_between(known@.subrange(0, i - 1), from, to).insert(m)
            } else {
                known_between(known@.subrange(0, i - 1), from, to)
            });
            assert(months@.to_set() =~= start.union(known_between(prefix, from, to)));
        }
    }
    assert(known@.subrange(0, known@.len() as int) =~= known@);
}

/// The month reports a command makes stale, in calendar order. `known` holds the
/// months the ledger knows; `current_month` is the first day of the current month.
pub fn months_to_refresh(command: &ExpenseMutationCommand, known: &Vec<CivilDate>, current_month: CivilDate) -> (r:
    Result<Vec<CivilDate>, Error>)
    ensures
        r is Err <==> refresh_fails(*command),
        r matches Ok(v) ==> months_ordered(v@) && v@.to_set() == refresh_months(*command, known@, current_month),
{
    let mut months: Vec<CivilDate> = Vec::new();
    assert(months@.to_set() =~= Set::<CivilDate>::empty());
    match command {
        ExpenseMutationCommand::Import { input, .. } => {
            let mut i: usize = 0;
            while i < input.rows.len()
                invariant
                    0 <= i <= input.rows@.len(),
                    months_ordered(months@),
                    forall|k: int| 0 <= k < i ==> representable(first_of_month(#[trigger] input.rows@[k].posted_date)),
                    forall|k: int|
                        0 <= k < input.rows@.len() && !representable(first_of_month(#[trigger] input.rows@[k].posted_date))
                            ==> refresh_fails(*command),
                    months@.to_set() == row_months(input.rows@.subrange(0, i as int)),
                decreases input.rows@.len() - i,
            {
                let m = match month_start(input.rows[i].posted_date) {
                    Ok(m) => m,
                    Err(e) => {
                        assert(!representable(first_of_month(input.rows@[i as int].posted_date)));
                        return Err(e);
                    },
                };
                insert_month(&mut months, m);
                i = i + 1;
                proof {
                    let prefix = input.rows@.subrange(0, i as int);
                    assert forall|x: CivilDate| row_months(prefix).contains(x) <==> row_months(
                        input.rows@.subrange(0, i - 1),
                    ).insert(m).contains(x) by {
                        if row_months(prefix).contains(x) {
                            let k = choose|k: int| 0 <= k < prefix.len() && first_of_month(#[trigger] prefix[k].posted_date) == x;
                            if k < i - 1 {
                                assert(input.rows@.subrange(0, i - 1)[k] == prefix[k]);
                            }
                        }
                        if row_months(input.rows@.subrange(0, i - 1)).contains(x) {
                            let k = choose|k: int| 0 <= k < i - 1 && first_of_month(#[trigger] input.rows@.subrange(0, i - 1)[k].posted_date) == x;
                            assert(prefix[k] == input.rows@.subrange(0, i - 1)[k]);
                        }
                        if x == m {
                            assert(prefix[i - 1] == input.rows@[i - 1]);
                        }
                    }
                    assert(row_months(prefix) =~= row_months(input.rows@.subrange(0, i - 1)).insert(m));
                }
            }
            assert(input.rows@.subrange(0, input.rows@.len() as int) =~= input.rows@);
            let from = month_start(input.coverage_start)?;
            let to = month_start(input.coverage_end)?;
            add_known(&mut months, known, from, Some(to));
        },
        ExpenseMutationCommand::UpdateSource { .. } | ExpenseMutationCommand::ResolveReview { .. }
        | ExpenseMutationCommand::OverrideTransaction { .. } => {
            let mut i: usize = 0;
            while i < known.len()
                invariant
                    0 <= i <= known@.len(),
                    months_ordered(months@),
                    months@.to_set() == known@.subrange(0, i as int).to_set(),
                decreases known@.len() - i,
            {
                insert_month(&mut months, known[i]);
                i = i + 1;
                assert(known@.subrange(0, i as int) =~= known@.subrange(0, i - 1).push(known@[i - 1]));
                proof {
                    known@.subrange(0, i - 1).lemma_push_to_set_commute(known@[i - 1]);
                }
            }
            assert(known@.subrange(0, known@.len() as int) =~= known@);
        },
        ExpenseMutationCommand::CreateRecurring(input) => {
            let from = month_start(input.start_date)?;
            add_known(&mut months, known, from, None);
            assert(months@.to_set() =~= known_between(known@, first_of_month(input.start_date), None));
        },
        ExpenseMutationCommand::UpdateRecurring { input, .. } => {
            add_known(&mut months, known, input.effective_from_month, None);
            assert(months@.to_set() =~= known_between(known@, input.effective_from_month, None));
        },
        ExpenseMutationCommand::DeleteRecurring { .. } => {
            add_known(&mut months, known, current_month, None);
            assert(months@.to_set() =~= known_between(known@, current_month, None));
        },
        ExpenseMutationCommand::ConfirmRecurringPaid { occurrence_key, input } => {
            let (_, month) = parse_occurrence_key(occurrence_key.as_str())?;
            insert_month(&mut months, month);
            if let Some(paid) = input.paid_date {
                let m = month_start(paid)?;
                insert_month(&mut months, m);
                assert(months@.to_set() =~= set![month, m]);
            } else {
                assert(months@.to_set() =~= set![month]);
            }
        },
        ExpenseMutationCommand::MatchRecurring { occurrence_key, .. } => {
            let (_, month) = parse_occurrence_key(occurrence_key.as_str())?;
            insert_month(&mut months, month);
            let mut i: usize = 0;
            while i < known.len()
                invariant
                    0 <= i <= known@.len(),
                    months_ordered(months@),
                    months@.to_set() == known@.subrange(0, i as int).to_set().insert(month),
                decreases known@.len() - i,
            {
                insert_month(&mut months, known[i]);
                i = i + 1;
                assert(known@.subrange(0, i as int) =~= known@.subrange(0, i - 1).push(known@[i - 1]));
                proof {
                    known@.subrange(0, i - 1).lemma_push_to_set_commute(known@[i - 1]);
                }
                assert(months@.to_set() =~= known@.subrange(0, i as int).to_set().insert(month));
            }
            assert(known@.subrange(0, known@.len() as int) =~= known@);
        },
        _ => {},
    }
    Ok(months)
}

} // verus!
