//! Laws of how a row shares its columns.

use crate::sidebar::budget;
use crate::sidebar::budget::{RowTotals, RowWidths};
use vstd::prelude::*;

verus! {

/// There is a width for each token and for each pair of tokens.
pub open spec fn is_complete(row: RowWidths) -> bool {
    &&& row.flexible@.len() == row.fixed@.len()
    &&& row.gap@.len() == row.fixed@.len()
    &&& forall|i: int|
        0 <= i < row.gap@.len() ==> (#[trigger] row.gap@[i])@.len() == row.fixed@.len()
}

proof fn lemma_complete(row: RowWidths)
    requires
        is_complete(row),
    ensures
        row.wf(),
        row@.fixed.len() == row.fixed@.len(),
        row@.flexible.len() == row.fixed@.len(),
        forall|i: int| 0 <= i < row.fixed@.len() ==> #[trigger] row@.fixed[i] == row.fixed@[i],
        forall|i: int|
            0 <= i < row.fixed@.len() ==> #[trigger] row@.flexible[i] == row.flexible@[i],
        forall|i: int, j: int|
            0 <= i < row.fixed@.len() && 0 <= j < row.fixed@.len() ==> #[trigger] row@.gap[i][j]
                == row.gap@[i]@[j],
{
    assert forall|i: int| 0 <= i < row@.gap.len() implies (#[trigger] row@.gap[i]).len()
        == row@.fixed.len() by {
        assert(row.gap@[i]@.len() == row.fixed@.len());
    }
    assert forall|i: int, j: int|
        0 <= i < row.fixed@.len() && 0 <= j < row.fixed@.len() implies #[trigger] row@.gap[i][j]
        == row.gap@[i]@[j] by {
        assert(row.gap@[i]@.len() == row.fixed@.len());
    }
}

/// Any row with all its widths can be measured and shared.
pub proof fn complete_rows_are_accepted(row: RowWidths, active: Vec<bool>, max_width: usize)
    requires
        is_complete(row),
        active@.len() == row.fixed@.len(),
    ensures
        call_requires(RowWidths::totals, (&row, &active)),
        call_requires(RowWidths::fits, (&row, &active, max_width)),
        call_requires(RowWidths::active_tokens, (&row, max_width)),
        call_requires(RowWidths::text_budgets, (&row, &active, max_width)),
{
    lemma_complete(row);
}

/// Token `p` is the last shown one before token `i`; -1 stands for none.
pub open spec fn is_previous(active: Seq<bool>, p: int, i: int) -> bool {
    &&& -1 <= p < i
    &&& p >= 0 ==> active[p]
    &&& forall|k: int| p < k < i ==> !#[trigger] active[k]
}

proof fn lemma_visible_grows(active: Seq<bool>, i: int)
    requires
        0 <= i < active.len(),
        forall|k: int| i <= k < active.len() ==> !#[trigger] active[k],
    ensures
        budget::visible(active.update(i, true)) == budget::visible(active).push(i),
    decreases active.len(),
{
    let after = active.update(i, true);
    let rest = active.drop_last();
    assert(!active[active.len() - 1]);
    if i == active.len() - 1 {
        assert(after.drop_last() =~= rest);
    } else {
        assert(after.drop_last() =~= rest.update(i, true));
        lemma_visible_grows(rest, i);
    }
}

proof fn lemma_last_visible(active: Seq<bool>, p: int, i: int)
    requires
        0 <= i <= active.len(),
        is_previous(active, p, i),
        forall|k: int| i <= k < active.len() ==> !#[trigger] active[k],
    ensures
        p == -1 ==> budget::visible(active).len() == 0,
        p >= 0 ==> budget::visible(active).len() > 0 && budget::visible(active).last() == p,
{
    budget::lemma_visible(active);
    let shown = budget::visible(active);
    if shown.len() > 0 {
        let last = shown[shown.len() - 1];
        assert(active[last]);
    }
    if p >= 0 {
        assert(shown.contains(p));
        let k = choose|k: int| 0 <= k < shown.len() && shown[k] == p;
        assert(shown[k] <= shown[shown.len() - 1]);
    }
}

/// Tokens that are not shown take nothing.
pub proof fn hidden_tokens_take_nothing(row: RowWidths, active: Vec<bool>, totals: RowTotals)
    requires
        call_ensures(RowWidths::totals, (&row, &active), totals),
        forall|k: int| 0 <= k < active@.len() ==> !#[trigger] active@[k],
    ensures
        totals.fixed == Some(0u128),
        totals.gaps == Some(0u128),
        totals.texts == 0,
{
    lemma_last_visible(active@, -1, active@.len() as int);
}

/// `grown` is `total` and `more` together, or beyond `u128`, as `total` may be.
pub open spec fn grows_by(total: Option<u128>, more: int, grown: Option<u128>) -> bool {
    match total {
        Some(n) => if n + more <= u128::MAX {
            grown == Some((n + more) as u128)
        } else {
            grown is None
        },
        None => grown is None,
    }
}

/// Showing one token more behind the shown ones adds what it takes outside its
/// text, one text if it has any, and the gap to the last shown one before it.
pub proof fn shown_token_takes_its_columns(
    row: RowWidths,
    before: Vec<bool>,
    after: Vec<bool>,
    i: int,
    p: int,
    old_totals: RowTotals,
    new_totals: RowTotals,
)
    requires
        is_complete(row),
        call_ensures(RowWidths::totals, (&row, &before), old_totals),
        call_ensures(RowWidths::totals, (&row, &after), new_totals),
        before@.len() == row.fixed@.len(),
        0 <= i < before@.len(),
        forall|k: int| i <= k < before@.len() ==> !#[trigger] before@[k],
        after@ == before@.update(i, true),
        is_previous(before@, p, i),
    ensures
        grows_by(old_totals.fixed, row.fixed@[i] as int, new_totals.fixed),
        new_totals.texts == old_totals.texts + if row.flexible@[i] > 0 {
            1int
        } else {
            0
        },
        grows_by(
            old_totals.gaps,
            if p >= 0 {
                row.gap@[p]@[i] as int
            } else {
                0
            },
            new_totals.gaps,
        ),
{
    lemma_complete(row);
    lemma_visible_grows(before@, i);
    lemma_last_visible(before@, p, i);
    let shown = budget::visible(before@);
    assert(shown.push(i).drop_last() =~= shown);
    assert(row@.fixed[i] == row.fixed@[i]);
    assert(row@.flexible[i] == row.flexible@[i]);
    if p >= 0 {
        assert(shown.push(i)[shown.len() - 1] == p);
        assert(row@.gap[p][i] == row.gap@[p]@[i]);
    }
}

/// A row fits exactly if its totals, with one column for each text, do.
pub proof fn row_fits_if_its_totals_do(
    row: RowWidths,
    active: Vec<bool>,
    max_width: usize,
    totals: RowTotals,
    fits: bool,
)
    requires
        call_ensures(RowWidths::totals, (&row, &active), totals),
        call_ensures(RowWidths::fits, (&row, &active, max_width), fits),
    ensures
        fits == (totals.fixed is Some && totals.gaps is Some && totals.fixed->0 + totals.gaps->0
            + totals.texts <= max_width),
{
}

/// Each token without a text is shown. A token with a text is shown exactly if all
/// tokens fit, or if it fits beside the tokens without a text and the later tokens
/// that are shown.
pub proof fn tokens_are_shown_where_they_fit(
    row: RowWidths,
    max_width: usize,
    active: Vec<bool>,
    all: Vec<bool>,
    beside: Vec<bool>,
    fits_all: bool,
    fits_beside: bool,
    i: int,
)
    requires
        is_complete(row),
        call_ensures(RowWidths::active_tokens, (&row, max_width), active),
        call_ensures(RowWidths::fits, (&row, &all, max_width), fits_all),
        call_ensures(RowWidths::fits, (&row, &beside, max_width), fits_beside),
        0 <= i < row.fixed@.len(),
        all@.len() == row.fixed@.len(),
        forall|k: int| 0 <= k < all@.len() ==> #[trigger] all@[k],
        beside@.len() == row.fixed@.len(),
        forall|k: int|
            0 <= k < beside@.len() ==> #[trigger] beside@[k] == (k == i || row.flexible@[k] == 0
                || (k > i && active@[k])),
    ensures
        active@.len() == row.fixed@.len(),
        active@[i] == (row.flexible@[i] == 0 || fits_all || fits_beside),
{
    lemma_complete(row);
    let width = max_width as nat;
    assert(row@.flexible[i] == row.flexible@[i]);
    if row.flexible@[i] == 0 {
        budget::tokens_without_text_stay(row@, width, i);
    } else {
        budget::text_stays_where_it_fits(row@, width, i);
        assert(all@ =~= Seq::new(row@.flexible.len(), |k: int| true));
        assert forall|k: int| 0 <= k < beside@.len() implies beside@[k] == budget::beside(
            row@,
            active@,
            i,
        )[k] by {
            assert(row@.flexible[k] == row.flexible@[k]);
        }
        assert(beside@ =~= budget::beside(row@, active@, i));
    }
}

/// The sum of the columns.
pub open spec fn total(columns: Seq<usize>) -> int
    decreases columns.len(),
{
    if columns.len() == 0 {
        0
    } else {
        total(columns.drop_last()) + columns.last()
    }
}

/// The two sums are one.
pub proof fn lemma_total(columns: Seq<usize>)
    ensures
        total(columns) == budget::sum(budget::nats(columns)),
    decreases columns.len(),
{
    if columns.len() > 0 {
        lemma_total(columns.drop_last());
        assert(budget::nats(columns).drop_last() =~= budget::nats(columns.drop_last()));
    }
}

/// `budgets` shares columns evenly: a hidden token gets none, a shown text at least
/// one and no more than its width, and no text that could use more is behind
/// another by more than one column, nor behind a later one at all.
pub open spec fn is_even(flexible: Seq<nat>, active: Seq<bool>, budgets: Seq<usize>) -> bool {
    &&& budgets.len() == active.len()
    &&& forall|i: int|
        0 <= i < active.len() ==> {
            &&& !active[i] ==> #[trigger] budgets[i] == 0
            &&& budgets[i] <= flexible[i]
            &&& active[i] && flexible[i] > 0 ==> budgets[i] >= 1
        }
    &&& forall|i: int, j: int|
        0 <= i < active.len() && 0 <= j < active.len() && active[i] && budgets[i] < flexible[i]
            ==> {
            &&& #[trigger] budgets[j] <= #[trigger] budgets[i] + 1
            &&& i < j ==> budgets[j] <= budgets[i]
        }
}

/// Fair shares are even; they use all columns that are spare, as long as some text
/// can use more, and none beyond.
pub proof fn lemma_even(
    flexible: Seq<nat>,
    row: budget::RowSpec,
    active: Seq<bool>,
    spare: nat,
    budgets: Seq<usize>,
)
    requires
        row.flexible == flexible,
        flexible.len() == active.len(),
        budgets.len() == active.len(),
        budget::is_fair_share(budget::capacities(row, active), spare, budget::nats(budgets)),
    ensures
        is_even(flexible, active, budgets),
        total(budgets) <= budget::text_count(row, budget::visible(active)) + spare,
        total(budgets) == budget::text_count(row, budget::visible(active)) + spare || forall|i: int|
            0 <= i < active.len() && active[i] ==> #[trigger] budgets[i] == flexible[i],
        spare == 0 ==> forall|i: int|
            0 <= i < active.len() && active[i] && flexible[i] > 0 ==> #[trigger] budgets[i] == 1,
{
    let capacity = budget::capacities(row, active);
    let shares = budget::nats(budgets);
    let first = budget::levelled(capacity, 1, 0);
    let (level, cut) = choose|level: nat, cut: int|
        level >= 1 && 0 <= cut <= capacity.len() && shares == #[trigger] budget::levelled(
            capacity,
            level,
            cut,
        );
    lemma_total(budgets);
    budget::lemma_first_columns(row, active);
    assert forall|i: int| 0 <= i < active.len() implies {
        &&& #[trigger] budgets[i] == shares[i]
        &&& shares[i] == budget::levelled(capacity, level, cut)[i]
    } by {}
    budget::lemma_sum_order(first, shares);
    budget::lemma_sum_order(shares, capacity);
    budget::lemma_sum_order(first, capacity);
    if total(budgets) != budget::text_count(row, budget::visible(active)) + spare {
        assert(shares =~= capacity);
        assert forall|i: int| 0 <= i < active.len() && active[i] implies #[trigger] budgets[i]
            == flexible[i] by {
            assert(shares[i] == capacity[i]);
        }
    }
    if spare == 0 {
        assert(first =~= shares);
        assert forall|i: int| 0 <= i < active.len() && active[i] && flexible[i] > 0 implies
            #[trigger] budgets[i] == 1 by {
            assert(first[i] == shares[i]);
        }
    }
}

/// The texts share the columns that the rest of the row leaves, evenly and in full:
/// the row is exactly as wide as it may be, or every shown text has its full width.
/// Where there is no room to share, every shown text has one column.
pub proof fn texts_share_what_is_left(
    row: RowWidths,
    active: Vec<bool>,
    max_width: usize,
    totals: RowTotals,
    budgets: Vec<usize>,
)
    requires
        is_complete(row),
        active@.len() == row.fixed@.len(),
        call_ensures(RowWidths::totals, (&row, &active), totals),
        call_ensures(RowWidths::text_budgets, (&row, &active, max_width), budgets),
    ensures
        is_even(budget::nats(row.flexible@), active@, budgets@),
        ({
            let room = totals.fixed is Some && totals.gaps is Some && totals.fixed->0
                + totals.gaps->0 + totals.texts <= max_width;
            let drawn = totals.fixed->0 + totals.gaps->0 + total(budgets@);
            &&& room ==> drawn <= max_width
            &&& room ==> drawn == max_width || forall|i: int|
                0 <= i < active@.len() && active@[i] ==> #[trigger] budgets@[i] == row.flexible@[i]
            &&& !room ==> forall|i: int|
                0 <= i < active@.len() && active@[i] && row.flexible@[i] > 0
                    ==> #[trigger] budgets@[i] == 1
        }),
{
    lemma_complete(row);
    let spare = budget::spare_width(row@, active@, max_width as nat);
    assert(row@.flexible =~= budget::nats(row.flexible@));
    lemma_even(row@.flexible, row@, active@, spare, budgets@);
}

} // verus!
