//! Shares the columns of one sidebar row between its tokens.
//!
//! A token takes some columns whatever happens (an icon, the git counts) or
//! holds a text that can be shortened down to one column. This module decides
//! which tokens stay when the row is too narrow, and how many columns each text
//! gets.

use vstd::prelude::*;

verus! {

/// The widths of a row's tokens, as the contracts speak of them.
#[verifier::ext_equal]
pub struct RowSpec {
    /// Columns that each token takes if it is shown, before any text.
    pub fixed: Seq<nat>,
    /// Columns that the text of each token takes when it is not shortened.
    pub flexible: Seq<nat>,
    /// `gap[i][j]`: columns between token `i` and token `j` when they are
    /// neighbours.
    pub gap: Seq<Seq<nat>>,
}

impl RowSpec {
    pub open spec fn wf(self) -> bool {
        &&& self.flexible.len() == self.fixed.len()
        &&& self.gap.len() == self.fixed.len()
        &&& forall|i: int| 0 <= i < self.gap.len() ==> (#[trigger] self.gap[i]).len() == self.fixed.len()
    }
}

/// The widths of a row's tokens, measured. What a token takes outside its text
/// can be the sum of several measured parts.
pub struct RowWidths {
    pub fixed: Vec<u128>,
    pub flexible: Vec<usize>,
    pub gap: Vec<Vec<usize>>,
}

pub open spec fn nats(s: Seq<usize>) -> Seq<nat> {
    Seq::new(s.len(), |i: int| s[i] as nat)
}

pub open spec fn wide_nats(s: Seq<u128>) -> Seq<nat> {
    Seq::new(s.len(), |i: int| s[i] as nat)
}

impl View for RowWidths {
    type V = RowSpec;

    open spec fn view(&self) -> RowSpec {
        RowSpec {
            fixed: wide_nats(self.fixed@),
            flexible: nats(self.flexible@),
            gap: Seq::new(self.gap@.len(), |i: int| nats(self.gap@[i]@)),
        }
    }
}

/// The positions of the shown tokens, in order.
pub open spec fn visible(active: Seq<bool>) -> Seq<int>
    decreases active.len(),
{
    if active.len() == 0 {
        Seq::empty()
    } else if active.last() {
        visible(active.drop_last()).push(active.len() - 1)
    } else {
        visible(active.drop_last())
    }
}

/// Columns that the tokens at `shown` take outside their texts.
pub open spec fn fixed_total(row: RowSpec, shown: Seq<int>) -> nat
    decreases shown.len(),
{
    if shown.len() == 0 {
        0
    } else {
        fixed_total(row, shown.drop_last()) + row.fixed[shown.last()]
    }
}

/// How many of the tokens at `shown` hold a text.
pub open spec fn text_count(row: RowSpec, shown: Seq<int>) -> nat
    decreases shown.len(),
{
    if shown.len() == 0 {
        0
    } else {
        text_count(row, shown.drop_last()) + if row.flexible[shown.last()] > 0 {
            1nat
        } else {
            0
        }
    }
}

/// Columns between the tokens at `shown`.
pub open spec fn gap_total(row: RowSpec, shown: Seq<int>) -> nat
    decreases shown.len(),
{
    if shown.len() <= 1 {
        0
    } else {
        gap_total(row, shown.drop_last()) + row.gap[shown[shown.len() - 2]][shown.last()]
    }
}

/// Columns that the row needs when every shown text is cut to one column.
pub open spec fn minimum_width(row: RowSpec, active: Seq<bool>) -> nat {
    fixed_total(row, visible(active)) + text_count(row, visible(active)) + gap_total(
        row,
        visible(active),
    )
}

/// Which tokens stay after the texts at positions `from..` were offered back,
/// last one first, to a row that started without any text.
pub open spec fn kept_from(row: RowSpec, max_width: nat, from: int) -> Seq<bool>
    decreases row.flexible.len() - from,
{
    if from < 0 || from >= row.flexible.len() {
        Seq::new(row.flexible.len(), |i: int| row.flexible[i] == 0)
    } else {
        let rest = kept_from(row, max_width, from + 1);
        let tried = rest.update(from, true);
        if row.flexible[from] > 0 && minimum_width(row, tried) <= max_width {
            tried
        } else {
            rest
        }
    }
}

/// Which tokens a row of `max_width` columns shows: all of them if they fit with
/// every text cut to one column; otherwise all tokens without a text, and of the
/// others each one, taken from the last to the first, that still fits.
pub open spec fn active_tokens(row: RowSpec, max_width: nat) -> Seq<bool> {
    let all = Seq::new(row.flexible.len(), |i: int| true);
    if minimum_width(row, all) <= max_width {
        all
    } else {
        kept_from(row, max_width, 0)
    }
}

/// The widest that each text can be drawn: its width if the token is shown.
pub open spec fn capacities(row: RowSpec, active: Seq<bool>) -> Seq<nat> {
    Seq::new(
        row.flexible.len(),
        |i: int|
            if active[i] {
                row.flexible[i]
            } else {
                0
            },
    )
}

pub open spec fn sum(s: Seq<nat>) -> nat
    decreases s.len(),
{
    if s.len() == 0 {
        0
    } else {
        sum(s.drop_last()) + s.last()
    }
}

pub open spec fn at_most(a: nat, b: nat) -> nat {
    if a <= b {
        a
    } else {
        b
    }
}

pub open spec fn minus(a: nat, b: nat) -> nat {
    if a <= b {
        0
    } else {
        (a - b) as nat
    }
}

/// The shares after every text got up to `level` columns and those before
/// position `cut` one more.
pub open spec fn levelled(capacity: Seq<nat>, level: nat, cut: int) -> Seq<nat> {
    Seq::new(
        capacity.len(),
        |i: int|
            at_most(
                capacity[i],
                if i < cut {
                    level + 1
                } else {
                    level
                },
            ),
    )
}

/// `shares` splits `first + spare` columns evenly over the texts, where `first`
/// is one column for each text: no text gets more than it can use, all columns
/// are used while some text can use more, and the texts that can use more differ
/// by at most one column, the earlier ones being ahead.
pub open spec fn is_fair_share(capacity: Seq<nat>, spare: nat, shares: Seq<nat>) -> bool {
    &&& exists|level: nat, cut: int|
        level >= 1 && 0 <= cut <= capacity.len() && shares == #[trigger] levelled(capacity, level, cut)
    &&& sum(shares) == at_most(sum(capacity), sum(levelled(capacity, 1, 0)) + spare)
}

/// Columns left for the texts of the shown tokens once each has one column.
pub open spec fn spare_width(row: RowSpec, active: Seq<bool>, max_width: nat) -> nat {
    minus(
        minus(max_width, gap_total(row, visible(active)) + fixed_total(row, visible(active))),
        text_count(row, visible(active)),
    )
}

/// The positions that `visible` lists are those of the shown tokens, ascending.
pub proof fn lemma_visible(active: Seq<bool>)
    ensures
        visible(active).len() <= active.len(),
        forall|k: int|
            0 <= k < visible(active).len() ==> 0 <= #[trigger] visible(active)[k] < active.len()
                && active[visible(active)[k]],
        forall|k: int, l: int|
            0 <= k < l < visible(active).len() ==> #[trigger] visible(active)[k]
                < #[trigger] visible(active)[l],
        forall|i: int| 0 <= i < active.len() && active[i] ==> visible(active).contains(i),
    decreases active.len(),
{
    if active.len() > 0 {
        let rest = active.drop_last();
        lemma_visible(rest);
        assert forall|i: int| 0 <= i < active.len() && active[i] implies visible(active).contains(
            i,
        ) by {
            if i < rest.len() {
                assert(rest[i]);
                let k = choose|k: int| 0 <= k < visible(rest).len() && visible(rest)[k] == i;
                assert(visible(active)[k] == i);
            } else {
                assert(visible(active).last() == i);
            }
        }
    }
}

/// `a + b`, or `None` beyond `u128`, as is any sum with such a part.
fn plus(a: Option<u128>, b: u128) -> (total: Option<u128>)
    ensures
        total == match a {
            Some(n) => if n + b <= u128::MAX {
                Some((n + b) as u128)
            } else {
                None
            },
            None => None,
        },
{
    match a {
        Some(n) => n.checked_add(b),
        None => None,
    }
}

/// `total` is `value`, or `None` where `value` is beyond `u128`.
pub open spec fn counts(total: Option<u128>, value: nat) -> bool {
    match total {
        Some(n) => n == value,
        None => value > u128::MAX,
    }
}

/// The three parts of a row's minimum width, each `None` beyond `u128`.
pub struct RowTotals {
    pub fixed: Option<u128>,
    pub texts: usize,
    pub gaps: Option<u128>,
}

impl RowWidths {
    pub open spec fn wf(&self) -> bool {
        self@.wf()
    }

    /// Adds up what the shown tokens take when every text is left out.
    pub fn totals(&self, active: &Vec<bool>) -> (totals: RowTotals)
        requires
            self.wf(),
            active@.len() == self@.flexible.len(),
        ensures
            counts(totals.fixed, fixed_total(self@, visible(active@))),
            counts(totals.gaps, gap_total(self@, visible(active@))),
            totals.texts == text_count(self@, visible(active@)),
    {
        let mut fixed: Option<u128> = Some(0);
        let mut gaps: Option<u128> = Some(0);
        let mut texts: usize = 0;
        let mut previous: Option<usize> = None;
        assert(active@.take(0) =~= Seq::empty());
        for i in 0..active.len()
            invariant
                self.wf(),
                active@.len() == self@.flexible.len(),
                counts(fixed, fixed_total(self@, visible(active@.take(i as int)))),
                counts(gaps, gap_total(self@, visible(active@.take(i as int)))),
                texts == text_count(self@, visible(active@.take(i as int))),
                texts <= i,
                match previous {
                    Some(p) => visible(active@.take(i as int)).len() > 0 && p == visible(
                        active@.take(i as int),
                    ).last() && p < i,
                    None => visible(active@.take(i as int)).len() == 0,
                },
        {
            let ghost before = visible(active@.take(i as int));
            let ghost after = visible(active@.take(i + 1));
            assert(active@.take(i + 1).drop_last() =~= active@.take(i as int));
            if active[i] {
                assert(after == before.push(i as int));
                assert(after.drop_last() =~= before);
                assert(self@.fixed[i as int] == self.fixed@[i as int]);
                assert(self@.flexible[i as int] == self.flexible@[i as int]);
                fixed = plus(fixed, self.fixed[i]);
                if self.flexible[i] > 0 {
                    texts = texts + 1;
                }
                if let Some(p) = previous {
                    assert(self@.gap[p as int].len() == self@.fixed.len());
                    assert(self@.gap[p as int][i as int] == self.gap@[p as int]@[i as int]);
                    assert(after[after.len() - 2] == p);
                    gaps = plus(gaps, self.gap[p][i] as u128);
                }
                previous = Some(i);
            }
        }
        assert(active@.take(active@.len() as int) =~= active@);
        RowTotals { fixed, texts, gaps }
    }

    /// Whether the row, with every shown text cut to one column, fits.
    pub fn fits(&self, active: &Vec<bool>, max_width: usize) -> (fits: bool)
        requires
            self.wf(),
            active@.len() == self@.flexible.len(),
        ensures
            fits == (minimum_width(self@, active@) <= max_width),
    {
        let totals = self.totals(active);
        let content = plus(totals.fixed, totals.texts as u128);
        let needed = match totals.gaps {
            Some(gaps) => plus(content, gaps),
            None => None,
        };
        match needed {
            Some(needed) => needed <= max_width as u128,
            None => false,
        }
    }

    /// Which tokens the row shows.
    pub fn active_tokens(&self, max_width: usize) -> (active: Vec<bool>)
        requires
            self.wf(),
        ensures
            active@ == active_tokens(self@, max_width as nat),
            active@.len() == self@.flexible.len(),
    {
        let count = self.flexible.len();
        let mut active: Vec<bool> = Vec::new();
        for i in 0..count
            invariant
                active@.len() == i,
                forall|j: int| 0 <= j < i ==> active@[j],
        {
            active.push(true);
        }
        assert(active@ =~= Seq::new(self@.flexible.len(), |i: int| true));
        if self.fits(&active, max_width) {
            return active;
        }
        for i in 0..count
            invariant
                count == self.flexible@.len(),
                active@.len() == count,
                forall|j: int| 0 <= j < i ==> active@[j] == (self@.flexible[j] == 0),
                forall|j: int| i <= j < count ==> active@[j],
        {
            if self.flexible[i] > 0 {
                active.set(i, false);
            }
        }
        assert(active@ =~= kept_from(self@, max_width as nat, count as int));
        let mut from: usize = count;
        while from > 0
            invariant
                self.wf(),
                count == self.flexible@.len(),
                from <= count,
                active@ == kept_from(self@, max_width as nat, from as int),
                active@.len() == count,
            decreases from,
        {
            from = from - 1;
            if self.flexible[from] == 0 {
                continue;
            }
            let ghost rest = active@;
            active.set(from, true);
            if !self.fits(&active, max_width) {
                proof {
                    lemma_not_offered(self@, max_width as nat, from as int);
                }
                active.set(from, false);
                assert(active@ =~= rest);
            }
        }
        active
    }
}

/// A text is not shown before it was offered back.
proof fn lemma_not_offered(row: RowSpec, max_width: nat, i: int)
    requires
        0 <= i < row.flexible.len(),
        row.flexible[i] > 0,
    ensures
        kept_from(row, max_width, i + 1).len() == row.flexible.len(),
        !kept_from(row, max_width, i + 1)[i],
{
    lemma_kept_before(row, max_width, i + 1);
}

/// There is one answer for each token.
pub proof fn lemma_active_len(row: RowSpec, max_width: nat)
    ensures
        active_tokens(row, max_width).len() == row.flexible.len(),
{
    lemma_kept_before(row, max_width, 0);
}

/// Before position `from` only the tokens without a text are shown.
proof fn lemma_kept_before(row: RowSpec, max_width: nat, from: int)
    requires
        0 <= from,
    ensures
        kept_from(row, max_width, from).len() == row.flexible.len(),
        forall|i: int|
            0 <= i < row.flexible.len() && i < from ==> #[trigger] kept_from(row, max_width, from)[i]
                == (row.flexible[i] == 0),
    decreases row.flexible.len() - from,
{
    if from < row.flexible.len() {
        lemma_kept_before(row, max_width, from + 1);
    }
}

proof fn lemma_sum_update(s: Seq<nat>, i: int, v: nat)
    requires
        0 <= i < s.len(),
    ensures
        sum(s.update(i, v)) + s[i] == sum(s) + v,
    decreases s.len(),
{
    let t = s.update(i, v);
    if i == s.len() - 1 {
        assert(t.drop_last() =~= s.drop_last());
    } else {
        assert(t.drop_last() =~= s.drop_last().update(i, v));
        lemma_sum_update(s.drop_last(), i, v);
    }
}

/// Sums keep a pointwise order, and are equal only where the terms are.
pub proof fn lemma_sum_order(a: Seq<nat>, b: Seq<nat>)
    requires
        a.len() == b.len(),
        forall|i: int| 0 <= i < a.len() ==> #[trigger] a[i] <= b[i],
    ensures
        sum(a) <= sum(b),
        sum(a) == sum(b) ==> a =~= b,
    decreases a.len(),
{
    if a.len() > 0 {
        lemma_sum_order(a.drop_last(), b.drop_last());
        if sum(a) == sum(b) {
            assert(a.last() <= b.last());
            assert(a.drop_last() =~= b.drop_last());
            assert forall|i: int| 0 <= i < a.len() implies a[i] == b[i] by {
                if i < a.len() - 1 {
                    assert(a.drop_last()[i] == b.drop_last()[i]);
                }
            }
        }
    }
}

/// How much is shared settles the shares: two fair shares of the same columns
/// over the same texts are the same.
pub proof fn fair_share_is_unique(capacity: Seq<nat>, spare: nat, a: Seq<nat>, b: Seq<nat>)
    requires
        is_fair_share(capacity, spare, a),
        is_fair_share(capacity, spare, b),
    ensures
        a == b,
{
    let (la, ca) = choose|level: nat, cut: int|
        level >= 1 && 0 <= cut <= capacity.len() && a == #[trigger] levelled(capacity, level, cut);
    let (lb, cb) = choose|level: nat, cut: int|
        level >= 1 && 0 <= cut <= capacity.len() && b == #[trigger] levelled(capacity, level, cut);
    if la < lb || (la == lb && ca <= cb) {
        lemma_sum_order(a, b);
    } else {
        lemma_sum_order(b, a);
    }
}

/// Widths after one column for each text.
pub proof fn lemma_first_columns(row: RowSpec, active: Seq<bool>)
    requires
        row.flexible.len() == active.len(),
    ensures
        sum(levelled(capacities(row, active), 1, 0)) == text_count(row, visible(active)),
    decreases active.len(),
{
    if active.len() > 0 {
        let shorter = RowSpec { flexible: row.flexible.drop_last(), ..row };
        lemma_first_columns(shorter, active.drop_last());
        assert(levelled(capacities(row, active), 1, 0).drop_last() =~= levelled(
            capacities(shorter, active.drop_last()),
            1,
            0,
        ));
        lemma_visible(active.drop_last());
        lemma_text_count_local(row, shorter, visible(active.drop_last()));
        if active.last() {
            assert(visible(active).drop_last() =~= visible(active.drop_last()));
        }
    }
}

proof fn lemma_text_count_local(a: RowSpec, b: RowSpec, shown: Seq<int>)
    requires
        forall|k: int| 0 <= k < shown.len() ==> a.flexible[#[trigger] shown[k]] == b.flexible[shown[k]],
    ensures
        text_count(a, shown) == text_count(b, shown),
    decreases shown.len(),
{
    if shown.len() > 0 {
        lemma_text_count_local(a, b, shown.drop_last());
    }
}

impl RowWidths {
    /// How many columns each text gets; 0 for a token that is not shown.
    pub fn text_budgets(&self, active: &Vec<bool>, max_width: usize) -> (budgets: Vec<usize>)
        requires
            self.wf(),
            active@.len() == self@.flexible.len(),
        ensures
            budgets@.len() == self@.flexible.len(),
            is_fair_share(
                capacities(self@, active@),
                spare_width(self@, active@, max_width as nat),
                nats(budgets@),
            ),
    {
        let count = self.flexible.len();
        let totals = self.totals(active);
        let taken = match totals.fixed {
            Some(fixed) => plus(totals.gaps, fixed),
            None => None,
        };
        let free = match taken {
            Some(taken) => if taken < max_width as u128 {
                max_width - taken as usize
            } else {
                0
            },
            None => 0,
        };
        let mut remaining: usize = free.saturating_sub(totals.texts);
        let ghost spare = spare_width(self@, active@, max_width as nat);
        assert(remaining == spare);

        let ghost capacity = capacities(self@, active@);
        let mut budgets: Vec<usize> = Vec::new();
        for i in 0..count
            invariant
                self.wf(),
                count == self.flexible@.len(),
                active@.len() == count,
                capacity == capacities(self@, active@),
                budgets@.len() == i,
                forall|j: int| 0 <= j < i ==> budgets@[j] == levelled(capacity, 1, 0)[j],
        {
            if active[i] && self.flexible[i] > 0 {
                budgets.push(1);
            } else {
                budgets.push(0);
            }
        }
        let ghost mut level: nat = 1;
        let ghost goal = sum(levelled(capacity, 1, 0)) + spare;
        assert(nats(budgets@) =~= levelled(capacity, level, 0));
        let mut grew: bool = true;
        while remaining > 0 && grew
            invariant
                self.wf(),
                count == self.flexible@.len(),
                active@.len() == count,
                capacity == capacities(self@, active@),
                budgets@.len() == count,
                level >= 1,
                exists|cut: int|
                    0 <= cut <= count && nats(budgets@) == #[trigger] levelled(capacity, level, cut),
                remaining > 0 && grew ==> nats(budgets@) == levelled(capacity, level, 0),
                remaining > 0 && !grew ==> nats(budgets@) == capacity,
                sum(nats(budgets@)) + remaining == goal,
            decreases remaining, (if grew { 1int } else { 0 }),
        {
            grew = false;
            let ghost before = remaining;
            let ghost start = budgets@;
            let mut i: usize = 0;
            while i < count && remaining > 0
                invariant
                    self.wf(),
                    count == self.flexible@.len(),
                    active@.len() == count,
                    capacity == capacities(self@, active@),
                    budgets@.len() == count,
                    level >= 1,
                    i <= count,
                    remaining <= before,
                    grew ==> remaining < before,
                    nats(budgets@) == levelled(capacity, level, i as int),
                    !grew ==> forall|j: int| 0 <= j < i ==> budgets@[j] == capacity[j],
                    sum(nats(budgets@)) + remaining == goal,
                decreases count - i,
            {
                let ghost shares = nats(budgets@);
                assert(shares[i as int] == budgets@[i as int]);
                assert(self@.flexible[i as int] == self.flexible@[i as int]);
                if budgets[i] > 0 && budgets[i] < self.flexible[i] {
                    assert(active@[i as int]);
                    let next = budgets[i] + 1;
                    proof {
                        lemma_sum_update(shares, i as int, next as nat);
                    }
                    budgets.set(i, next);
                    assert(nats(budgets@) =~= shares.update(i as int, next as nat));
                    remaining = remaining - 1;
                    grew = true;
                }
                assert(nats(budgets@) =~= levelled(capacity, level, i + 1));
                i = i + 1;
            }
            proof {
                if remaining > 0 {
                    assert(levelled(capacity, level, count as int) =~= levelled(
                        capacity,
                        level + 1,
                        0,
                    ));
                    level = level + 1;
                    if !grew {
                        assert(nats(budgets@) =~= capacity);
                    }
                }
            }
        }
        proof {
            let shares = nats(budgets@);
            lemma_sum_order(shares, capacity);
        }
        budgets
    }
}

/// The tokens without a text.
pub open spec fn without_texts(row: RowSpec) -> Seq<bool> {
    Seq::new(row.flexible.len(), |i: int| row.flexible[i] == 0)
}

/// Columns of the row as drawn, when each text takes the columns it was given.
pub open spec fn drawn_width(row: RowSpec, active: Seq<bool>, shares: Seq<nat>) -> nat {
    fixed_total(row, visible(active)) + gap_total(row, visible(active)) + sum(shares)
}

proof fn lemma_kept_fits(row: RowSpec, max_width: nat, from: int)
    requires
        0 <= from,
        minimum_width(row, without_texts(row)) <= max_width,
    ensures
        minimum_width(row, kept_from(row, max_width, from)) <= max_width,
    decreases row.flexible.len() - from,
{
    if from < row.flexible.len() {
        lemma_kept_fits(row, max_width, from + 1);
    } else {
        assert(kept_from(row, max_width, from) =~= without_texts(row));
    }
}

/// A token without a text is never left out.
pub proof fn tokens_without_text_stay(row: RowSpec, max_width: nat, i: int)
    requires
        0 <= i < row.flexible.len(),
        row.flexible[i] == 0,
    ensures
        active_tokens(row, max_width)[i],
{
    lemma_textless_kept(row, max_width, 0, i);
}

proof fn lemma_textless_kept(row: RowSpec, max_width: nat, from: int, i: int)
    requires
        0 <= i < row.flexible.len(),
        row.flexible[i] == 0,
        0 <= from,
    ensures
        kept_from(row, max_width, from).len() == row.flexible.len(),
        kept_from(row, max_width, from)[i],
    decreases row.flexible.len() - from,
{
    if from < row.flexible.len() {
        lemma_textless_kept(row, max_width, from + 1, i);
    }
}

proof fn lemma_choice_stands(row: RowSpec, max_width: nat, from: int, i: int)
    requires
        0 <= from <= i < row.flexible.len(),
    ensures
        kept_from(row, max_width, from).len() == row.flexible.len(),
        kept_from(row, max_width, from)[i] == kept_from(row, max_width, i)[i],
    decreases i - from,
{
    lemma_kept_before(row, max_width, from);
    if from < i {
        lemma_kept_before(row, max_width, from + 1);
        lemma_choice_stands(row, max_width, from + 1, i);
    }
}

/// Token `i` with the tokens without a text and the later tokens among `active`.
pub open spec fn beside(row: RowSpec, active: Seq<bool>, i: int) -> Seq<bool> {
    Seq::new(
        row.flexible.len(),
        |k: int| k == i || row.flexible[k] == 0 || (k > i && active[k]),
    )
}

/// A token with a text is shown exactly if all tokens fit with every text cut to
/// one column, or if it fits so beside the tokens without a text and the later
/// texts that are shown.
pub proof fn text_stays_where_it_fits(row: RowSpec, max_width: nat, i: int)
    requires
        0 <= i < row.flexible.len(),
        row.flexible[i] > 0,
    ensures
        active_tokens(row, max_width)[i] == (minimum_width(
            row,
            Seq::new(row.flexible.len(), |k: int| true),
        ) <= max_width || minimum_width(row, beside(row, active_tokens(row, max_width), i))
            <= max_width),
{
    let all = Seq::new(row.flexible.len(), |k: int| true);
    let active = active_tokens(row, max_width);
    if minimum_width(row, all) > max_width {
        let rest = kept_from(row, max_width, i + 1);
        lemma_choice_stands(row, max_width, 0, i);
        lemma_not_offered(row, max_width, i);
        lemma_kept_before(row, max_width, i + 1);
        assert forall|k: int| 0 <= k < row.flexible.len() implies rest.update(i, true)[k] == beside(
            row,
            active,
            i,
        )[k] by {
            if row.flexible[k] == 0 {
                lemma_textless_kept(row, max_width, i + 1, k);
            } else if k > i {
                lemma_choice_stands(row, max_width, i + 1, k);
                lemma_choice_stands(row, max_width, 0, k);
            }
        }
        assert(rest.update(i, true) =~= beside(row, active, i));
    }
}

/// Where the tokens without a text fit, the row as drawn is no wider than the
/// columns it was given.
pub proof fn drawn_row_fits(row: RowSpec, max_width: nat, shares: Seq<nat>)
    requires
        row.wf(),
        minimum_width(row, without_texts(row)) <= max_width,
        is_fair_share(
            capacities(row, active_tokens(row, max_width)),
            spare_width(row, active_tokens(row, max_width), max_width),
            shares,
        ),
    ensures
        drawn_width(row, active_tokens(row, max_width), shares) <= max_width,
{
    let active = active_tokens(row, max_width);
    lemma_kept_fits(row, max_width, 0);
    lemma_kept_before(row, max_width, 0);
    lemma_first_columns(row, active);
}

/// Every text that is shown gets at least one column and no more than it can
/// use, and a token that is left out gets none.
pub proof fn shares_are_bounded(row: RowSpec, active: Seq<bool>, spare: nat, shares: Seq<nat>, i: int)
    requires
        row.flexible.len() == active.len(),
        is_fair_share(capacities(row, active), spare, shares),
        0 <= i < active.len(),
    ensures
        shares.len() == active.len(),
        shares[i] <= row.flexible[i],
        active[i] && row.flexible[i] > 0 ==> shares[i] >= 1,
        !active[i] ==> shares[i] == 0,
{
}

/// A row that is wide enough shows every token and cuts no text.
pub proof fn wide_row_is_drawn_in_full(row: RowSpec, max_width: nat, shares: Seq<nat>)
    requires
        row.wf(),
        drawn_width(row, Seq::new(row.flexible.len(), |i: int| true), row.flexible) <= max_width,
        is_fair_share(
            capacities(row, active_tokens(row, max_width)),
            spare_width(row, active_tokens(row, max_width), max_width),
            shares,
        ),
    ensures
        forall|i: int| 0 <= i < row.flexible.len() ==> #[trigger] active_tokens(row, max_width)[i],
        shares == row.flexible,
{
    let all = Seq::new(row.flexible.len(), |i: int| true);
    lemma_first_columns(row, all);
    let capacity = capacities(row, all);
    assert(capacity =~= row.flexible);
    lemma_sum_order(levelled(capacity, 1, 0), capacity);
    assert(active_tokens(row, max_width) == all);
    lemma_sum_order(shares, capacity);
}

} // verus!
