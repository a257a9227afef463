use vstd::prelude::*;

verus! {

/// Where a movement of `amount` rows leaves a selection in a list of `length`
/// rows: upward movement stops at the first row, downward movement at the last.
pub open spec fn spec_moved_index(current: int, length: int, upward: bool, amount: int) -> int {
    if length <= 0 {
        0
    } else if upward {
        if current >= amount { current - amount } else { 0 }
    } else {
        let target = current + amount;
        if target < length - 1 { target } else { length - 1 }
    }
}

/// Moves a list selection up or down by `amount`, clamped to the list.
pub fn moved_index(current: usize, length: usize, upward: bool, amount: usize) -> (index: usize)
    ensures
        index == spec_moved_index(current as int, length as int, upward, amount as int),
{
    if length == 0 {
        return 0;
    }
    if upward {
        current.saturating_sub(amount)
    } else {
        let target = current.saturating_add(amount);
        if target < length - 1 { target } else { length - 1 }
    }
}

} // verus!

verus! {

/// Selection and first visible row of one list pane.
#[derive(Clone, Copy, Debug, PartialEq, Eq, Structural)]
pub struct ListPosition {
    pub selected: usize,
    pub scroll: usize,
}

/// The number of rows a pane shows: its viewport height, but at least one.
pub open spec fn capacity(viewport_height: int) -> int {
    if viewport_height < 1 { 1 } else { viewport_height }
}

impl ListPosition {
    /// A position that is valid for a list of `length` rows shown `viewport_height` rows at a time:
    /// the empty list has the zero position; otherwise the selection is a row of the list, it is
    /// visible, and the view does not scroll past the end.
    pub open spec fn is_normal(self, length: int, viewport_height: int) -> bool {
        if length <= 0 {
            self.selected == 0 && self.scroll == 0
        } else {
            &&& self.selected < length
            &&& self.scroll <= self.selected
            &&& self.selected < self.scroll + capacity(viewport_height)
            &&& (self.scroll == 0 || self.scroll + capacity(viewport_height) <= length)
        }
    }

    /// The position that `normalize_list` makes of `self`.
    pub open spec fn normalized(self, length: int, viewport_height: int) -> ListPosition {
        if length <= 0 {
            ListPosition { selected: 0, scroll: 0 }
        } else {
            let selected = if self.selected < length { self.selected as int } else { length - 1 };
            let cap = capacity(viewport_height);
            let max_scroll = if length > cap { length - cap } else { 0 };
            let scroll = if selected < self.scroll {
                selected
            } else if selected >= self.scroll + cap {
                selected + 1 - cap
            } else {
                self.scroll as int
            };
            ListPosition {
                selected: selected as usize,
                scroll: (if scroll < max_scroll { scroll } else { max_scroll }) as usize,
            }
        }
    }
}

/// Clamps the selection into the list and scrolls just far enough to keep it visible.
pub fn normalize_list(position: &mut ListPosition, length: usize, viewport_height: usize)
    ensures
        *final(position) == old(position).normalized(length as int, viewport_height as int),
        final(position).is_normal(length as int, viewport_height as int),
        old(position).is_normal(length as int, viewport_height as int) ==> *final(position)
            == *old(position),
{
    if length == 0 {
        *position = ListPosition { selected: 0, scroll: 0 };
        return;
    }
    if position.selected > length - 1 {
        position.selected = length - 1;
    }
    let capacity = if viewport_height < 1 { 1 } else { viewport_height };
    let max_scroll = length.saturating_sub(capacity);
    if position.selected < position.scroll {
        position.scroll = position.selected;
    } else if position.selected >= position.scroll.saturating_add(capacity) {
        position.scroll = position.selected.saturating_add(1).saturating_sub(capacity);
    }
    if position.scroll > max_scroll {
        position.scroll = max_scroll;
    }
}

/// The `k`-th index that a wrapped search visits: the rows after the current one, then the
/// rows from the top through the current one.
pub open spec fn wrapped_index(length: int, current: int, k: int) -> int {
    let start = if current < length { current } else { length - 1 };
    (start + 1 + k) % length
}

/// The first index, among the `k`-th and later in wrapped order, that satisfies `predicate`.
pub open spec fn first_wrapped_match_from(
    length: int,
    current: int,
    predicate: spec_fn(int) -> bool,
    k: int,
) -> Option<int>
    decreases length - k,
{
    if k >= length || k < 0 {
        None
    } else if predicate(wrapped_index(length, current, k)) {
        Some(wrapped_index(length, current, k))
    } else {
        first_wrapped_match_from(length, current, predicate, k + 1)
    }
}

/// The first index in wrapped order, starting after `current`, that satisfies `predicate`.
pub open spec fn first_wrapped_match(length: int, current: int, predicate: spec_fn(int) -> bool) -> Option<int> {
    first_wrapped_match_from(length, current, predicate, 0)
}

proof fn lemma_first_match_skips(length: int, current: int, predicate: spec_fn(int) -> bool, k: int)
    requires
        0 <= k <= length,
        forall|j: int| 0 <= j < k ==> !predicate(#[trigger] wrapped_index(length, current, j)),
    ensures
        first_wrapped_match(length, current, predicate) == first_wrapped_match_from(
            length,
            current,
            predicate,
            k,
        ),
    decreases k,
{
    if k > 0 {
        lemma_first_match_skips(length, current, predicate, k - 1);
        assert(!predicate(wrapped_index(length, current, k - 1)));
    }
}

/// In a list of `length` rows, the `k`-th row in wrapped order after `current` (a row of the
/// list) is `current + 1 + k` while that is a row, and counts again from the top after that.
proof fn lemma_wrapped_index_value(length: int, current: int, k: int)
    requires
        0 <= current < length,
        0 <= k < length,
    ensures
        wrapped_index(length, current, k) == if current + 1 + k < length {
            current + 1 + k
        } else {
            current + 1 + k - length
        },
{
    if current + 1 + k < length {
        vstd::arithmetic::div_mod::lemma_fundamental_div_mod_converse(
            current + 1 + k,
            length,
            0,
            current + 1 + k,
        );
    } else {
        vstd::arithmetic::div_mod::lemma_fundamental_div_mod_converse(
            current + 1 + k,
            length,
            1,
            current + 1 + k - length,
        );
    }
}

/// A match found from the `k`-th place in wrapped order on is at some place `m` at or after `k`,
/// and no place between `k` and `m` matches.
proof fn lemma_found_from(length: int, current: int, predicate: spec_fn(int) -> bool, k: int, found: int)
    requires
        0 <= k,
        first_wrapped_match_from(length, current, predicate, k) == Some(found),
    ensures
        exists|m: int|
            k <= m < length && found == wrapped_index(length, current, m) && predicate(found)
                && forall|j: int| k <= j < m ==> !predicate(#[trigger] wrapped_index(length, current, j)),
    decreases length - k,
{
    if !predicate(wrapped_index(length, current, k)) {
        lemma_found_from(length, current, predicate, k + 1, found);
        let m = choose|m: int|
            k + 1 <= m < length && found == wrapped_index(length, current, m) && predicate(found)
                && forall|j: int| k + 1 <= j < m ==> !predicate(#[trigger] wrapped_index(length, current, j));
        assert(forall|j: int| k <= j < m ==> !predicate(#[trigger] wrapped_index(length, current, j)));
    } else {
        assert(forall|j: int| k <= j < k ==> !predicate(#[trigger] wrapped_index(length, current, j)));
    }
}

/// Where nothing matches from the `k`-th place on, no place from there matches.
proof fn lemma_none_from(length: int, current: int, predicate: spec_fn(int) -> bool, k: int)
    requires
        0 <= k,
        first_wrapped_match_from(length, current, predicate, k) is None,
    ensures
        forall|j: int| k <= j < length ==> !predicate(#[trigger] wrapped_index(length, current, j)),
    decreases length - k,
{
    if k < length {
        lemma_none_from(length, current, predicate, k + 1);
    }
}

/// A search from row `current` of a list of `length` rows selects the nearest matching row after
/// `current`; it reaches a row at or before `current` only where no later row matches, and then
/// the first matching row from the top; it finds nothing only where no row matches.
pub proof fn law_search_finds_the_next_match(length: int, current: int, predicate: spec_fn(int) -> bool)
    requires
        0 <= current < length,
    ensures
        match first_wrapped_match(length, current, predicate) {
            Some(found) => {
                &&& 0 <= found < length
                &&& predicate(found)
                &&& found > current ==> forall|j: int| current < j < found ==> !#[trigger] predicate(j)
                &&& found <= current ==> {
                    &&& forall|j: int| current < j < length ==> !#[trigger] predicate(j)
                    &&& forall|j: int| 0 <= j < found ==> !#[trigger] predicate(j)
                }
            },
            None => forall|j: int| 0 <= j < length ==> !#[trigger] predicate(j),
        },
        (exists|i: int| current < i < length && #[trigger] predicate(i)) ==> (first_wrapped_match(
            length,
            current,
            predicate,
        ) matches Some(found) && found > current),
{
    match first_wrapped_match(length, current, predicate) {
        Some(found) => {
            lemma_found_from(length, current, predicate, 0, found);
            let m = choose|m: int|
                0 <= m < length && found == wrapped_index(length, current, m) && predicate(found)
                    && forall|j: int| 0 <= j < m ==> !predicate(#[trigger] wrapped_index(length, current, j));
            lemma_wrapped_index_value(length, current, m);
            assert forall|j: int| current < j < length && j < (if found > current { found } else { length }) implies !#[trigger] predicate(j) by {
                let p = j - current - 1;
                lemma_wrapped_index_value(length, current, p);
                assert(wrapped_index(length, current, p) == j);
            }
            if found <= current {
                assert forall|j: int| 0 <= j < found implies !#[trigger] predicate(j) by {
                    let p = j + length - current - 1;
                    lemma_wrapped_index_value(length, current, p);
                    assert(wrapped_index(length, current, p) == j);
                }
            }
        },
        None => {
            lemma_none_from(length, current, predicate, 0);
            assert forall|j: int| 0 <= j < length implies !#[trigger] predicate(j) by {
                let p = if j > current { j - current - 1 } else { j + length - current - 1 };
                lemma_wrapped_index_value(length, current, p);
                assert(wrapped_index(length, current, p) == j);
            }
        },
    }
}

/// Moving a selection down by `amount` rows in a non-empty list never lowers it: it lands
/// `amount` rows further on, or on the last row where the list ends sooner. Moving up never
/// raises it: it lands `amount` rows back, or on the first row.
pub proof fn law_movement_is_clamped(current: int, length: int, amount: int)
    requires
        0 <= current < length,
        0 <= amount,
    ensures
        ({
            let down = spec_moved_index(current, length, false, amount);
            &&& current <= down < length
            &&& down <= current + amount
            &&& down == current + amount || down == length - 1
        }),
        ({
            let up = spec_moved_index(current, length, true, amount);
            &&& 0 <= up <= current
            &&& current - amount <= up
            &&& up == current - amount || up == 0
        }),
{
}

/// Finds the first row, in wrapped order starting after `current`, for which `matches` holds.
pub fn find_wrapped(
    length: usize,
    current: usize,
    matches: impl Fn(usize) -> bool,
    Ghost(predicate): Ghost<spec_fn(int) -> bool>,
) -> (found: Option<usize>)
    requires
        forall|i: usize| i < length ==> call_requires(matches, (i,)),
        forall|i: usize, b: bool| i < length && call_ensures(matches, (i,), b) ==> b == predicate(
            i as int,
        ),
    ensures
        match found {
            Some(index) => index < length && first_wrapped_match(
                length as int,
                current as int,
                predicate,
            ) == Some(index as int),
            None => first_wrapped_match(length as int, current as int, predicate) is None,
        },
        match found {
            Some(index) => exists|k: int|
                {
                    &&& 0 <= k < length
                    &&& index == wrapped_index(length as int, current as int, k)
                    &&& predicate(index as int)
                    &&& forall|j: int|
                        0 <= j < k ==> !predicate(
                            #[trigger] wrapped_index(length as int, current as int, j),
                        )
                },
            None => forall|i: int| 0 <= i < length ==> !#[trigger] predicate(i),
        },
{
    if length == 0 {
        return None;
    }
    let start = if current < length { current } else { length - 1 };
    let after = length - 1 - start;
    let mut k: usize = 0;
    while k < length
        invariant
            0 < length,
            start < length,
            after == length - 1 - start,
            start == (if current < length { current as int } else { length - 1 }),
            k <= length,
            forall|i: usize| i < length ==> call_requires(matches, (i,)),
            forall|i: usize, b: bool| i < length && call_ensures(matches, (i,), b) ==> b
                == predicate(i as int),
            forall|j: int|
                0 <= j < k ==> !predicate(#[trigger] wrapped_index(length as int, current as int, j)),
        decreases length - k,
    {
        let index = if k < after { start + 1 + k } else { k - after };
        assert(index == wrapped_index(length as int, current as int, k as int)) by {
            if k < after {
                vstd::arithmetic::div_mod::lemma_fundamental_div_mod_converse(
                    start + 1 + k,
                    length as int,
                    0,
                    start + 1 + k,
                );
            } else {
                vstd::arithmetic::div_mod::lemma_fundamental_div_mod_converse(
                    start + 1 + k,
                    length as int,
                    1,
                    k - after,
                );
            }
        }
        if matches(index) {
            proof {
                lemma_first_match_skips(length as int, current as int, predicate, k as int);
            }
            return Some(index);
        }
        k = k + 1;
    }
    assert forall|i: int| 0 <= i < length implies !#[trigger] predicate(i) by {
        let j = if i > start { i - start - 1 } else { i + after };
        assert(wrapped_index(length as int, current as int, j) == i) by {
            if i > start {
                vstd::arithmetic::div_mod::lemma_fundamental_div_mod_converse(
                    start + 1 + j,
                    length as int,
                    0,
                    i,
                );
            } else {
                vstd::arithmetic::div_mod::lemma_fundamental_div_mod_converse(
                    start + 1 + j,
                    length as int,
                    1,
                    i,
                );
            }
        }
    }
    proof {
        lemma_first_match_skips(length as int, current as int, predicate, length as int);
    }
    None
}

} // verus!

verus! {

/// Narrowest terminal that shows all four panes.
pub const MIN_FULL_WIDTH: u16 = 60;

/// Lowest terminal that shows all four panes.
pub const MIN_FULL_HEIGHT: u16 = 16;

/// `value` percent of `height`, computed as the 16-bit product saturating at `u16::MAX`,
/// then divided by 100.
pub open spec fn percent_of(height: int, value: int) -> int {
    let product = height * value;
    (if product > u16::MAX { u16::MAX as int } else { product }) / 100
}

/// `a - b`, or 0 when `b` exceeds `a`.
pub open spec fn minus(a: int, b: int) -> int {
    if a > b { a - b } else { 0 }
}

/// The content rows of the repository, commit, file and diff panes for a terminal of the given
/// size: none in the compact view; otherwise the rows above the status line split 34/33/rest
/// on the left, the whole height for the diff, each less its two border rows.
pub open spec fn spec_viewport_heights(width: int, height: int) -> Seq<usize> {
    if width < MIN_FULL_WIDTH || height < MIN_FULL_HEIGHT {
        seq![0usize, 0usize, 0usize, 0usize]
    } else {
        let pane_height = height - 1;
        let repository_outer = percent_of(pane_height, 34);
        let commit_outer = percent_of(pane_height, 33);
        let file_outer = minus(minus(pane_height, repository_outer), commit_outer);
        seq![
            minus(repository_outer, 2) as usize,
            minus(commit_outer, 2) as usize,
            minus(file_outer, 2) as usize,
            minus(pane_height, 2) as usize,
        ]
    }
}

/// `height * value` saturated at `u16::MAX`, then divided by 100.
fn saturating_percent(height: u16, value: u16) -> (result: u16)
    requires
        value <= 100,
    ensures
        result == percent_of(height as int, value as int),
{
    assert(height as u32 * value as u32 <= 65535 * 100) by (nonlinear_arith)
        requires
            height <= 65535,
            value <= 100,
    ;
    let product: u32 = height as u32 * value as u32;
    let saturated: u32 = if product > 65535 { 65535 } else { product };
    (saturated / 100) as u16
}

/// Content rows per pane for a terminal of `width` × `height` cells.
pub fn pane_viewport_heights(width: u16, height: u16) -> (heights: [usize; 4])
    ensures
        heights@ == spec_viewport_heights(width as int, height as int),
{
    if width < MIN_FULL_WIDTH || height < MIN_FULL_HEIGHT {
        return [0, 0, 0, 0];
    }
    let pane_height = height - 1;
    let repository_outer = saturating_percent(pane_height, 34);
    let commit_outer = saturating_percent(pane_height, 33);
    let file_outer = pane_height.saturating_sub(repository_outer).saturating_sub(commit_outer);
    let heights = [
        repository_outer.saturating_sub(2) as usize,
        commit_outer.saturating_sub(2) as usize,
        file_outer.saturating_sub(2) as usize,
        pane_height.saturating_sub(2) as usize,
    ];
    assert(heights@ =~= spec_viewport_heights(width as int, height as int));
    heights
}

} // verus!
