//! The range selector. A range expression is a list of fragments between
//! commas; a fragment names a lower and an upper end between dashes. The
//! selector keeps the items of a list whose ordering key lies in one of the
//! fragments.
use vstd::prelude::*;
use crate::ord::is_ordered;
use crate::ord::key_of;
use crate::ord::ord_key;
use crate::text::chars_of;
use crate::text::lemma_split_len;
use crate::text::split;
use crate::text::split_chars;
use crate::text::string_of;
use crate::text::views;

verus! {

/// What the selector asks of an item: its ordering key.
pub trait HasOrd {
    /// The ordering key of the item.
    spec fn ord_key(&self) -> i64;

    /// The ordering key of the item.
    fn ord(&self) -> (key: i64)
        ensures
            key == self.ord_key(),
    ;
}

/// One fragment of a range expression, as text: what stands before the
/// first dash, and what stands between the first dash and the second.
#[derive(Debug, Clone, PartialEq, Eq)]
pub struct Fragment {
    pub from: String,
    pub to: String,
}

/// The ends of one fragment, as ordering keys. An end that the expression
/// leaves out, or that is no number, is `None`.
#[derive(Debug, Clone, Copy, PartialEq, Eq)]
pub struct Bounds {
    pub from: Option<i64>,
    pub to: Option<i64>,
}

/// The two texts of a fragment: the first piece between dashes, and the
/// second, which is empty where the fragment holds no dash.
pub open spec fn fragment_texts(fragment: Seq<char>) -> (Seq<char>, Seq<char>) {
    let parts = split(fragment, '-');
    (
        parts[0],
        if parts.len() > 1 {
            parts[1]
        } else {
            Seq::<char>::empty()
        },
    )
}

/// The fragments of a range expression: none for the empty expression,
/// else one for each piece between commas.
pub open spec fn range_fragments(range: Seq<char>) -> Seq<(Seq<char>, Seq<char>)> {
    if range.len() == 0 {
        Seq::<(Seq<char>, Seq<char>)>::empty()
    } else {
        split(range, ',').map_values(|piece: Seq<char>| fragment_texts(piece))
    }
}

/// The texts of a list of fragments.
pub open spec fn fragment_views(fragments: Seq<Fragment>) -> Seq<(Seq<char>, Seq<char>)> {
    fragments.map_values(|f: Fragment| (f.from@, f.to@))
}

/// Splits a range expression into its fragments.
pub fn split_range(range: &str) -> (fragments: Vec<Fragment>)
    ensures
        fragment_views(fragments@) == range_fragments(range@),
        fragments@.len() == 0 <==> range@.len() == 0,
{
    let chars = chars_of(range);
    let mut fragments: Vec<Fragment> = Vec::new();
    if chars.len() == 0 {
        assert(fragment_views(fragments@) =~= range_fragments(range@));
        return fragments;
    }
    let pieces = split_chars(&chars, ',');
    let mut i: usize = 0;
    while i < pieces.len()
        invariant
            i <= pieces.len(),
            views(pieces@) == split(range@, ','),
            fragments@.len() == i,
            forall|j: int|
                0 <= j < i ==> (#[trigger] fragments@[j].from@, fragments@[j].to@)
                    == fragment_texts(pieces@[j]@),
        decreases pieces.len() - i,
    {
        let parts = split_chars(&pieces[i], '-');
        proof {
            assert(views(parts@)[0] == parts@[0]@);
            if parts@.len() > 1 {
                assert(views(parts@)[1] == parts@[1]@);
            }
        }
        let from = string_of(&parts[0]);
        let to = if parts.len() > 1 {
            string_of(&parts[1])
        } else {
            String::new()
        };
        fragments.push(Fragment { from, to });
        i += 1;
    }
    proof {
        assert forall|j: int| 0 <= j < fragments@.len() implies fragment_views(fragments@)[j]
            == range_fragments(range@)[j] by {
            assert(views(pieces@)[j] == pieces@[j]@);
            assert((fragments@[j].from@, fragments@[j].to@) == fragment_texts(pieces@[j]@));
        }
        assert(fragment_views(fragments@) =~= range_fragments(range@));
    }
    fragments
}

/// The lower end of a fragment: 0 where none is given.
pub open spec fn lower_end(bounds: Bounds) -> int {
    match bounds.from {
        Some(from) => from as int,
        None => 0,
    }
}

/// The upper end of a fragment: the key of the list's last item where none
/// is given.
pub open spec fn upper_end(bounds: Bounds, last: int) -> int {
    match bounds.to {
        Some(to) => to as int,
        None => last,
    }
}

/// Whether `key` lies in a fragment. A fragment whose lower end is above
/// its upper end holds no key.
pub open spec fn in_fragment(key: int, bounds: Bounds, last: int) -> bool {
    lower_end(bounds) <= key <= upper_end(bounds, last)
}

/// Whether `key` lies in one of the fragments.
pub open spec fn in_range(key: int, range: Seq<Bounds>, last: int) -> bool {
    exists|i: int| 0 <= i < range.len() && in_fragment(key, #[trigger] range[i], last)
}

/// The keys that `range` selects, as a predicate on items.
pub open spec fn keeps<T: HasOrd>(range: Seq<Bounds>, last: int) -> spec_fn(T) -> bool {
    |item: T| in_range(item.ord_key() as int, range, last)
}

/// What the selector returns: the list itself where the list or the range
/// is empty, else the items whose key lies in a fragment, in their order.
pub open spec fn range_filter<T: HasOrd>(list: Seq<T>, range: Seq<Bounds>) -> Seq<T> {
    if list.len() == 0 || range.len() == 0 {
        list
    } else {
        list.filter(keeps::<T>(range, list.last().ord_key() as int))
    }
}

/// The ends of a fragment from the bit patterns of its two numbers, `None`
/// where the text was no number. A fragment with an end that cannot be
/// ordered holds no key.
pub open spec fn bounds_of_bits(from: Option<u64>, to: Option<u64>) -> Bounds {
    if (from matches Some(bits) && !is_ordered(bits)) || (to matches Some(bits) && !is_ordered(
        bits,
    )) {
        Bounds { from: Some(1i64), to: Some(0i64) }
    } else {
        Bounds {
            from: match from {
                Some(bits) => Some(key_of(bits) as i64),
                None => None,
            },
            to: match to {
                Some(bits) => Some(key_of(bits) as i64),
                None => None,
            },
        }
    }
}

/// The ends of a fragment from the bit patterns of its two numbers.
pub fn bounds_from_bits(from: Option<u64>, to: Option<u64>) -> (bounds: Bounds)
    ensures
        bounds == bounds_of_bits(from, to),
{
    let from_key = match from {
        Some(bits) => match ord_key(bits) {
            Some(key) => Some(key),
            None => {
                return Bounds { from: Some(1), to: Some(0) };
            },
        },
        None => None,
    };
    let to_key = match to {
        Some(bits) => match ord_key(bits) {
            Some(key) => Some(key),
            None => {
                return Bounds { from: Some(1), to: Some(0) };
            },
        },
        None => None,
    };
    Bounds { from: from_key, to: to_key }
}

/// Whether `key` lies in one of the fragments.
pub fn range_holds(key: i64, range: &Vec<Bounds>, last: i64) -> (held: bool)
    ensures
        held == in_range(key as int, range@, last as int),
{
    let mut i: usize = 0;
    while i < range.len()
        invariant
            i <= range.len(),
            forall|j: int| 0 <= j < i ==> !in_fragment(key as int, #[trigger] range@[j], last as int),
        decreases range.len() - i,
    {
        let bounds = range[i];
        let from = match bounds.from {
            Some(from) => from,
            None => 0,
        };
        let to = match bounds.to {
            Some(to) => to,
            None => last,
        };
        if from <= key && key <= to {
            return true;
        }
        i += 1;
    }
    false
}

/// Keeps the items of `list` whose ordering key lies in one of the
/// fragments of `range`, in their order. An open upper end reaches to the
/// key of the last item of `list`. An empty range keeps the whole list.
pub fn apply_range<T: HasOrd>(list: Vec<T>, range: &Vec<Bounds>) -> (kept: Vec<T>)
    ensures
        kept@ == range_filter(list@, range@),
{
    if list.len() == 0 || range.len() == 0 {
        return list;
    }
    let last: i64 = list[list.len() - 1].ord();
    let ghost all = list@;
    let ghost keep = keeps::<T>(range@, last as int);
    let mut kept: Vec<T> = Vec::new();
    for item in it: list
        invariant
            it.seq() == all,
            keep == keeps::<T>(range@, last as int),
            kept@ == all.take(it.index() as int).filter(keep),
    {
        proof {
            reveal(Seq::filter);
            assert(all.take(it.index() + 1).drop_last() == all.take(it.index() as int));
        }
        let key = item.ord();
        if range_holds(key, range, last) {
            kept.push(item);
        }
    }
    proof {
        assert(all.take(all.len() as int) == all);
    }
    kept
}

/// Filtering once more, by a predicate that holds of everything the first
/// predicate kept, changes nothing.
proof fn lemma_filter_again<T>(list: Seq<T>, first: spec_fn(T) -> bool, second: spec_fn(T) -> bool)
    requires
        forall|j: int| 0 <= j < list.len() && first(#[trigger] list[j]) ==> second(list[j]),
    ensures
        list.filter(first).filter(second) == list.filter(first),
    decreases list.len(),
{
    reveal(Seq::filter);
    if list.len() > 0 {
        let rest = list.drop_last();
        assert forall|j: int| 0 <= j < rest.len() && first(#[trigger] rest[j]) implies second(
            rest[j],
        ) by {
            assert(rest[j] == list[j]);
        }
        lemma_filter_again(rest, first, second);
        if first(list.last()) {
            assert(second(list[list.len() - 1]));
            assert(rest.filter(first).push(list.last()).drop_last() == rest.filter(first));
        }
    }
}

/// The empty range expression selects everything: it has no fragments, and
/// a range without fragments returns the list as it is, in its order.
pub proof fn law_empty_range_is_identity<T: HasOrd>(list: Seq<T>)
    ensures
        range_fragments(Seq::<char>::empty()).len() == 0,
        range_filter(list, Seq::<Bounds>::empty()) == list,
{
}

/// A non-empty range expression has at least one fragment.
pub proof fn law_fragments_of_text(range: Seq<char>)
    ensures
        range_fragments(range).len() == 0 <==> range.len() == 0,
{
    lemma_split_len(range, ',');
}

/// Selecting is idempotent: applying a range to what it selected returns
/// the same list.
pub proof fn law_apply_range_idempotent<T: HasOrd>(list: Seq<T>, range: Seq<Bounds>)
    ensures
        range_filter(range_filter(list, range), range) == range_filter(list, range),
{
    reveal(Seq::filter);
    let once = range_filter(list, range);
    if list.len() > 0 && range.len() > 0 && once.len() > 0 {
        let last = list.last().ord_key() as int;
        let last_kept = once.last().ord_key() as int;
        let first = keeps::<T>(range, last);
        let second = keeps::<T>(range, last_kept);
        assert forall|j: int| 0 <= j < list.len() && first(#[trigger] list[j]) implies second(
            list[j],
        ) by {
            let key = list[j].ord_key() as int;
            let i = choose|i: int| 0 <= i < range.len() && in_fragment(key, #[trigger] range[i], last);
            if range[i].to is None {
                assert(in_fragment(last, range[i], last));
                assert(first(list.last()));
                assert(last_kept == last);
            }
            assert(in_fragment(key, range[i], last_kept));
        }
        lemma_filter_again(list, first, second);
    }
}

/// The selector keeps an item exactly when its key lies in a fragment, so
/// an item that two fragments hold is kept once, and nothing is added.
pub proof fn law_apply_range_keeps<T: HasOrd>(list: Seq<T>, range: Seq<Bounds>)
    requires
        list.len() > 0,
        range.len() > 0,
    ensures
        range_filter(list, range).len() <= list.len(),
        forall|j: int|
            0 <= j < range_filter(list, range).len() ==> in_range(
                (#[trigger] range_filter(list, range)[j]).ord_key() as int,
                range,
                list.last().ord_key() as int,
            ),
        forall|j: int|
            0 <= j < list.len() && in_range(
                (#[trigger] list[j]).ord_key() as int,
                range,
                list.last().ord_key() as int,
            ) ==> range_filter(list, range).contains(list[j]),
{
    let keep = keeps::<T>(range, list.last().ord_key() as int);
    list.lemma_filter_len(keep);
    assert forall|j: int| 0 <= j < list.filter(keep).len() implies keep(
        #[trigger] list.filter(keep)[j],
    ) by {
        list.lemma_filter_pred(keep, j);
    }
    assert forall|j: int| 0 <= j < list.len() && keep(#[trigger] list[j]) implies list.filter(
        keep,
    ).contains(list[j]) by {
        list.lemma_filter_contains(keep, j);
    }
}

/// A list in ascending order of keys with one more item, which goes
/// behind every item whose key is not larger than its own.
pub open spec fn inserted<T: HasOrd>(sorted: Seq<T>, item: T) -> Seq<T>
    decreases sorted.len(),
{
    if sorted.len() == 0 || sorted.last().ord_key() <= item.ord_key() {
        sorted.push(item)
    } else {
        inserted(sorted.drop_last(), item).push(sorted.last())
    }
}

/// A list in ascending order of keys. Items with equal keys stay in the
/// order in which they were.
pub open spec fn sorted_by_ord<T: HasOrd>(list: Seq<T>) -> Seq<T>
    decreases list.len(),
{
    if list.len() == 0 {
        list
    } else {
        inserted(sorted_by_ord(list.drop_last()), list.last())
    }
}

/// Whether the keys of a list never fall from an item to the next.
pub open spec fn is_ascending<T: HasOrd>(list: Seq<T>) -> bool {
    forall|i: int, j: int|
        0 <= i <= j < list.len() ==> (#[trigger] list[i]).ord_key() <= (#[trigger] list[j]).ord_key()
}

/// An item goes to the place behind the last item whose key is not
/// larger than its own.
proof fn lemma_inserted_at<T: HasOrd>(sorted: Seq<T>, item: T, at: int)
    requires
        0 <= at <= sorted.len(),
        forall|k: int| at <= k < sorted.len() ==> (#[trigger] sorted[k]).ord_key() > item.ord_key(),
        at > 0 ==> sorted[at - 1].ord_key() <= item.ord_key(),
    ensures
        inserted(sorted, item) == sorted.insert(at, item),
    decreases sorted.len() - at,
{
    if at == sorted.len() {
        assert(sorted.insert(at, item) =~= sorted.push(item));
    } else {
        let rest = sorted.drop_last();
        assert(sorted[sorted.len() - 1].ord_key() > item.ord_key());
        assert forall|k: int| at <= k < rest.len() implies (#[trigger] rest[k]).ord_key()
            > item.ord_key() by {
            assert(rest[k] == sorted[k]);
        }
        lemma_inserted_at(rest, item, at);
        assert(rest.insert(at, item).push(sorted.last()) =~= sorted.insert(at, item));
    }
}

/// Puts a list into ascending order of keys. Items with equal keys stay
/// in the order in which they were.
pub fn sort_by_ord<T: HasOrd>(list: Vec<T>) -> (sorted: Vec<T>)
    ensures
        sorted@ == sorted_by_ord(list@),
{
    let ghost all = list@;
    let mut sorted: Vec<T> = Vec::new();
    for item in it: list
        invariant
            it.seq() == all,
            sorted@ == sorted_by_ord(all.take(it.index() as int)),
    {
        proof {
            assert(all.take(it.index() + 1).drop_last() == all.take(it.index() as int));
            assert(all.take(it.index() + 1).last() == item);
        }
        let key = item.ord();
        let mut at: usize = sorted.len();
        while at > 0 && sorted[at - 1].ord() > key
            invariant
                at <= sorted.len(),
                key == item.ord_key(),
                forall|k: int| at <= k < sorted.len() ==> (#[trigger] sorted@[k]).ord_key() > key,
            decreases at,
        {
            at -= 1;
        }
        proof {
            lemma_inserted_at(sorted@, item, at as int);
        }
        sorted.insert(at, item);
    }
    proof {
        assert(all.take(all.len() as int) == all);
    }
    sorted
}

/// A list in ascending order stays so with one more item, and holds that
/// item besides what it held.
proof fn lemma_inserted_is_ascending<T: HasOrd>(sorted: Seq<T>, item: T)
    requires
        is_ascending(sorted),
    ensures
        is_ascending(inserted(sorted, item)),
        inserted(sorted, item).len() == sorted.len() + 1,
        inserted(sorted, item).to_multiset() == sorted.to_multiset().insert(item),
        forall|i: int|
            0 <= i < inserted(sorted, item).len() ==> (#[trigger] inserted(sorted, item)[i])
                == item || sorted.contains(inserted(sorted, item)[i]),
    decreases sorted.len(),
{
    sorted.to_multiset_ensures();
    if sorted.len() == 0 || sorted.last().ord_key() <= item.ord_key() {
        let out = sorted.push(item);
        assert forall|i: int, j: int| 0 <= i <= j < out.len() implies (#[trigger] out[i]).ord_key()
            <= (#[trigger] out[j]).ord_key() by {
            if j == sorted.len() && i < sorted.len() {
                assert(sorted[i].ord_key() <= sorted[sorted.len() - 1].ord_key());
            }
        }
        assert forall|i: int| 0 <= i < out.len() implies (#[trigger] out[i]) == item
            || sorted.contains(out[i]) by {
            if i < sorted.len() {
                assert(sorted[i] == out[i]);
            }
        }
    } else {
        let rest = sorted.drop_last();
        let last = sorted.last();
        assert forall|i: int, j: int| 0 <= i <= j < rest.len() implies (#[trigger] rest[i]).ord_key()
            <= (#[trigger] rest[j]).ord_key() by {
            assert(rest[i] == sorted[i] && rest[j] == sorted[j]);
        }
        lemma_inserted_is_ascending(rest, item);
        let head = inserted(rest, item);
        let out = head.push(last);
        assert forall|i: int, j: int| 0 <= i <= j < out.len() implies (#[trigger] out[i]).ord_key()
            <= (#[trigger] out[j]).ord_key() by {
            if j == head.len() && i < head.len() {
                if head[i] == item {
                } else {
                    assert(rest.contains(head[i]));
                    let k = choose|k: int| 0 <= k < rest.len() && rest[k] == head[i];
                    assert(sorted[k].ord_key() <= sorted[sorted.len() - 1].ord_key());
                }
            }
        }
        assert forall|i: int| 0 <= i < out.len() implies (#[trigger] out[i]) == item
            || sorted.contains(out[i]) by {
            if i < head.len() {
                if head[i] != item {
                    let k = choose|k: int| 0 <= k < rest.len() && rest[k] == head[i];
                    assert(sorted[k] == out[i]);
                }
            } else {
                assert(sorted[sorted.len() - 1] == out[i]);
            }
        }
        head.to_multiset_ensures();
        rest.to_multiset_ensures();
        assert(rest.push(last) == sorted);
        assert(out.to_multiset() =~= sorted.to_multiset().insert(item));
    }
}

/// A sorted list is in ascending order of keys and holds what the list
/// held, each item as often.
pub proof fn law_sort_orders_and_keeps<T: HasOrd>(list: Seq<T>)
    ensures
        is_ascending(sorted_by_ord(list)),
        sorted_by_ord(list).len() == list.len(),
        sorted_by_ord(list).to_multiset() == list.to_multiset(),
    decreases list.len(),
{
    if list.len() > 0 {
        law_sort_orders_and_keeps(list.drop_last());
        lemma_inserted_is_ascending(sorted_by_ord(list.drop_last()), list.last());
        list.drop_last().to_multiset_ensures();
        assert(list.drop_last().push(list.last()) == list);
    }
}

} // verus!
