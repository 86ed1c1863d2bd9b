//! Small things that the commands share: reading the identity of a work
//! out of what the user gave, and choosing the unit for a count of bytes.
use vstd::prelude::*;
use crate::cache::EpisodeCache;
use crate::exports::groups_of;
use crate::exports::members_of;
use crate::exports::Item;
use crate::text::all_digits;
use crate::text::chars_of;
use crate::text::decimal_of;
use crate::text::is_first_occurrence;
use crate::text::law_decimal_round_trip;
use crate::text::lemma_decimal_is_digits;
use crate::text::occurs_at;
use crate::text::find;
use crate::text::first_occurrence;
use crate::text::is_digit;
use crate::text::parse_u32;
use crate::text::parsed_u32;
use crate::text::string_of;
use crate::text::up_to;

verus! {

/// Whether a character is numeric, as `char::is_numeric` says.
pub uninterp spec fn is_numeric_char(c: char) -> bool;

/// `char::is_numeric` tells whether a character belongs to one of
/// Unicode's categories of numbers, which depends on the character alone.
/// The ten decimal digits do.
pub assume_specification[ char::is_numeric ](c: char) -> (numeric: bool)
    ensures
        numeric == is_numeric_char(c),
        is_digit(c) ==> numeric,
;

/// Whether a character counts as numeric: the ten decimal digits do, and
/// whatever else `char::is_numeric` says so of.
pub open spec fn is_numeric(c: char) -> bool {
    is_digit(c) || is_numeric_char(c)
}

/// The longest head of a text that is made of numeric characters.
pub open spec fn numeric_prefix(s: Seq<char>) -> Seq<char>
    decreases s.len(),
{
    if s.len() > 0 && is_numeric(s[0]) {
        seq![s[0]] + numeric_prefix(s.drop_first())
    } else {
        Seq::<char>::empty()
    }
}

/// The mark that stands before a work's identity in a link.
pub open spec fn id_mark() -> Seq<char> {
    seq!['m', 'c']
}

/// The identity that a link names: the numeric characters that follow its
/// first mark, read as a number. A text without the mark names none.
pub open spec fn link_id(s: Seq<char>) -> Option<u32> {
    match first_occurrence(s, id_mark()) {
        Some(i) => parsed_u32(numeric_prefix(up_to(s.skip(i + 2), id_mark()))),
        None => None,
    }
}

/// The identity of a work in what the user gave: the number itself, or
/// the identity that a link names.
pub open spec fn parsed_id(s: Seq<char>) -> Option<u32> {
    match parsed_u32(s) {
        Some(id) => Some(id),
        None => link_id(s),
    }
}

/// Reads the identity of a work out of `s`, which is the identity itself
/// or a link that names it.
pub fn parse_id(s: String) -> (id: Option<u32>)
    ensures
        id == parsed_id(s@),
{
    match parse_u32(s.as_str()) {
        Some(id) => {
            return Some(id);
        },
        None => {},
    }
    let chars = chars_of(s.as_str());
    let mark: Vec<char> = vec!['m', 'c'];
    assert(mark@ =~= id_mark());
    assert(chars@.skip(0) == chars@);
    let start = match find(&chars, &mark, 0) {
        Some(i) => i + 2,
        None => {
            return None;
        },
    };
    let ghost after = chars@.skip(start as int);
    let end = match find(&chars, &mark, start) {
        Some(j) => j,
        None => chars.len(),
    };
    let ghost piece = up_to(after, id_mark());
    assert(piece == chars@.subrange(start as int, end as int)) by {
        assert(after.take(end - start) =~= chars@.subrange(start as int, end as int));
        assert(after =~= chars@.subrange(start as int, chars.len() as int));
    }
    let mut digits: Vec<char> = Vec::new();
    let mut i: usize = start;
    assert(piece.skip(0) == piece);
    while i < end && chars[i].is_numeric()
        invariant
            start <= i <= end <= chars.len(),
            piece == chars@.subrange(start as int, end as int),
            numeric_prefix(piece) == digits@ + numeric_prefix(piece.skip(i - start)),
        decreases end - i,
    {
        proof {
            let rest = piece.skip(i - start);
            assert(rest[0] == chars@[i as int]);
            assert(rest.drop_first() == piece.skip(i - start + 1));
            assert(digits@.push(chars@[i as int]) + numeric_prefix(rest.drop_first()) =~= digits@
                + (seq![rest[0]] + numeric_prefix(rest.drop_first())));
        }
        digits.push(chars[i]);
        i += 1;
    }
    proof {
        let rest = piece.skip(i - start);
        if i < end {
            assert(rest[0] == chars@[i as int]);
        }
        assert(numeric_prefix(rest) == Seq::<char>::empty());
        assert(digits@ + Seq::<char>::empty() =~= digits@);
    }
    let text = string_of(&digits);
    parse_u32(text.as_str())
}

/// A text of decimal digits is its own numeric head.
proof fn lemma_digits_are_numeric(s: Seq<char>)
    requires
        all_digits(s),
    ensures
        numeric_prefix(s) == s,
    decreases s.len(),
{
    if s.len() > 0 {
        assert(is_digit(s[0]));
        let rest = s.drop_first();
        assert forall|i: int| 0 <= i < rest.len() implies is_digit(#[trigger] rest[i]) by {
            assert(rest[i] == s[i + 1]);
        }
        lemma_digits_are_numeric(rest);
        assert(seq![s[0]] + rest =~= s);
    }
}

/// A link that ends with its mark and the decimal text of an identity
/// names that identity, and so does the decimal text alone.
pub proof fn law_link_names_its_identity(id: u32)
    ensures
        parsed_id(decimal_of(id as nat)) == Some(id),
        parsed_id(id_mark() + decimal_of(id as nat)) == Some(id),
{
    let digits = decimal_of(id as nat);
    let link = id_mark() + digits;
    law_decimal_round_trip(id);
    lemma_decimal_is_digits(id as nat);
    assert(link[0] == 'm');
    assert(parsed_u32(link) is None) by {
        assert(!is_digit(link[0]));
    }
    assert(link.subrange(0, 2) =~= id_mark());
    assert(is_first_occurrence(link, id_mark(), 0));
    let first = choose|i: int| is_first_occurrence(link, id_mark(), i);
    assert(first == 0);
    assert(link.skip(2) =~= digits);
    assert forall|j: int| !occurs_at(digits, id_mark(), j) by {
        if occurs_at(digits, id_mark(), j) {
            assert(digits.subrange(j, j + 2)[0] == 'm');
            assert(is_digit(digits[j]));
        }
    }
    lemma_digits_are_numeric(digits);
}

/// The units in which a count of bytes is shown, each 1024 of the one
/// before.
#[derive(Debug, Clone, Copy, PartialEq, Eq, Structural)]
pub enum ByteUnit {
    B,
    KB,
    MB,
    GB,
    TB,
}

/// A count of bytes in its unit: the whole units, and the bytes beyond
/// them.
#[derive(Debug, Clone, Copy, PartialEq, Eq, Structural)]
pub struct ByteSize {
    pub whole: u64,
    pub rest: u64,
    pub unit: ByteUnit,
}

pub const KB_BYTES: u64 = 1024;

pub const MB_BYTES: u64 = 1_048_576;

pub const GB_BYTES: u64 = 1_073_741_824;

pub const TB_BYTES: u64 = 1_099_511_627_776;

/// The bytes that make one of a unit.
pub open spec fn unit_bytes(unit: ByteUnit) -> u64 {
    match unit {
        ByteUnit::B => 1,
        ByteUnit::KB => KB_BYTES,
        ByteUnit::MB => MB_BYTES,
        ByteUnit::GB => GB_BYTES,
        ByteUnit::TB => TB_BYTES,
    }
}

/// The unit for a count of bytes: the next larger unit is taken for a
/// count of more than 1024 of a unit, up to the largest.
pub open spec fn unit_for(bytes: u64) -> ByteUnit {
    if bytes <= KB_BYTES {
        ByteUnit::B
    } else if bytes <= MB_BYTES {
        ByteUnit::KB
    } else if bytes <= GB_BYTES {
        ByteUnit::MB
    } else if bytes <= TB_BYTES {
        ByteUnit::GB
    } else {
        ByteUnit::TB
    }
}

impl ByteUnit {
    /// The bytes that make one of the unit.
    pub fn bytes(&self) -> (n: u64)
        ensures
            n == unit_bytes(*self),
    {
        match self {
            ByteUnit::B => 1,
            ByteUnit::KB => KB_BYTES,
            ByteUnit::MB => MB_BYTES,
            ByteUnit::GB => GB_BYTES,
            ByteUnit::TB => TB_BYTES,
        }
    }

    /// The name of the unit.
    pub fn label(&self) -> (name: &'static str)
        ensures
            name@ == match *self {
                ByteUnit::B => "B"@,
                ByteUnit::KB => "KB"@,
                ByteUnit::MB => "MB"@,
                ByteUnit::GB => "GB"@,
                ByteUnit::TB => "TB"@,
            },
    {
        match self {
            ByteUnit::B => "B",
            ByteUnit::KB => "KB",
            ByteUnit::MB => "MB",
            ByteUnit::GB => "GB",
            ByteUnit::TB => "TB",
        }
    }
}

/// Puts a count of bytes into the unit in which it is shown.
pub fn bytes_with_unit(bytes: u64) -> (size: ByteSize)
    ensures
        size.unit == unit_for(bytes),
        size.whole == bytes / unit_bytes(unit_for(bytes)),
        size.rest == bytes % unit_bytes(unit_for(bytes)),
        size.whole * unit_bytes(size.unit) + size.rest == bytes,
{
    let unit = if bytes <= KB_BYTES {
        ByteUnit::B
    } else if bytes <= MB_BYTES {
        ByteUnit::KB
    } else if bytes <= GB_BYTES {
        ByteUnit::MB
    } else if bytes <= TB_BYTES {
        ByteUnit::GB
    } else {
        ByteUnit::TB
    };
    let per = unit.bytes();
    let whole = bytes / per;
    let rest = bytes % per;
    assert(whole * per + rest == bytes) by (nonlinear_arith)
        requires
            per > 0,
            whole == bytes / per,
            rest == bytes % per,
    ;
    ByteSize { whole, rest, unit }
}

/// Cuts a list of episodes into groups of `num`, the last of which may be
/// smaller. With `num` zero the whole list, if it is not empty, is one
/// group.
pub fn make_groups<'a>(list: Vec<&'a EpisodeCache>, num: usize) -> (groups: Vec<Item<'a>>)
    ensures
        members_of(groups@) == groups_of(list@, num as nat),
        forall|i: int| 0 <= i < groups@.len() ==> #[trigger] groups@[i] is Group,
{
    let ghost all = list@;
    let mut groups: Vec<Item<'a>> = Vec::new();
    let mut group: Vec<&'a EpisodeCache> = Vec::new();
    proof {
        assert(all.skip(0) == all);
        assert(group@ + all == all);
        assert(members_of(groups@) + groups_of(all, num as nat) =~= groups_of(all, num as nat));
    }
    for item in it: list
        invariant
            it.seq() == all,
            num == 0 || group@.len() < num,
            members_of(groups@) + groups_of(group@ + all.skip(it.index() as int), num as nat)
                == groups_of(all, num as nat),
            forall|i: int| 0 <= i < groups@.len() ==> #[trigger] groups@[i] is Group,
    {
        let ghost rest = all.skip(it.index() + 1);
        let ghost before = members_of(groups@);
        proof {
            assert(group@.push(item) + rest =~= group@ + all.skip(it.index() as int));
        }
        group.push(item);
        if group.len() == num {
            let ghost full = group@;
            proof {
                if rest.len() == 0 {
                    assert(full + rest =~= full);
                    assert(groups_of(full + rest, num as nat) =~= seq![full] + groups_of(
                        rest,
                        num as nat,
                    ));
                } else {
                    assert((full + rest).take(num as int) =~= full);
                    assert((full + rest).skip(num as int) =~= rest);
                }
                assert(Seq::<&'a EpisodeCache>::empty() + rest =~= rest);
            }
            groups.push(Item::Group(group));
            group = Vec::new();
            proof {
                assert(members_of(groups@) =~= before.push(full));
                assert(before.push(full) + groups_of(rest, num as nat) =~= before + (seq![full]
                    + groups_of(rest, num as nat)));
            }
        }
    }
    proof {
        assert(all.skip(all.len() as int) =~= Seq::<&'a EpisodeCache>::empty());
        assert(group@ + Seq::<&'a EpisodeCache>::empty() =~= group@);
    }
    let ghost before = members_of(groups@);
    if group.len() > 0 {
        let ghost tail = group@;
        groups.push(Item::Group(group));
        proof {
            assert(members_of(groups@) =~= before.push(tail));
            assert(before.push(tail) =~= before + seq![tail]);
        }
    } else {
        proof {
            assert(before + Seq::<Seq<&'a EpisodeCache>>::empty() =~= before);
        }
    }
    groups
}

} // verus!
