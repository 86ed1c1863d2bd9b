//! Text as sequences of characters: the conversions and the small
//! searches that the rest of the library is built on.
use vstd::prelude::*;

verus! {

/// `String::push` appends one character.
pub assume_specification[ String::push ](s: &mut String, ch: char)
    ensures
        final(s)@ == old(s)@.push(ch),
;

/// The characters of `s`, in order.
pub fn chars_of(s: &str) -> (out: Vec<char>)
    ensures
        out@ == s@,
{
    let mut out: Vec<char> = Vec::new();
    for c in it: s.chars()
        invariant
            out@ == it.seq().take(it.index() as int),
            it.seq() == s@,
    {
        out.push(c);
    }
    out
}

/// The string made of the characters of `chars`, in order.
pub fn string_of(chars: &Vec<char>) -> (out: String)
    ensures
        out@ == chars@,
{
    let mut out = String::new();
    let mut i: usize = 0;
    while i < chars.len()
        invariant
            i <= chars.len(),
            out@ == chars@.take(i as int),
        decreases chars.len() - i,
    {
        out.push(chars[i]);
        i += 1;
    }
    out
}

/// The views of a list of character vectors.
pub open spec fn views(pieces: Seq<Vec<char>>) -> Seq<Seq<char>> {
    pieces.map_values(|piece: Vec<char>| piece@)
}

/// The pieces of `s` between the occurrences of `sep`, in order. An empty
/// text has one empty piece; each separator closes a piece and opens the
/// next; any other character extends the piece that is open.
pub open spec fn split(s: Seq<char>, sep: char) -> Seq<Seq<char>>
    decreases s.len(),
{
    if s.len() == 0 {
        seq![Seq::<char>::empty()]
    } else {
        let before = split(s.drop_last(), sep);
        if s.last() == sep {
            before.push(Seq::<char>::empty())
        } else {
            before.drop_last().push(before.last().push(s.last()))
        }
    }
}

/// A split text has at least one piece.
pub proof fn lemma_split_len(s: Seq<char>, sep: char)
    ensures
        split(s, sep).len() >= 1,
    decreases s.len(),
{
    if s.len() > 0 {
        lemma_split_len(s.drop_last(), sep);
    }
}

/// The pieces of a text with the separator between them.
pub open spec fn joined(pieces: Seq<Seq<char>>, sep: char) -> Seq<char>
    decreases pieces.len(),
{
    if pieces.len() == 0 {
        Seq::<char>::empty()
    } else if pieces.len() == 1 {
        pieces[0]
    } else {
        joined(pieces.drop_last(), sep) + seq![sep] + pieces.last()
    }
}

/// A split loses nothing and leaves no separator: its pieces, with the
/// separator between them, are the text, and no piece holds a separator.
pub proof fn law_split_rejoins(s: Seq<char>, sep: char)
    ensures
        joined(split(s, sep), sep) == s,
        forall|i: int, j: int|
            0 <= i < split(s, sep).len() && 0 <= j < split(s, sep)[i].len() ==> (
            #[trigger] split(s, sep)[i][j]) != sep,
    decreases s.len(),
{
    if s.len() > 0 {
        let head = s.drop_last();
        let before = split(head, sep);
        law_split_rejoins(head, sep);
        lemma_split_len(head, sep);
        let pieces = split(s, sep);
        if s.last() == sep {
            assert(pieces.drop_last() == before);
            assert(joined(pieces, sep) =~= head.push(sep));
            assert(head.push(sep) == s);
            assert forall|i: int, j: int|
                0 <= i < pieces.len() && 0 <= j < pieces[i].len() implies (
            #[trigger] pieces[i][j]) != sep by {
                assert(pieces[i] == before[i]);
            }
        } else {
            let last = before.last().push(s.last());
            if before.len() == 1 {
                assert(joined(before, sep) == before[0]);
                assert(pieces[0] == last);
                assert(joined(pieces, sep) =~= head.push(s.last()));
            } else {
                assert(pieces.drop_last() == before.drop_last());
                assert(joined(pieces, sep) =~= (joined(before.drop_last(), sep) + seq![sep]
                    + before.last()).push(s.last()));
            }
            assert(head.push(s.last()) == s);
            assert forall|i: int, j: int|
                0 <= i < pieces.len() && 0 <= j < pieces[i].len() implies (
            #[trigger] pieces[i][j]) != sep by {
                if i < pieces.len() - 1 {
                    assert(pieces[i] == before[i]);
                } else if j < before.last().len() {
                    assert(pieces[i][j] == before[before.len() - 1][j]);
                }
            }
        }
    }
}

/// Splits `s` at every occurrence of `sep`.
pub fn split_chars(s: &Vec<char>, sep: char) -> (pieces: Vec<Vec<char>>)
    ensures
        views(pieces@) == split(s@, sep),
        pieces@.len() >= 1,
{
    let mut pieces: Vec<Vec<char>> = Vec::new();
    let mut open_piece: Vec<char> = Vec::new();
    let mut i: usize = 0;
    while i < s.len()
        invariant
            i <= s.len(),
            views(pieces@).push(open_piece@) == split(s@.take(i as int), sep),
        decreases s.len() - i,
    {
        let c = s[i];
        proof {
            assert(s@.take(i + 1).drop_last() == s@.take(i as int));
            assert(s@.take(i + 1).last() == c);
        }
        let ghost before = views(pieces@).push(open_piece@);
        if c == sep {
            pieces.push(open_piece);
            open_piece = Vec::new();
            assert(views(pieces@) == before);
        } else {
            open_piece.push(c);
            assert(before.drop_last() == views(pieces@));
        }
        i += 1;
    }
    proof {
        assert(s@.take(s.len() as int) == s@);
    }
    pieces.push(open_piece);
    pieces
}

/// The views of a list of strings.
pub open spec fn texts(list: Seq<String>) -> Seq<Seq<char>> {
    list.map_values(|text: String| text@)
}

/// A copy of a list of strings.
pub fn clone_texts(list: &Vec<String>) -> (out: Vec<String>)
    ensures
        texts(out@) == texts(list@),
{
    let mut out: Vec<String> = Vec::new();
    let mut i: usize = 0;
    while i < list.len()
        invariant
            i <= list.len(),
            texts(out@) == texts(list@.take(i as int)),
        decreases list.len() - i,
    {
        let ghost before = texts(out@);
        out.push(list[i].clone());
        assert(texts(out@) =~= before.push(list@[i as int]@));
        assert(texts(list@.take(i + 1)) =~= texts(list@.take(i as int)).push(list@[i as int]@));
        i += 1;
    }
    proof {
        assert(list@.take(list.len() as int) == list@);
    }
    out
}

/// Whether `list` holds a string with the characters of `text`.
pub fn has_text(list: &Vec<String>, text: &String) -> (found: bool)
    ensures
        found == texts(list@).contains(text@),
{
    let mut i: usize = 0;
    while i < list.len()
        invariant
            i <= list.len(),
            forall|j: int| 0 <= j < i ==> texts(list@)[j] != text@,
        decreases list.len() - i,
    {
        if list[i] == *text {
            assert(texts(list@)[i as int] == text@);
            return true;
        }
        i += 1;
    }
    false
}

/// The last piece of a path between slashes: the name of the file that the
/// path leads to.
pub open spec fn base_name_of(path: Seq<char>) -> Seq<char> {
    split(path, '/').last()
}

/// The name of the file that `path` leads to.
pub fn base_name(path: &str) -> (name: String)
    ensures
        name@ == base_name_of(path@),
{
    let chars = chars_of(path);
    let pieces = split_chars(&chars, '/');
    proof {
        assert(views(pieces@)[pieces@.len() - 1] == pieces@[pieces@.len() - 1]@);
    }
    string_of(&pieces[pieces.len() - 1])
}

/// Whether `c` is one of the ten decimal digits.
pub open spec fn is_digit(c: char) -> bool {
    '0' <= c <= '9'
}

/// The value of a decimal digit.
pub open spec fn digit_value(c: char) -> nat {
    (c as u32 - '0' as u32) as nat
}

/// Whether a text is made of decimal digits alone.
pub open spec fn all_digits(s: Seq<char>) -> bool {
    forall|i: int| 0 <= i < s.len() ==> is_digit(#[trigger] s[i])
}

/// The number that a text of decimal digits writes.
pub open spec fn digits_value(s: Seq<char>) -> nat
    decreases s.len(),
{
    if s.len() == 0 {
        0
    } else {
        digits_value(s.drop_last()) * 10 + digit_value(s.last())
    }
}

/// A text without the plus sign that may stand at its head.
pub open spec fn unsigned_part(s: Seq<char>) -> Seq<char> {
    if s.len() > 0 && s[0] == '+' {
        s.drop_first()
    } else {
        s
    }
}

/// The number that a text writes, as the parser of unsigned 32-bit
/// numbers reads it: decimal digits, at least one, after an optional plus
/// sign, with a value that fits.
pub open spec fn parsed_u32(s: Seq<char>) -> Option<u32> {
    let digits = unsigned_part(s);
    if digits.len() > 0 && all_digits(digits) && digits_value(digits) <= u32::MAX {
        Some(digits_value(digits) as u32)
    } else {
        None
    }
}

/// A longer text of digits writes no smaller number than its head.
pub proof fn lemma_digits_value_grows(s: Seq<char>, n: int)
    requires
        0 <= n <= s.len(),
    ensures
        digits_value(s.take(n)) <= digits_value(s),
    decreases s.len() - n,
{
    if n < s.len() {
        lemma_digits_value_grows(s, n + 1);
        assert(s.take(n + 1).drop_last() == s.take(n));
    } else {
        assert(s.take(n) == s);
    }
}

/// Reads an unsigned 32-bit number.
pub fn parse_u32(s: &str) -> (value: Option<u32>)
    ensures
        value == parsed_u32(s@),
{
    let chars = chars_of(s);
    let start: usize = if chars.len() > 0 && chars[0] == '+' {
        1
    } else {
        0
    };
    let ghost digits = unsigned_part(s@);
    assert(digits == s@.skip(start as int));
    if start == chars.len() {
        return None;
    }
    let mut acc: u64 = 0;
    let mut i: usize = start;
    assert(digits.take(0) =~= Seq::<char>::empty());
    while i < chars.len()
        invariant
            start <= i <= chars.len(),
            chars@ == s@,
            digits == s@.skip(start as int),
            digits == unsigned_part(s@),
            digits.len() > 0,
            all_digits(digits.take(i - start)),
            acc == digits_value(digits.take(i - start)),
            acc <= u32::MAX,
        decreases chars.len() - i,
    {
        let c = chars[i];
        assert(digits[i - start] == c);
        if !(c >= '0' && c <= '9') {
            assert(!is_digit(digits[i - start]));
            return None;
        }
        let d: u64 = (c as u32 - '0' as u32) as u64;
        proof {
            assert(digits.take(i - start + 1).drop_last() == digits.take(i - start));
            assert(digits.take(i - start + 1).last() == c);
            assert forall|j: int| 0 <= j < i - start + 1 implies is_digit(
                #[trigger] digits.take(i - start + 1)[j],
            ) by {
                if j < i - start {
                    assert(digits.take(i - start)[j] == digits.take(i - start + 1)[j]);
                }
            }
        }
        acc = acc * 10 + d;
        if acc > 0xffff_ffff {
            proof {
                assert(acc == digits_value(digits.take(i - start + 1)));
                lemma_digits_value_grows(digits, i - start + 1);
            }
            return None;
        }
        i += 1;
    }
    proof {
        assert(digits.take(chars.len() - start) == digits);
    }
    Some(acc as u32)
}

/// The decimal digit of a value below ten.
pub open spec fn digit_char(d: nat) -> char {
    if d == 0 {
        '0'
    } else if d == 1 {
        '1'
    } else if d == 2 {
        '2'
    } else if d == 3 {
        '3'
    } else if d == 4 {
        '4'
    } else if d == 5 {
        '5'
    } else if d == 6 {
        '6'
    } else if d == 7 {
        '7'
    } else if d == 8 {
        '8'
    } else {
        '9'
    }
}

/// The decimal text of a number, without leading zeros.
pub open spec fn decimal_of(n: nat) -> Seq<char>
    decreases n,
{
    if n < 10 {
        seq![digit_char(n)]
    } else {
        decimal_of(n / 10).push(digit_char(n % 10))
    }
}

/// The decimal digit of a value below ten.
fn digit_of(d: u32) -> (c: char)
    requires
        d < 10,
    ensures
        c == digit_char(d as nat),
{
    if d == 0 {
        '0'
    } else if d == 1 {
        '1'
    } else if d == 2 {
        '2'
    } else if d == 3 {
        '3'
    } else if d == 4 {
        '4'
    } else if d == 5 {
        '5'
    } else if d == 6 {
        '6'
    } else if d == 7 {
        '7'
    } else if d == 8 {
        '8'
    } else {
        '9'
    }
}

/// Appends the decimal text of `n` to `out`.
pub fn push_decimal(n: u64, out: &mut Vec<char>)
    ensures
        final(out)@ == old(out)@ + decimal_of(n as nat),
    decreases n,
{
    if n >= 10 {
        push_decimal(n / 10, out);
    }
    out.push(digit_of((n % 10) as u32));
    assert(out@ =~= old(out)@ + decimal_of(n as nat));
}

/// The decimal text of `n`.
pub fn u32_text(n: u32) -> (text: String)
    ensures
        text@ == decimal_of(n as nat),
{
    let mut chars: Vec<char> = Vec::new();
    push_decimal(n as u64, &mut chars);
    assert(chars@ =~= decimal_of(n as nat));
    string_of(&chars)
}

/// The decimal text of a number is made of digits and writes the number.
pub proof fn lemma_decimal_is_digits(n: nat)
    ensures
        decimal_of(n).len() > 0,
        all_digits(decimal_of(n)),
        digits_value(decimal_of(n)) == n,
    decreases n,
{
    if n < 10 {
        assert(decimal_of(n).drop_last() =~= Seq::<char>::empty());
        assert(digits_value(decimal_of(n).drop_last()) == 0);
    } else {
        lemma_decimal_is_digits(n / 10);
        assert(decimal_of(n).drop_last() =~= decimal_of(n / 10));
    }
}

/// Reading the decimal text of a number gives the number back.
pub proof fn law_decimal_round_trip(n: u32)
    ensures
        parsed_u32(decimal_of(n as nat)) == Some(n),
{
    lemma_decimal_is_digits(n as nat);
    assert(is_digit(decimal_of(n as nat)[0]));
}

/// Whether a text ends with another.
pub open spec fn ends_with(s: Seq<char>, suffix: Seq<char>) -> bool {
    s.len() >= suffix.len() && s.subrange(s.len() - suffix.len(), s.len() as int) == suffix
}

/// Whether `s` ends with `suffix`.
pub fn has_suffix(s: &Vec<char>, suffix: &Vec<char>) -> (found: bool)
    ensures
        found == ends_with(s@, suffix@),
{
    if s.len() < suffix.len() {
        return false;
    }
    let offset: usize = s.len() - suffix.len();
    let mut i: usize = 0;
    while i < suffix.len()
        invariant
            i <= suffix.len(),
            offset + suffix.len() == s.len(),
            forall|j: int| 0 <= j < i ==> s@[offset + j] == suffix@[j],
        decreases suffix.len() - i,
    {
        if s[offset + i] != suffix[i] {
            assert(s@.subrange(s.len() - suffix.len(), s.len() as int)[i as int] != suffix@[i as int]);
            return false;
        }
        i += 1;
    }
    assert(s@.subrange(s.len() - suffix.len(), s.len() as int) =~= suffix@);
    true
}

/// Whether `pattern` stands in `s` at the index `i`.
pub open spec fn occurs_at(s: Seq<char>, pattern: Seq<char>, i: int) -> bool {
    0 <= i && i + pattern.len() <= s.len() && s.subrange(i, i + pattern.len()) == pattern
}

/// Whether `i` is the first index at which `pattern` stands in `s`.
pub open spec fn is_first_occurrence(s: Seq<char>, pattern: Seq<char>, i: int) -> bool {
    occurs_at(s, pattern, i) && forall|j: int| 0 <= j < i ==> !occurs_at(s, pattern, j)
}

/// The first index at which `pattern` stands in `s`, if it stands in it.
pub open spec fn first_occurrence(s: Seq<char>, pattern: Seq<char>) -> Option<int> {
    if exists|i: int| is_first_occurrence(s, pattern, i) {
        Some(choose|i: int| is_first_occurrence(s, pattern, i))
    } else {
        None
    }
}

/// Whether `pattern` stands in `s` at the index `i`.
pub fn stands_at(s: &Vec<char>, pattern: &Vec<char>, i: usize) -> (found: bool)
    ensures
        found == occurs_at(s@, pattern@, i as int),
{
    if i > s.len() || s.len() - i < pattern.len() {
        return false;
    }
    let mut k: usize = 0;
    while k < pattern.len()
        invariant
            k <= pattern.len(),
            i + pattern.len() <= s.len(),
            forall|j: int| 0 <= j < k ==> s@[i + j] == pattern@[j],
        decreases pattern.len() - k,
    {
        if s[i + k] != pattern[k] {
            assert(s@.subrange(i as int, i + pattern.len())[k as int] != pattern@[k as int]);
            return false;
        }
        k += 1;
    }
    assert(s@.subrange(i as int, i + pattern.len()) =~= pattern@);
    true
}

/// The first index from `from` on at which `pattern` stands in `s`.
pub fn find(s: &Vec<char>, pattern: &Vec<char>, from: usize) -> (found: Option<usize>)
    requires
        from <= s.len(),
    ensures
        match found {
            Some(i) => from <= i && i + pattern.len() <= s.len() && first_occurrence(
                s@.skip(from as int),
                pattern@,
            ) == Some(i - from),
            None => first_occurrence(s@.skip(from as int), pattern@) is None,
        },
{
    let ghost rest = s@.skip(from as int);
    if pattern.len() == 0 {
        proof {
            assert(rest.subrange(0, 0) =~= pattern@);
            assert(is_first_occurrence(rest, pattern@, 0));
            let k = choose|k: int| is_first_occurrence(rest, pattern@, k);
            assert(k == 0);
        }
        return Some(from);
    }
    let mut i: usize = from;
    while i < s.len() && s.len() - i >= pattern.len()
        invariant
            from <= i <= s.len(),
            pattern.len() > 0,
            rest == s@.skip(from as int),
            forall|j: int| 0 <= j < i - from ==> !occurs_at(rest, pattern@, j),
        decreases s.len() - i,
    {
        if stands_at(s, pattern, i) {
            proof {
                assert(rest.subrange(i - from, i - from + pattern@.len()) =~= s@.subrange(
                    i as int,
                    i + pattern@.len(),
                ));
                assert(is_first_occurrence(rest, pattern@, i - from));
                let k = choose|k: int| is_first_occurrence(rest, pattern@, k);
                assert(k == i - from);
            }
            return Some(i);
        }
        proof {
            if occurs_at(rest, pattern@, i - from) {
                assert(rest.subrange(i - from, i - from + pattern@.len()) =~= s@.subrange(
                    i as int,
                    i + pattern@.len(),
                ));
            }
        }
        i += 1;
    }
    proof {
        assert forall|j: int| !is_first_occurrence(rest, pattern@, j) by {
            if occurs_at(rest, pattern@, j) {
                assert(j + pattern@.len() <= rest.len());
                assert(j < i - from);
            }
        }
    }
    None
}

/// The text of `s` before the first place at which `pattern` stands in
/// it, or all of `s` where it stands nowhere.
pub open spec fn up_to(s: Seq<char>, pattern: Seq<char>) -> Seq<char> {
    match first_occurrence(s, pattern) {
        Some(j) => s.take(j),
        None => s,
    }
}

/// Appends the characters of `s` to `out`.
pub fn push_str(out: &mut Vec<char>, s: &str)
    ensures
        final(out)@ == old(out)@ + s@,
{
    let chars = chars_of(s);
    let mut i: usize = 0;
    while i < chars.len()
        invariant
            i <= chars.len(),
            chars@ == s@,
            out@ == old(out)@ + s@.take(i as int),
        decreases chars.len() - i,
    {
        out.push(chars[i]);
        assert(out@ =~= old(out)@ + s@.take(i + 1));
        i += 1;
    }
    proof {
        assert(s@.take(chars.len() as int) == s@);
    }
}

/// Whether a character is white space, as `char::is_whitespace` says.
pub uninterp spec fn is_whitespace_char(c: char) -> bool;

/// `char::is_whitespace` tells whether a character has Unicode's property
/// of white space, which depends on the character alone.
pub assume_specification[ char::is_whitespace ](c: char) -> (white: bool)
    ensures
        white == is_whitespace_char(c),
;

/// A text without the white space at its head.
pub open spec fn trimmed_start(s: Seq<char>) -> Seq<char>
    decreases s.len(),
{
    if s.len() > 0 && is_whitespace_char(s[0]) {
        trimmed_start(s.drop_first())
    } else {
        s
    }
}

/// A text without the white space at its end.
pub open spec fn trimmed_end(s: Seq<char>) -> Seq<char>
    decreases s.len(),
{
    if s.len() > 0 && is_whitespace_char(s.last()) {
        trimmed_end(s.drop_last())
    } else {
        s
    }
}

/// A text without the white space at its head and at its end.
pub open spec fn trimmed(s: Seq<char>) -> Seq<char> {
    trimmed_end(trimmed_start(s))
}

/// The characters of `s` without the white space at its head and at its
/// end.
pub fn trim_chars(s: &Vec<char>) -> (out: Vec<char>)
    ensures
        out@ == trimmed(s@),
{
    let mut start: usize = 0;
    assert(s@.skip(0) == s@);
    while start < s.len() && s[start].is_whitespace()
        invariant
            start <= s.len(),
            trimmed_start(s@) == trimmed_start(s@.skip(start as int)),
        decreases s.len() - start,
    {
        assert(s@.skip(start as int).drop_first() == s@.skip(start + 1));
        start += 1;
    }
    let ghost body = s@.skip(start as int);
    assert(trimmed_start(s@) == body);
    let mut end: usize = s.len();
    assert(body.take(end - start) == body);
    while end > start && s[end - 1].is_whitespace()
        invariant
            start <= end <= s.len(),
            body == s@.skip(start as int),
            trimmed_end(body) == trimmed_end(body.take(end - start)),
        decreases end - start,
    {
        assert(body.take(end - start).drop_last() == body.take(end - start - 1));
        end -= 1;
    }
    assert(trimmed_end(body) == body.take(end - start)) by {
        if end > start {
            assert(body.take(end - start).last() == s@[end - 1]);
        }
    }
    let mut out: Vec<char> = Vec::new();
    let mut i: usize = start;
    while i < end
        invariant
            start <= i <= end <= s.len(),
            body == s@.skip(start as int),
            out@ == body.take(i - start),
        decreases end - i,
    {
        out.push(s[i]);
        assert(out@ =~= body.take(i + 1 - start));
        i += 1;
    }
    out
}

/// The extension of a file name: what stands behind its last dot, where
/// it has a dot that is not its first character. The name `..` has none.
pub open spec fn extension_of(name: Seq<char>) -> Option<Seq<char>> {
    let parts = split(name, '.');
    if parts.len() >= 2 && name.len() > parts.last().len() + 1 && name != seq!['.', '.'] {
        Some(parts.last())
    } else {
        None
    }
}

/// The extension of a file name.
pub fn extension(name: &str) -> (ext: Option<String>)
    ensures
        match ext {
            Some(text) => extension_of(name@) == Some(text@),
            None => extension_of(name@) is None,
        },
{
    let chars = chars_of(name);
    let parts = split_chars(&chars, '.');
    let last = &parts[parts.len() - 1];
    proof {
        assert(views(parts@)[parts@.len() - 1] == parts@[parts@.len() - 1]@);
        assert(views(parts@).len() == parts@.len());
    }
    if parts.len() < 2 || chars.len() == 0 || chars.len() - 1 <= last.len() {
        return None;
    }
    if chars.len() == 2 && chars[0] == '.' && chars[1] == '.' {
        assert(name@ =~= seq!['.', '.']);
        return None;
    }
    proof {
        if name@ == seq!['.', '.'] {
            assert(seq!['.', '.'].len() == 2);
            assert(seq!['.', '.'][0] == '.' && seq!['.', '.'][1] == '.');
        }
    }
    Some(string_of(last))
}

} // verus!
