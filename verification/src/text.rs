//! Character-level text handling shared by the command line and the hotkey
//! bindings: white space, trimming, splitting and joining.

use vstd::prelude::*;

verus! {

/// The Unicode `White_Space` property, the definition that `char::is_whitespace`
/// and `str::trim` use.
pub open spec fn is_white_space(c: char) -> bool {
    ||| ('\u{9}' <= c && c <= '\u{d}')
    ||| c == ' '
    ||| c == '\u{85}'
    ||| c == '\u{a0}'
    ||| c == '\u{1680}'
    ||| ('\u{2000}' <= c && c <= '\u{200a}')
    ||| c == '\u{2028}'
    ||| c == '\u{2029}'
    ||| c == '\u{202f}'
    ||| c == '\u{205f}'
    ||| c == '\u{3000}'
}

/// Number of white-space characters at the start of `s`.
pub open spec fn leading_space(s: Seq<char>) -> nat
    decreases s.len(),
{
    if s.len() > 0 && is_white_space(s[0]) {
        1 + leading_space(s.drop_first())
    } else {
        0
    }
}

/// Number of white-space characters at the end of `s`.
pub open spec fn trailing_space(s: Seq<char>) -> nat
    decreases s.len(),
{
    if s.len() > 0 && is_white_space(s.last()) {
        1 + trailing_space(s.drop_last())
    } else {
        0
    }
}

/// `s` without leading and trailing white space, as `str::trim` gives it.
pub open spec fn trimmed(s: Seq<char>) -> Seq<char> {
    let start = leading_space(s);
    if start == s.len() {
        Seq::empty()
    } else {
        s.subrange(start as int, s.len() - trailing_space(s))
    }
}

/// `s` cut at every `sep`, keeping empty pieces, as `str::split` does: `""`
/// gives one empty piece and `"a++b"` gives `a`, an empty piece and `b`.
pub open spec fn split_on(s: Seq<char>, sep: char) -> Seq<Seq<char>>
    decreases s.len(),
{
    if s.len() == 0 {
        seq![Seq::<char>::empty()]
    } else {
        let pieces = split_on(s.drop_last(), sep);
        if s.last() == sep {
            pieces.push(Seq::<char>::empty())
        } else {
            pieces.update(pieces.len() - 1, pieces.last().push(s.last()))
        }
    }
}

/// The pieces joined with `sep` between neighbours.
pub open spec fn joined(pieces: Seq<Seq<char>>, sep: char) -> Seq<char>
    decreases pieces.len(),
{
    if pieces.len() == 0 {
        Seq::empty()
    } else if pieces.len() == 1 {
        pieces[0]
    } else {
        joined(pieces.drop_last(), sep) + seq![sep] + pieces.last()
    }
}

/// Where `sep` first occurs in `s`, if it does.
pub open spec fn first_index_of(s: Seq<char>, sep: char) -> Option<int> {
    if exists|i: int| 0 <= i < s.len() && s[i] == sep {
        Some(choose|i: int| 0 <= i < s.len() && s[i] == sep && forall|j: int| 0 <= j < i ==> s[j] != sep)
    } else {
        None
    }
}

/// An index holding `sep` with no `sep` before it is where `sep` first
/// occurs.
pub proof fn lemma_first_index_of(s: Seq<char>, sep: char, k: int)
    requires
        0 <= k < s.len(),
        s[k] == sep,
        forall|j: int| 0 <= j < k ==> s[j] != sep,
    ensures
        first_index_of(s, sep) == Some(k),
{
    let c = choose|c: int| 0 <= c < s.len() && s[c] == sep && forall|j: int| 0 <= j < c ==> s[j] != sep;
    assert(0 <= c < s.len() && s[c] == sep && forall|j: int| 0 <= j < c ==> s[j] != sep);
    if c < k {
        assert(s[c] != sep);
    }
    if c > k {
        assert(s[k] != sep);
    }
}

/// `s` begins with `prefix`.
pub open spec fn starts_with(s: Seq<char>, prefix: Seq<char>) -> bool {
    prefix.len() <= s.len() && s.take(prefix.len() as int) == prefix
}

/// When every character before `i` is white space and the one at `i` is not (or
/// `i` is the end), `i` is the length of the leading white space.
proof fn lemma_leading_space(s: Seq<char>, i: int)
    requires
        0 <= i <= s.len(),
        forall|k: int| 0 <= k < i ==> is_white_space(#[trigger] s[k]),
        i == s.len() || !is_white_space(s[i]),
    ensures
        leading_space(s) == i,
    decreases i,
{
    if i > 0 {
        assert forall|k: int| 0 <= k < i - 1 implies is_white_space(#[trigger] s.drop_first()[k]) by {
            assert(s.drop_first()[k] == s[k + 1]);
        }
        if i - 1 < s.drop_first().len() {
            assert(s.drop_first()[i - 1] == s[i]);
        }
        lemma_leading_space(s.drop_first(), i - 1);
    }
}

/// When every character from `j` on is white space and the one before `j` is
/// not (or `j` is the start), the trailing white space starts at `j`.
proof fn lemma_trailing_space(s: Seq<char>, j: int)
    requires
        0 <= j <= s.len(),
        forall|k: int| j <= k < s.len() ==> is_white_space(#[trigger] s[k]),
        j == 0 || !is_white_space(s[j - 1]),
    ensures
        trailing_space(s) == s.len() - j,
    decreases s.len() - j,
{
    if j < s.len() {
        assert forall|k: int| j <= k < s.len() - 1 implies is_white_space(#[trigger] s.drop_last()[k]) by {
            assert(s.drop_last()[k] == s[k]);
        }
        if j > 0 {
            assert(s.drop_last()[j - 1] == s[j - 1]);
        }
        lemma_trailing_space(s.drop_last(), j);
    }
}

/// `s` without leading and trailing white space.
pub(crate) fn trim_chars(s: &Vec<char>) -> (t: Vec<char>)
    ensures
        t@ == trimmed(s@),
{
    let n = s.len();
    let mut start: usize = 0;
    while start < n && is_space(s[start])
        invariant
            n == s@.len(),
            start <= n,
            forall|k: int| 0 <= k < start ==> is_white_space(#[trigger] s@[k]),
        decreases n - start,
    {
        start = start + 1;
    }
    proof {
        lemma_leading_space(s@, start as int);
    }
    if start == n {
        return Vec::new();
    }
    let mut end: usize = n;
    while end > start && is_space(s[end - 1])
        invariant
            n == s@.len(),
            start < n,
            !is_white_space(s@[start as int]),
            start <= end <= n,
            forall|k: int| end <= k < n ==> is_white_space(#[trigger] s@[k]),
        decreases end,
    {
        end = end - 1;
    }
    proof {
        lemma_trailing_space(s@, end as int);
    }
    slice_chars(s, start, end)
}

/// The characters of `s` from `from` up to, not including, `to`.
pub(crate) fn slice_chars(s: &Vec<char>, from: usize, to: usize) -> (piece: Vec<char>)
    requires
        from <= to <= s@.len(),
    ensures
        piece@ == s@.subrange(from as int, to as int),
{
    let mut piece: Vec<char> = Vec::new();
    let mut i = from;
    while i < to
        invariant
            from <= i <= to <= s@.len(),
            piece@ == s@.subrange(from as int, i as int),
        decreases to - i,
    {
        piece.push(s[i]);
        i = i + 1;
    }
    piece
}

/// `a` and `b` hold the same characters.
pub(crate) fn same_chars(a: &Vec<char>, b: &Vec<char>) -> (same: bool)
    ensures
        same == (a@ == b@),
{
    if a.len() != b.len() {
        return false;
    }
    let mut i: usize = 0;
    while i < a.len()
        invariant
            a@.len() == b@.len(),
            i <= a@.len(),
            forall|k: int| 0 <= k < i ==> a@[k] == b@[k],
        decreases a@.len() - i,
    {
        if a[i] != b[i] {
            return false;
        }
        i = i + 1;
    }
    assert(a@ =~= b@);
    true
}

/// `s` begins with `prefix`.
pub(crate) fn has_prefix(s: &Vec<char>, prefix: &Vec<char>) -> (found: bool)
    ensures
        found == starts_with(s@, prefix@),
{
    if prefix.len() > s.len() {
        return false;
    }
    let head = slice_chars(s, 0, prefix.len());
    same_chars(&head, prefix)
}

/// `s` cut at every `sep`, empty pieces kept.
pub(crate) fn split_chars(s: &Vec<char>, sep: char) -> (pieces: Vec<Vec<char>>)
    ensures
        pieces@.map_values(|p: Vec<char>| p@) == split_on(s@, sep),
{
    let mut pieces: Vec<Vec<char>> = Vec::new();
    let mut current: Vec<char> = Vec::new();
    let mut i: usize = 0;
    assert(s@.take(0) =~= Seq::<char>::empty());
    while i < s.len()
        invariant
            i <= s@.len(),
            pieces@.map_values(|p: Vec<char>| p@).push(current@) == split_on(s@.take(i as int), sep),
        decreases s@.len() - i,
    {
        let c = s[i];
        proof {
            assert(s@.take(i + 1).drop_last() =~= s@.take(i as int));
            assert(s@.take(i + 1).last() == c);
        }
        if c == sep {
            let done = current;
            pieces.push(done);
            current = Vec::new();
            assert(pieces@.map_values(|p: Vec<char>| p@).push(current@) =~= split_on(s@.take(i + 1), sep));
        } else {
            current.push(c);
            assert(pieces@.map_values(|p: Vec<char>| p@).push(current@) =~= split_on(s@.take(i + 1), sep));
        }
        i = i + 1;
    }
    pieces.push(current);
    assert(s@.take(s@.len() as int) =~= s@);
    assert(pieces@.map_values(|p: Vec<char>| p@) =~= split_on(s@, sep));
    pieces
}

/// `pieces` joined with `sep` between neighbours.
pub(crate) fn join_chars(pieces: &Vec<Vec<char>>, sep: char) -> (text: Vec<char>)
    ensures
        text@ == joined(pieces@.map_values(|p: Vec<char>| p@), sep),
{
    let ghost views = pieces@.map_values(|p: Vec<char>| p@);
    let mut text: Vec<char> = Vec::new();
    let mut i: usize = 0;
    assert(views.take(0) =~= Seq::<Seq<char>>::empty());
    while i < pieces.len()
        invariant
            i <= pieces@.len(),
            views == pieces@.map_values(|p: Vec<char>| p@),
            text@ == joined(views.take(i as int), sep),
        decreases pieces@.len() - i,
    {
        assert(views.take(i + 1).drop_last() =~= views.take(i as int));
        if i > 0 {
            text.push(sep);
        }
        let piece = &pieces[i];
        let mut k: usize = 0;
        let ghost before = text@;
        while k < piece.len()
            invariant
                k <= piece@.len(),
                text@ == before + piece@.take(k as int),
            decreases piece@.len() - k,
        {
            text.push(piece[k]);
            assert(piece@.take(k + 1) =~= piece@.take(k as int).push(piece@[k as int]));
            k = k + 1;
        }
        assert(piece@.take(piece@.len() as int) =~= piece@);
        assert(views[i as int] == piece@);
        if i == 0 {
            assert(views.take(1) =~= seq![piece@]);
            assert(text@ =~= joined(views.take(1), sep));
        } else {
            assert(text@ =~= joined(views.take(i + 1), sep));
        }
        i = i + 1;
    }
    assert(views.take(pieces@.len() as int) =~= views);
    text
}

/// `true` for the characters of the Unicode `White_Space` property.
pub(crate) fn is_space(c: char) -> (space: bool)
    ensures
        space == is_white_space(c),
{
    ('\u{9}' <= c && c <= '\u{d}') || c == ' ' || c == '\u{85}' || c == '\u{a0}' || c == '\u{1680}'
        || ('\u{2000}' <= c && c <= '\u{200a}') || c == '\u{2028}' || c == '\u{2029}' || c
        == '\u{202f}' || c == '\u{205f}' || c == '\u{3000}'
}

/// The characters of `s`, in order.
pub(crate) fn chars_of(s: &str) -> (chars: Vec<char>)
    ensures
        chars@ == s@,
{
    let mut chars: Vec<char> = Vec::new();
    for c in it: s.chars()
        invariant
            chars@ == it.seq().take(it.index() as int),
            it.seq() == s@,
    {
        chars.push(c);
    }
    chars
}

/// `c` with an ASCII upper-case letter turned to lower case.
pub open spec fn lower_char(c: char) -> char {
    if 'A' <= c && c <= 'Z' {
        ((c as int) + 32) as char
    } else {
        c
    }
}

/// `s` with ASCII letters in lower case and everything else unchanged, as
/// `str::to_ascii_lowercase` gives it.
pub open spec fn lower_ascii(s: Seq<char>) -> Seq<char> {
    s.map_values(|c: char| lower_char(c))
}

/// `s` with ASCII letters in lower case.
pub(crate) fn lowercase_chars(s: &Vec<char>) -> (lower: Vec<char>)
    ensures
        lower@ == lower_ascii(s@),
{
    let mut lower: Vec<char> = Vec::new();
    let mut i: usize = 0;
    while i < s.len()
        invariant
            i <= s@.len(),
            lower@ == lower_ascii(s@.take(i as int)),
        decreases s@.len() - i,
    {
        let c = s[i];
        let l = if 'A' <= c && c <= 'Z' {
            ((c as u8) + 32) as char
        } else {
            c
        };
        lower.push(l);
        assert(lower_ascii(s@.take(i + 1)) =~= lower_ascii(s@.take(i as int)).push(lower_char(c)));
        i = i + 1;
    }
    assert(s@.take(s@.len() as int) =~= s@);
    lower
}

/// `s` holds exactly the characters of `word`.
pub(crate) fn is_word(s: &Vec<char>, word: &str) -> (same: bool)
    ensures
        same == (s@ == word@),
{
    same_chars(s, &chars_of(word))
}

/// Where `sep` first occurs in `s`.
pub(crate) fn find_char(s: &Vec<char>, sep: char) -> (found: Option<usize>)
    ensures
        found matches Some(k) ==> first_index_of(s@, sep) == Some(k as int) && k < s@.len()
            && s@[k as int] == sep,
        found is None ==> first_index_of(s@, sep) is None,
{
    let mut i: usize = 0;
    while i < s.len()
        invariant
            i <= s@.len(),
            forall|j: int| 0 <= j < i ==> s@[j] != sep,
        decreases s@.len() - i,
    {
        if s[i] == sep {
            proof {
                let k = i as int;
                assert(0 <= k < s@.len() && s@[k] == sep && forall|j: int| 0 <= j < k ==> s@[j] != sep);
                let c = choose|c: int| 0 <= c < s@.len() && s@[c] == sep && forall|j: int| 0 <= j < c ==> s@[j] != sep;
                if c < k {
                    assert(s@[c] != sep);
                }
                if c > k {
                    assert(s@[k] != sep);
                }
            }
            return Some(i);
        }
        i = i + 1;
    }
    None
}

/// `c` is an ASCII decimal digit.
pub open spec fn is_digit(c: char) -> bool {
    '0' <= c && c <= '9'
}

/// The number written by the decimal digits `s`.
pub open spec fn digits_value(s: Seq<char>) -> nat
    decreases s.len(),
{
    if s.len() == 0 {
        0
    } else {
        digits_value(s.drop_last()) * 10 + ((s.last() as int) - ('0' as int)) as nat
    }
}

/// The number written by `s` when it is a non-empty run of decimal digits.
pub open spec fn decimal_value(s: Seq<char>) -> Option<nat> {
    if s.len() > 0 && forall|i: int| 0 <= i < s.len() ==> is_digit(#[trigger] s[i]) {
        Some(digits_value(s))
    } else {
        None
    }
}

/// The number written by `s` as `from_str` of an unsigned integer reads it:
/// an optional `+`, then decimal digits only.
pub open spec fn unsigned_value(s: Seq<char>) -> Option<nat> {
    if s.len() > 0 && s[0] == '+' {
        decimal_value(s.drop_first())
    } else {
        decimal_value(s)
    }
}

/// The number written by `s` as `from_str` of a signed integer reads it: an
/// optional `+` or `-`, then decimal digits only.
pub open spec fn signed_value(s: Seq<char>) -> Option<int> {
    if s.len() > 0 && s[0] == '-' {
        match decimal_value(s.drop_first()) {
            Some(v) => Some(-(v as int)),
            None => None,
        }
    } else {
        match unsigned_value(s) {
            Some(v) => Some(v as int),
            None => None,
        }
    }
}

/// What `u64::from_str` gives for `s`: the value when it is written correctly
/// and fits.
pub open spec fn u64_from_text(s: Seq<char>) -> Option<u64> {
    match unsigned_value(s) {
        Some(v) => if v <= u64::MAX {
            Some(v as u64)
        } else {
            None
        },
        None => None,
    }
}

/// What `u32::from_str` gives for `s`.
pub open spec fn u32_from_text(s: Seq<char>) -> Option<u32> {
    match unsigned_value(s) {
        Some(v) => if v <= u32::MAX {
            Some(v as u32)
        } else {
            None
        },
        None => None,
    }
}

/// What `i32::from_str` gives for `s`.
pub open spec fn i32_from_text(s: Seq<char>) -> Option<i32> {
    match signed_value(s) {
        Some(v) => if i32::MIN <= v <= i32::MAX {
            Some(v as i32)
        } else {
            None
        },
        None => None,
    }
}

/// A run of digits is worth at least as much as any of its prefixes.
proof fn lemma_digits_value_grows(t: Seq<char>, k: int)
    requires
        0 <= k <= t.len(),
        forall|i: int| 0 <= i < t.len() ==> is_digit(#[trigger] t[i]),
    ensures
        digits_value(t.take(k)) <= digits_value(t),
    decreases t.len(),
{
    if k < t.len() {
        let shorter = t.drop_last();
        assert forall|i: int| 0 <= i < shorter.len() implies is_digit(#[trigger] shorter[i]) by {
            assert(shorter[i] == t[i]);
        }
        lemma_digits_value_grows(shorter, k);
        assert(shorter.take(k) =~= t.take(k));
    } else {
        assert(t.take(k) =~= t);
    }
}

/// The number written by the digits of `s` from `from` on, when they are a
/// non-empty run of decimal digits worth at most `max`.
fn digits_up_to(s: &Vec<char>, from: usize, max: u64) -> (n: Option<u64>)
    requires
        from <= s@.len(),
    ensures
        n == (match decimal_value(s@.skip(from as int)) {
            Some(v) => if v <= max {
                Some(v as u64)
            } else {
                None::<u64>
            },
            None => None::<u64>,
        }),
{
    let ghost t = s@.skip(from as int);
    let len = s.len();
    let mut i = from;
    let mut acc: u64 = 0;
    assert(t.take(0) =~= Seq::<char>::empty());
    while i < len
        invariant
            from <= i <= len,
            len == s@.len(),
            t == s@.skip(from as int),
            forall|k: int| 0 <= k < i - from ==> is_digit(#[trigger] t[k]),
            acc == digits_value(t.take(i - from)),
            acc <= max,
        decreases len - i,
    {
        let c = s[i];
        assert(t[i - from] == c);
        if !('0' <= c && c <= '9') {
            assert(!is_digit(t[i - from]));
            return None;
        }
        let d = (c as u32 - '0' as u32) as u64;
        assert(t.take(i - from + 1).drop_last() =~= t.take(i - from));
        assert(t.take(i - from + 1).last() == c);
        if d > max || acc > (max - d) / 10 {
            proof {
                assert(digits_value(t.take(i - from + 1)) == acc * 10 + d);
                if forall|k: int| 0 <= k < t.len() ==> is_digit(#[trigger] t[k]) {
                    lemma_digits_value_grows(t, i - from + 1);
                }
            }
            return None;
        }
        acc = acc * 10 + d;
        i = i + 1;
    }
    assert(t.take(len - from) =~= t);
    if i == from {
        return None;
    }
    Some(acc)
}

/// `str::parse::<u64>`: an optional `+` and decimal digits only, within
/// range.
pub(crate) fn parse_u64(text: &str) -> (n: Option<u64>)
    ensures
        n == u64_from_text(text@),
{
    let s = chars_of(text);
    if s.len() > 0 && s[0] == '+' {
        assert(s@.skip(1) =~= s@.drop_first());
        digits_up_to(&s, 1, u64::MAX)
    } else {
        assert(s@.skip(0) =~= s@);
        digits_up_to(&s, 0, u64::MAX)
    }
}

/// `str::parse::<u32>`: an optional `+` and decimal digits only, within
/// range.
pub(crate) fn parse_u32(text: &str) -> (n: Option<u32>)
    ensures
        n == u32_from_text(text@),
{
    let s = chars_of(text);
    let found = if s.len() > 0 && s[0] == '+' {
        assert(s@.skip(1) =~= s@.drop_first());
        digits_up_to(&s, 1, u32::MAX as u64)
    } else {
        assert(s@.skip(0) =~= s@);
        digits_up_to(&s, 0, u32::MAX as u64)
    };
    match found {
        Some(v) => Some(v as u32),
        None => None,
    }
}

/// `str::parse::<i32>`: an optional `+` or `-` and decimal digits only,
/// within range.
pub(crate) fn parse_i32(text: &str) -> (n: Option<i32>)
    ensures
        n == i32_from_text(text@),
{
    let s = chars_of(text);
    if s.len() > 0 && s[0] == '-' {
        assert(s@.skip(1) =~= s@.drop_first());
        match digits_up_to(&s, 1, 2147483648) {
            Some(v) => Some((0 - (v as i64)) as i32),
            None => None,
        }
    } else {
        let found = if s.len() > 0 && s[0] == '+' {
            assert(s@.skip(1) =~= s@.drop_first());
            digits_up_to(&s, 1, i32::MAX as u64)
        } else {
            assert(s@.skip(0) =~= s@);
            digits_up_to(&s, 0, i32::MAX as u64)
        };
        match found {
            Some(v) => Some(v as i32),
            None => None,
        }
    }
}

/// The digit character for `d` in `0..10`.
pub open spec fn digit_char(d: nat) -> char {
    (('0' as int) + d) as char
}

/// `n` written in decimal without leading zeros.
pub open spec fn decimal_text(n: nat) -> Seq<char>
    decreases n,
{
    if n < 10 {
        seq![digit_char(n)]
    } else {
        decimal_text(n / 10).push(digit_char(n % 10))
    }
}

/// `i` written in decimal, with a `-` when negative.
pub open spec fn signed_text(i: int) -> Seq<char> {
    if i < 0 {
        seq!['-'] + decimal_text((-i) as nat)
    } else {
        decimal_text(i as nat)
    }
}

/// The decimal digits of `n`, without leading zeros.
fn decimal_chars(n: u64) -> (digits: Vec<char>)
    ensures
        digits@ == decimal_text(n as nat),
    decreases n,
{
    let last = ((n % 10) as u8 + 48) as char;
    assert(last == digit_char((n % 10) as nat));
    if n < 10 {
        let mut digits: Vec<char> = Vec::new();
        digits.push(last);
        assert(digits@ =~= seq![last]);
        digits
    } else {
        let mut digits = decimal_chars(n / 10);
        digits.push(last);
        digits
    }
}

/// `u64::to_string`: the decimal text of `n`.
pub(crate) fn u64_text(n: u64) -> (text: String)
    ensures
        text@ == decimal_text(n as nat),
{
    string_of(&decimal_chars(n))
}

/// `u32::to_string`: the decimal text of `n`.
pub(crate) fn u32_text(n: u32) -> (text: String)
    ensures
        text@ == decimal_text(n as nat),
{
    string_of(&decimal_chars(n as u64))
}

/// `i32::to_string`: the decimal text of `n`, with a `-` when negative.
pub(crate) fn i32_text(n: i32) -> (text: String)
    ensures
        text@ == signed_text(n as int),
{
    if n < 0 {
        let magnitude = (0 - (n as i64)) as u64;
        let mut chars: Vec<char> = Vec::new();
        chars.push('-');
        let digits = decimal_chars(magnitude);
        let mut i: usize = 0;
        while i < digits.len()
            invariant
                i <= digits@.len(),
                chars@ == seq!['-'] + digits@.take(i as int),
            decreases digits@.len() - i,
        {
            chars.push(digits[i]);
            assert(digits@.take(i + 1) =~= digits@.take(i as int).push(digits@[i as int]));
            i = i + 1;
        }
        assert(digits@.take(digits@.len() as int) =~= digits@);
        string_of(&chars)
    } else {
        string_of(&decimal_chars(n as u64))
    }
}

/// Calls `String::from_iter`: the text made of `chars`, in order.
#[verifier::external_body]
pub(crate) fn string_of(chars: &Vec<char>) -> (text: String)
    ensures
        text@ == chars@,
{
    String::from_iter(chars)
}

} // verus!
