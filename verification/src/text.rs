//! Numbers as text: decimal and hexadecimal digits appended to a `String`.

use vstd::prelude::*;
use vstd::string::*;

verus! {

/// The character for a digit value below sixteen, lower case above nine.
pub open spec fn digit_char(d: int) -> char {
    if d == 0 {
        '0'
    } else if d == 1 {
        '1'
    } else if d == 2 {
        '2'
    } else if d == 3 {
        '3'
    } else if d == 4 {
        '4'
    } else if d == 5 {
        '5'
    } else if d == 6 {
        '6'
    } else if d == 7 {
        '7'
    } else if d == 8 {
        '8'
    } else if d == 9 {
        '9'
    } else if d == 10 {
        'a'
    } else if d == 11 {
        'b'
    } else if d == 12 {
        'c'
    } else if d == 13 {
        'd'
    } else if d == 14 {
        'e'
    } else {
        'f'
    }
}

/// The decimal digits of `n`, most significant first, without leading zeros.
pub open spec fn decimal_digits(n: nat) -> Seq<char>
    decreases n,
{
    if n < 10 {
        seq![digit_char(n as int)]
    } else {
        decimal_digits(n / 10).push(digit_char((n % 10) as int))
    }
}

/// The decimal spelling of an integer, with a minus sign if it is negative.
pub open spec fn decimal_text(i: int) -> Seq<char> {
    if i < 0 {
        seq!['-'] + decimal_digits((-i) as nat)
    } else {
        decimal_digits(i as nat)
    }
}

/// The decimal digits of `n`, with zeros in front up to `width` characters.
pub open spec fn padded_decimal(n: nat, width: nat) -> Seq<char> {
    let digits = decimal_digits(n);
    if digits.len() >= width {
        digits
    } else {
        Seq::new((width - digits.len()) as nat, |i: int| '0') + digits
    }
}

/// The last `width` hexadecimal digits of `n`, most significant first, in
/// lower case; at least one digit.
pub open spec fn hex_digits(n: nat, width: nat) -> Seq<char>
    decreases width,
{
    if width <= 1 {
        seq![digit_char((n % 16) as int)]
    } else {
        hex_digits(n / 16, (width - 1) as nat).push(digit_char((n % 16) as int))
    }
}

/// The one-character text of a digit value below sixteen.
fn digit_text(d: u8) -> (text: &'static str)
    requires
        d < 16,
    ensures
        text@ == seq![digit_char(d as int)],
{
    proof {
        reveal_strlit("0");
        reveal_strlit("1");
        reveal_strlit("2");
        reveal_strlit("3");
        reveal_strlit("4");
        reveal_strlit("5");
        reveal_strlit("6");
        reveal_strlit("7");
        reveal_strlit("8");
        reveal_strlit("9");
        reveal_strlit("a");
        reveal_strlit("b");
        reveal_strlit("c");
        reveal_strlit("d");
        reveal_strlit("e");
        reveal_strlit("f");
    }
    let text = if d == 0 {
        "0"
    } else if d == 1 {
        "1"
    } else if d == 2 {
        "2"
    } else if d == 3 {
        "3"
    } else if d == 4 {
        "4"
    } else if d == 5 {
        "5"
    } else if d == 6 {
        "6"
    } else if d == 7 {
        "7"
    } else if d == 8 {
        "8"
    } else if d == 9 {
        "9"
    } else if d == 10 {
        "a"
    } else if d == 11 {
        "b"
    } else if d == 12 {
        "c"
    } else if d == 13 {
        "d"
    } else if d == 14 {
        "e"
    } else {
        "f"
    };
    assert(text@ =~= seq![digit_char(d as int)]);
    text
}

/// Appends the decimal digits of `n` to `out`.
pub fn append_decimal(out: &mut String, n: u64)
    ensures
        final(out)@ == old(out)@ + decimal_digits(n as nat),
    decreases n,
{
    if n >= 10 {
        append_decimal(out, n / 10);
    }
    out.append(digit_text((n % 10) as u8));
    assert(out@ =~= old(out)@ + decimal_digits(n as nat));
}

/// Appends the decimal spelling of `value` to `out`.
pub fn append_signed_decimal(out: &mut String, value: i64)
    ensures
        final(out)@ == old(out)@ + decimal_text(value as int),
{
    if value < 0 {
        proof {
            reveal_strlit("-");
        }
        out.append("-");
        let magnitude: u64 = (-(value as i128)) as u64;
        append_decimal(out, magnitude);
        assert(out@ =~= old(out)@ + decimal_text(value as int));
    } else {
        append_decimal(out, value as u64);
    }
}

/// The number of decimal digits of `n`.
fn decimal_len(n: u64) -> (len: usize)
    ensures
        len == decimal_digits(n as nat).len(),
        1 <= len <= 20,
    decreases n,
{
    if n >= 10 {
        let shorter = decimal_len(n / 10);
        proof {
            lemma_decimal_len_bound(n as nat);
        }
        shorter + 1
    } else {
        1
    }
}

/// A 64-bit number has at most twenty decimal digits.
proof fn lemma_decimal_len_bound(n: nat)
    requires
        n <= u64::MAX,
    ensures
        decimal_digits(n).len() <= 20,
{
    reveal_with_fuel(decimal_digits, 21);
}

/// Appends the decimal digits of `n` to `out`, with zeros in front up to
/// `width` characters.
pub fn append_padded_decimal(out: &mut String, n: u64, width: usize)
    ensures
        final(out)@ == old(out)@ + padded_decimal(n as nat, width as nat),
{
    let len = decimal_len(n);
    let mut written: usize = len;
    while written < width
        invariant
            len <= written,
            written <= width || written == len,
            out@ == old(out)@ + Seq::new((written - len) as nat, |i: int| '0'),
        decreases width - written,
    {
        proof {
            reveal_strlit("0");
        }
        let ghost before = out@;
        out.append("0");
        written += 1;
        assert(out@ =~= old(out)@ + Seq::new((written - len) as nat, |i: int| '0')) by {
            assert(out@ == before + seq!['0']);
        }
    }
    append_decimal(out, n);
    assert(out@ =~= old(out)@ + padded_decimal(n as nat, width as nat));
}

/// Appends the last `width` hexadecimal digits of `n` to `out`.
pub fn append_hex(out: &mut String, n: u32, width: u32)
    ensures
        final(out)@ == old(out)@ + hex_digits(n as nat, width as nat),
    decreases width,
{
    if width > 1 {
        append_hex(out, n / 16, width - 1);
    }
    out.append(digit_text((n % 16) as u8));
    assert(out@ =~= old(out)@ + hex_digits(n as nat, width as nat));
}

/// Whether `c` is white space: a character with the Unicode property
/// `White_Space`.
pub open spec fn is_whitespace(c: char) -> bool {
    let code = c as u32;
    ||| 0x09 <= code <= 0x0D
    ||| code == 0x20
    ||| code == 0x85
    ||| code == 0xA0
    ||| code == 0x1680
    ||| 0x2000 <= code <= 0x200A
    ||| code == 0x2028
    ||| code == 0x2029
    ||| code == 0x202F
    ||| code == 0x205F
    ||| code == 0x3000
}

/// `text` without the white space at its start.
pub open spec fn trim_start(text: Seq<char>) -> Seq<char>
    decreases text.len(),
{
    if text.len() > 0 && is_whitespace(text[0]) {
        trim_start(text.skip(1))
    } else {
        text
    }
}

/// `text` without the white space at its end.
pub open spec fn trim_end(text: Seq<char>) -> Seq<char>
    decreases text.len(),
{
    if text.len() > 0 && is_whitespace(text.last()) {
        trim_end(text.drop_last())
    } else {
        text
    }
}

/// `text` without the white space at its start and at its end.
pub open spec fn trim(text: Seq<char>) -> Seq<char> {
    trim_end(trim_start(text))
}

/// Offset of the first `c` in `text`, or the length of `text` if there is
/// none.
pub open spec fn first_index_of(text: Seq<char>, c: char) -> int
    decreases text.len(),
{
    if text.len() == 0 || text[0] == c {
        0
    } else {
        1 + first_index_of(text.skip(1), c)
    }
}

/// The pieces of `text` between the occurrences of `separator`: one piece
/// more than there are separators, empty pieces included.
pub open spec fn split(text: Seq<char>, separator: char) -> Seq<Seq<char>>
    decreases text.len(),
{
    let at = first_index_of(text, separator);
    if 0 <= at < text.len() {
        seq![text.take(at)] + split(text.skip(at + 1), separator)
    } else {
        seq![text]
    }
}

/// Where the first `c` stands: nothing before it is `c`.
pub proof fn lemma_first_index_of(text: Seq<char>, c: char)
    ensures
        0 <= first_index_of(text, c) <= text.len(),
        first_index_of(text, c) < text.len() ==> text[first_index_of(text, c)] == c,
        forall|j: int| 0 <= j < first_index_of(text, c) ==> text[j] != c,
    decreases text.len(),
{
    if text.len() == 0 || text[0] == c {
    } else {
        let rest = text.skip(1);
        lemma_first_index_of(rest, c);
        assert forall|j: int| 0 <= j < first_index_of(text, c) implies text[j] != c by {
            if j > 0 {
                assert(text[j] == rest[j - 1]);
            }
        }
    }
}

/// The first `c` is where a `c` stands with none before it.
pub proof fn lemma_first_index_of_is(text: Seq<char>, c: char, at: int)
    requires
        0 <= at <= text.len(),
        at < text.len() ==> text[at] == c,
        forall|j: int| 0 <= j < at ==> text[j] != c,
    ensures
        first_index_of(text, c) == at,
{
    lemma_first_index_of(text, c);
    let found = first_index_of(text, c);
    if found < at {
        assert(text[found] != c);
    }
}

/// A text cut at its first separator: the piece before it, then the pieces
/// of what follows it.
pub proof fn lemma_split_at_first(text: Seq<char>, separator: char, at: int)
    requires
        0 <= at < text.len(),
        text[at] == separator,
        forall|j: int| 0 <= j < at ==> text[j] != separator,
    ensures
        split(text, separator) == seq![text.take(at)] + split(text.skip(at + 1), separator),
{
    lemma_first_index_of_is(text, separator, at);
}

/// A text without a separator is one piece.
pub proof fn lemma_split_without_separator(text: Seq<char>, separator: char)
    requires
        forall|j: int| 0 <= j < text.len() ==> text[j] != separator,
    ensures
        split(text, separator) == seq![text],
{
    lemma_first_index_of_is(text, separator, text.len() as int);
}

/// A text that neither starts nor ends with white space is its own trimmed
/// form.
pub proof fn lemma_trim_is_identity(text: Seq<char>)
    requires
        text.len() > 0 ==> !is_whitespace(text[0]) && !is_whitespace(text.last()),
    ensures
        trim(text) == text,
{
}

/// Whether `c` is white space.
pub fn is_whitespace_char(c: char) -> (white: bool)
    ensures
        white == is_whitespace(c),
{
    let code = c as u32;
    (0x09 <= code && code <= 0x0D) || code == 0x20 || code == 0x85 || code == 0xA0 || code
        == 0x1680 || (0x2000 <= code && code <= 0x200A) || code == 0x2028 || code == 0x2029
        || code == 0x202F || code == 0x205F || code == 0x3000
}

/// The characters of a string, one by one.
pub fn chars_of(text: &str) -> (chars: Vec<char>)
    ensures
        chars@ == text@,
{
    let mut chars: Vec<char> = Vec::new();
    for c in it: text.chars()
        invariant
            chars@ == it.seq().take(it.index()),
            it.seq() == text@,
    {
        chars.push(c);
    }
    chars
}

/// Where the trimmed form of `chars` begins and ends.
pub fn trim_bounds(chars: &Vec<char>) -> (bounds: (usize, usize))
    ensures
        bounds.0 <= bounds.1 <= chars.len(),
        chars@.subrange(bounds.0 as int, bounds.1 as int) == trim(chars@),
{
    let len = chars.len();
    let mut start: usize = 0;
    assert(chars@.skip(0) =~= chars@);
    while start < len && is_whitespace_char(chars[start])
        invariant
            start <= len == chars.len(),
            trim_start(chars@) == trim_start(chars@.skip(start as int)),
        decreases len - start,
    {
        assert(chars@.skip(start as int).skip(1) =~= chars@.skip(start + 1));
        start += 1;
    }
    let ghost kept = chars@.skip(start as int);
    assert(trim_start(chars@) == kept);
    let mut end: usize = len;
    assert(chars@.subrange(start as int, len as int) =~= kept);
    while end > start && is_whitespace_char(chars[end - 1])
        invariant
            start <= end <= len == chars.len(),
            trim_end(kept) == trim_end(chars@.subrange(start as int, end as int)),
        decreases end,
    {
        assert(chars@.subrange(start as int, end as int).drop_last() =~= chars@.subrange(
            start as int,
            end - 1,
        ));
        end -= 1;
    }
    (start, end)
}

/// Where the pieces of `chars[from..to]` between the separators begin and
/// end, piece by piece.
pub fn split_bounds(chars: &Vec<char>, from: usize, to: usize, separator: char) -> (pieces: Vec<
    (usize, usize),
>)
    requires
        from <= to <= chars.len(),
    ensures
        pieces@.len() == split(chars@.subrange(from as int, to as int), separator).len(),
        forall|k: int|
            0 <= k < pieces@.len() ==> from <= (#[trigger] pieces@[k]).0 <= pieces@[k].1 <= to
                && chars@.subrange(pieces@[k].0 as int, pieces@[k].1 as int) == split(
                chars@.subrange(from as int, to as int),
                separator,
            )[k],
{
    let ghost whole = chars@.subrange(from as int, to as int);
    let mut pieces: Vec<(usize, usize)> = Vec::new();
    let mut begin: usize = from;
    let mut i: usize = from;
    assert(Seq::<Seq<char>>::empty() + split(whole, separator) =~= split(whole, separator));
    let ghost mut done: Seq<Seq<char>> = Seq::empty();
    while i < to
        invariant
            from <= begin <= i <= to <= chars.len(),
            whole == chars@.subrange(from as int, to as int),
            forall|j: int| begin <= j < i ==> chars@[j] != separator,
            split(whole, separator) == done + split(
                chars@.subrange(begin as int, to as int),
                separator,
            ),
            pieces@.len() == done.len(),
            forall|k: int|
                0 <= k < pieces@.len() ==> from <= (#[trigger] pieces@[k]).0 <= pieces@[k].1 <= to
                    && chars@.subrange(pieces@[k].0 as int, pieces@[k].1 as int) == done[k],
        decreases to - i,
    {
        if chars[i] == separator {
            proof {
                let rest = chars@.subrange(begin as int, to as int);
                lemma_split_at_first(rest, separator, i - begin);
                assert(rest.take(i - begin) =~= chars@.subrange(begin as int, i as int));
                assert(rest.skip(i - begin + 1) =~= chars@.subrange(i + 1, to as int));
                let piece = chars@.subrange(begin as int, i as int);
                assert(done + (seq![piece] + split(chars@.subrange(i + 1, to as int), separator))
                    =~= done.push(piece) + split(chars@.subrange(i + 1, to as int), separator));
                done = done.push(piece);
            }
            pieces.push((begin, i));
            begin = i + 1;
        }
        i += 1;
    }
    proof {
        let rest = chars@.subrange(begin as int, to as int);
        lemma_split_without_separator(rest, separator);
        assert(done + seq![rest] =~= done.push(rest));
        done = done.push(rest);
    }
    pieces.push((begin, to));
    pieces
}

} // verus!
