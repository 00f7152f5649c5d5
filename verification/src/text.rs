//! Text as sequences of characters: searching, trimming, splitting and writing
//! numbers.

use vstd::prelude::*;

verus! {

/// `String::push` appends one character to the end of the string.
pub assume_specification[ String::push ](text: &mut String, c: char)
    ensures
        final(text)@ == old(text)@.push(c),
;

/// The characters of `text`.
pub fn chars_of(text: &str) -> (chars: Vec<char>)
    ensures
        chars@ == text@,
{
    let mut chars: Vec<char> = Vec::new();
    for c in iter: text.chars()
        invariant
            chars@ == text@.take(iter.index() as int),
            iter.seq() == text@,
    {
        chars.push(c);
    }
    assert(chars@ =~= text@);
    chars
}

/// The string made of `chars`.
pub fn string_of(chars: &[char]) -> (text: String)
    ensures
        text@ == chars@,
{
    let mut text = String::new();
    let mut i: usize = 0;
    while i < chars.len()
        invariant
            i <= chars@.len(),
            text@ == chars@.take(i as int),
        decreases chars@.len() - i,
    {
        text.push(chars[i]);
        i += 1;
        assert(text@ =~= chars@.take(i as int));
    }
    assert(text@ =~= chars@);
    text
}

/// The text of an optional string.
pub open spec fn text_of(text: Option<String>) -> Option<Seq<char>> {
    match text {
        Some(t) => Some(t@),
        None => None,
    }
}

/// A string with this text.
pub fn owned(text: &str) -> (string: String)
    ensures
        string@ == text@,
{
    let mut string = String::new();
    string.append(text);
    assert(string@ =~= text@);
    string
}

/// Whether two character sequences are equal.
pub fn chars_eq(a: &[char], b: &[char]) -> (equal: bool)
    ensures
        equal == (a@ == b@),
{
    if a.len() != b.len() {
        return false;
    }
    let mut i: usize = 0;
    while i < a.len()
        invariant
            i <= a@.len(),
            a@.len() == b@.len(),
            forall|j: int| 0 <= j < i ==> a@[j] == b@[j],
        decreases a@.len() - i,
    {
        if a[i] != b[i] {
            assert(a@[i as int] != b@[i as int]);
            return false;
        }
        i += 1;
    }
    assert(a@ =~= b@);
    true
}

/// Whether two texts are equal.
pub fn text_eq(a: &str, b: &str) -> (equal: bool)
    ensures
        equal == (a@ == b@),
{
    let a = chars_of(a);
    let b = chars_of(b);
    chars_eq(a.as_slice(), b.as_slice())
}

/// A decimal digit.
pub open spec fn digit(n: nat) -> char
    recommends
        n < 10,
{
    (48 + n) as char
}

/// `n` in decimal, without leading zeros.
pub open spec fn decimal(n: nat) -> Seq<char>
    decreases n,
{
    if n < 10 {
        seq![digit(n)]
    } else {
        decimal(n / 10).push(digit(n % 10))
    }
}

/// Appends `n` in decimal.
pub fn push_decimal(text: &mut String, n: u64)
    ensures
        final(text)@ == old(text)@ + decimal(n as nat),
    decreases n,
{
    let ghost before = text@;
    if n >= 10 {
        push_decimal(text, n / 10);
    }
    text.push((48 + (n % 10) as u8) as char);
    assert(text@ =~= before + decimal(n as nat));
}

/// `n` in decimal, with its sign.
pub open spec fn signed_decimal(n: int) -> Seq<char> {
    if n < 0 {
        seq!['-'] + decimal((-n) as nat)
    } else {
        decimal(n as nat)
    }
}

/// Appends `n` in decimal, with its sign.
pub fn push_signed(text: &mut String, n: i32)
    ensures
        final(text)@ == old(text)@ + signed_decimal(n as int),
{
    let ghost before = text@;
    if n < 0 {
        text.push('-');
        push_decimal(text, (-(n as i64)) as u64);
    } else {
        push_decimal(text, n as u64);
    }
    assert(text@ =~= before + signed_decimal(n as int));
}

/// `n` in binary, without leading zeros.
pub open spec fn binary(n: nat) -> Seq<char>
    decreases n,
{
    if n < 2 {
        seq![digit(n)]
    } else {
        binary(n / 2).push(digit(n % 2))
    }
}

/// Appends `n` in binary.
pub fn push_binary(text: &mut String, n: u32)
    ensures
        final(text)@ == old(text)@ + binary(n as nat),
    decreases n,
{
    let ghost before = text@;
    if n >= 2 {
        push_binary(text, n / 2);
    }
    text.push(
        if n % 2 == 0 {
            '0'
        } else {
            '1'
        },
    );
    assert(text@ =~= before + binary(n as nat));
}

/// A lower-case hexadecimal digit.
pub open spec fn hex_digit(n: nat) -> char
    recommends
        n < 16,
{
    if n < 10 {
        (48 + n) as char
    } else {
        (87 + n) as char
    }
}

/// The `width` lowest hexadecimal digits of `n`.
pub open spec fn hex(n: nat, width: nat) -> Seq<char>
    decreases width,
{
    if width == 0 {
        Seq::empty()
    } else {
        hex(n / 16, (width - 1) as nat).push(hex_digit(n % 16))
    }
}

/// Appends the `width` lowest hexadecimal digits of `n`.
pub fn push_hex(text: &mut String, n: u64, width: u32)
    ensures
        final(text)@ == old(text)@ + hex(n as nat, width as nat),
    decreases width,
{
    let ghost before = text@;
    if width > 0 {
        push_hex(text, n / 16, width - 1);
        let low: u8 = (n % 16) as u8;
        if low < 10 {
            text.push((48 + low) as char);
        } else {
            text.push((87 + low) as char);
        }
    }
    assert(text@ =~= before + hex(n as nat, width as nat));
}

/// `part` stands in `text` at position `i`.
pub open spec fn occurs_at(text: Seq<char>, part: Seq<char>, i: int) -> bool {
    0 <= i && i + part.len() <= text.len() && text.subrange(i, i + part.len()) == part
}

/// `part` stands in `text` at position `i` and nowhere before it.
pub open spec fn first_occurs_at(text: Seq<char>, part: Seq<char>, i: int) -> bool {
    occurs_at(text, part, i) && forall|j: int| 0 <= j < i ==> !occurs_at(text, part, j)
}

pub open spec fn contains(text: Seq<char>, part: Seq<char>) -> bool {
    exists|i: int| occurs_at(text, part, i)
}

pub open spec fn starts_with(text: Seq<char>, part: Seq<char>) -> bool {
    occurs_at(text, part, 0)
}

pub open spec fn ends_with(text: Seq<char>, part: Seq<char>) -> bool {
    occurs_at(text, part, text.len() - part.len())
}

/// Whether `part` stands in `text` at position `i`.
pub fn stands_at(text: &[char], part: &[char], i: usize) -> (found: bool)
    ensures
        found == occurs_at(text@, part@, i as int),
{
    let total: usize = text.len();
    if i > total || part.len() > total - i {
        return false;
    }
    let mut k: usize = 0;
    while k < part.len()
        invariant
            total == text@.len(),
            k <= part@.len(),
            i + part@.len() <= text@.len(),
            forall|j: int| 0 <= j < k ==> text@[i + j] == part@[j],
        decreases part@.len() - k,
    {
        if text[i + k] != part[k] {
            assert(text@.subrange(i as int, i + part@.len())[k as int] != part@[k as int]);
            return false;
        }
        k += 1;
    }
    assert(text@.subrange(i as int, i + part@.len()) =~= part@);
    true
}

/// Where `part` first stands in `text`.
pub fn find(text: &[char], part: &[char]) -> (found: Option<usize>)
    ensures
        match found {
            Some(i) => first_occurs_at(text@, part@, i as int),
            None => !contains(text@, part@),
        },
{
    let mut i: usize = 0;
    while i < text.len()
        invariant
            i <= text@.len(),
            forall|j: int| 0 <= j < i ==> !occurs_at(text@, part@, j),
        decreases text@.len() - i,
    {
        if stands_at(text, part, i) {
            return Some(i);
        }
        i += 1;
    }
    if stands_at(text, part, i) {
        return Some(i);
    }
    None
}

/// The characters with the Unicode property `White_Space`.
pub open spec fn is_white_space(c: char) -> bool {
    let n = c as u32;
    ||| 0x9 <= n <= 0xd
    ||| n == 0x20
    ||| n == 0x85
    ||| n == 0xa0
    ||| n == 0x1680
    ||| 0x2000 <= n <= 0x200a
    ||| n == 0x2028
    ||| n == 0x2029
    ||| n == 0x202f
    ||| n == 0x205f
    ||| n == 0x3000
}

/// Whether `c` has the Unicode property `White_Space`.
pub fn white_space(c: char) -> (is: bool)
    ensures
        is == is_white_space(c),
{
    let n: u32 = c as u32;
    (0x9 <= n && n <= 0xd) || n == 0x20 || n == 0x85 || n == 0xa0 || n == 0x1680 || (0x2000 <= n
        && n <= 0x200a) || n == 0x2028 || n == 0x2029 || n == 0x202f || n == 0x205f || n == 0x3000
}

/// `text` without the white space at its end.
pub open spec fn trimmed_end(text: Seq<char>) -> Seq<char>
    decreases text.len(),
{
    if text.len() > 0 && is_white_space(text.last()) {
        trimmed_end(text.drop_last())
    } else {
        text
    }
}

/// `text` without the white space at its start.
pub open spec fn trimmed_start(text: Seq<char>) -> Seq<char>
    decreases text.len(),
{
    if text.len() > 0 && is_white_space(text.first()) {
        trimmed_start(text.drop_first())
    } else {
        text
    }
}

/// `text` without the white space around it.
pub open spec fn trimmed(text: Seq<char>) -> Seq<char> {
    trimmed_start(trimmed_end(text))
}

/// Drops the white space at the end.
pub fn trim_end(text: &[char]) -> (kept: &[char])
    ensures
        kept@ == trimmed_end(text@),
{
    let mut end: usize = text.len();
    assert(text@.take(end as int) =~= text@);
    while end > 0 && white_space(text[end - 1])
        invariant
            end <= text@.len(),
            trimmed_end(text@.take(end as int)) == trimmed_end(text@),
        decreases end,
    {
        end -= 1;
        assert(text@.take(end + 1).drop_last() =~= text@.take(end as int));
    }
    vstd::slice::slice_subrange(text, 0, end)
}

/// Drops the white space at the start.
pub fn trim_start(text: &[char]) -> (kept: &[char])
    ensures
        kept@ == trimmed_start(text@),
{
    let mut start: usize = 0;
    assert(text@.skip(0) =~= text@);
    while start < text.len() && white_space(text[start])
        invariant
            start <= text@.len(),
            trimmed_start(text@.skip(start as int)) == trimmed_start(text@),
        decreases text@.len() - start,
    {
        start += 1;
        assert(text@.skip(start - 1).drop_first() =~= text@.skip(start as int));
    }
    assert(text@.subrange(start as int, text@.len() as int) =~= text@.skip(start as int));
    vstd::slice::slice_subrange(text, start, text.len())
}

/// Drops the white space around the text.
pub fn trim(text: &[char]) -> (kept: &[char])
    ensures
        kept@ == trimmed(text@),
{
    trim_start(trim_end(text))
}

/// The length of the first line, its line feed left out.
pub open spec fn line_length(text: Seq<char>) -> nat
    decreases text.len(),
{
    if text.len() == 0 || text.first() == '\n' {
        0
    } else {
        1 + line_length(text.drop_first())
    }
}

/// The lines of `text`. A line feed ends a line, so nothing follows a final one.
pub open spec fn lines_of(text: Seq<char>) -> Seq<Seq<char>>
    decreases text.len(),
{
    if text.len() == 0 {
        Seq::empty()
    } else if line_length(text) >= text.len() {
        seq![text]
    } else {
        let n = line_length(text) as int;
        seq![text.take(n)] + lines_of(text.skip(n + 1))
    }
}

/// Counts the characters before the first line feed, from `start` on.
fn measure_line(text: &[char], start: usize) -> (n: usize)
    requires
        start <= text@.len(),
    ensures
        n == line_length(text@.skip(start as int)),
        start + n <= text@.len(),
        start + n < text@.len() ==> text@[start + n] == '\n',
{
    let total: usize = text.len();
    let mut n: usize = 0;
    while start + n < total && text[start + n] != '\n'
        invariant
            total == text@.len(),
            start + n <= text@.len(),
            line_length(text@.skip(start as int)) == n + line_length(text@.skip(start + n)),
        decreases text@.len() - start - n,
    {
        assert(text@.skip(start + n).drop_first() =~= text@.skip(start + n + 1));
        n += 1;
    }
    n
}

/// Splits `text` into lines.
pub fn lines(text: &[char]) -> (lines: Vec<Vec<char>>)
    ensures
        lines.deep_view() == lines_of(text@),
{
    let mut lines: Vec<Vec<char>> = Vec::new();
    let mut start: usize = 0;
    assert(text@.skip(0) =~= text@);
    assert(lines.deep_view() + lines_of(text@) =~= lines_of(text@));
    while start < text.len()
        invariant
            start <= text@.len(),
            lines.deep_view() + lines_of(text@.skip(start as int)) == lines_of(text@),
        decreases text@.len() - start,
    {
        let n: usize = measure_line(text, start);
        let ghost rest = text@.skip(start as int);
        let ghost before = lines.deep_view();
        let line = vstd::slice::slice_to_vec(vstd::slice::slice_subrange(text, start, start + n));
        lines.push(line);
        assert(line.deep_view() =~= line@);
        assert(lines.deep_view() =~= before.push(line@));
        if start + n < text.len() {
            assert(line@ =~= rest.take(n as int));
            assert(rest.skip(n + 1) =~= text@.skip(start + n + 1));
            assert(lines.deep_view() + lines_of(rest.skip(n + 1)) =~= before + lines_of(rest));
            start += n + 1;
        } else {
            assert(line@ =~= rest);
            start += n;
            assert(lines_of(text@.skip(start as int)) =~= Seq::empty());
            assert(lines.deep_view() + lines_of(text@.skip(start as int)) =~= before + lines_of(
                rest,
            ));
        }
    }
    assert(lines.deep_view() =~= lines_of(text@));
    lines
}

/// The number that digits stand for in this base.
pub open spec fn numeral(digits: Seq<char>, base: nat) -> nat
    decreases digits.len(),
{
    if digits.len() == 0 {
        0
    } else {
        (numeral(digits.drop_last(), base) * base + (digits.last() as u32 - '0' as u32)) as nat
    }
}

/// A number that is written in decimal reads as that number, in digits from 0 to 9 and
/// without a leading zero.
pub proof fn law_decimals_read_as_their_number(n: nat)
    ensures
        numeral(decimal(n), 10) == n,
        decimal(n).len() > 0,
        decimal(n).len() > 1 ==> decimal(n)[0] != '0',
        forall|i: int| 0 <= i < decimal(n).len() ==> '0' <= #[trigger] decimal(n)[i] <= '9',
    decreases n,
{
    reveal_with_fuel(numeral, 2);
    if n < 10 {
        assert(decimal(n).drop_last() =~= Seq::empty());
    } else {
        law_decimals_read_as_their_number(n / 10);
        assert(decimal(n).drop_last() =~= decimal(n / 10));
        if n / 10 < 10 {
            assert(decimal(n / 10)[0] == digit(n / 10));
        }
    }
}

/// A number that is written in binary reads as that number.
pub proof fn law_binaries_read_as_their_number(n: nat)
    ensures
        numeral(binary(n), 2) == n,
        forall|i: int|
            0 <= i < binary(n).len() ==> #[trigger] binary(n)[i] == '0' || binary(n)[i] == '1',
    decreases n,
{
    reveal_with_fuel(numeral, 2);
    if n < 2 {
        assert(binary(n).drop_last() =~= Seq::empty());
    } else {
        law_binaries_read_as_their_number(n / 2);
        assert(binary(n).drop_last() =~= binary(n / 2));
    }
}

/// `kept` is what lies in `text` from `a` to `b`, with white space and nothing else on
/// either side, and none at its own ends.
pub open spec fn is_trimmed(kept: Seq<char>, text: Seq<char>, a: int, b: int) -> bool {
    &&& 0 <= a <= b <= text.len()
    &&& kept == text.subrange(a, b)
    &&& forall|i: int| 0 <= i < a ==> is_white_space(#[trigger] text[i])
    &&& forall|i: int| b <= i < text.len() ==> is_white_space(#[trigger] text[i])
    &&& a < b ==> !is_white_space(text[a]) && !is_white_space(text[b - 1])
}

/// Trimming drops the white space around a text, all of it, and nothing else.
pub proof fn law_trimming_drops_white_space_only(text: Seq<char>)
    ensures
        exists|a: int, b: int| is_trimmed(trimmed(text), text, a, b),
{
    let b = lemma_trimmed_end(text);
    let shorter = trimmed_end(text);
    let a = lemma_trimmed_start(shorter);
    assert(trimmed(text) =~= text.subrange(a, b));
    assert forall|i: int| 0 <= i < a implies is_white_space(#[trigger] text[i]) by {
        assert(shorter[i] == text[i]);
    }
    if a < b {
        assert(shorter[a] == text[a] && shorter[b - 1] == text[b - 1]);
    }
    assert(is_trimmed(trimmed(text), text, a, b));
}

proof fn lemma_trimmed_end(text: Seq<char>) -> (b: int)
    ensures
        0 <= b <= text.len(),
        trimmed_end(text) == text.take(b),
        forall|i: int| b <= i < text.len() ==> is_white_space(#[trigger] text[i]),
        b > 0 ==> !is_white_space(text[b - 1]),
    decreases text.len(),
{
    if text.len() > 0 && is_white_space(text.last()) {
        let shorter = text.drop_last();
        let b = lemma_trimmed_end(shorter);
        assert(shorter.take(b) =~= text.take(b));
        assert forall|i: int| b <= i < text.len() implies is_white_space(#[trigger] text[i]) by {
            if i < shorter.len() {
                assert(shorter[i] == text[i]);
            }
        }
        b
    } else {
        assert(text.take(text.len() as int) =~= text);
        text.len() as int
    }
}

proof fn lemma_trimmed_start(text: Seq<char>) -> (a: int)
    ensures
        0 <= a <= text.len(),
        trimmed_start(text) == text.skip(a),
        forall|i: int| 0 <= i < a ==> is_white_space(#[trigger] text[i]),
        a < text.len() ==> !is_white_space(text[a]),
    decreases text.len(),
{
    if text.len() > 0 && is_white_space(text.first()) {
        let shorter = text.drop_first();
        let a = lemma_trimmed_start(shorter);
        assert(shorter.skip(a) =~= text.skip(a + 1));
        assert forall|i: int| 0 <= i < a + 1 implies is_white_space(#[trigger] text[i]) by {
            if i > 0 {
                assert(shorter[i - 1] == text[i]);
            }
        }
        if a + 1 < text.len() {
            assert(shorter[a] == text[a + 1]);
        }
        a + 1
    } else {
        assert(text.skip(0) =~= text);
        0
    }
}

/// Each line with a line feed behind it.
pub open spec fn ended(lines: Seq<Seq<char>>) -> Seq<char>
    decreases lines.len(),
{
    if lines.len() == 0 {
        Seq::empty()
    } else {
        lines.first() + seq!['\n'] + ended(lines.drop_first())
    }
}

/// The lines of a text, each ended, make up the text again, up to a line feed at its very
/// end; and no line holds a line feed.
pub proof fn law_lines_make_up_the_text(text: Seq<char>)
    ensures
        ended(lines_of(text)) == text || ended(lines_of(text)) == text.push('\n'),
        forall|i: int, j: int|
            0 <= i < lines_of(text).len() && 0 <= j < lines_of(text)[i].len()
                ==> #[trigger] lines_of(text)[i][j] != '\n',
    decreases text.len(),
{
    reveal_with_fuel(ended, 2);
    lemma_line_length(text);
    if text.len() > 0 {
        let n = line_length(text) as int;
        if n >= text.len() {
            assert(lines_of(text).drop_first() =~= Seq::empty());
            assert(ended(lines_of(text)) =~= text.push('\n'));
        } else {
            let rest = text.skip(n + 1);
            law_lines_make_up_the_text(rest);
            assert(lines_of(text).first() =~= text.take(n));
            assert(lines_of(text).drop_first() =~= lines_of(rest));
            assert(text.take(n) + seq!['\n'] + rest =~= text);
            assert(text.take(n) + seq!['\n'] + rest.push('\n') =~= text.push('\n'));
            assert forall|i: int, j: int|
                0 <= i < lines_of(text).len() && 0 <= j < lines_of(text)[i].len() implies
                #[trigger] lines_of(text)[i][j] != '\n' by {
                if i > 0 {
                    assert(lines_of(text)[i] == lines_of(rest)[i - 1]);
                    assert(lines_of(rest)[i - 1][j] != '\n');
                }
            }
        }
    }
}

proof fn lemma_line_length(text: Seq<char>)
    ensures
        line_length(text) <= text.len(),
        line_length(text) < text.len() ==> text[line_length(text) as int] == '\n',
        forall|i: int| 0 <= i < line_length(text) ==> #[trigger] text[i] != '\n',
    decreases text.len(),
{
    if text.len() > 0 && text.first() != '\n' {
        let rest = text.drop_first();
        lemma_line_length(rest);
        assert forall|i: int| 0 <= i < line_length(text) implies #[trigger] text[i] != '\n' by {
            if i > 0 {
                assert(rest[i - 1] == text[i]);
            }
        }
    }
}

/// A part stands where all of its characters do.
pub proof fn law_a_part_stands_with_all_its_characters(text: Seq<char>, part: Seq<char>, i: int)
    requires
        0 <= i <= text.len() - part.len(),
    ensures
        occurs_at(text, part, i) <==> forall|j: int|
            0 <= j < part.len() ==> text[i + j] == #[trigger] part[j],
        starts_with(text, part) <==> occurs_at(text, part, 0),
        ends_with(text, part) <==> occurs_at(text, part, text.len() - part.len()),
{
    let found = text.subrange(i, i + part.len());
    assert forall|j: int| 0 <= j < part.len() implies text[i + j] == found[j] by {}
    if forall|j: int| 0 <= j < part.len() ==> text[i + j] == #[trigger] part[j] {
        assert(found =~= part);
    }
    if occurs_at(text, part, i) {
        assert(found == part);
    }
}

/// Trimming the end keeps everything up to the last character that is no white space.
pub proof fn law_the_end_is_trimmed(text: Seq<char>, a: int)
    requires
        0 <= a <= text.len(),
        a > 0 ==> !is_white_space(text[a - 1]),
        forall|i: int| a <= i < text.len() ==> is_white_space(#[trigger] text[i]),
    ensures
        trimmed_end(text) == text.take(a),
{
    let b = lemma_trimmed_end(text);
    if b < a {
        assert(is_white_space(text[a - 1]));
    }
    if a < b {
        assert(is_white_space(text[b - 1]));
    }
}

/// White space is what Unicode lists as such: the blank, the tab and those that break
/// lines, and no letter, digit or sign.
pub proof fn law_white_space_is_what_unicode_lists(c: char)
    ensures
        is_white_space(c) <==> {
            let n = c as u32;
            ||| n == 9 || n == 10 || n == 11 || n == 12 || n == 13
            ||| n == 32 || n == 133 || n == 160 || n == 5760
            ||| n == 8192 || n == 8193 || n == 8194 || n == 8195 || n == 8196 || n == 8197
            ||| n == 8198 || n == 8199 || n == 8200 || n == 8201 || n == 8202
            ||| n == 8232 || n == 8233 || n == 8239 || n == 8287 || n == 12288
        },
{
}

/// The number that hexadecimal digits stand for.
pub open spec fn hex_numeral(digits: Seq<char>) -> nat
    decreases digits.len(),
{
    if digits.len() == 0 {
        0
    } else {
        let n = digits.last() as u32;
        (16 * hex_numeral(digits.drop_last()) + (if n <= 57 {
            n - 48
        } else {
            n - 97 + 10
        })) as nat
    }
}

/// A number that fits into so many hexadecimal digits reads as that number.
pub proof fn law_hexadecimals_read_as_their_number(n: nat, width: nat)
    requires
        n < vstd::arithmetic::power::pow(16, width),
    ensures
        hex(n, width).len() == width,
        hex_numeral(hex(n, width)) == n,
    decreases width,
{
    reveal(vstd::arithmetic::power::pow);
    reveal_with_fuel(hex_numeral, 2);
    if width > 0 {
        law_hexadecimals_read_as_their_number(n / 16, (width - 1) as nat);
        assert(hex(n, width).drop_last() =~= hex(n / 16, (width - 1) as nat));
    }
}

/// Negative numbers have a minus sign before their digits.
pub proof fn law_the_sign_comes_first(n: int)
    ensures
        n >= 0 ==> signed_decimal(n) == decimal(n as nat),
        n < 0 ==> signed_decimal(n)[0] == '-' && numeral(signed_decimal(n).skip(1), 10) == -n,
{
    if n < 0 {
        assert(signed_decimal(n).skip(1) =~= decimal((-n) as nat));
        law_decimals_read_as_their_number((-n) as nat);
    }
}

} // verus!
