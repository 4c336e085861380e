//! Text: comparing, trimming, joining and writing numbers.
use vstd::prelude::*;
use vstd::string::*;

verus! {

/// The characters with the Unicode property White_Space.
pub open spec fn is_white_space(c: char) -> bool {
    ||| '\u{9}' <= c <= '\u{d}'
    ||| c == '\u{20}'
    ||| c == '\u{85}'
    ||| c == '\u{a0}'
    ||| c == '\u{1680}'
    ||| '\u{2000}' <= c <= '\u{200a}'
    ||| c == '\u{2028}'
    ||| c == '\u{2029}'
    ||| c == '\u{202f}'
    ||| c == '\u{205f}'
    ||| c == '\u{3000}'
}

/// A text without the white space that it begins and ends with.
pub open spec fn trimmed(text: Seq<char>) -> Seq<char>
    decreases text.len(),
{
    if text.len() == 0 {
        text
    } else if is_white_space(text.first()) {
        trimmed(text.drop_first())
    } else if is_white_space(text.last()) {
        trimmed(text.drop_last())
    } else {
        text
    }
}

/// A text in lower case, as Unicode maps it.
pub uninterp spec fn lowercase(text: Seq<char>) -> Seq<char>;

/// Whether a text is of ASCII characters only.
pub open spec fn is_ascii_text(text: Seq<char>) -> bool {
    forall|i: int| 0 <= i < text.len() ==> (#[trigger] text[i]) <= '\u{7f}'
}

/// A text with the letters `A` to `Z` in lower case.
pub open spec fn ascii_lowercase(text: Seq<char>) -> Seq<char> {
    text.map_values(
        |c: char|
            if 'A' <= c <= 'Z' {
                (c as u32 + 32) as char
            } else {
                c
            },
    )
}

/// Whether lower case is known for a text: in ASCII it is a matter of the letters `A` to
/// `Z`.
pub open spec fn lowers_ascii(text: Seq<char>) -> bool {
    is_ascii_text(text) ==> lowercase(text) == ascii_lowercase(text)
}

/// `str::trim` takes the characters with the Unicode property White_Space off both ends.
pub assume_specification[ str::trim ](s: &str) -> (r: &str)
    ensures
        r@ == trimmed(s@),
;

/// What `str::to_lowercase` gives rests on the text alone, and of an ASCII text it lowers
/// the letters and keeps the rest.
pub assume_specification[ str::to_lowercase ](s: &str) -> (r: String)
    ensures
        r@ == lowercase(s@),
        is_ascii_text(s@) ==> r@ == ascii_lowercase(s@),
;

/// Whether two texts are the same.
pub fn same_text(a: &str, b: &str) -> (same: bool)
    ensures
        same == (a@ == b@),
{
    let left: String = a.to_owned();
    let right: String = b.to_owned();
    left == right
}

/// The text trimmed and in lower case: what a field is looked up by.
pub fn lookup_key(text: &str) -> (key: String)
    ensures
        key@ == lowercase(trimmed(text@)),
        lowers_ascii(trimmed(text@)),
{
    text.trim().to_lowercase()
}

/// A text without the repetitions of `suffix` that it ends with.
pub open spec fn without_suffixes(text: Seq<char>, suffix: Seq<char>) -> Seq<char>
    decreases text.len(),
{
    if suffix.len() > 0 && suffix.is_suffix_of(text) {
        without_suffixes(text.take(text.len() - suffix.len()), suffix)
    } else {
        text
    }
}

/// Texts one after the other, with `separator` between each two.
pub open spec fn joined(texts: Seq<Seq<char>>, separator: Seq<char>) -> Seq<char>
    decreases texts.len(),
{
    if texts.len() == 0 {
        Seq::empty()
    } else if texts.len() == 1 {
        texts[0]
    } else {
        joined(texts.drop_last(), separator) + separator + texts.last()
    }
}

/// A decimal digit.
pub open spec fn digit(n: nat) -> Seq<char> {
    if n == 0 {
        "0"@
    } else if n == 1 {
        "1"@
    } else if n == 2 {
        "2"@
    } else if n == 3 {
        "3"@
    } else if n == 4 {
        "4"@
    } else if n == 5 {
        "5"@
    } else if n == 6 {
        "6"@
    } else if n == 7 {
        "7"@
    } else if n == 8 {
        "8"@
    } else {
        "9"@
    }
}

/// A number in decimal digits, without leading zeros.
pub open spec fn decimal(n: nat) -> Seq<char>
    decreases n,
{
    if n < 10 {
        digit(n)
    } else {
        decimal(n / 10) + digit(n % 10)
    }
}

/// Writes a number in decimal digits.
pub fn decimal_text(n: usize) -> (text: String)
    ensures
        text@ == decimal(n as nat),
    decreases n,
{
    let mut text: String = if n < 10 { String::new() } else { decimal_text(n / 10) };
    let last: usize = n % 10;
    let last_digit: &str = if last == 0 {
        "0"
    } else if last == 1 {
        "1"
    } else if last == 2 {
        "2"
    } else if last == 3 {
        "3"
    } else if last == 4 {
        "4"
    } else if last == 5 {
        "5"
    } else if last == 6 {
        "6"
    } else if last == 7 {
        "7"
    } else if last == 8 {
        "8"
    } else {
        "9"
    };
    text.append(last_digit);
    assert(Seq::<char>::empty() + digit(last as nat) =~= digit(last as nat));
    text
}

/// Takes the repetitions of a suffix off the end of a text.
pub fn strip_suffixes(text: &str, suffix: &str) -> (stripped: String)
    requires
        suffix@.len() > 0,
    ensures
        stripped@ == without_suffixes(text@, suffix@),
{
    let width: usize = suffix.unicode_len();
    let total: usize = text.unicode_len();
    let mut end: usize = total;
    assert(text@.take(total as int) =~= text@);
    while end >= width && same_text(text.substring_char(end - width, end), suffix)
        invariant
            width == suffix@.len(),
            width > 0,
            end <= text@.len(),
            without_suffixes(text@, suffix@) == without_suffixes(
                text@.take(end as int),
                suffix@,
            ),
        ensures
            end < width || text@.subrange(end - width, end as int) != suffix@,
        decreases end,
    {
        proof {
            let here = text@.take(end as int);
            assert(here.subrange(end - width, end as int) =~= text@.subrange(
                end - width,
                end as int,
            ));
            assert(suffix@.is_suffix_of(here));
            assert(here.take(end - width) =~= text@.take(end - width));
        }
        end = end - width;
    }
    proof {
        let here = text@.take(end as int);
        if suffix@.is_suffix_of(here) {
            assert(text@.subrange(end - width, end as int) =~= suffix@);
        }
        assert(text@.subrange(0, end as int) =~= here);
    }
    text.substring_char(0, end).to_owned()
}

/// Copies texts.
pub fn copy_texts(texts: &Vec<String>) -> (copy: Vec<String>)
    ensures
        copy.deep_view() == texts.deep_view(),
{
    let mut copy: Vec<String> = Vec::new();
    let mut i: usize = 0;
    while i < texts.len()
        invariant
            i <= texts.len(),
            copy.len() == i,
            forall|j: int| 0 <= j < i ==> (#[trigger] copy@[j])@ == texts@[j]@,
        decreases texts.len() - i,
    {
        copy.push(texts[i].clone());
        i = i + 1;
    }
    assert(copy.deep_view() =~= texts.deep_view());
    copy
}

/// Joins texts with a separator between each two.
pub fn join_texts(texts: &Vec<String>, separator: &str) -> (text: String)
    ensures
        text@ == joined(texts.deep_view(), separator@),
{
    let ghost views = texts.deep_view();
    let mut text: String = String::new();
    let mut i: usize = 0;
    while i < texts.len()
        invariant
            i <= texts.len(),
            views == texts.deep_view(),
            text@ == joined(views.take(i as int), separator@),
        decreases texts.len() - i,
    {
        proof {
            assert(views.take(i + 1).drop_last() =~= views.take(i as int));
            assert(views.take(i + 1).last() == texts@[i as int]@);
            assert(Seq::<char>::empty() + texts@[i as int]@ =~= texts@[i as int]@);
        }
        if i > 0 {
            text.append(separator);
        }
        text.append(texts[i].as_str());
        i = i + 1;
    }
    assert(views.take(texts.len() as int) =~= views);
    text
}

/// White space round a text makes no difference once it is trimmed.
pub proof fn law_trimmed_ignores_white_space_round(text: Seq<char>, c: char)
    requires
        is_white_space(c),
    ensures
        trimmed(seq![c] + text) == trimmed(text),
        trimmed(text.push(c)) == trimmed(text),
    decreases text.len(),
{
    assert((seq![c] + text).drop_first() =~= text);
    let longer = text.push(c);
    if text.len() == 0 {
        assert(longer.drop_first() =~= text);
    } else if is_white_space(text.first()) {
        law_trimmed_ignores_white_space_round(text.drop_first(), c);
        assert(longer.drop_first() =~= text.drop_first().push(c));
    } else {
        assert(longer.drop_last() =~= text);
    }
}

/// A trimmed text neither begins nor ends with white space, and trimming it again changes
/// nothing.
pub proof fn law_trimmed_is_trimmed(text: Seq<char>)
    ensures
        trimmed(text).len() > 0 ==> !is_white_space(trimmed(text).first()) && !is_white_space(
            trimmed(text).last(),
        ),
        trimmed(trimmed(text)) == trimmed(text),
    decreases text.len(),
{
    if text.len() > 0 {
        if is_white_space(text.first()) {
            law_trimmed_is_trimmed(text.drop_first());
        } else if is_white_space(text.last()) {
            law_trimmed_is_trimmed(text.drop_last());
        }
    }
}

/// In lower case an ASCII text has no capital letter, is as long as before, and does not
/// change again.
pub proof fn law_ascii_lowercase_has_no_capitals(text: Seq<char>)
    requires
        is_ascii_text(text),
    ensures
        ascii_lowercase(text).len() == text.len(),
        forall|i: int|
            0 <= i < text.len() ==> !('A' <= #[trigger] ascii_lowercase(text)[i] <= 'Z'),
        ascii_lowercase(ascii_lowercase(text)) == ascii_lowercase(text),
{
    assert(ascii_lowercase(ascii_lowercase(text)) =~= ascii_lowercase(text));
}

/// Two numbers are written alike only if they are the same, and no number is written as
/// nothing.
pub proof fn law_decimal_tells_numbers_apart(a: nat, b: nat)
    ensures
        decimal(a).len() > 0,
        decimal(a) == decimal(b) ==> a == b,
    decreases a,
{
    lemma_digits(a % 10, b % 10);
    lemma_digits(a, b);
    lemma_decimal_last(a);
    lemma_decimal_last(b);
    if a >= 10 {
        law_decimal_tells_numbers_apart(a / 10, b / 10);
    }
    if b >= 10 {
        lemma_decimal_len(b / 10);
    }
    if a >= 10 {
        lemma_decimal_len(a / 10);
    }
}

proof fn lemma_digits(a: nat, b: nat)
    ensures
        digit(a).len() == 1,
        a < 10 && b < 10 && digit(a) == digit(b) ==> a == b,
{
    reveal_strlit("0");
    reveal_strlit("1");
    reveal_strlit("2");
    reveal_strlit("3");
    reveal_strlit("4");
    reveal_strlit("5");
    reveal_strlit("6");
    reveal_strlit("7");
    reveal_strlit("8");
    reveal_strlit("9");
    if a < 10 && b < 10 && digit(a) == digit(b) {
        assert(digit(a)[0] == digit(b)[0]);
    }
}

proof fn lemma_decimal_len(n: nat)
    ensures
        decimal(n).len() > 0,
    decreases n,
{
    lemma_digits(n % 10, 0);
    lemma_digits(n, 0);
    if n >= 10 {
        lemma_decimal_len(n / 10);
    }
}

/// The last digit of a number and what stands before it.
proof fn lemma_decimal_last(n: nat)
    ensures
        decimal(n).len() > 0,
        seq![decimal(n).last()] == digit(n % 10),
        n >= 10 ==> decimal(n).drop_last() == decimal(n / 10),
        n < 10 ==> decimal(n).len() == 1,
{
    lemma_decimal_len(n);
    lemma_digits(n % 10, 0);
    lemma_digits(n, 0);
    assert(seq![decimal(n).last()] =~= digit(n % 10));
    if n >= 10 {
        assert(decimal(n).drop_last() =~= decimal(n / 10));
    }
}

/// The number that a text of decimal digits stands for.
pub open spec fn number_read(text: Seq<char>) -> int
    decreases text.len(),
{
    if text.len() == 0 {
        0
    } else {
        number_read(text.drop_last()) * 10 + (text.last() as int - '0' as int)
    }
}

/// A number is written in decimal digits, with no needless zero in front, and what is
/// written reads as the number.
pub proof fn law_decimal_reads_back(n: nat)
    ensures
        decimal(n).len() > 0,
        forall|i: int| 0 <= i < decimal(n).len() ==> '0' <= #[trigger] decimal(n)[i] <= '9',
        number_read(decimal(n)) == n,
        n > 0 ==> decimal(n)[0] != '0',
        n == 0 ==> decimal(n).len() == 1,
    decreases n,
{
    lemma_digit_reads(n % 10);
    if n < 10 {
        lemma_digit_reads(n);
        assert(decimal(n).drop_last() =~= Seq::<char>::empty());
        assert(number_read(Seq::<char>::empty()) == 0);
    } else {
        law_decimal_reads_back(n / 10);
        let front = decimal(n / 10);
        assert(decimal(n).drop_last() =~= front);
        assert(decimal(n).last() == digit(n % 10)[0]);
        assert forall|i: int| 0 <= i < decimal(n).len() implies '0' <= #[trigger] decimal(n)[i]
            <= '9' by {
            if i < front.len() {
                assert(decimal(n)[i] == front[i]);
            }
        }
        assert(decimal(n)[0] == front[0]);
    }
}

/// A digit is one character, and reads as the number that it is of.
pub proof fn lemma_digit_reads(n: nat)
    ensures
        digit(n).len() == 1,
        '0' <= digit(n)[0] <= '9',
        n < 10 ==> digit(n)[0] as int - '0' as int == n,
{
    reveal_strlit("0");
    reveal_strlit("1");
    reveal_strlit("2");
    reveal_strlit("3");
    reveal_strlit("4");
    reveal_strlit("5");
    reveal_strlit("6");
    reveal_strlit("7");
    reveal_strlit("8");
    reveal_strlit("9");
}

/// Trimming takes off the white space at both ends and nothing else.
pub proof fn law_trimming_keeps_what_stands_between(
    front: Seq<char>,
    middle: Seq<char>,
    back: Seq<char>,
)
    requires
        forall|i: int| 0 <= i < front.len() ==> is_white_space(#[trigger] front[i]),
        forall|i: int| 0 <= i < back.len() ==> is_white_space(#[trigger] back[i]),
        middle.len() > 0 ==> !is_white_space(middle.first()) && !is_white_space(middle.last()),
    ensures
        trimmed(front + middle + back) == middle,
    decreases front.len() + back.len(),
{
    let text = front + middle + back;
    if front.len() > 0 {
        assert(text.first() == front[0]);
        assert(text.drop_first() =~= front.drop_first() + middle + back);
        law_trimming_keeps_what_stands_between(front.drop_first(), middle, back);
    } else if middle.len() == 0 {
        if back.len() > 0 {
            assert(text.first() == back[0]);
            assert(text.drop_first() =~= front + middle + back.drop_first());
            law_trimming_keeps_what_stands_between(front, middle, back.drop_first());
        } else {
            assert(text =~= middle);
        }
    } else {
        assert(text.first() == middle.first());
        if back.len() > 0 {
            assert(text.last() == back[back.len() - 1]);
            assert(text.drop_last() =~= front + middle + back.drop_last());
            law_trimming_keeps_what_stands_between(front, middle, back.drop_last());
        } else {
            assert(text =~= middle);
        }
    }
}

/// In ASCII, white space is the space and the characters from tab to carriage return.
pub proof fn law_white_space_in_ascii(c: char)
    requires
        c <= '\u{7f}',
    ensures
        is_white_space(c) <==> c == ' ' || '\t' <= c <= '\r',
{
}

/// Lower case moves each capital letter of an ASCII text by the distance from `A` to `a`
/// and leaves every other character where it is.
pub proof fn law_ascii_lowercase_moves_capitals(text: Seq<char>, i: int)
    requires
        is_ascii_text(text),
        0 <= i < text.len(),
    ensures
        ascii_lowercase(text).len() == text.len(),
        ascii_lowercase(text)[i] as int - text[i] as int == (if 'A' <= text[i] <= 'Z' {
            'a' as int - 'A' as int
        } else {
            0
        }),
{
}

/// Texts that are put together are joined part by part, with one separator between the
/// parts, and a text alone is joined to itself.
pub proof fn law_joining_goes_part_by_part(
    front: Seq<Seq<char>>,
    back: Seq<Seq<char>>,
    text: Seq<char>,
    separator: Seq<char>,
)
    ensures
        joined(Seq::empty(), separator) == Seq::<char>::empty(),
        joined(seq![text], separator) == text,
        front.len() > 0 && back.len() > 0 ==> joined(front + back, separator) == joined(
            front,
            separator,
        ) + separator + joined(back, separator),
    decreases back.len(),
{
    if front.len() > 0 && back.len() > 0 {
        assert((front + back).drop_last() =~= front + back.drop_last());
        assert((front + back).last() == back.last());
        if back.len() == 1 {
            assert(front + back.drop_last() =~= front);
        } else {
            law_joining_goes_part_by_part(front, back.drop_last(), text, separator);
            assert(joined(front + back, separator) =~= joined(front, separator) + separator
                + joined(back, separator));
        }
    }
}

/// Each suffix at the end of a text is taken off, and nothing else: a text that does not end
/// with it is left as it is.
pub proof fn law_only_suffixes_are_taken_off(text: Seq<char>, suffix: Seq<char>)
    requires
        suffix.len() > 0,
    ensures
        without_suffixes(text + suffix, suffix) == without_suffixes(text, suffix),
        !suffix.is_suffix_of(text) ==> without_suffixes(text, suffix) == text,
{
    let longer = text + suffix;
    assert(suffix.is_suffix_of(longer));
    assert(longer.take(longer.len() - suffix.len()) =~= text);
}

} // verus!
