//! Character-level string helpers over `std` with their documented behaviour.

use vstd::prelude::*;

verus! {

/// `c` is an ASCII lowercase letter.
pub open spec fn is_ascii_lower(c: char) -> bool {
    'a' <= c && c <= 'z'
}

/// `c` is an ASCII uppercase letter.
pub open spec fn is_ascii_upper(c: char) -> bool {
    'A' <= c && c <= 'Z'
}

/// `char::to_ascii_uppercase`: ASCII lowercase letters map to their uppercase
/// form, every other character to itself.
pub open spec fn ascii_upper(c: char) -> char {
    if is_ascii_lower(c) {
        ((c as int) - 32) as char
    } else {
        c
    }
}

/// `char::to_ascii_lowercase`: ASCII uppercase letters map to their lowercase
/// form, every other character to itself.
pub open spec fn ascii_lower(c: char) -> char {
    if is_ascii_upper(c) {
        ((c as int) + 32) as char
    } else {
        c
    }
}

/// Every character of `s` mapped to lowercase ASCII.
pub open spec fn ascii_lower_seq(s: Seq<char>) -> Seq<char> {
    s.map_values(|c: char| ascii_lower(c))
}

/// `char::to_ascii_uppercase`.
pub fn char_to_upper(c: char) -> (r: char)
    ensures
        r == ascii_upper(c),
{
    if 'a' <= c && c <= 'z' {
        let code = c as u8;
        assert(code == c as int);
        (code - 32) as char
    } else {
        c
    }
}

/// `char::to_ascii_lowercase`.
pub fn char_to_lower(c: char) -> (r: char)
    ensures
        r == ascii_lower(c),
{
    if 'A' <= c && c <= 'Z' {
        let code = c as u8;
        assert(code == c as int);
        (code + 32) as char
    } else {
        c
    }
}

/// `str == str`: equal exactly when the characters are equal.
pub fn str_eq(a: &str, b: &str) -> (r: bool)
    ensures
        r == (a@ == b@),
{
    let x = chars_of(a);
    let y = chars_of(b);
    if x.len() != y.len() {
        return false;
    }
    let mut i: usize = 0;
    while i < x.len()
        invariant
            i <= x.len(),
            x.len() == y.len(),
            x@ == a@,
            y@ == b@,
            forall|j: int| 0 <= j < i ==> x@[j] == y@[j],
        decreases x.len() - i,
    {
        if x[i] != y[i] {
            assert(a@[i as int] != b@[i as int]);
            return false;
        }
        i = i + 1;
    }
    assert(a@ =~= b@);
    true
}

/// The characters of a string (`str::chars`, collected).
pub fn chars_of(s: &str) -> (r: Vec<char>)
    ensures
        r@ == s@,
{
    broadcast use vstd::string::axiom_spec_iter;

    let mut out: Vec<char> = Vec::new();
    for c in it: s.chars()
        invariant
            out@.len() == it.index(),
            forall|i: int| 0 <= i < out@.len() ==> out@[i] == it.seq()[i],
    {
        out.push(c);
    }
    assert(out@ =~= s@);
    out
}

/// `String::push`: appends one character.
#[verifier::external_body]
pub(crate) fn push_char(s: &mut String, c: char)
    ensures
        final(s)@ == old(s)@.push(c),
{
    s.push(c)
}

/// `String::push_str`: appends a string slice.
pub fn push_str(s: &mut String, t: &str)
    ensures
        final(s)@ == old(s)@ + t@,
{
    let chars = chars_of(t);
    push_chars(s, &chars);
}

/// `str::to_owned`: an owned copy.
pub fn to_owned_string(s: &str) -> (r: String)
    ensures
        r@ == s@,
{
    s.to_owned()
}

/// `char::is_whitespace`: the characters with the Unicode `White_Space`
/// property.
pub open spec fn is_whitespace(c: char) -> bool {
    ||| '\t' <= c && c <= '\r'
    ||| c == ' '
    ||| c == '\u{85}'
    ||| c == '\u{a0}'
    ||| c == '\u{1680}'
    ||| '\u{2000}' <= c && c <= '\u{200a}'
    ||| c == '\u{2028}'
    ||| c == '\u{2029}'
    ||| c == '\u{202f}'
    ||| c == '\u{205f}'
    ||| c == '\u{3000}'
}

/// `s` without its leading whitespace.
pub open spec fn trim_start(s: Seq<char>) -> Seq<char>
    decreases s.len(),
{
    if s.len() > 0 && is_whitespace(s[0]) {
        trim_start(s.drop_first())
    } else {
        s
    }
}

/// `s` without its trailing whitespace.
pub open spec fn trim_end(s: Seq<char>) -> Seq<char>
    decreases s.len(),
{
    if s.len() > 0 && is_whitespace(s.last()) {
        trim_end(s.drop_last())
    } else {
        s
    }
}

/// What `str::trim` returns: the string without leading and trailing
/// whitespace.
pub open spec fn trimmed(s: Seq<char>) -> Seq<char> {
    trim_end(trim_start(s))
}

/// `char::is_whitespace`.
pub fn is_whitespace_char(c: char) -> (r: bool)
    ensures
        r == is_whitespace(c),
{
    ('\t' <= c && c <= '\r') || c == ' ' || c == '\u{85}' || c == '\u{a0}' || c == '\u{1680}'
        || ('\u{2000}' <= c && c <= '\u{200a}') || c == '\u{2028}' || c == '\u{2029}' || c
        == '\u{202f}' || c == '\u{205f}' || c == '\u{3000}'
}

/// `str::trim`, as an owned string.
pub fn trim(s: &str) -> (r: String)
    ensures
        r@ == trimmed(s@),
{
    let chars = chars_of(s);
    let n = chars.len();
    let mut start: usize = 0;
    assert(s@.subrange(0, n as int) == s@);
    while start < n && is_whitespace_char(chars[start])
        invariant
            start <= n,
            n == chars@.len(),
            chars@ == s@,
            trim_start(s@) == trim_start(s@.subrange(start as int, n as int)),
        decreases n - start,
    {
        assert(s@.subrange(start as int, n as int).drop_first() == s@.subrange(
            (start + 1) as int,
            n as int,
        ));
        start = start + 1;
    }
    let mut end: usize = n;
    assert(trim_start(s@.subrange(start as int, n as int)) == s@.subrange(start as int, n as int));
    while end > start && is_whitespace_char(chars[end - 1])
        invariant
            start <= end <= n,
            n == chars@.len(),
            chars@ == s@,
            trim_start(s@) == s@.subrange(start as int, n as int),
            trimmed(s@) == trim_end(s@.subrange(start as int, end as int)),
        decreases end - start,
    {
        assert(s@.subrange(start as int, end as int).drop_last() == s@.subrange(
            start as int,
            (end - 1) as int,
        ));
        end = end - 1;
    }
    let mut out = String::new();
    let mut i: usize = start;
    while i < end
        invariant
            start <= i <= end <= n,
            n == chars@.len(),
            chars@ == s@,
            out@ == s@.subrange(start as int, i as int),
        decreases end - i,
    {
        push_char(&mut out, chars[i]);
        assert(s@.subrange(start as int, (i + 1) as int) == s@.subrange(start as int, i as int).push(
            s@[i as int],
        ));
        i = i + 1;
    }
    out
}

/// `s` starts with `prefix`.
pub open spec fn has_prefix(s: Seq<char>, prefix: Seq<char>) -> bool {
    prefix.len() <= s.len() && s.subrange(0, prefix.len() as int) == prefix
}

/// `str::starts_with` with a string pattern.
pub fn starts_with(s: &str, prefix: &str) -> (r: bool)
    ensures
        r == has_prefix(s@, prefix@),
{
    let x = chars_of(s);
    let p = chars_of(prefix);
    if p.len() > x.len() {
        return false;
    }
    let mut i: usize = 0;
    while i < p.len()
        invariant
            i <= p.len() <= x.len(),
            x@ == s@,
            p@ == prefix@,
            forall|j: int| 0 <= j < i ==> x@[j] == p@[j],
        decreases p.len() - i,
    {
        if x[i] != p[i] {
            assert(s@.subrange(0, prefix@.len() as int)[i as int] != prefix@[i as int]);
            return false;
        }
        i = i + 1;
    }
    assert(s@.subrange(0, prefix@.len() as int) =~= prefix@);
    true
}

/// The decimal text of an integer, as `Display` prints it: a minus sign for a
/// negative value, then the digits, `0` for zero.
pub open spec fn int_text(v: int) -> Seq<char> {
    let digits = crate::decimal::digits_of(if v < 0 { (-v) as nat } else { v as nat });
    let sign = if v < 0 {
        seq!['-']
    } else {
        Seq::empty()
    };
    sign + (if v == 0 {
        seq!['0']
    } else {
        digits
    })
}

/// The character of a decimal digit.
fn digit_character(d: u128) -> (r: char)
    requires
        d < 10,
    ensures
        r == crate::decimal::digit_char(d as int),
{
    let digits: [char; 10] = ['0', '1', '2', '3', '4', '5', '6', '7', '8', '9'];
    let c = digits[d as usize];
    assert(c == crate::decimal::digit_char(d as int)) by {
        assert(digits@[d as int] == crate::decimal::digit_char(d as int));
    }
    c
}

/// The decimal digits of `n`, most significant first (none for zero).
fn digit_characters(n: u128) -> (r: Vec<char>)
    ensures
        r@ == crate::decimal::digits_of(n as nat),
{
    let mut out: Vec<char> = Vec::new();
    let mut m: u128 = n;
    while m > 0
        invariant
            crate::decimal::digits_of(n as nat) == crate::decimal::digits_of(m as nat) + out@,
        decreases m,
    {
        let d = digit_character(m % 10);
        let ghost before = out@;
        out.insert(0, d);
        assert(crate::decimal::digits_of(m as nat) == crate::decimal::digits_of((m / 10) as nat).push(
            d,
        ));
        assert(crate::decimal::digits_of((m / 10) as nat).push(d) + before
            =~= crate::decimal::digits_of((m / 10) as nat) + out@);
        m = m / 10;
    }
    assert(crate::decimal::digits_of(0) =~= Seq::<char>::empty());
    assert(out@ =~= Seq::<char>::empty() + out@);
    out
}

/// An integer as `Display` prints it.
fn integer_text(v: i128) -> (r: String)
    requires
        v > i128::MIN,
    ensures
        r@ == int_text(v as int),
{
    let mut out = String::new();
    if v == 0 {
        push_char(&mut out, '0');
        return out;
    }
    if v < 0 {
        push_char(&mut out, '-');
    }
    let magnitude: u128 = if v < 0 {
        (-v) as u128
    } else {
        v as u128
    };
    let digits = digit_characters(magnitude);
    push_chars(&mut out, &digits);
    out
}

/// `i64::to_string`: an optional minus sign and the decimal digits.
pub fn i64_to_string(v: i64) -> (r: String)
    ensures
        r@ == int_text(v as int),
{
    integer_text(v as i128)
}

/// Appends `t` (given as characters) to `s`.
pub fn push_chars(s: &mut String, t: &Vec<char>)
    ensures
        final(s)@ == old(s)@ + t@,
{
    let mut i: usize = 0;
    while i < t.len()
        invariant
            i <= t.len(),
            s@ == old(s)@ + t@.subrange(0, i as int),
        decreases t.len() - i,
    {
        push_char(s, t[i]);
        assert(t@.subrange(0, (i + 1) as int) == t@.subrange(0, i as int).push(t@[i as int]));
        i = i + 1;
    }
    assert(t@.subrange(0, t.len() as int) == t@);
}

/// The views of a sequence of string slices.
pub open spec fn str_views(v: Seq<&str>) -> Seq<Seq<char>> {
    v.map_values(|s: &str| s@)
}

/// What `str::split_whitespace` yields for a string: its maximal runs of
/// non-whitespace characters, in order.
pub open spec fn whitespace_words(s: Seq<char>) -> Seq<Seq<char>>
    decreases s.len(),
{
    if s.len() == 0 {
        Seq::empty()
    } else {
        let init = whitespace_words(s.drop_last());
        if is_whitespace(s.last()) {
            init
        } else if s.len() >= 2 && !is_whitespace(s[s.len() - 2]) && init.len() > 0 {
            init.update(init.len() - 1, init.last().push(s.last()))
        } else {
            init.push(seq![s.last()])
        }
    }
}

/// The words found so far and the word being read, if it is not empty.
pub open spec fn words_with(done: Seq<Seq<char>>, current: Seq<char>) -> Seq<Seq<char>> {
    if current.len() > 0 {
        done.push(current)
    } else {
        done
    }
}

/// `str::split_whitespace`, collected into owned strings.
pub fn split_words(s: &str) -> (r: Vec<String>)
    ensures
        crate::reports::views(r@) == whitespace_words(s@),
{
    let chars = chars_of(s);
    let mut words: Vec<String> = Vec::new();
    let mut current = String::new();
    let mut i: usize = 0;
    while i < chars.len()
        invariant
            i <= chars.len(),
            chars@ == s@,
            whitespace_words(s@.take(i as int)) == words_with(
                crate::reports::views(words@),
                current@,
            ),
            current@.len() > 0 <==> (i > 0 && !is_whitespace(s@[i - 1])),
        decreases chars.len() - i,
    {
        let c = chars[i];
        let ghost t = s@.take((i + 1) as int);
        assert(t.drop_last() == s@.take(i as int));
        assert(t.last() == c);
        assert(i >= 1 ==> t[t.len() - 2] == s@[i - 1]);
        let ghost before = crate::reports::views(words@);
        let ghost cur = current@;
        let ghost init = whitespace_words(s@.take(i as int));
        assert(init == words_with(before, cur));
        if is_whitespace_char(c) {
            if chars_of(current.as_str()).len() > 0 {
                let done = current;
                words.push(done);
                current = String::new();
                assert(crate::reports::views(words@) =~= before.push(done@));
            }
        } else {
            push_char(&mut current, c);
            proof {
                if cur.len() > 0 {
                    assert(init == before.push(cur));
                    assert(whitespace_words(t) == init.update(init.len() - 1, init.last().push(c)));
                    assert(init.update(init.len() - 1, init.last().push(c)) =~= before.push(
                        cur.push(c),
                    ));
                } else {
                    assert(init == before);
                    assert(whitespace_words(t) == init.push(seq![c]));
                    assert(cur.push(c) =~= seq![c]);
                }
            }
        }
        i = i + 1;
    }
    assert(s@.take(chars.len() as int) == s@);
    let ghost before = crate::reports::views(words@);
    if chars_of(current.as_str()).len() > 0 {
        let last = current;
        words.push(last);
        assert(crate::reports::views(words@) =~= before.push(last@));
    }
    words
}

/// The first `n` characters of `s` (all of them when it is shorter).
pub fn take_chars(s: &str, n: usize) -> (r: String)
    ensures
        r@ == s@.take(if n <= s@.len() { n as int } else { s@.len() as int }),
{
    let chars = chars_of(s);
    let end = if n <= chars.len() {
        n
    } else {
        chars.len()
    };
    let mut out = String::new();
    let mut i: usize = 0;
    while i < end
        invariant
            i <= end <= chars.len(),
            chars@ == s@,
            out@ == s@.take(i as int),
        decreases end - i,
    {
        push_char(&mut out, chars[i]);
        assert(s@.take((i + 1) as int) == s@.take(i as int).push(s@[i as int]));
        i = i + 1;
    }
    out
}

/// `usize::to_string`: the decimal digits.
pub fn usize_to_string(v: usize) -> (r: String)
    ensures
        r@ == int_text(v as int),
{
    integer_text(v as i128)
}

/// Text padded on the left with zeros to `width` characters, as
/// `format!("{:0width$}")` prints a non-negative number.
pub open spec fn zero_padded(t: Seq<char>, width: nat) -> Seq<char> {
    if t.len() < width {
        crate::decimal::zeros((width - t.len()) as nat) + t
    } else {
        t
    }
}

/// A non-negative number as text zero-padded to ten digits (`{:010}`).
pub fn usize_to_padded10(v: usize) -> (r: String)
    ensures
        r@ == zero_padded(int_text(v as int), 10),
{
    let digits = usize_to_string(v);
    pad_zeros(digits.as_str(), 10)
}

/// `str::to_ascii_lowercase`: every ASCII uppercase letter of `s` in lowercase.
pub fn lowercase_ascii(s: &str) -> (r: String)
    ensures
        r@ == ascii_lower_seq(s@),
{
    let chars = chars_of(s);
    let mut out = String::new();
    let mut i: usize = 0;
    while i < chars.len()
        invariant
            i <= chars.len(),
            chars@ == s@,
            out@ == ascii_lower_seq(s@.take(i as int)),
        decreases chars.len() - i,
    {
        push_char(&mut out, char_to_lower(chars[i]));
        assert(s@.take((i + 1) as int) == s@.take(i as int).push(s@[i as int]));
        assert(ascii_lower_seq(s@.take((i + 1) as int)) == ascii_lower_seq(s@.take(i as int)).push(
            ascii_lower(s@[i as int]),
        ));
        i = i + 1;
    }
    assert(s@.take(chars.len() as int) == s@);
    out
}

/// `t` padded on the left with zeros to `width` characters.
pub fn pad_zeros(t: &str, width: usize) -> (r: String)
    ensures
        r@ == zero_padded(t@, width as nat),
{
    let chars = chars_of(t);
    let mut out = String::new();
    if chars.len() < width {
        let pad = width - chars.len();
        let mut i: usize = 0;
        while i < pad
            invariant
                i <= pad,
                out@ == crate::decimal::zeros(i as nat),
            decreases pad - i,
        {
            push_char(&mut out, '0');
            assert(crate::decimal::zeros((i + 1) as nat) == crate::decimal::zeros(i as nat).push('0'));
            i = i + 1;
        }
    }
    push_str(&mut out, t);
    out
}

/// Every word that `split_whitespace` yields holds at least one character.
pub proof fn lemma_whitespace_words_nonempty(s: Seq<char>)
    ensures
        forall|j: int|
            0 <= j < whitespace_words(s).len() ==> (#[trigger] whitespace_words(s)[j]).len() > 0,
    decreases s.len(),
{
    if s.len() > 0 {
        lemma_whitespace_words_nonempty(s.drop_last());
        let init = whitespace_words(s.drop_last());
        let r = whitespace_words(s);
        assert forall|j: int| 0 <= j < r.len() implies (#[trigger] r[j]).len() > 0 by {
            if j < init.len() {
                assert(init[j].len() > 0);
            }
        }
    }
}

} // verus!
