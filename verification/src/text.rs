//! Character-level text utilities shared by the launcher's message and
//! command-line handling: truncation, ASCII case folding, substring search,
//! whitespace trimming and decimal rendering, and a fact about inserting
//! into a sequence that the sorts use.
use vstd::prelude::*;
use vstd::string::*;

verus! {

/// A class of characters that a trimming operation strips.
#[derive(Clone, Copy, Debug, PartialEq, Eq)]
pub enum CharClass {
    /// Unicode `White_Space` characters, as `char::is_whitespace` defines them.
    White,
    /// The letter `v`.
    LetterV,
    /// Anything that cannot be part of a version token: characters other
    /// than ASCII letters, digits, `.`, `-` and `+`.
    NotVersionChar,
}

/// The Unicode `White_Space` property.
pub open spec fn is_white(c: char) -> bool {
    ||| ('\u{9}' <= c && c <= '\u{d}')
    ||| c == ' '
    ||| c == '\u{85}'
    ||| c == '\u{a0}'
    ||| c == '\u{1680}'
    ||| ('\u{2000}' <= c && c <= '\u{200a}')
    ||| c == '\u{2028}'
    ||| c == '\u{2029}'
    ||| c == '\u{202f}'
    ||| c == '\u{205f}'
    ||| c == '\u{3000}'
}

pub open spec fn is_ascii_alphanumeric(c: char) -> bool {
    ||| ('0' <= c && c <= '9')
    ||| ('a' <= c && c <= 'z')
    ||| ('A' <= c && c <= 'Z')
}

pub open spec fn in_class(c: char, class: CharClass) -> bool {
    match class {
        CharClass::White => is_white(c),
        CharClass::LetterV => c == 'v',
        CharClass::NotVersionChar => !is_ascii_alphanumeric(c) && c != '.' && c != '-' && c != '+',
    }
}

/// The ASCII lower-case form of a character (`char::to_ascii_lowercase`).
pub open spec fn ascii_lower(c: char) -> char {
    if 'A' <= c && c <= 'Z' {
        ((c as u32) + 32) as char
    } else {
        c
    }
}

/// `str::to_ascii_lowercase`: every ASCII capital letter lowered, the rest kept.
pub open spec fn ascii_lowercase(s: Seq<char>) -> Seq<char> {
    Seq::new(s.len(), |i: int| ascii_lower(s[i]))
}

/// `needle` occurs in `hay` as a contiguous run of characters.
pub open spec fn contains_text(hay: Seq<char>, needle: Seq<char>) -> bool {
    exists|i: int| 0 <= i <= hay.len() - needle.len() && #[trigger] hay.subrange(i, i + needle.len()) =~= needle
}

/// The first `max` characters of `s` (all of `s` when it is shorter).
pub open spec fn first_chars(s: Seq<char>, max: nat) -> Seq<char> {
    if s.len() <= max {
        s
    } else {
        s.take(max as int)
    }
}

/// `s` without its leading characters of the class.
pub open spec fn trim_start_by(s: Seq<char>, class: CharClass) -> Seq<char>
    decreases s.len(),
{
    if s.len() > 0 && in_class(s[0], class) {
        trim_start_by(s.drop_first(), class)
    } else {
        s
    }
}

/// `s` without its trailing characters of the class.
pub open spec fn trim_end_by(s: Seq<char>, class: CharClass) -> Seq<char>
    decreases s.len(),
{
    if s.len() > 0 && in_class(s.last(), class) {
        trim_end_by(s.drop_last(), class)
    } else {
        s
    }
}

/// `s` without leading and trailing characters of the class.
pub open spec fn trim_by(s: Seq<char>, class: CharClass) -> Seq<char> {
    trim_end_by(trim_start_by(s, class), class)
}

/// `str::trim`.
pub open spec fn trim_white(s: Seq<char>) -> Seq<char> {
    trim_by(s, CharClass::White)
}

/// The characters of an optional string.
pub open spec fn opt_view(o: Option<String>) -> Option<Seq<char>> {
    match o {
        Some(s) => Some(s@),
        None => None,
    }
}

/// `s` ends with `suffix`.
pub open spec fn ends_with(s: Seq<char>, suffix: Seq<char>) -> bool {
    s.len() >= suffix.len() && s.skip(s.len() - suffix.len()) =~= suffix
}

/// The decimal digit for a value below ten.
pub open spec fn digit_char(d: nat) -> char {
    (('0' as u32) + d) as char
}

/// The decimal rendering of a natural number, without leading zeros.
pub open spec fn decimal(n: nat) -> Seq<char>
    decreases n,
{
    if n < 10 {
        seq![digit_char(n)]
    } else {
        decimal(n / 10).push(digit_char(n % 10))
    }
}

/// Cutting text keeps a prefix of it, never longer than the limit.
pub proof fn law_first_chars_is_bounded_prefix(s: Seq<char>, max: nat)
    ensures
        first_chars(s, max).len() <= max,
        first_chars(s, max).len() <= s.len(),
        first_chars(s, max).is_prefix_of(s),
        s.len() <= max ==> first_chars(s, max) == s,
{
    assert(first_chars(s, max) =~= s.take(first_chars(s, max).len() as int));
}

/// Every character of a decimal rendering is a digit.
pub proof fn lemma_decimal_digits(n: nat)
    ensures
        decimal(n).len() >= 1,
        forall|i: int| 0 <= i < decimal(n).len() ==> '0' <= #[trigger] decimal(n)[i] <= '9',
    decreases n,
{
    if n >= 10 {
        lemma_decimal_digits(n / 10);
        assert(n % 10 < 10);
    }
}

proof fn lemma_trim_start_skip(s: Seq<char>, class: CharClass, i: int)
    requires
        0 <= i <= s.len(),
        forall|k: int| 0 <= k < i ==> in_class(#[trigger] s[k], class),
        i == s.len() || !in_class(s[i], class),
    ensures
        trim_start_by(s, class) == s.skip(i),
    decreases i,
{
    if i == 0 {
        assert(s.skip(0) =~= s);
    } else {
        let t = s.drop_first();
        assert forall|k: int| 0 <= k < i - 1 implies in_class(#[trigger] t[k], class) by {
            assert(t[k] == s[k + 1]);
        }
        if i - 1 < t.len() {
            assert(t[i - 1] == s[i]);
        }
        lemma_trim_start_skip(t, class, i - 1);
        assert(t.skip(i - 1) =~= s.skip(i));
    }
}

proof fn lemma_trim_end_take(s: Seq<char>, class: CharClass, j: int)
    requires
        0 <= j <= s.len(),
        forall|k: int| j <= k < s.len() ==> in_class(#[trigger] s[k], class),
        j == 0 || !in_class(s[j - 1], class),
    ensures
        trim_end_by(s, class) == s.take(j),
    decreases s.len() - j,
{
    if j == s.len() {
        assert(s.take(j) =~= s);
    } else {
        let t = s.drop_last();
        assert(in_class(s.last(), class));
        assert forall|k: int| j <= k < t.len() implies in_class(#[trigger] t[k], class) by {
            assert(t[k] == s[k]);
        }
        if j > 0 {
            assert(t[j - 1] == s[j - 1]);
        }
        lemma_trim_end_take(t, class, j);
        assert(t.take(j) =~= s.take(j));
    }
}

/// `trim_start_by` and `trim_end_by` of a run `s[from..to]`, as indices.
proof fn lemma_trim_range(s: Seq<char>, class: CharClass, i: int, j: int)
    requires
        0 <= i <= j <= s.len(),
        forall|k: int| 0 <= k < i ==> in_class(#[trigger] s[k], class),
        forall|k: int| j <= k < s.len() ==> in_class(#[trigger] s[k], class),
        i == s.len() || !in_class(s[i], class),
        j == i || !in_class(s[j - 1], class),
    ensures
        trim_by(s, class) == s.subrange(i, j),
{
    lemma_trim_start_skip(s, class, i);
    let t = s.skip(i);
    assert forall|k: int| j - i <= k < t.len() implies in_class(#[trigger] t[k], class) by {
        assert(t[k] == s[k + i]);
    }
    if j - i > 0 {
        assert(t[j - i - 1] == s[j - 1]);
    }
    lemma_trim_end_take(t, class, j - i);
    assert(t.take(j - i) =~= s.subrange(i, j));
}

/// Inserting into a sequence adds the element to its multiset.
pub(crate) proof fn lemma_insert_multiset<A>(s: Seq<A>, p: int, x: A)
    requires
        0 <= p <= s.len(),
    ensures
        s.insert(p, x).to_multiset() == s.to_multiset().insert(x),
{
    broadcast use vstd::seq_lib::group_to_multiset_ensures;

    let t = s.insert(p, x);
    assert(t.remove(p) =~= s);
    assert(t[p] == x);
    assert(t.remove(p).to_multiset() =~= t.to_multiset().remove(x));
    assert(t.to_multiset().count(x) > 0) by {
        assert(t.contains(x));
    }
    assert(t.to_multiset() =~= t.to_multiset().remove(x).insert(x));
}

/// `char::is_whitespace`.
pub fn char_is_white(c: char) -> (r: bool)
    ensures
        r == is_white(c),
{
    ('\u{9}' <= c && c <= '\u{d}') || c == ' ' || c == '\u{85}' || c == '\u{a0}' || c
        == '\u{1680}' || ('\u{2000}' <= c && c <= '\u{200a}') || c == '\u{2028}' || c
        == '\u{2029}' || c == '\u{202f}' || c == '\u{205f}' || c == '\u{3000}'
}

pub fn char_in_class(c: char, class: CharClass) -> (r: bool)
    ensures
        r == in_class(c, class),
{
    match class {
        CharClass::White => char_is_white(c),
        CharClass::LetterV => c == 'v',
        CharClass::NotVersionChar => {
            let alnum = ('0' <= c && c <= '9') || ('a' <= c && c <= 'z') || ('A' <= c && c
                <= 'Z');
            !alnum && c != '.' && c != '-' && c != '+'
        },
    }
}

/// `char::to_ascii_lowercase`.
pub fn char_ascii_lower(c: char) -> (r: char)
    ensures
        r == ascii_lower(c),
{
    if 'A' <= c && c <= 'Z' {
        let code: u8 = c as u8;
        (code + 32) as char
    } else {
        c
    }
}

/// `String::push`: appends one character.
#[verifier::external_body]
pub(crate) fn push_char(text: &mut String, c: char)
    ensures
        final(text)@ == old(text)@.push(c),
{
    text.push(c);
}

/// The characters of a string slice.
pub fn chars_of(s: &str) -> (out: Vec<char>)
    ensures
        out@ == s@,
{
    let mut out: Vec<char> = Vec::new();
    for c in it: s.chars()
        invariant
            out@ == it.seq().take(it.index() as int),
            it.seq() == s@,
    {
        out.push(c);
    }
    assert(out@ =~= s@);
    out
}

/// A string made of `chars[from..to]`.
pub fn string_from_range(chars: &Vec<char>, from: usize, to: usize) -> (out: String)
    requires
        from <= to <= chars.len(),
    ensures
        out@ == chars@.subrange(from as int, to as int),
{
    let mut out = String::new();
    let mut i = from;
    while i < to
        invariant
            from <= i <= to <= chars.len(),
            out@ == chars@.subrange(from as int, i as int),
        decreases to - i,
    {
        push_char(&mut out, chars[i]);
        i = i + 1;
        assert(out@ =~= chars@.subrange(from as int, i as int));
    }
    out
}

/// A string made of all the characters.
pub fn string_from_chars(chars: &Vec<char>) -> (out: String)
    ensures
        out@ == chars@,
{
    let out = string_from_range(chars, 0, chars.len());
    assert(chars@.subrange(0, chars@.len() as int) =~= chars@);
    out
}

/// An owned copy of a string slice.
pub fn owned(s: &str) -> (out: String)
    ensures
        out@ == s@,
{
    s.to_owned()
}

/// An owned copy of a string.
pub fn copy_string(s: &String) -> (out: String)
    ensures
        out@ == s@,
{
    s.clone()
}

/// An owned copy of an optional string.
pub fn copy_opt(s: &Option<String>) -> (out: Option<String>)
    ensures
        opt_view(out) == opt_view(*s),
{
    match s {
        Some(v) => Some(v.clone()),
        None => None,
    }
}

/// Whether two strings hold the same characters.
pub fn same_text(a: &str, b: &str) -> (r: bool)
    ensures
        r == (a@ == b@),
{
    let x = a.to_owned();
    let y = b.to_owned();
    x == y
}

/// Whether `value` ends with `suffix`.
pub fn ends_with_text(value: &str, suffix: &str) -> (r: bool)
    ensures
        r == ends_with(value@, suffix@),
{
    let v = chars_of(value);
    let t = chars_of(suffix);
    if t.len() > v.len() {
        return false;
    }
    let start = v.len() - t.len();
    let mut k: usize = 0;
    while k < t.len()
        invariant
            k <= t.len(),
            start == v.len() - t.len(),
            v@ == value@,
            t@ == suffix@,
            forall|m: int| 0 <= m < k ==> v@[start + m] == t@[m],
        decreases t.len() - k,
    {
        if v[start + k] != t[k] {
            assert(value@.skip(start as int)[k as int] != suffix@[k as int]);
            return false;
        }
        k = k + 1;
    }
    assert(value@.skip(start as int) =~= suffix@);
    true
}

/// Two strings joined.
pub fn join2(a: &str, b: &str) -> (out: String)
    ensures
        out@ == a@ + b@,
{
    let mut out = a.to_owned();
    out.append(b);
    out
}

/// Three strings joined.
pub fn join3(a: &str, b: &str, c: &str) -> (out: String)
    ensures
        out@ == a@ + b@ + c@,
{
    let mut out = a.to_owned();
    out.append(b);
    out.append(c);
    out
}

/// `value.chars().take(max_chars).collect()`: the first `max_chars`
/// characters of `value`.
pub fn limit_text(value: &str, max_chars: usize) -> (out: String)
    ensures
        out@ == first_chars(value@, max_chars as nat),
{
    let chars = chars_of(value);
    let end = if chars.len() <= max_chars {
        chars.len()
    } else {
        max_chars
    };
    let out = string_from_range(&chars, 0, end);
    assert(out@ =~= first_chars(value@, max_chars as nat));
    out
}

/// `str::to_ascii_lowercase`, as characters.
pub fn ascii_lowercase_chars(value: &str) -> (out: Vec<char>)
    ensures
        out@ == ascii_lowercase(value@),
{
    let chars = chars_of(value);
    let mut out: Vec<char> = Vec::new();
    let mut i: usize = 0;
    while i < chars.len()
        invariant
            i <= chars.len(),
            chars@ == value@,
            out@ =~= ascii_lowercase(value@).take(i as int),
        decreases chars.len() - i,
    {
        out.push(char_ascii_lower(chars[i]));
        i = i + 1;
    }
    assert(ascii_lowercase(value@).take(i as int) =~= ascii_lowercase(value@));
    out
}

/// Whether `needle` matches `hay` at position `at`.
fn matches_at(hay: &Vec<char>, needle: &Vec<char>, at: usize) -> (r: bool)
    requires
        at + needle.len() <= hay.len(),
    ensures
        r == (hay@.subrange(at as int, at + needle.len()) =~= needle@),
{
    let mut k: usize = 0;
    while k < needle.len()
        invariant
            k <= needle.len(),
            at + needle.len() <= hay.len(),
            forall|m: int| 0 <= m < k ==> hay@[at + m] == needle@[m],
        decreases needle.len() - k,
    {
        if hay[at + k] != needle[k] {
            assert(hay@.subrange(at as int, at + needle.len())[k as int] != needle@[k as int]);
            return false;
        }
        k = k + 1;
    }
    true
}

/// Whether `needle` occurs in `hay`.
pub fn contains_chars(hay: &Vec<char>, needle: &str) -> (r: bool)
    ensures
        r == contains_text(hay@, needle@),
{
    let pat = chars_of(needle);
    if pat.len() > hay.len() {
        return false;
    }
    let last = hay.len() - pat.len();
    let mut i: usize = 0;
    while i <= last
        invariant
            pat@ == needle@,
            last == hay.len() - pat.len(),
            i <= last + 1,
            forall|p: int| 0 <= p < i ==> !(#[trigger] hay@.subrange(p, p + pat.len()) =~= needle@),
        decreases last + 1 - i,
    {
        if matches_at(hay, &pat, i) {
            return true;
        }
        i = i + 1;
    }
    false
}

/// Index of the first character at or after `from`, before `to`, that is
/// not in the class (or `to` if there is none).
fn skip_class_forward(chars: &Vec<char>, from: usize, to: usize, class: CharClass) -> (r: usize)
    requires
        from <= to <= chars.len(),
    ensures
        from <= r <= to,
        forall|k: int| from <= k < r ==> in_class(#[trigger] chars@[k], class),
        r == to || !in_class(chars@[r as int], class),
{
    let mut i = from;
    while i < to && char_in_class(chars[i], class)
        invariant
            from <= i <= to <= chars.len(),
            forall|k: int| from <= k < i ==> in_class(#[trigger] chars@[k], class),
        decreases to - i,
    {
        i = i + 1;
    }
    i
}

/// Index one past the last character before `to`, at or after `from`, that
/// is not in the class (or `from` if there is none).
fn skip_class_backward(chars: &Vec<char>, from: usize, to: usize, class: CharClass) -> (r: usize)
    requires
        from <= to <= chars.len(),
    ensures
        from <= r <= to,
        forall|k: int| r <= k < to ==> in_class(#[trigger] chars@[k], class),
        r == from || !in_class(chars@[r - 1], class),
{
    let mut j = to;
    while j > from && char_in_class(chars[j - 1], class)
        invariant
            from <= j <= to <= chars.len(),
            forall|k: int| j <= k < to ==> in_class(#[trigger] chars@[k], class),
        decreases j - from,
    {
        j = j - 1;
    }
    j
}

/// The characters of `chars[from..to]` with those of the class stripped at
/// both ends.
pub fn trim_range(chars: &Vec<char>, from: usize, to: usize, class: CharClass) -> (out: Vec<char>)
    requires
        from <= to <= chars.len(),
    ensures
        out@ == trim_by(chars@.subrange(from as int, to as int), class),
{
    let i = skip_class_forward(chars, from, to, class);
    let j = skip_class_backward(chars, i, to, class);
    let ghost s = chars@.subrange(from as int, to as int);
    proof {
        assert forall|k: int| 0 <= k < i - from implies in_class(#[trigger] s[k], class) by {
            assert(s[k] == chars@[k + from]);
        }
        assert forall|k: int| j - from <= k < s.len() implies in_class(#[trigger] s[k], class) by {
            assert(s[k] == chars@[k + from]);
        }
        if i < to {
            assert(s[i - from] == chars@[i as int]);
        }
        if j > i {
            assert(s[j - from - 1] == chars@[j - 1]);
        }
        lemma_trim_range(s, class, i - from, j - from);
    }
    let mut out: Vec<char> = Vec::new();
    let mut k = i;
    while k < j
        invariant
            i <= k <= j <= chars.len(),
            out@ =~= chars@.subrange(i as int, k as int),
        decreases j - k,
    {
        out.push(chars[k]);
        k = k + 1;
    }
    assert(s.subrange(i - from, j - from) =~= chars@.subrange(i as int, j as int));
    out
}

/// The characters of `chars[from..to]` without its leading characters of the class.
pub fn trim_start_range(chars: &Vec<char>, from: usize, to: usize, class: CharClass) -> (out: Vec<char>)
    requires
        from <= to <= chars.len(),
    ensures
        out@ == trim_start_by(chars@.subrange(from as int, to as int), class),
{
    let i = skip_class_forward(chars, from, to, class);
    let ghost s = chars@.subrange(from as int, to as int);
    proof {
        assert forall|k: int| 0 <= k < i - from implies in_class(#[trigger] s[k], class) by {
            assert(s[k] == chars@[k + from]);
        }
        if i < to {
            assert(s[i - from] == chars@[i as int]);
        }
        lemma_trim_start_skip(s, class, i - from);
        assert(s.skip(i - from) =~= chars@.subrange(i as int, to as int));
    }
    let mut out: Vec<char> = Vec::new();
    let mut k = i;
    while k < to
        invariant
            i <= k <= to <= chars.len(),
            out@ =~= chars@.subrange(i as int, k as int),
        decreases to - k,
    {
        out.push(chars[k]);
        k = k + 1;
    }
    out
}

/// `str::trim`.
pub fn trim_text(value: &str) -> (out: String)
    ensures
        out@ == trim_white(value@),
{
    let chars = chars_of(value);
    let t = trim_range(&chars, 0, chars.len(), CharClass::White);
    assert(chars@.subrange(0, chars@.len() as int) =~= value@);
    string_from_chars(&t)
}

/// Appends the decimal rendering of `n`.
pub fn push_decimal(out: &mut String, n: u64)
    ensures
        final(out)@ == old(out)@ + decimal(n as nat),
    decreases n,
{
    if n >= 10 {
        push_decimal(out, n / 10);
    }
    let d = n % 10;
    let c: char = ((d as u8) + 48) as char;
    assert(c == digit_char((n % 10) as nat));
    push_char(out, c);
    proof {
        if n >= 10 {
            assert(decimal(n as nat) == decimal((n / 10) as nat).push(digit_char((n % 10) as nat)));
        } else {
            assert(n % 10 == n);
        }
    }
    assert(final(out)@ =~= old(out)@ + decimal(n as nat));
}

/// The decimal rendering of `n` (`n.to_string()`).
pub fn decimal_text(n: u64) -> (out: String)
    ensures
        out@ == decimal(n as nat),
{
    let mut out = String::new();
    push_decimal(&mut out, n);
    assert(out@ =~= decimal(n as nat));
    out
}

} // verus!
