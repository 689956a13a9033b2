//! Characters and strings: classification, conversion and the few string operations that the
//! editor needs, each over the sequence of characters that a string holds.
use vstd::prelude::*;

verus! {

/// Whether `c` is an ASCII letter in upper case.
pub open spec fn ascii_upper(c: char) -> bool {
    'A' <= c <= 'Z'
}

/// Whether `c` is an ASCII letter in lower case.
pub open spec fn ascii_lower(c: char) -> bool {
    'a' <= c <= 'z'
}

/// Whether `c` is an ASCII digit.
pub open spec fn ascii_digit(c: char) -> bool {
    '0' <= c <= '9'
}

/// Whether `c` has the Unicode property `White_Space`.
pub open spec fn whitespace(c: char) -> bool {
    ||| '\u{9}' <= c <= '\u{d}'
    ||| c == ' '
    ||| c == '\u{85}'
    ||| c == '\u{a0}'
    ||| c == '\u{1680}'
    ||| '\u{2000}' <= c <= '\u{200a}'
    ||| c == '\u{2028}'
    ||| c == '\u{2029}'
    ||| c == '\u{202f}'
    ||| c == '\u{205f}'
    ||| c == '\u{3000}'
}

/// Whether `c` is a control code: the Unicode general category `Cc`.
pub open spec fn control(c: char) -> bool {
    c <= '\u{1f}' || '\u{7f}' <= c <= '\u{9f}'
}

/// What `char::is_uppercase` answers outside ASCII.
pub uninterp spec fn uppercase_beyond_ascii(c: char) -> bool;

/// What `char::is_lowercase` answers outside ASCII.
pub uninterp spec fn lowercase_beyond_ascii(c: char) -> bool;

/// What `char::is_alphanumeric` answers outside ASCII.
pub uninterp spec fn alphanumeric_beyond_ascii(c: char) -> bool;

/// The first character of what `char::to_lowercase` yields outside ASCII.
pub uninterp spec fn lowered_beyond_ascii(c: char) -> char;

/// What `str::to_lowercase` returns for a text that is not all ASCII.
pub uninterp spec fn lowered_text_beyond_ascii(s: Seq<char>) -> Seq<char>;

/// Whether `c` is an uppercase character.
pub open spec fn uppercase(c: char) -> bool {
    if c <= '\u{7f}' { ascii_upper(c) } else { uppercase_beyond_ascii(c) }
}

/// Whether `c` is a lowercase character.
pub open spec fn lowercase(c: char) -> bool {
    if c <= '\u{7f}' { ascii_lower(c) } else { lowercase_beyond_ascii(c) }
}

/// Whether `c` is a letter or a number.
pub open spec fn alphanumeric(c: char) -> bool {
    if c <= '\u{7f}' {
        ascii_upper(c) || ascii_lower(c) || ascii_digit(c)
    } else {
        alphanumeric_beyond_ascii(c)
    }
}

/// The ASCII letter `c` in lower case; any other character unchanged.
pub open spec fn ascii_lowered(c: char) -> char {
    if ascii_upper(c) { ((c as u32) + 32) as char } else { c }
}

/// The ASCII letter `c` in upper case; any other character unchanged.
pub open spec fn ascii_raised(c: char) -> char {
    if ascii_lower(c) { ((c as u32) - 32) as char } else { c }
}

/// The first character of `c` in lower case.
pub open spec fn lowered(c: char) -> char {
    if c <= '\u{7f}' { ascii_lowered(c) } else { lowered_beyond_ascii(c) }
}

/// Whether every character of `s` is ASCII.
pub open spec fn all_ascii(s: Seq<char>) -> bool {
    forall|i: int| 0 <= i < s.len() ==> s[i] <= '\u{7f}'
}

/// `s` in lower case.
pub open spec fn lowered_text(s: Seq<char>) -> Seq<char> {
    if all_ascii(s) { s.map_values(|c: char| ascii_lowered(c)) } else { lowered_text_beyond_ascii(s) }
}

/// Calls `char::is_whitespace`, which tests for the Unicode property `White_Space`.
#[verifier::external_body]
pub(crate) fn is_whitespace(c: char) -> (b: bool)
    ensures
        b == whitespace(c),
{
    c.is_whitespace()
}

/// Calls `char::is_control`, which tests for the Unicode general category `Cc`.
#[verifier::external_body]
pub(crate) fn is_control(c: char) -> (b: bool)
    ensures
        b == control(c),
{
    c.is_control()
}

/// Calls `char::is_uppercase`: on ASCII it holds of `A` to `Z` alone, and the answer depends on
/// the character alone.
#[verifier::external_body]
pub(crate) fn is_uppercase(c: char) -> (b: bool)
    ensures
        c <= '\u{7f}' ==> b == ascii_upper(c),
        c > '\u{7f}' ==> b == uppercase_beyond_ascii(c),
{
    c.is_uppercase()
}

/// Calls `char::is_lowercase`: on ASCII it holds of `a` to `z` alone, and the answer depends on
/// the character alone.
#[verifier::external_body]
pub(crate) fn is_lowercase(c: char) -> (b: bool)
    ensures
        c <= '\u{7f}' ==> b == ascii_lower(c),
        c > '\u{7f}' ==> b == lowercase_beyond_ascii(c),
{
    c.is_lowercase()
}

/// Calls `char::is_alphanumeric`: on ASCII it holds of letters and digits alone, and the answer
/// depends on the character alone.
#[verifier::external_body]
pub(crate) fn is_alphanumeric(c: char) -> (b: bool)
    ensures
        c <= '\u{7f}' ==> b == (ascii_upper(c) || ascii_lower(c) || ascii_digit(c)),
        c > '\u{7f}' ==> b == alphanumeric_beyond_ascii(c),
{
    c.is_alphanumeric()
}

/// Calls `char::to_lowercase` and takes the first character: `A` to `Z` become `a` to `z`, every
/// other ASCII character stays, and the result depends on the character alone.
#[verifier::external_body]
pub(crate) fn to_lowered(c: char) -> (r: char)
    ensures
        c <= '\u{7f}' ==> r == ascii_lowered(c),
        c > '\u{7f}' ==> r == lowered_beyond_ascii(c),
{
    c.to_lowercase().next().unwrap_or(c)
}

/// Calls `str::to_lowercase`: an ASCII text has its letters `A` to `Z` lowered one by one, and
/// the result depends on the text alone.
#[verifier::external_body]
pub(crate) fn to_lowered_text(s: &str) -> (r: String)
    ensures
        all_ascii(s@) ==> r@ == s@.map_values(|c: char| ascii_lowered(c)),
        !all_ascii(s@) ==> r@ == lowered_text_beyond_ascii(s@),
{
    s.to_lowercase()
}

/// Calls `String::push`, which appends one character.
#[verifier::external_body]
pub(crate) fn push_char(s: &mut String, c: char)
    ensures
        final(s)@ == old(s)@.push(c),
{
    s.push(c)
}

/// The characters of `s`, in order.
pub fn chars_of(s: &str) -> (v: Vec<char>)
    ensures
        v@ == s@,
{
    let mut v: Vec<char> = Vec::new();
    for c in it: s.chars()
        invariant
            it.seq() == s@,
            v@ == s@.take(it.index() as int),
    {
        v.push(c);
    }
    assert(s@.take(s@.len() as int) =~= s@);
    v
}

/// The string of the characters `v[from..to]`.
pub fn string_of(v: &[char], from: usize, to: usize) -> (s: String)
    requires
        from <= to <= v@.len(),
    ensures
        s@ == v@.subrange(from as int, to as int),
{
    let mut s: String = String::new();
    let mut i: usize = from;
    while i < to
        invariant
            from <= i <= to <= v@.len(),
            s@ == v@.subrange(from as int, i as int),
        decreases to - i,
    {
        push_char(&mut s, v[i]);
        i = i + 1;
    }
    s
}

/// Whether `a` is the same text as `b`.
pub fn same_text(a: &str, b: &str) -> (r: bool)
    ensures
        r == (a@ == b@),
{
    let x: Vec<char> = chars_of(a);
    let y: Vec<char> = chars_of(b);
    if x.len() != y.len() {
        return false;
    }
    let mut i: usize = 0;
    while i < x.len()
        invariant
            i <= x@.len() == y@.len(),
            x@ == a@,
            y@ == b@,
            forall|j: int| 0 <= j < i ==> x@[j] == y@[j],
        decreases x@.len() - i,
    {
        if x[i] != y[i] {
            return false;
        }
        i = i + 1;
    }
    assert(a@ =~= b@);
    true
}

/// Whether `s` starts with `prefix`.
pub fn starts_with(s: &str, prefix: &str) -> (b: bool)
    ensures
        b == prefix@.is_prefix_of(s@),
{
    let n: usize = prefix.unicode_len();
    if n > s.unicode_len() {
        return false;
    }
    let x: Vec<char> = chars_of(s);
    let y: Vec<char> = chars_of(prefix);
    let mut i: usize = 0;
    while i < n
        invariant
            i <= n == y@.len(),
            n <= x@.len(),
            x@ == s@,
            y@ == prefix@,
            forall|j: int| 0 <= j < i ==> x@[j] == y@[j],
        decreases n - i,
    {
        if x[i] != y[i] {
            assert(s@.subrange(0, n as int)[i as int] != prefix@[i as int]);
            return false;
        }
        i = i + 1;
    }
    assert(prefix@ =~= s@.subrange(0, n as int));
    true
}

/// Whether `part` stands in `s` at `i`.
pub open spec fn stands_at(s: Seq<char>, part: Seq<char>, i: int) -> bool {
    0 <= i && i + part.len() <= s.len() && s.subrange(i, i + part.len()) == part
}

/// Whether `part` stands in `s` somewhere.
pub open spec fn contains(s: Seq<char>, part: Seq<char>) -> bool {
    exists|i: int| stands_at(s, part, i)
}

/// Whether `part` stands in `s` somewhere.
pub fn contains_text(s: &str, part: &str) -> (b: bool)
    ensures
        b == contains(s@, part@),
{
    let x: Vec<char> = chars_of(s);
    let y: Vec<char> = chars_of(part);
    let n: usize = x.len();
    if y.len() > n {
        return false;
    }
    let end: usize = n - y.len();
    let mut i: usize = 0;
    loop
        invariant
            end == n - y@.len(),
            n == x@.len(),
            i <= end,
            x@ == s@,
            y@ == part@,
            forall|j: int| 0 <= j < i ==> !stands_at(s@, part@, j),
        decreases end - i,
    {
        let mut k: usize = 0;
        while k < y.len() && x[i + k] == y[k]
            invariant
                k <= y@.len(),
                i + y@.len() <= n,
                n == x@.len(),
                forall|j: int| 0 <= j < k ==> x@[i + j] == y@[j],
            ensures
                k < y@.len() ==> x@[i + k] != y@[k as int],
            decreases y@.len() - k,
        {
            k = k + 1;
        }
        if k == y.len() {
            assert(s@.subrange(i as int, i + part@.len()) =~= part@);
            assert(stands_at(s@, part@, i as int));
            return true;
        }
        assert(!stands_at(s@, part@, i as int)) by {
            assert(s@.subrange(i as int, i + part@.len())[k as int] != part@[k as int]);
        }
        if i == end {
            return false;
        }
        i = i + 1;
    }
}

/// How many bytes `s` takes in UTF-8.
pub open spec fn byte_count(s: Seq<char>) -> int {
    vstd::utf8::encode_utf8(s).len() as int
}

/// How many bytes `s` takes.
pub fn byte_len(s: &str) -> (n: usize)
    ensures
        n == byte_count(s@),
{
    s.as_bytes().len()
}

/// The encoding of two texts in a row is their encodings in a row.
pub proof fn encoding_of_joined(a: Seq<char>, b: Seq<char>)
    ensures
        vstd::utf8::encode_utf8(a + b) == vstd::utf8::encode_utf8(a) + vstd::utf8::encode_utf8(b),
        byte_count(a + b) == byte_count(a) + byte_count(b),
    decreases a.len(),
{
    if a.len() == 0 {
        assert(a + b =~= b);
        assert(vstd::utf8::encode_utf8(a) =~= Seq::<u8>::empty());
        assert(vstd::utf8::encode_utf8(a) + vstd::utf8::encode_utf8(b) =~= vstd::utf8::encode_utf8(b));
    } else {
        encoding_of_joined(a.drop_first(), b);
        assert((a + b).drop_first() =~= a.drop_first() + b);
        assert((a + b)[0] == a[0]);
        assert(vstd::utf8::encode_utf8(a + b) =~= vstd::utf8::encode_utf8(a) + vstd::utf8::encode_utf8(b));
    }
}

/// How many bytes `c` takes in UTF-8.
pub open spec fn char_bytes(c: char) -> int {
    byte_count(seq![c])
}

/// The byte at which character `k` of `s` starts.
pub open spec fn byte_pos(s: Seq<char>, k: int) -> int {
    byte_count(s.take(k))
}

/// The first character of `s` that starts at byte `b` or after it; the end where none does.
pub open spec fn char_from(s: Seq<char>, b: int) -> int
    decreases s.len(),
{
    if b <= 0 || s.len() == 0 { 0 } else { 1 + char_from(s.drop_first(), b - char_bytes(s[0])) }
}

/// Whether a character of `s` starts at byte `b`, or `s` ends there.
pub open spec fn starts_char(s: Seq<char>, b: int) -> bool {
    byte_pos(s, char_from(s, b)) == b
}

/// The bytes of a text are those of its first character and those of the rest.
pub proof fn bytes_of_first(s: Seq<char>)
    requires
        s.len() > 0,
    ensures
        byte_count(s) == char_bytes(s[0]) + byte_count(s.drop_first()),
        1 <= char_bytes(s[0]) <= 4,
{
    encoding_of_joined(seq![s[0]], s.drop_first());
    assert(seq![s[0]] + s.drop_first() =~= s);
    bytes_of_char(s[0]);
}

/// A character takes one to four bytes, by its code point.
pub proof fn bytes_of_char(c: char)
    ensures
        char_bytes(c) == (if (c as u32) < 0x80 { 1int } else if (c as u32) < 0x800 { 2int } else if (c as u32)
            < 0x10000 { 3int } else { 4int }),
{
    let s = seq![c];
    assert(s.drop_first() =~= Seq::<char>::empty());
    reveal_with_fuel(vstd::utf8::encode_utf8, 2);
    vstd::utf8::char_is_scalar(c);
}

/// How many bytes `c` takes in UTF-8.
pub fn char_width(c: char) -> (n: usize)
    ensures
        n == char_bytes(c),
        1 <= n <= 4,
{
    proof {
        bytes_of_char(c);
    }
    let code: u32 = c as u32;
    if code < 0x80 { 1 } else if code < 0x800 { 2 } else if code < 0x10000 { 3 } else { 4 }
}

/// A later character does not start at an earlier byte.
pub proof fn byte_pos_grows(s: Seq<char>, j: int, k: int)
    requires
        0 <= j <= k <= s.len(),
    ensures
        0 <= byte_pos(s, j) <= byte_pos(s, k) <= byte_count(s),
        j < k ==> byte_pos(s, j) < byte_pos(s, k),
    decreases k - j,
{
    assert(s.take(k) + s.skip(k) =~= s);
    encoding_of_joined(s.take(k), s.skip(k));
    if j < k {
        byte_pos_grows(s, j, k - 1);
        assert(s.take(k - 1) + seq![s[k - 1]] =~= s.take(k));
        encoding_of_joined(s.take(k - 1), seq![s[k - 1]]);
        bytes_of_char(s[k - 1]);
    }
}

/// `char_from` is the least character that starts at the byte or after it.
pub proof fn char_from_is_least(s: Seq<char>, b: int)
    ensures
        0 <= char_from(s, b) <= s.len(),
        b <= byte_count(s) ==> byte_pos(s, char_from(s, b)) >= b,
        b > byte_count(s) ==> char_from(s, b) == s.len(),
        forall|k: int| 0 <= k < char_from(s, b) ==> byte_pos(s, k) < b,
    decreases s.len(),
{
    if b <= 0 || s.len() == 0 {
        assert(s.take(0) =~= Seq::<char>::empty());
        if s.len() == 0 {
            assert(s =~= Seq::<char>::empty());
        }
        byte_pos_grows(s, 0, 0);
    } else {
        let w = char_bytes(s[0]);
        let rest = s.drop_first();
        bytes_of_first(s);
        char_from_is_least(rest, b - w);
        assert forall|k: int| 1 <= k <= s.len() implies byte_pos(s, k) == w + #[trigger] byte_pos(rest, k - 1) by {
            bytes_of_first(s.take(k));
            assert(s.take(k).drop_first() =~= rest.take(k - 1));
        }
        assert(byte_pos(s, char_from(s, b)) == w + byte_pos(rest, char_from(s, b) - 1));
        assert forall|k: int| 0 <= k < char_from(s, b) implies byte_pos(s, k) < b by {
            if k == 0 {
                assert(s.take(0) =~= Seq::<char>::empty());
                assert(vstd::utf8::encode_utf8(s.take(0)) =~= Seq::<u8>::empty());
            } else {
                assert(byte_pos(s, k) == w + byte_pos(rest, k - 1));
            }
        }
    }
}

/// A later byte does not belong to an earlier character.
pub proof fn char_from_grows(s: Seq<char>, a: int, b: int)
    requires
        a <= b,
    ensures
        0 <= char_from(s, a) <= char_from(s, b) <= s.len(),
    decreases s.len(),
{
    if a > 0 && s.len() > 0 {
        char_from_grows(s.drop_first(), a - char_bytes(s[0]), b - char_bytes(s[0]));
    } else if b > 0 && s.len() > 0 {
        char_from_grows(s.drop_first(), b - char_bytes(s[0]), b - char_bytes(s[0]));
    }
}

/// A character starts at a byte exactly where some number of characters ends there.
pub proof fn starts_char_at(s: Seq<char>, k: int)
    requires
        0 <= k <= s.len(),
    ensures
        starts_char(s, byte_pos(s, k)),
        char_from(s, byte_pos(s, k)) == k,
{
    let b = byte_pos(s, k);
    byte_pos_grows(s, k, s.len() as int);
    assert(s.take(s.len() as int) =~= s);
    char_from_is_least(s, b);
    let c = char_from(s, b);
    if c < k {
        byte_pos_grows(s, c, k);
    } else if c > k {
        assert(byte_pos(s, k) < b);
    }
}

/// Where characters start in a text, they start in it followed by another; and where they start
/// in the other, they start as far behind the first.
pub proof fn starts_char_in_joined(a: Seq<char>, b: Seq<char>, x: int)
    ensures
        starts_char(a, x) ==> starts_char(a + b, x),
        starts_char(b, x) ==> starts_char(a + b, byte_count(a) + x),
{
    if starts_char(a, x) {
        let k = char_from(a, x);
        char_from_is_least(a, x);
        assert((a + b).take(k) =~= a.take(k));
        starts_char_at(a + b, k);
    }
    if starts_char(b, x) {
        let k = char_from(b, x);
        char_from_is_least(b, x);
        assert((a + b).take(a.len() + k) =~= a + b.take(k));
        encoding_of_joined(a, b.take(k));
        starts_char_at(a + b, a.len() + k);
    }
}

/// The first character of `s` that starts at byte `b` or after it, and the byte where it starts.
pub fn char_at_byte(s: &str, b: usize) -> (r: (usize, usize))
    ensures
        r.0 == char_from(s@, b as int),
        r.1 == byte_pos(s@, char_from(s@, b as int)),
        r.0 <= s@.len(),
{
    let chars: Vec<char> = chars_of(s);
    let total: usize = byte_len(s);
    let mut k: usize = 0;
    let mut pos: usize = 0;
    assert(s@.skip(0) =~= s@);
    assert(s@.take(0) =~= Seq::<char>::empty());
    assert(vstd::utf8::encode_utf8(s@.take(0)) =~= Seq::<u8>::empty());
    while k < chars.len() && pos < b
        invariant
            k <= chars@.len(),
            chars@ == s@,
            total == byte_count(s@),
            pos == byte_pos(s@, k as int),
            char_from(s@, b as int) == k + char_from(s@.skip(k as int), b - pos),
        ensures
            k == chars@.len() || pos >= b,
        decreases chars@.len() - k,
    {
        proof {
            byte_pos_grows(s@, k as int, k + 1);
            assert(s@.take(k as int) + seq![s@[k as int]] =~= s@.take(k + 1));
            encoding_of_joined(s@.take(k as int), seq![s@[k as int]]);
            assert(s@.skip(k as int).drop_first() =~= s@.skip(k + 1));
        }
        pos = pos + char_width(chars[k]);
        k = k + 1;
    }
    (k, pos)
}

/// The number `n` in decimal digits.
pub open spec fn decimal(n: nat) -> Seq<char>
    decreases n,
{
    let digit = (('0' as u32) + n % 10) as char;
    if n < 10 { seq![digit] } else { decimal(n / 10).push(digit) }
}

/// The digit `d`.
fn digit_char(d: u64) -> (c: char)
    requires
        d < 10,
    ensures
        c == (('0' as u32) + d) as char,
{
    if d == 0 { '0' } else if d == 1 { '1' } else if d == 2 { '2' } else if d == 3 { '3' } else if d == 4 {
        '4'
    } else if d == 5 { '5' } else if d == 6 { '6' } else if d == 7 { '7' } else if d == 8 { '8' } else { '9' }
}

/// Appends the number `n` in decimal digits.
pub fn push_decimal(s: &mut String, n: u64)
    ensures
        final(s)@ == old(s)@ + decimal(n as nat),
    decreases n,
{
    if n >= 10 {
        push_decimal(s, n / 10);
    }
    push_char(s, digit_char(n % 10));
    assert(s@ =~= old(s)@ + decimal(n as nat));
}

/// Where the first line feed of `s` stands; its length where it has none.
pub open spec fn first_feed(s: Seq<char>) -> int
    decreases s.len(),
{
    if s.len() == 0 || s[0] == '\n' { 0 } else { 1 + first_feed(s.drop_first()) }
}

/// `s` without a carriage return at its end.
pub open spec fn without_return(s: Seq<char>) -> Seq<char> {
    if s.len() > 0 && s.last() == '\r' { s.drop_last() } else { s }
}

/// The lines of `s`, without the line feeds, or carriage returns and line feeds, that end them.
/// A line feed at the end starts no further line.
pub open spec fn lines(s: Seq<char>) -> Seq<Seq<char>>
    decreases s.len(),
{
    if s.len() == 0 {
        Seq::empty()
    } else if first_feed(s) >= s.len() {
        seq![s]
    } else {
        proof {
            first_feed_bounds(s);
        }
        seq![without_return(s.take(first_feed(s)))] + lines(s.skip(first_feed(s) + 1))
    }
}

/// The first line feed is a line feed, and none stands before it.
pub proof fn first_feed_bounds(s: Seq<char>)
    ensures
        0 <= first_feed(s) <= s.len(),
        first_feed(s) < s.len() ==> s[first_feed(s)] == '\n',
        forall|i: int| 0 <= i < first_feed(s) ==> s[i] != '\n',
    decreases s.len(),
{
    if s.len() > 0 && s[0] != '\n' {
        first_feed_bounds(s.drop_first());
        assert forall|i: int| 0 <= i < first_feed(s) implies s[i] != '\n' by {
            if i > 0 {
                assert(s[i] == s.drop_first()[i - 1]);
            }
        }
    }
}

/// A position before which no line feed stands, and at which one stands, is the first one.
pub proof fn first_feed_unique(s: Seq<char>, k: int)
    requires
        0 <= k <= s.len(),
        k < s.len() ==> s[k] == '\n',
        forall|i: int| 0 <= i < k ==> s[i] != '\n',
    ensures
        first_feed(s) == k,
{
    first_feed_bounds(s);
    let f = first_feed(s);
    if f < k {
        assert(s[f] != '\n');
    }
}

/// The lines of `s`.
pub fn lines_of(s: &str) -> (r: Vec<String>)
    ensures
        r@.len() == lines(s@).len(),
        forall|i: int| 0 <= i < r@.len() ==> (#[trigger] r@[i])@ == lines(s@)[i],
{
    let chars: Vec<char> = chars_of(s);
    let mut r: Vec<String> = Vec::new();
    let mut start: usize = 0;
    assert(s@.skip(0) =~= s@);
    while start < chars.len()
        invariant
            start <= chars@.len(),
            chars@ == s@,
            lines(s@).len() == r@.len() + lines(s@.skip(start as int)).len(),
            forall|i: int| 0 <= i < r@.len() ==> (#[trigger] r@[i])@ == lines(s@)[i],
            forall|i: int| 0 <= i < lines(s@.skip(start as int)).len() ==> lines(s@)[r@.len() + i] == #[trigger] lines(s@.skip(start as int))[i],
        decreases chars@.len() - start,
    {
        let mut end: usize = start;
        while end < chars.len() && chars[end] != '\n'
            invariant
                start <= end <= chars@.len(),
                forall|i: int| start <= i < end ==> chars@[i] != '\n',
            ensures
                end < chars@.len() ==> chars@[end as int] == '\n',
            decreases chars@.len() - end,
        {
            end = end + 1;
        }
        let ghost rest = s@.skip(start as int);
        proof {
            first_feed_unique(rest, end - start);
            assert(lines(rest)[0] == lines(s@)[r@.len() as int]);
        }
        if end == chars.len() {
            r.push(string_of(chars.as_slice(), start, end));
            assert(s@.subrange(start as int, end as int) =~= rest);
            assert(s@.skip(end as int) =~= Seq::<char>::empty());
            start = end;
        } else {
            let stop: usize = if end > start && chars[end - 1] == '\r' { end - 1 } else { end };
            r.push(string_of(chars.as_slice(), start, stop));
            proof {
                assert(s@.subrange(start as int, stop as int) =~= without_return(rest.take(end - start)));
                assert(s@.skip(end + 1) =~= rest.skip(end - start + 1));
                let more = lines(s@.skip(end + 1));
                assert(lines(rest) =~= seq![without_return(rest.take(end - start))] + more);
                assert forall|i: int| 0 <= i < more.len() implies lines(s@)[r@.len() + i] == #[trigger] more[i] by {
                    assert(more[i] == lines(rest)[i + 1]);
                }
            }
            start = end + 1;
        }
    }
    r
}

/// What stands between the line feeds of `s`: one part more than it has line feeds.
pub open spec fn feed_parts(s: Seq<char>) -> Seq<Seq<char>>
    decreases s.len(),
{
    if first_feed(s) >= s.len() {
        seq![s]
    } else {
        proof {
            first_feed_bounds(s);
        }
        seq![s.take(first_feed(s))] + feed_parts(s.skip(first_feed(s) + 1))
    }
}

/// `s` without the carriage returns at its end.
pub open spec fn without_returns(s: Seq<char>) -> Seq<char>
    decreases s.len(),
{
    if s.len() > 0 && s.last() == '\r' { without_returns(s.drop_last()) } else { s }
}

/// The characters from `start` to `end`, without the carriage returns at their end.
fn part_without_returns(chars: &[char], start: usize, end: usize) -> (r: String)
    requires
        start <= end <= chars@.len(),
    ensures
        r@ == without_returns(chars@.subrange(start as int, end as int)),
{
    let ghost whole = chars@.subrange(start as int, end as int);
    let mut stop: usize = end;
    while stop > start && chars[stop - 1] == '\r'
        invariant
            start <= stop <= end <= chars@.len(),
            without_returns(whole) == without_returns(chars@.subrange(start as int, stop as int)),
        ensures
            start <= stop <= chars@.len(),
            without_returns(whole) == chars@.subrange(start as int, stop as int),
        decreases stop,
    {
        assert(chars@.subrange(start as int, stop as int).drop_last() =~= chars@.subrange(start as int, stop - 1));
        stop = stop - 1;
    }
    string_of(chars, start, stop)
}

/// What stands between the line feeds of `s`, without carriage returns at the ends; at most
/// `limit` parts.
pub fn parts_without_returns(s: &str, limit: usize) -> (r: Vec<String>)
    ensures
        r@.len() == if limit < feed_parts(s@).len() { limit as int } else { feed_parts(s@).len() as int },
        forall|i: int| 0 <= i < r@.len() ==> (#[trigger] r@[i])@ == without_returns(feed_parts(s@)[i]),
{
    let chars: Vec<char> = chars_of(s);
    let mut r: Vec<String> = Vec::new();
    if limit == 0 {
        return r;
    }
    let mut start: usize = 0;
    assert(s@.skip(0) =~= s@);
    loop
        invariant
            start <= chars@.len(),
            chars@ == s@,
            r@.len() < limit,
            feed_parts(s@).len() == r@.len() + feed_parts(s@.skip(start as int)).len(),
            forall|i: int| 0 <= i < r@.len() ==> (#[trigger] r@[i])@ == without_returns(feed_parts(s@)[i]),
            forall|i: int| 0 <= i < feed_parts(s@.skip(start as int)).len() ==> feed_parts(s@)[r@.len() + i] == #[trigger] feed_parts(s@.skip(start as int))[i],
        decreases chars@.len() + 1 - start,
    {
        let mut end: usize = start;
        while end < chars.len() && chars[end] != '\n'
            invariant
                start <= end <= chars@.len(),
                forall|i: int| start <= i < end ==> chars@[i] != '\n',
            ensures
                start <= end <= chars@.len(),
                end < chars@.len() ==> chars@[end as int] == '\n',
                forall|i: int| start <= i < end ==> chars@[i] != '\n',
            decreases chars@.len() - end,
        {
            end = end + 1;
        }
        let ghost rest = s@.skip(start as int);
        let ghost before = r@;
        proof {
            first_feed_unique(rest, end - start);
            assert(feed_parts(rest)[0] == feed_parts(s@)[r@.len() as int]);
            assert(s@.subrange(start as int, end as int) =~= rest.take(end - start));
            assert(rest.take(rest.len() as int) =~= rest);
        }
        r.push(part_without_returns(chars.as_slice(), start, end));
        if end == chars.len() {
            return r;
        }
        proof {
            assert(s@.skip(end + 1) =~= rest.skip(end - start + 1));
            let more = feed_parts(s@.skip(end + 1));
            assert(feed_parts(rest) =~= seq![rest.take(end - start)] + more);
            feed_parts_nonempty(s@.skip(end + 1));
            assert forall|i: int| 0 <= i < more.len() implies feed_parts(s@)[r@.len() + i] == #[trigger] more[i] by {
                assert(more[i] == feed_parts(rest)[i + 1]);
            }
        }
        start = end + 1;
        if r.len() == limit {
            return r;
        }
    }
}

/// There is always a part between line feeds.
pub proof fn feed_parts_nonempty(s: Seq<char>)
    ensures
        feed_parts(s).len() > 0,
{
}

/// How many characters of white space `s` starts with.
pub open spec fn leading_space(s: Seq<char>) -> int
    decreases s.len(),
{
    if s.len() > 0 && whitespace(s[0]) { 1 + leading_space(s.drop_first()) } else { 0 }
}

/// `s` without the white space at its end.
pub open spec fn without_trailing_space(s: Seq<char>) -> Seq<char>
    decreases s.len(),
{
    if s.len() > 0 && whitespace(s.last()) { without_trailing_space(s.drop_last()) } else { s }
}

/// `s` without the white space at its ends.
pub open spec fn trimmed(s: Seq<char>) -> Seq<char> {
    without_trailing_space(s.skip(leading_space(s)))
}

/// `s` without the white space at its ends.
pub fn trim(s: &str) -> (r: String)
    ensures
        r@ == trimmed(s@),
{
    let chars: Vec<char> = chars_of(s);
    let mut start: usize = 0;
    assert(s@.skip(0) =~= s@);
    while start < chars.len() && is_whitespace(chars[start])
        invariant
            start <= chars@.len(),
            chars@ == s@,
            leading_space(s@) == start + leading_space(s@.skip(start as int)),
        ensures
            start <= chars@.len(),
            leading_space(s@) == start,
        decreases chars@.len() - start,
    {
        assert(s@.skip(start as int).drop_first() =~= s@.skip(start + 1));
        start = start + 1;
    }
    let ghost rest = s@.skip(start as int);
    let mut end: usize = chars.len();
    assert(rest.take(end - start) =~= rest);
    while end > start && is_whitespace(chars[end - 1])
        invariant
            start <= end <= chars@.len(),
            chars@ == s@,
            rest == s@.skip(start as int),
            without_trailing_space(rest) == without_trailing_space(rest.take(end - start)),
        ensures
            start <= end <= chars@.len(),
            without_trailing_space(rest) == rest.take(end - start),
        decreases end,
    {
        assert(rest.take(end - start).drop_last() =~= rest.take(end - start - 1));
        end = end - 1;
    }
    let r: String = string_of(chars.as_slice(), start, end);
    assert(r@ =~= rest.take(end - start));
    r
}

/// `std::string::String::from_utf8`: the text that bytes encode in UTF-8, if they encode one.
#[verifier::external_body]
pub(crate) fn text_from_bytes(bytes: Vec<u8>) -> (r: Option<String>)
    ensures
        r is Some <==> vstd::utf8::valid_utf8(bytes@),
        r matches Some(s) ==> s@ == vstd::utf8::decode_utf8(bytes@),
{
    String::from_utf8(bytes).ok()
}

/// Whether every character of `s` is white space.
pub open spec fn blank(s: Seq<char>) -> bool {
    forall|i: int| 0 <= i < s.len() ==> whitespace(#[trigger] s[i])
}

/// Whether every character of `s` is white space.
pub fn is_blank(s: &str) -> (b: bool)
    ensures
        b == blank(s@),
{
    let chars: Vec<char> = chars_of(s);
    let mut i: usize = 0;
    while i < chars.len()
        invariant
            i <= chars@.len(),
            chars@ == s@,
            forall|j: int| 0 <= j < i ==> whitespace(#[trigger] chars@[j]),
        decreases chars@.len() - i,
    {
        if !is_whitespace(chars[i]) {
            assert(!whitespace(s@[i as int]));
            return false;
        }
        i = i + 1;
    }
    true
}

} // verus!
