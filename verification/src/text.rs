//! Text as sequences of characters: searching, trimming, splitting and decimal numbers.

use vstd::prelude::*;
use vstd::slice::slice_subrange;

verus! {

/// `String::push`: appends the character to the end of the text.
pub assume_specification[ String::push ](s: &mut String, c: char)
    ensures
        final(s)@ == old(s)@.push(c),
;

/// The Unicode lower-case form of a text, as `str::to_lowercase` gives it.
pub uninterp spec fn lowercase_of(s: Seq<char>) -> Seq<char>;

/// Calls `str::to_lowercase`; the result is named `lowercase_of`. Of an ASCII text it is the text
/// with its capitals as small letters.
#[verifier::external_body]
pub(crate) fn to_lowercase(s: &str) -> (r: String)
    ensures
        r@ == lowercase_of(s@),
        ascii_text(s@) ==> r@ == ascii_lower_of(s@),
{
    s.to_lowercase()
}

/// Whether a character is alphabetic or numeric in Unicode, as `char::is_alphanumeric` tells.
pub uninterp spec fn alphanumeric(c: char) -> bool;

/// Calls `char::is_alphanumeric`; the result is named `alphanumeric`. ASCII letters and digits
/// are alphanumeric, and no other ASCII character is.
#[verifier::external_body]
pub(crate) fn is_alphanumeric(c: char) -> (r: bool)
    ensures
        r == alphanumeric(c),
        (c as u32) < 128 ==> r == ascii_alphanumeric(c),
{
    c.is_alphanumeric()
}

/// A text in quotes, as `std` writes it for debugging.
pub uninterp spec fn debug_text(s: Seq<char>) -> Seq<char>;

/// `format!("{s:?}")`: the text in quotes, with what does not print escaped; the result is named
/// `debug_text`.
#[verifier::external_body]
pub(crate) fn quoted(s: &str) -> (r: String)
    ensures
        r@ == debug_text(s@),
{
    format!("{s:?}")
}

pub open spec fn ascii_alphanumeric(c: char) -> bool {
    ('0' <= c <= '9') || ('a' <= c <= 'z') || ('A' <= c <= 'Z')
}

/// The characters with the Unicode property White_Space.
pub open spec fn whitespace(c: char) -> bool {
    let n = c as u32;
    (9 <= n <= 13) || n == 32 || n == 0x85 || n == 0xa0 || n == 0x1680 || (0x2000 <= n <= 0x200a)
        || n == 0x2028 || n == 0x2029 || n == 0x202f || n == 0x205f || n == 0x3000
}

pub fn is_whitespace(c: char) -> (r: bool)
    ensures
        r == whitespace(c),
{
    let n: u32 = c as u32;
    (9 <= n && n <= 13) || n == 32 || n == 0x85 || n == 0xa0 || n == 0x1680 || (0x2000 <= n && n
        <= 0x200a) || n == 0x2028 || n == 0x2029 || n == 0x202f || n == 0x205f || n == 0x3000
}

/// Whether `p` stands in `s` at position `i`.
pub open spec fn occurs_at(s: Seq<char>, p: Seq<char>, i: int) -> bool {
    0 <= i && i + p.len() <= s.len() && s.subrange(i, i + p.len()) == p
}

/// The first position from `i` on at which `p` stands in `s`.
pub open spec fn first_from(s: Seq<char>, p: Seq<char>, i: int) -> Option<int>
    decreases s.len() + 1 - i,
{
    if i < 0 || i + p.len() > s.len() {
        None
    } else if occurs_at(s, p, i) {
        Some(i)
    } else {
        first_from(s, p, i + 1)
    }
}

/// The first position of `p` in `s`.
pub open spec fn first_of(s: Seq<char>, p: Seq<char>) -> Option<int> {
    first_from(s, p, 0)
}

/// The first position from `i` on that holds `c`.
pub open spec fn char_from(s: Seq<char>, c: char, i: int) -> Option<int>
    decreases s.len() - i,
{
    if i < 0 || i >= s.len() {
        None
    } else if s[i] == c {
        Some(i)
    } else {
        char_from(s, c, i + 1)
    }
}

/// The last position below `n` that holds `c`.
pub open spec fn last_char_below(s: Seq<char>, c: char, n: int) -> Option<int>
    decreases n,
{
    if n <= 0 || n > s.len() {
        None
    } else if s[n - 1] == c {
        Some(n - 1)
    } else {
        last_char_below(s, c, n - 1)
    }
}

/// The last position that holds `c`.
pub open spec fn last_char(s: Seq<char>, c: char) -> Option<int> {
    last_char_below(s, c, s.len() as int)
}

/// The text without leading whitespace.
pub open spec fn trim_start_of(s: Seq<char>) -> Seq<char>
    decreases s.len(),
{
    if s.len() > 0 && whitespace(s[0]) {
        trim_start_of(s.drop_first())
    } else {
        s
    }
}

/// The text without trailing whitespace.
pub open spec fn trim_end_of(s: Seq<char>) -> Seq<char>
    decreases s.len(),
{
    if s.len() > 0 && whitespace(s.last()) {
        trim_end_of(s.drop_last())
    } else {
        s
    }
}

/// The text without leading and trailing whitespace.
pub open spec fn trim_of(s: Seq<char>) -> Seq<char> {
    trim_end_of(trim_start_of(s))
}

/// The pieces of `s` between the characters `c`: one more piece than `c` occurs.
pub open spec fn split_of(s: Seq<char>, c: char) -> Seq<Seq<char>>
    decreases s.len(),
{
    match char_from(s, c, 0) {
        None => seq![s],
        Some(i) => if 0 <= i < s.len() {
            seq![s.subrange(0, i)] + split_of(s.subrange(i + 1, s.len() as int), c)
        } else {
            seq![s]
        },
    }
}

/// The pieces one after the other with `sep` between them.
pub open spec fn joined(parts: Seq<Seq<char>>, sep: Seq<char>) -> Seq<char>
    decreases parts.len(),
{
    if parts.len() == 0 {
        seq![]
    } else if parts.len() == 1 {
        parts[0]
    } else {
        joined(parts.drop_last(), sep) + sep + parts.last()
    }
}

pub open spec fn ascii_lower(c: char) -> char {
    if 'A' <= c <= 'Z' {
        ((c as u8) + 32) as char
    } else {
        c
    }
}

/// Whether every character is ASCII.
pub open spec fn ascii_text(s: Seq<char>) -> bool {
    forall|i: int| 0 <= i < s.len() ==> (#[trigger] s[i] as u32) < 128
}

pub open spec fn ascii_upper(c: char) -> char {
    if 'a' <= c <= 'z' {
        ((c as u8) - 32) as u8 as char
    } else {
        c
    }
}

pub open spec fn ascii_upper_of(s: Seq<char>) -> Seq<char> {
    s.map_values(|c: char| ascii_upper(c))
}

pub open spec fn ascii_lower_of(s: Seq<char>) -> Seq<char> {
    s.map_values(|c: char| ascii_lower(c))
}

/// The character of a digit below 10.
pub open spec fn digit_char(d: nat) -> char {
    (48 + d) as u8 as char
}

/// A number in decimal, without leading zeros.
pub open spec fn decimal(n: nat) -> Seq<char>
    decreases n,
{
    if n < 10 {
        seq![digit_char(n)]
    } else {
        decimal(n / 10).push(digit_char(n % 10))
    }
}

pub open spec fn all_digits(s: Seq<char>) -> bool {
    forall|i: int| 0 <= i < s.len() ==> '0' <= #[trigger] s[i] <= '9'
}

/// The number that a row of digits writes.
pub open spec fn digits_value(s: Seq<char>) -> nat
    decreases s.len(),
{
    if s.len() == 0 {
        0
    } else {
        digits_value(s.drop_last()) * 10 + (s.last() as nat - 48) as nat
    }
}

/// What an unsigned number with the largest value `max` reads from a text: digits, with or
/// without a leading plus sign.
pub open spec fn unsigned_of(s: Seq<char>, max: nat) -> Option<nat> {
    let t = if s.len() > 1 && s[0] == '+' {
        s.drop_first()
    } else {
        s
    };
    if t.len() > 0 && all_digits(t) && digits_value(t) <= max {
        Some(digits_value(t))
    } else {
        None
    }
}

pub open spec fn str_views(v: Seq<String>) -> Seq<Seq<char>> {
    v.map_values(|s: String| s@)
}

pub fn chars_of(s: &str) -> (r: Vec<char>)
    ensures
        r@ == s@,
{
    let mut v: Vec<char> = Vec::new();
    for c in it: s.chars()
        invariant
            v@ == it.seq().take(it.index() as int),
            it.seq() == s@,
    {
        v.push(c);
    }
    v
}

pub fn string_of(s: &[char]) -> (r: String)
    ensures
        r@ == s@,
{
    let mut out = String::new();
    let mut i: usize = 0;
    while i < s.len()
        invariant
            i <= s@.len(),
            out@ == s@.take(i as int),
        decreases s@.len() - i,
    {
        out.push(s[i]);
        i = i + 1;
    }
    assert(s@.take(i as int) == s@);
    out
}

pub fn same_chars(a: &[char], b: &[char]) -> (r: bool)
    ensures
        r == (a@ == b@),
{
    if a.len() != b.len() {
        return false;
    }
    let mut i: usize = 0;
    while i < a.len()
        invariant
            i <= a@.len(),
            a@.len() == b@.len(),
            forall|j: int| 0 <= j < i ==> a@[j] == b@[j],
        decreases a@.len() - i,
    {
        if a[i] != b[i] {
            return false;
        }
        i = i + 1;
    }
    assert(a@ == b@);
    true
}

pub fn same_text(a: &str, b: &str) -> (r: bool)
    ensures
        r == (a@ == b@),
{
    let x = chars_of(a);
    let y = chars_of(b);
    same_chars(&x, &y)
}


pub fn stands_at(s: &[char], p: &[char], i: usize) -> (r: bool)
    ensures
        r == occurs_at(s@, p@, i as int),
{
    if p.len() > s.len() || i > s.len() - p.len() {
        return false;
    }
    let n: usize = s.len();
    let mut j: usize = 0;
    while j < p.len()
        invariant
            j <= p@.len(),
            i + p@.len() <= s@.len() == n,
            forall|k: int| 0 <= k < j ==> s@[i + k] == p@[k],
        decreases p@.len() - j,
    {
        if s[i + j] != p[j] {
            assert(s@.subrange(i as int, i + p@.len())[j as int] != p@[j as int]);
            return false;
        }
        j = j + 1;
    }
    assert(s@.subrange(i as int, i + p@.len()) == p@);
    true
}

pub fn find_from(s: &[char], p: &[char], i: usize) -> (r: Option<usize>)
    ensures
        r is Some == first_from(s@, p@, i as int) is Some,
        r is Some ==> first_from(s@, p@, i as int) == Some(r->0 as int) && occurs_at(
            s@,
            p@,
            r->0 as int,
        ) && r->0 >= i,
{
    let mut k: usize = i;
    while p.len() <= s.len() && k <= s.len() - p.len()
        invariant
            i <= k,
            first_from(s@, p@, k as int) == first_from(s@, p@, i as int),
            k <= s@.len() + 1 || k == i,
        decreases s@.len() + 1 - k,
    {
        if stands_at(s, p, k) {
            return Some(k);
        }
        if k == s.len() {
            assert(s@.subrange(k as int, k + p@.len()) =~= p@);
            return None;
        }
        k = k + 1;
    }
    None
}

pub fn find_char(s: &[char], c: char, i: usize) -> (r: Option<usize>)
    ensures
        r is Some == char_from(s@, c, i as int) is Some,
        r is Some ==> char_from(s@, c, i as int) == Some(r->0 as int) && i <= r->0 < s@.len()
            && s@[r->0 as int] == c && (forall|j: int| i <= j < r->0 ==> s@[j] != c),
        r is None ==> forall|j: int| i <= j < s@.len() ==> s@[j] != c,
{
    let mut k: usize = i;
    while k < s.len()
        invariant
            i <= k,
            char_from(s@, c, k as int) == char_from(s@, c, i as int),
            forall|j: int| i <= j < k ==> s@[j] != c,
        decreases s@.len() - k,
    {
        if s[k] == c {
            return Some(k);
        }
        k = k + 1;
    }
    None
}

pub fn rfind_char(s: &[char], c: char) -> (r: Option<usize>)
    ensures
        r is Some == last_char(s@, c) is Some,
        r is Some ==> last_char(s@, c) == Some(r->0 as int) && r->0 < s@.len() && s@[r->0 as int]
            == c,
{
    let mut k: usize = s.len();
    while k > 0
        invariant
            k <= s@.len(),
            last_char_below(s@, c, k as int) == last_char(s@, c),
        decreases k,
    {
        if s[k - 1] == c {
            return Some(k - 1);
        }
        k = k - 1;
    }
    None
}

pub fn part(s: &[char], from: usize, to: usize) -> (r: Vec<char>)
    requires
        from <= to <= s@.len(),
    ensures
        r@ == s@.subrange(from as int, to as int),
{
    let mut out: Vec<char> = Vec::new();
    let mut i: usize = from;
    while i < to
        invariant
            from <= i <= to <= s@.len(),
            out@ == s@.subrange(from as int, i as int),
        decreases to - i,
    {
        out.push(s[i]);
        i = i + 1;
    }
    out
}

pub fn append_chars(out: &mut Vec<char>, s: &[char])
    ensures
        final(out)@ == old(out)@ + s@,
{
    let mut i: usize = 0;
    while i < s.len()
        invariant
            i <= s@.len(),
            out@ == old(out)@ + s@.take(i as int),
        decreases s@.len() - i,
    {
        out.push(s[i]);
        i = i + 1;
    }
    assert(s@.take(i as int) == s@);
}

pub fn append_str(out: &mut Vec<char>, s: &str)
    ensures
        final(out)@ == old(out)@ + s@,
{
    let v = chars_of(s);
    append_chars(out, &v);
}

pub proof fn lemma_trim_start_step(s: Seq<char>, i: int)
    requires
        0 <= i <= s.len(),
        forall|j: int| 0 <= j < i ==> whitespace(s[j]),
    ensures
        trim_start_of(s) == trim_start_of(s.skip(i)),
    decreases i,
{
    if i > 0 {
        lemma_trim_start_step(s.drop_first(), i - 1);
        assert(s.drop_first().skip(i - 1) =~= s.skip(i));
    } else {
        assert(s.skip(0) =~= s);
    }
}

pub proof fn lemma_trim_end_step(s: Seq<char>, n: int)
    requires
        0 <= n <= s.len(),
        forall|j: int| n <= j < s.len() ==> whitespace(s[j]),
    ensures
        trim_end_of(s) == trim_end_of(s.take(n)),
    decreases s.len() - n,
{
    if n < s.len() {
        lemma_trim_end_step(s.drop_last(), n);
        assert(s.drop_last().take(n) =~= s.take(n));
    } else {
        assert(s.take(n) =~= s);
    }
}

pub fn trim_start(s: &[char]) -> (r: Vec<char>)
    ensures
        r@ == trim_start_of(s@),
{
    let mut i: usize = 0;
    while i < s.len() && is_whitespace(s[i])
        invariant
            i <= s@.len(),
            forall|j: int| 0 <= j < i ==> whitespace(s@[j]),
        decreases s@.len() - i,
    {
        i = i + 1;
    }
    proof {
        lemma_trim_start_step(s@, i as int);
        assert(s@.skip(i as int) =~= s@.subrange(i as int, s@.len() as int));
    }
    part(s, i, s.len())
}

pub fn trim_end(s: &[char]) -> (r: Vec<char>)
    ensures
        r@ == trim_end_of(s@),
{
    let mut n: usize = s.len();
    while n > 0 && is_whitespace(s[n - 1])
        invariant
            n <= s@.len(),
            forall|j: int| n <= j < s@.len() ==> whitespace(s@[j]),
        decreases n,
    {
        n = n - 1;
    }
    proof {
        lemma_trim_end_step(s@, n as int);
        assert(s@.take(n as int) =~= s@.subrange(0, n as int));
    }
    part(s, 0, n)
}

pub fn trim(s: &[char]) -> (r: Vec<char>)
    ensures
        r@ == trim_of(s@),
{
    let t = trim_start(s);
    trim_end(&t)
}

pub open spec fn chars_views(v: Seq<Vec<char>>) -> Seq<Seq<char>> {
    v.map_values(|s: Vec<char>| s@)
}

pub proof fn lemma_char_from_shift(s: Seq<char>, c: char, k: int, i: int)
    requires
        0 <= k <= s.len(),
        0 <= i,
    ensures
        char_from(s.skip(k), c, i) is Some == char_from(s, c, k + i) is Some,
        char_from(s, c, k + i) is Some ==> char_from(s.skip(k), c, i) == Some(
            char_from(s, c, k + i)->0 - k,
        ),
    decreases s.len() - k - i,
{
    if k + i < s.len() {
        assert(s.skip(k)[i] == s[k + i]);
        if s[k + i] != c {
            lemma_char_from_shift(s, c, k, i + 1);
        }
    }
}

pub fn split(s: &[char], c: char) -> (r: Vec<Vec<char>>)
    ensures
        chars_views(r@) == split_of(s@, c),
        r@.len() >= 1,
{
    let mut out: Vec<Vec<char>> = Vec::new();
    let mut from: usize = 0;
    let n: usize = s.len();
    proof {
        assert(s@.skip(0) =~= s@);
        assert(chars_views(out@) + split_of(s@, c) =~= split_of(s@, c));
    }
    loop
        invariant
            from <= s@.len() == n,
            chars_views(out@) + split_of(s@.skip(from as int), c) == split_of(s@, c),
        decreases s@.len() - from,
    {
        let ghost rest = s@.skip(from as int);
        proof {
            lemma_char_from_shift(s@, c, from as int, 0);
        }
        match find_char(s, c, from) {
            None => {
                let ghost before = out@;
                out.push(part(s, from, s.len()));
                proof {
                    assert(rest =~= s@.subrange(from as int, s@.len() as int));
                    assert(chars_views(out@) =~= chars_views(before) + seq![rest]);
                }
                return out;
            },
            Some(i) => {
                let ghost before = out@;
                out.push(part(s, from, i));
                proof {
                    let k = i - from;
                    assert(rest.subrange(0, k) =~= s@.subrange(from as int, i as int));
                    assert(rest.subrange(k + 1, rest.len() as int) =~= s@.skip(i + 1));
                    assert(chars_views(out@) =~= chars_views(before) + seq![rest.subrange(0, k)]);
                    assert(split_of(rest, c) == seq![rest.subrange(0, k)] + split_of(
                        s@.skip(i + 1),
                        c,
                    ));
                    assert(chars_views(out@) + split_of(s@.skip(i + 1), c) =~= chars_views(before)
                        + split_of(rest, c));
                }
                from = i + 1;
            },
        }
    }
}

pub fn to_ascii_lower(s: &[char]) -> (r: Vec<char>)
    ensures
        r@ == ascii_lower_of(s@),
{
    let mut out: Vec<char> = Vec::new();
    let mut i: usize = 0;
    while i < s.len()
        invariant
            i <= s@.len(),
            out@.len() == i,
            forall|j: int| 0 <= j < i ==> out@[j] == ascii_lower(s@[j]),
        decreases s@.len() - i,
    {
        let c = s[i];
        if 'A' <= c && c <= 'Z' {
            out.push(((c as u8) + 32) as char);
        } else {
            out.push(c);
        }
        i = i + 1;
    }
    assert(out@ =~= ascii_lower_of(s@));
    out
}


pub fn join(parts: &Vec<Vec<char>>, sep: &[char]) -> (r: Vec<char>)
    ensures
        r@ == joined(chars_views(parts@), sep@),
{
    let ghost all = chars_views(parts@);
    let mut out: Vec<char> = Vec::new();
    let mut i: usize = 0;
    while i < parts.len()
        invariant
            i <= parts@.len(),
            all == chars_views(parts@),
            out@ == joined(all.take(i as int), sep@),
        decreases parts@.len() - i,
    {
        if i > 0 {
            append_chars(&mut out, sep);
        }
        append_chars(&mut out, &parts[i]);
        proof {
            assert(all.take(i + 1).drop_last() =~= all.take(i as int));
            if i == 0 {
                assert(all.take(0) =~= Seq::<Seq<char>>::empty());
                assert(all.take(1)[0] == parts@[0]@);
                assert(Seq::<char>::empty() + parts@[0]@ =~= parts@[0]@);
            }
        }
        i = i + 1;
    }
    assert(all.take(i as int) =~= all);
    out
}

pub fn join_strings(parts: &Vec<String>, sep: &str) -> (r: String)
    ensures
        r@ == joined(str_views(parts@), sep@),
{
    let mut v: Vec<Vec<char>> = Vec::new();
    let mut i: usize = 0;
    while i < parts.len()
        invariant
            i <= parts@.len(),
            v@.len() == i,
            forall|j: int| 0 <= j < i ==> v@[j]@ == parts@[j]@,
        decreases parts@.len() - i,
    {
        v.push(chars_of(&parts[i]));
        i = i + 1;
    }
    assert(chars_views(v@) =~= str_views(parts@));
    let sep_chars = chars_of(sep);
    let out = join(&v, &sep_chars);
    string_of(&out)
}

pub proof fn lemma_decimal_nonempty(n: nat)
    ensures
        decimal(n).len() >= 1,
        all_digits(decimal(n)),
    decreases n,
{
    if n >= 10 {
        lemma_decimal_nonempty(n / 10);
    }
}

/// Writing a number in decimal and reading the digits gives the number back.
pub proof fn lemma_decimal_value(n: nat)
    ensures
        digits_value(decimal(n)) == n,
    decreases n,
{
    if n >= 10 {
        lemma_decimal_value(n / 10);
        assert(decimal(n).drop_last() =~= decimal(n / 10));
    } else {
        assert(decimal(n).drop_last() =~= Seq::<char>::empty());
        assert(digits_value(Seq::<char>::empty()) == 0);
    }
}

/// A decimal number no larger than `max` reads back as itself.
pub proof fn lemma_unsigned_decimal(n: nat, max: nat)
    requires
        n <= max,
    ensures
        unsigned_of(decimal(n), max) == Some(n),
{
    lemma_decimal_nonempty(n);
    lemma_decimal_value(n);
    assert('0' <= decimal(n)[0] <= '9');
}

pub fn append_decimal(out: &mut Vec<char>, n: u64)
    ensures
        final(out)@ == old(out)@ + decimal(n as nat),
    decreases n,
{
    if n >= 10 {
        append_decimal(out, n / 10);
        out.push(((n % 10) as u8 + 48) as char);
    } else {
        out.push((n as u8 + 48) as char);
    }
}

pub proof fn lemma_digits_value_mono(s: Seq<char>, k: int)
    requires
        all_digits(s),
        0 <= k <= s.len(),
    ensures
        digits_value(s.take(k)) <= digits_value(s),
    decreases s.len(),
{
    if k < s.len() {
        assert(all_digits(s.drop_last()));
        lemma_digits_value_mono(s.drop_last(), k);
        assert(s.drop_last().take(k) =~= s.take(k));
    } else {
        assert(s.take(k) =~= s);
    }
}

pub fn parse_unsigned(s: &[char], max: u64) -> (r: Option<u64>)
    ensures
        r is Some == unsigned_of(s@, max as nat) is Some,
        r is Some ==> unsigned_of(s@, max as nat) == Some(r->0 as nat),
{
    let start: usize = if s.len() > 1 && s[0] == '+' {
        1
    } else {
        0
    };
    let ghost t = s@.skip(start as int);
    proof {
        assert(s@.skip(0) =~= s@);
        if start == 1 {
            assert(t =~= s@.drop_first());
        }
    }
    if s.len() == start {
        return None;
    }
    let n: usize = s.len();
    let mut v: u64 = 0;
    let mut i: usize = start;
    while i < s.len()
        invariant
            start <= i <= s@.len() == n,
            t == s@.skip(start as int),
            v as nat == digits_value(t.take(i - start)),
            v <= max,
            forall|j: int| 0 <= j < i - start ==> '0' <= #[trigger] t[j] <= '9',
            unsigned_of(s@, max as nat) == (if t.len() > 0 && all_digits(t) && digits_value(t)
                <= max {
                Some(digits_value(t))
            } else {
                None
            }),
        decreases s@.len() - i,
    {
        let c = s[i];
        let ghost k = i - start;
        assert(t[k] == c);
        if !('0' <= c && c <= '9') {
            return None;
        }
        let d: u64 = (c as u8 - 48) as u64;
        proof {
            assert(t.take(k + 1).drop_last() =~= t.take(k));
            assert(t.take(k + 1).last() == c);
            if all_digits(t) {
                lemma_digits_value_mono(t, k + 1);
            }
        }
        if v > (max - (if d <= max { d } else { max })) / 10 || d > max {
            proof {
                assert(v * 10 + d > max);
            }
            return None;
        }
        v = v * 10 + d;
        i = i + 1;
    }
    assert(t.take(t.len() as int) =~= t);
    Some(v)
}


/// A number in decimal with a minus sign where it is negative.
pub open spec fn signed_decimal(n: int) -> Seq<char> {
    if n < 0 {
        seq!['-'] + decimal((-n) as nat)
    } else {
        decimal(n as nat)
    }
}

/// What a 64-bit signed number reads from a text: digits, with or without a leading sign.
pub open spec fn signed_of(s: Seq<char>) -> Option<int> {
    if s.len() > 1 && s[0] == '-' {
        let t = s.drop_first();
        if all_digits(t) && digits_value(t) <= 0x8000_0000_0000_0000 {
            Some(-(digits_value(t) as int))
        } else {
            None
        }
    } else {
        match unsigned_of(s, 0x7fff_ffff_ffff_ffff) {
            Some(n) => Some(n as int),
            None => None,
        }
    }
}

/// A 64-bit signed number in decimal reads back as itself.
pub proof fn lemma_signed_decimal(n: int)
    requires
        i64::MIN <= n <= i64::MAX,
    ensures
        signed_of(signed_decimal(n)) == Some(n),
        signed_decimal(n).len() >= 1,
        forall|i: int|
            0 <= i < signed_decimal(n).len() ==> ('0' <= #[trigger] signed_decimal(n)[i] <= '9')
                || signed_decimal(n)[i] == '-',
{
    if n < 0 {
        let m = (-n) as nat;
        lemma_decimal_nonempty(m);
        lemma_decimal_value(m);
        assert(signed_decimal(n).drop_first() =~= decimal(m));
        assert forall|i: int| 0 <= i < signed_decimal(n).len() implies ('0'
            <= #[trigger] signed_decimal(n)[i] <= '9') || signed_decimal(n)[i] == '-' by {
            if i > 0 {
                assert(signed_decimal(n)[i] == decimal(m)[i - 1]);
            }
        }
    } else {
        lemma_unsigned_decimal(n as nat, 0x7fff_ffff_ffff_ffff);
        lemma_decimal_nonempty(n as nat);
        assert('0' <= decimal(n as nat)[0]);
    }
}

pub fn append_signed(out: &mut Vec<char>, n: i64)
    ensures
        final(out)@ == old(out)@ + signed_decimal(n as int),
{
    if n < 0 {
        let m: u64 = (-(n + 1)) as u64 + 1;
        out.push('-');
        append_decimal(out, m);
        assert(out@ =~= old(out)@ + signed_decimal(n as int));
    } else {
        append_decimal(out, n as u64);
    }
}

pub fn parse_signed(s: &[char]) -> (r: Option<i64>)
    ensures
        r is Some == signed_of(s@) is Some,
        r is Some ==> signed_of(s@) == Some(r->0 as int),
{
    if s.len() > 1 && s[0] == '-' {
        let t = part(s, 1, s.len());
        assert(t@ =~= s@.drop_first());
        if t[0] == '+' {
            return None;
        }
        match parse_unsigned(&t, 0x8000_0000_0000_0000) {
            None => None,
            Some(m) => if m == 0x8000_0000_0000_0000 {
                Some(-0x8000_0000_0000_0000i64)
            } else {
                Some(-(m as i64))
            },
        }
    } else {
        match parse_unsigned(s, 0x7fff_ffff_ffff_ffff) {
            None => None,
            Some(m) => Some(m as i64),
        }
    }
}

/// Whether a text is a floating-point number: an optional sign before a decimal number with an
/// optional exponent, or before `inf`, `infinity` or `nan` in either case.
pub open spec fn float_syntax(s: Seq<char>) -> bool {
    let t = if s.len() > 0 && (s[0] == '+' || s[0] == '-') {
        s.drop_first()
    } else {
        s
    };
    let low = ascii_lower_of(t);
    low == "inf"@ || low == "infinity"@ || low == "nan"@ || match char_from(low, 'e', 0) {
        None => mantissa_syntax(t),
        Some(i) => mantissa_syntax(t.take(i)) && exponent_syntax(t.skip(i + 1)),
    }
}

/// Digits with an optional point, at least one digit.
pub open spec fn mantissa_syntax(s: Seq<char>) -> bool {
    match char_from(s, '.', 0) {
        None => s.len() > 0 && all_digits(s),
        Some(i) => s.len() > 1 && all_digits(s.take(i)) && all_digits(s.skip(i + 1)),
    }
}

/// Digits with an optional sign, at least one digit.
pub open spec fn exponent_syntax(s: Seq<char>) -> bool {
    let t = if s.len() > 0 && (s[0] == '+' || s[0] == '-') {
        s.drop_first()
    } else {
        s
    };
    t.len() > 0 && all_digits(t)
}

fn only_digits(s: &[char]) -> (r: bool)
    ensures
        r == all_digits(s@),
{
    let mut i: usize = 0;
    while i < s.len()
        invariant
            i <= s@.len(),
            forall|j: int| 0 <= j < i ==> '0' <= #[trigger] s@[j] <= '9',
        decreases s@.len() - i,
    {
        if !('0' <= s[i] && s[i] <= '9') {
            return false;
        }
        i = i + 1;
    }
    true
}

fn is_mantissa(s: &[char]) -> (r: bool)
    ensures
        r == mantissa_syntax(s@),
{
    match find_char(s, '.', 0) {
        None => s.len() > 0 && only_digits(s),
        Some(i) => {
            let a = part(s, 0, i);
            let n: usize = s.len();
            let b = part(s, i + 1, n);
            assert(a@ =~= s@.take(i as int));
            assert(b@ =~= s@.skip(i + 1));
            s.len() > 1 && only_digits(&a) && only_digits(&b)
        },
    }
}

fn without_sign(s: &[char]) -> (r: Vec<char>)
    ensures
        r@ == (if s@.len() > 0 && (s@[0] == '+' || s@[0] == '-') {
            s@.drop_first()
        } else {
            s@
        }),
{
    if s.len() > 0 && (s[0] == '+' || s[0] == '-') {
        let t = part(s, 1, s.len());
        assert(t@ =~= s@.drop_first());
        t
    } else {
        let t = part(s, 0, s.len());
        assert(t@ =~= s@);
        t
    }
}

/// Whether a text is a floating-point number.
pub fn is_float(s: &[char]) -> (r: bool)
    ensures
        r == float_syntax(s@),
{
    let t = without_sign(s);
    let low = to_ascii_lower(&t);
    let name = string_of(&low);
    if same_text(&name, "inf") || same_text(&name, "infinity") || same_text(&name, "nan") {
        return true;
    }
    match find_char(&low, 'e', 0) {
        None => is_mantissa(&t),
        Some(i) => {
            let a = part(&t, 0, i);
            let n: usize = t.len();
            let b = part(&t, i + 1, n);
            assert(a@ =~= t@.take(i as int));
            assert(b@ =~= t@.skip(i + 1));
            let e = without_sign(&b);
            is_mantissa(&a) && e.len() > 0 && only_digits(&e)
        },
    }
}

/// What follows `p` at the start of `s`.
pub open spec fn stripped(s: Seq<char>, p: Seq<char>) -> Option<Seq<char>> {
    if occurs_at(s, p, 0) {
        Some(s.skip(p.len() as int))
    } else {
        None
    }
}

pub fn strip_prefix(s: &[char], p: &str) -> (r: Option<Vec<char>>)
    ensures
        r is Some == stripped(s@, p@) is Some,
        r is Some ==> stripped(s@, p@) == Some(r->0@),
{
    let q = chars_of(p);
    if stands_at(s, &q, 0) {
        let t = part(s, q.len(), s.len());
        assert(t@ =~= s@.skip(p@.len() as int));
        Some(t)
    } else {
        None
    }
}

/// Taking a prefix off undoes putting it on.
pub proof fn lemma_strip_own(p: Seq<char>, x: Seq<char>)
    ensures
        stripped(p + x, p) == Some(x),
{
    assert((p + x).subrange(0, p.len() as int) =~= p);
    assert((p + x).skip(p.len() as int) =~= x);
}

/// A prefix that differs from the start of a text is not found there.
pub proof fn lemma_strip_other(p: Seq<char>, x: Seq<char>, q: Seq<char>, k: int)
    requires
        0 <= k < p.len(),
        k < q.len(),
        p[k] != q[k],
    ensures
        stripped(p + x, q) is None,
{
    if occurs_at(p + x, q, 0) {
        assert((p + x).subrange(0, q.len() as int)[k] == q[k]);
    }
}

/// The two parts of a text around the first `c`.
pub open spec fn split_once_of(s: Seq<char>, c: char) -> Option<(Seq<char>, Seq<char>)> {
    match char_from(s, c, 0) {
        Some(i) => Some((s.take(i), s.skip(i + 1))),
        None => None,
    }
}

pub fn split_once(s: &[char], c: char) -> (r: Option<(Vec<char>, Vec<char>)>)
    ensures
        match r {
            Some((a, b)) => split_once_of(s@, c) == Some((a@, b@)),
            None => split_once_of(s@, c) is None,
        },
{
    match find_char(s, c, 0) {
        None => None,
        Some(i) => {
            let a = part(s, 0, i);
            let n: usize = s.len();
            let b = part(s, i + 1, n);
            assert(a@ =~= s@.take(i as int));
            assert(b@ =~= s@.skip(i + 1));
            Some((a, b))
        },
    }
}

pub proof fn lemma_char_from(s: Seq<char>, c: char, i: int, k: int)
    requires
        0 <= i <= k < s.len(),
        s[k] == c,
        forall|j: int| i <= j < k ==> s[j] != c,
    ensures
        char_from(s, c, i) == Some(k),
    decreases k - i,
{
    if i < k {
        lemma_char_from(s, c, i + 1, k);
    }
}

pub proof fn lemma_char_absent(s: Seq<char>, c: char, i: int)
    requires
        0 <= i,
        forall|j: int| i <= j < s.len() ==> s[j] != c,
    ensures
        char_from(s, c, i) is None,
    decreases s.len() - i,
{
    if i < s.len() {
        lemma_char_absent(s, c, i + 1);
    }
}

/// What the first position of a character is.
pub proof fn lemma_char_from_bounds(s: Seq<char>, c: char, i: int)
    requires
        0 <= i,
    ensures
        char_from(s, c, i) matches Some(k) ==> i <= k < s.len() && s[k] == c && forall|j: int|
            i <= j < k ==> s[j] != c,
    decreases s.len() - i,
{
    if i < s.len() && s[i] != c {
        lemma_char_from_bounds(s, c, i + 1);
    }
}

/// The two parts around a character that the first part does not hold.
pub proof fn lemma_split_once(a: Seq<char>, c: char, b: Seq<char>)
    requires
        forall|j: int| 0 <= j < a.len() ==> a[j] != c,
    ensures
        split_once_of(a + seq![c] + b, c) == Some((a, b)),
{
    let s = a + seq![c] + b;
    lemma_char_from(s, c, 0, a.len() as int);
    assert(s.take(a.len() as int) =~= a);
    assert(s.skip(a.len() as int + 1) =~= b);
}

/// The pieces of a text that starts with a piece and a separator.
pub proof fn lemma_split_cons(a: Seq<char>, c: char, b: Seq<char>)
    requires
        forall|j: int| 0 <= j < a.len() ==> a[j] != c,
    ensures
        split_of(a + seq![c] + b, c) == seq![a] + split_of(b, c),
{
    let s = a + seq![c] + b;
    lemma_char_from(s, c, 0, a.len() as int);
    assert(s.subrange(0, a.len() as int) =~= a);
    assert(s.subrange(a.len() as int + 1, s.len() as int) =~= b);
}

/// A text without the separator is its own only piece.
pub proof fn lemma_split_single(a: Seq<char>, c: char)
    requires
        forall|j: int| 0 <= j < a.len() ==> a[j] != c,
    ensures
        split_of(a, c) == seq![a],
{
    lemma_char_absent(a, c, 0);
}

/// A text that neither starts nor ends with whitespace is its own trimmed form.
pub proof fn lemma_trim_same(s: Seq<char>)
    requires
        s.len() > 0 ==> !whitespace(s[0]) && !whitespace(s.last()),
    ensures
        trim_of(s) == s,
{
}

} // verus!
