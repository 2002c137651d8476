//! Text, as sequences of characters: comparing, trimming, cutting, joining and
//! writing numbers.
use vstd::prelude::*;
use vstd::string::*;
use vstd::utf8::*;

verus! {

/// `String::push` appends one character.
pub assume_specification[ String::push ](s: &mut String, c: char)
    ensures
        final(s)@ == old(s)@.push(c),
;

/// What `str::to_lowercase` returns for a text: its Unicode lower case.
pub uninterp spec fn lowercase(s: Seq<char>) -> Seq<char>;

/// `str::to_lowercase`: the result is named by [`lowercase`], nothing more is
/// said of it.
#[verifier::external_body]
pub(crate) fn to_lowercase(s: &str) -> (r: String)
    ensures
        r@ == lowercase(s@),
{
    s.to_lowercase()
}

/// A text that may be missing.
pub open spec fn opt_text(s: Option<String>) -> Option<Seq<char>> {
    match s {
        Some(t) => Some(t@),
        None => None,
    }
}

/// A list of texts.
pub open spec fn texts(v: Seq<String>) -> Seq<Seq<char>> {
    v.map_values(|s: String| s@)
}

/// Whether two texts are the same, character for character.
pub fn same_text(a: &str, b: &str) -> (r: bool)
    ensures
        r <==> a@ == b@,
{
    let x = a.as_bytes();
    let y = b.as_bytes();
    proof {
        encode_utf8_decode_utf8(a@);
        encode_utf8_decode_utf8(b@);
    }
    if x.len() != y.len() {
        return false;
    }
    let mut i: usize = 0;
    while i < x.len()
        invariant
            x@ == encode_utf8(a@),
            y@ == encode_utf8(b@),
            x@.len() == y@.len(),
            i <= x@.len(),
            forall|j: int| 0 <= j < i ==> x@[j] == y@[j],
        decreases x@.len() - i,
    {
        if x[i] != y[i] {
            return false;
        }
        i += 1;
    }
    assert(x@ =~= y@);
    true
}

/// The characters of a text.
pub fn to_chars(s: &str) -> (r: Vec<char>)
    ensures
        r@ == s@,
{
    let mut r: Vec<char> = Vec::new();
    for c in it: s.chars()
        invariant
            it.seq() == s@,
            r@ == s@.take(it.index()),
    {
        r.push(c);
    }
    r
}

/// The text made of the characters from `from` up to `to`.
pub fn from_range(s: &Vec<char>, from: usize, to: usize) -> (r: String)
    requires
        from <= to <= s@.len(),
    ensures
        r@ == s@.subrange(from as int, to as int),
{
    let mut r = String::new();
    let mut i: usize = from;
    while i < to
        invariant
            from <= i <= to <= s@.len(),
            r@ == s@.subrange(from as int, i as int),
        decreases to - i,
    {
        r.push(s[i]);
        i += 1;
    }
    r
}

/// A copy of a text that may be missing.
pub fn clone_text(s: &Option<String>) -> (r: Option<String>)
    ensures
        opt_text(r) == opt_text(*s),
{
    match s {
        Some(t) => Some(t.clone()),
        None => None,
    }
}

/// A copy of a list of texts.
pub fn clone_texts(v: &Vec<String>) -> (r: Vec<String>)
    ensures
        texts(r@) == texts(v@),
{
    let mut r: Vec<String> = Vec::new();
    let mut i: usize = 0;
    while i < v.len()
        invariant
            i <= v@.len(),
            r@.len() == i,
            forall|j: int| 0 <= j < i ==> r@[j]@ == v@[j]@,
        decreases v@.len() - i,
    {
        r.push(v[i].clone());
        i += 1;
    }
    assert(texts(r@) =~= texts(v@));
    r
}

/// Texts can be put together in either order.
pub proof fn lemma_assoc(a: Seq<char>, b: Seq<char>, c: Seq<char>)
    ensures
        (a + b) + c == a + (b + c),
{
    assert((a + b) + c =~= a + (b + c));
}

// ---------------------------------------------------------------------------
// White space
// ---------------------------------------------------------------------------
/// The characters with the Unicode property White_Space.
pub open spec fn is_space(c: char) -> bool {
    let n = c as u32;
    ||| 0x9 <= n <= 0xd
    ||| n == 0x20
    ||| n == 0x85
    ||| n == 0xa0
    ||| n == 0x1680
    ||| 0x2000 <= n <= 0x200a
    ||| n == 0x2028
    ||| n == 0x2029
    ||| n == 0x202f
    ||| n == 0x205f
    ||| n == 0x3000
}

/// `s` without the white space it begins with.
pub open spec fn trim_start(s: Seq<char>) -> Seq<char>
    decreases s.len(),
{
    if s.len() > 0 && is_space(s[0]) {
        trim_start(s.drop_first())
    } else {
        s
    }
}

/// `s` without the white space it ends with.
pub open spec fn trim_end(s: Seq<char>) -> Seq<char>
    decreases s.len(),
{
    if s.len() > 0 && is_space(s.last()) {
        trim_end(s.drop_last())
    } else {
        s
    }
}

/// `s` without white space at either end.
pub open spec fn trimmed(s: Seq<char>) -> Seq<char> {
    trim_end(trim_start(s))
}

/// Nothing but white space.
pub open spec fn blank(s: Seq<char>) -> bool {
    forall|i: int| 0 <= i < s.len() ==> is_space(#[trigger] s[i])
}

/// Whether a character is white space.
pub fn char_is_space(c: char) -> (r: bool)
    ensures
        r == is_space(c),
{
    let n: u32 = c as u32;
    (0x9 <= n && n <= 0xd) || n == 0x20 || n == 0x85 || n == 0xa0 || n == 0x1680 || (0x2000 <= n
        && n <= 0x200a) || n == 0x2028 || n == 0x2029 || n == 0x202f || n == 0x205f || n == 0x3000
}

/// The text without white space at its end.
pub fn trim_end_text(s: &str) -> (r: String)
    ensures
        r@ == trim_end(s@),
{
    let chars = to_chars(s);
    let mut to: usize = chars.len();
    assert(s@.take(to as int) =~= s@);
    while to > 0 && char_is_space(chars[to - 1])
        invariant
            chars@ == s@,
            to <= chars@.len(),
            trim_end(s@) == trim_end(s@.take(to as int)),
        decreases to,
    {
        proof {
            assert(s@.take(to as int).drop_last() =~= s@.take(to - 1));
        }
        to -= 1;
    }
    from_range(&chars, 0, to)
}

/// The text without white space at either end.
pub fn trim(s: &str) -> (r: String)
    ensures
        r@ == trimmed(s@),
{
    let chars = to_chars(s);
    let n: usize = chars.len();
    let mut from: usize = 0;
    assert(s@.skip(0) =~= s@);
    while from < n && char_is_space(chars[from])
        invariant
            chars@ == s@,
            n == s@.len(),
            from <= n,
            trim_start(s@) == trim_start(s@.skip(from as int)),
        decreases n - from,
    {
        proof {
            assert(s@.skip(from as int).drop_first() =~= s@.skip(from + 1));
        }
        from += 1;
    }
    let ghost rest = s@.skip(from as int);
    assert(trim_start(s@) == rest);
    let mut to: usize = n;
    assert(rest.take(to - from) =~= rest);
    while to > from && char_is_space(chars[to - 1])
        invariant
            chars@ == s@,
            n == s@.len(),
            from <= to <= n,
            rest == s@.skip(from as int),
            trim_end(rest) == trim_end(rest.take(to - from)),
        decreases to,
    {
        proof {
            assert(rest.take(to - from).drop_last() =~= rest.take(to - from - 1));
        }
        to -= 1;
    }
    assert(rest.take(to - from) =~= s@.subrange(from as int, to as int));
    from_range(&chars, from, to)
}

/// A text is blank when trimming leaves nothing of it.
pub proof fn lemma_blank_trims_to_nothing(s: Seq<char>)
    ensures
        blank(s) <==> trimmed(s).len() == 0,
{
    lemma_trim_start(s);
    lemma_trim_end(trim_start(s));
    let t = trim_start(s);
    if trimmed(s).len() == 0 {
        if t.len() > 0 {
            assert(is_space(t[0]));
        }
    } else {
        assert(!is_space(t[0]));
        assert(s[s.len() - t.len()] == t[0]);
    }
}

/// What is left after trimming the start is the tail of the text behind its
/// leading white space.
pub proof fn lemma_trim_start(s: Seq<char>)
    ensures
        trim_start(s).len() <= s.len(),
        trim_start(s) == s.skip(s.len() - trim_start(s).len()),
        trim_start(s).len() > 0 ==> !is_space(trim_start(s)[0]),
        forall|i: int| 0 <= i < s.len() - trim_start(s).len() ==> is_space(#[trigger] s[i]),
    decreases s.len(),
{
    if s.len() > 0 && is_space(s[0]) {
        let rest = s.drop_first();
        lemma_trim_start(rest);
        assert(trim_start(s) =~= s.skip(s.len() - trim_start(s).len()));
        assert forall|i: int| 0 <= i < s.len() - trim_start(s).len() implies is_space(
            #[trigger] s[i],
        ) by {
            if i > 0 {
                assert(s[i] == rest[i - 1]);
            }
        }
    } else {
        assert(s =~= s.skip(0));
    }
}

/// What is left after trimming the end is the head of the text before its
/// trailing white space.
pub proof fn lemma_trim_end(s: Seq<char>)
    ensures
        trim_end(s).len() <= s.len(),
        trim_end(s) == s.take(trim_end(s).len() as int),
        trim_end(s).len() > 0 ==> !is_space(trim_end(s).last()),
        forall|i: int| trim_end(s).len() <= i < s.len() ==> is_space(#[trigger] s[i]),
    decreases s.len(),
{
    if s.len() > 0 && is_space(s.last()) {
        let rest = s.drop_last();
        lemma_trim_end(rest);
        assert(trim_end(s) =~= s.take(trim_end(s).len() as int));
        assert forall|i: int| trim_end(s).len() <= i < s.len() implies is_space(
            #[trigger] s[i],
        ) by {
            if i < s.len() - 1 {
                assert(s[i] == rest[i]);
            }
        }
    } else {
        assert(s =~= s.take(s.len() as int));
    }
}

/// Trimming a trimmed text changes nothing.
pub proof fn lemma_trim_idempotent(s: Seq<char>)
    ensures
        trimmed(trimmed(s)) == trimmed(s),
{
    let a = trim_start(s);
    let t = trim_end(a);
    lemma_trim_start(s);
    lemma_trim_end(a);
    if t.len() > 0 {
        assert(t[0] == a[0]);
    }
}

/// Whether there is nothing but white space in the text.
pub fn is_blank(s: &str) -> (r: bool)
    ensures
        r == blank(s@),
{
    for c in it: s.chars()
        invariant
            it.seq() == s@,
            forall|i: int| 0 <= i < it.index() ==> is_space(#[trigger] s@[i]),
    {
        if !char_is_space(c) {
            assert(s@[it.index()] == c);
            return false;
        }
    }
    true
}

// ---------------------------------------------------------------------------
// Numbers
// ---------------------------------------------------------------------------
/// The character of a decimal digit.
pub open spec fn digit(n: nat) -> char {
    (('0' as u8) + n) as u8 as char
}

/// A number in decimal, without leading zeros.
pub open spec fn decimal(n: nat) -> Seq<char>
    decreases n,
{
    if n < 10 {
        seq![digit(n)]
    } else {
        decimal(n / 10).push(digit(n % 10))
    }
}

/// A signed number in decimal.
pub open spec fn decimal_int(n: int) -> Seq<char> {
    if n < 0 {
        seq!['-'] + decimal((-n) as nat)
    } else {
        decimal(n as nat)
    }
}

/// Writes a number in decimal.
pub fn decimal_text(n: u64) -> (r: String)
    ensures
        r@ == decimal(n as nat),
    decreases n,
{
    let d: u8 = (n % 10) as u8;
    let c: char = (48u8 + d) as char;
    if n < 10 {
        let mut r = String::new();
        r.push(c);
        assert(r@ =~= seq![digit(n as nat)]);
        r
    } else {
        let mut r = decimal_text(n / 10);
        r.push(c);
        r
    }
}

/// Writes a signed number in decimal.
pub fn decimal_int_text(n: i64) -> (r: String)
    ensures
        r@ == decimal_int(n as int),
{
    if n < 0 {
        let m: u64 = (-(n + 1)) as u64 + 1;
        let mut r = String::new();
        r.push('-');
        assert(r@ =~= seq!['-']);
        r.append(decimal_text(m).as_str());
        r
    } else {
        decimal_text(n as u64)
    }
}

/// The value of a row of decimal digits.
pub open spec fn digits_value(s: Seq<char>) -> nat
    decreases s.len(),
{
    if s.len() == 0 {
        0
    } else {
        digits_value(s.drop_last()) * 10 + (s.last() as int - '0' as int) as nat
    }
}

/// Whether a character is a decimal digit.
pub open spec fn is_digit(c: char) -> bool {
    '0' as int <= c as int <= '9' as int
}

/// The digits of a number: what stands behind a plus sign, or all of it.
pub open spec fn unsigned_part(s: Seq<char>) -> Seq<char> {
    if s.len() > 0 && s[0] == '+' {
        s.drop_first()
    } else {
        s
    }
}

/// The number that a text is: decimal digits, with or without a plus sign.
pub open spec fn number_of(s: Seq<char>) -> Option<nat> {
    let d = unsigned_part(s);
    if d.len() > 0 && (forall|i: int| 0 <= i < d.len() ==> is_digit(#[trigger] d[i])) {
        Some(digits_value(d))
    } else {
        None
    }
}

/// More digits make no smaller number.
proof fn lemma_digits_grow(s: Seq<char>, n: int)
    requires
        0 <= n <= s.len(),
        forall|i: int| 0 <= i < s.len() ==> is_digit(#[trigger] s[i]),
    ensures
        digits_value(s.take(n)) <= digits_value(s),
    decreases s.len() - n,
{
    if n < s.len() {
        lemma_digits_grow(s, n + 1);
        assert(s.take(n + 1).drop_last() =~= s.take(n));
    } else {
        assert(s.take(n) =~= s);
    }
}

fn digit_of(c: char) -> (r: Option<usize>)
    ensures
        match r {
            Some(d) => is_digit(c) && d == c as int - '0' as int && d < 10,
            None => !is_digit(c),
        },
{
    let n: u32 = c as u32;
    if 48 <= n && n <= 57 {
        Some((n - 48) as usize)
    } else {
        None
    }
}

/// The number that a text is, where it is one that a `usize` holds.
pub fn parse_number(s: &str) -> (r: Option<usize>)
    ensures
        match r {
            Some(n) => number_of(s@) == Some(n as nat),
            None => number_of(s@) is None || number_of(s@)->Some_0 > usize::MAX,
        },
{
    let chars = to_chars(s);
    let from: usize = if chars.len() > 0 && chars[0] == '+' {
        1
    } else {
        0
    };
    let ghost d = unsigned_part(s@);
    assert(d =~= s@.skip(from as int));
    if from == chars.len() {
        return None;
    }
    let mut value: usize = 0;
    let mut i: usize = from;
    assert(d.take(0) =~= Seq::empty());
    while i < chars.len()
        invariant
            chars@ == s@,
            from <= i <= chars@.len(),
            d == s@.skip(from as int),
            d == unsigned_part(s@),
            d.len() > 0,
            value == digits_value(d.take(i - from)),
            forall|j: int| 0 <= j < i - from ==> is_digit(#[trigger] d[j]),
        decreases chars@.len() - i,
    {
        assert(d[i - from] == s@[i as int]);
        assert(d.take(i - from + 1).drop_last() =~= d.take(i - from));
        match digit_of(chars[i]) {
            None => {
                return None;
            },
            Some(k) => {
                if value > (usize::MAX - k) / 10 {
                    proof {
                        assert(digits_value(d.take(i - from + 1)) > usize::MAX);
                        if forall|j: int| 0 <= j < d.len() ==> is_digit(#[trigger] d[j]) {
                            lemma_digits_grow(d, i - from + 1);
                        }
                    }
                    return None;
                }
                value = value * 10 + k;
            },
        }
        i += 1;
    }
    assert(d.take(i - from) =~= d);
    Some(value)
}

// ---------------------------------------------------------------------------
// Searching and comparing
// ---------------------------------------------------------------------------
/// Whether `t` stands in `s` at place `i`.
pub open spec fn occurs_at(s: Seq<char>, t: Seq<char>, i: int) -> bool {
    0 <= i && i + t.len() <= s.len() && s.subrange(i, i + t.len()) == t
}

/// Whether `t` stands anywhere in `s`.
pub open spec fn has_text(s: Seq<char>, t: Seq<char>) -> bool {
    exists|i: int| #[trigger] occurs_at(s, t, i)
}

/// Whether `t` stands in `s` at place `at`.
pub fn text_at(s: &Vec<char>, t: &Vec<char>, at: usize) -> (r: bool)
    ensures
        r == occurs_at(s@, t@, at as int),
{
    if at > s.len() || s.len() - at < t.len() {
        return false;
    }
    let mut k: usize = 0;
    while k < t.len()
        invariant
            k <= t@.len(),
            at + t@.len() <= s@.len() <= usize::MAX,
            forall|j: int| 0 <= j < k ==> s@[at + j] == t@[j],
        decreases t@.len() - k,
    {
        if s[at + k] != t[k] {
            assert(s@.subrange(at as int, at + t@.len())[k as int] != t@[k as int]);
            return false;
        }
        k += 1;
    }
    assert(s@.subrange(at as int, at + t@.len()) =~= t@);
    true
}

/// Whether `t` stands anywhere in `s`.
pub fn contains(s: &str, t: &str) -> (r: bool)
    ensures
        r == has_text(s@, t@),
{
    let hay = to_chars(s);
    let needle = to_chars(t);
    let mut i: usize = 0;
    while i < hay.len()
        invariant
            hay@ == s@,
            needle@ == t@,
            i <= hay@.len(),
            forall|j: int| 0 <= j < i ==> !#[trigger] occurs_at(s@, t@, j),
        decreases hay@.len() - i,
    {
        if text_at(&hay, &needle, i) {
            return true;
        }
        i += 1;
    }
    text_at(&hay, &needle, i)
}

/// What [`is_alphanumeric`] says of a character.
pub uninterp spec fn alphanumeric(c: char) -> bool;

/// `char::is_alphanumeric`. Which characters are letters or digits is a table of
/// Unicode's; the answer is named by the character alone.
#[verifier::external_body]
fn is_alphanumeric(c: char) -> (r: bool)
    ensures
        r == alphanumeric(c),
{
    c.is_alphanumeric()
}

/// Whether a character is a letter or a digit, and so part of a word.
pub open spec fn in_word(c: char) -> bool {
    if c as u32 >= 128 {
        alphanumeric(c)
    } else {
        'a' <= c <= 'z' || 'A' <= c <= 'Z' || '0' <= c <= '9'
    }
}

/// Whether a character is a letter or a digit.
pub fn is_word_char(c: char) -> (r: bool)
    ensures
        r == in_word(c),
{
    if c as u32 >= 128 {
        is_alphanumeric(c)
    } else {
        ('a' <= c && c <= 'z') || ('A' <= c && c <= 'Z') || ('0' <= c && c <= '9')
    }
}

/// Whether `t` stands at place `at` as whole words: no letter or digit stands
/// directly before it or behind it.
pub open spec fn stands_alone(s: Seq<char>, t: Seq<char>, at: int) -> bool {
    &&& occurs_at(s, t, at)
    &&& at > 0 ==> !in_word(s[at - 1])
    &&& at + t.len() < s.len() ==> !in_word(s[at + t.len()])
}

/// Whether a text holds another as whole words.
pub open spec fn has_words(s: Seq<char>, t: Seq<char>) -> bool {
    exists|at: int| #[trigger] stands_alone(s, t, at)
}

fn alone_at(s: &Vec<char>, t: &Vec<char>, at: usize) -> (r: bool)
    ensures
        r == stands_alone(s@, t@, at as int),
{
    if !text_at(s, t, at) {
        return false;
    }
    let len: usize = s.len();
    let end: usize = at + t.len();
    (at == 0 || !is_word_char(s[at - 1])) && (end >= len || !is_word_char(s[end]))
}

/// Whether a text holds another as whole words.
pub fn contains_words(s: &Vec<char>, t: &str) -> (r: bool)
    ensures
        r == has_words(s@, t@),
{
    let part = to_chars(t);
    let mut at: usize = 0;
    while at < s.len()
        invariant
            part@ == t@,
            at <= s@.len(),
            forall|j: int| 0 <= j < at ==> !#[trigger] stands_alone(s@, t@, j),
        decreases s@.len() - at,
    {
        if alone_at(s, &part, at) {
            return true;
        }
        at += 1;
    }
    alone_at(s, &part, at)
}

/// A character with an ASCII letter in lower case.
pub open spec fn ascii_lower_char(c: char) -> char {
    if 'A' as u32 <= c as u32 <= 'Z' as u32 {
        ((c as u32) + 32) as u8 as char
    } else {
        c
    }
}

/// A text with its ASCII letters in lower case.
pub open spec fn ascii_lower(s: Seq<char>) -> Seq<char> {
    s.map_values(|c: char| ascii_lower_char(c))
}

fn lower_char(c: char) -> (r: char)
    ensures
        r == ascii_lower_char(c),
{
    let n: u32 = c as u32;
    if 65 <= n && n <= 90 {
        let b: u8 = (n + 32) as u8;
        b as char
    } else {
        c
    }
}

/// Whether two texts are the same but for the case of their ASCII letters.
pub fn same_ignoring_ascii_case(a: &str, b: &str) -> (r: bool)
    ensures
        r <==> ascii_lower(a@) == ascii_lower(b@),
{
    let x = to_chars(a);
    let y = to_chars(b);
    if x.len() != y.len() {
        assert(ascii_lower(a@).len() != ascii_lower(b@).len());
        return false;
    }
    let mut i: usize = 0;
    while i < x.len()
        invariant
            x@ == a@,
            y@ == b@,
            x@.len() == y@.len(),
            i <= x@.len(),
            forall|j: int| 0 <= j < i ==> ascii_lower(a@)[j] == ascii_lower(b@)[j],
        decreases x@.len() - i,
    {
        if lower_char(x[i]) != lower_char(y[i]) {
            assert(ascii_lower(a@)[i as int] != ascii_lower(b@)[i as int]);
            return false;
        }
        i += 1;
    }
    assert(ascii_lower(a@) =~= ascii_lower(b@));
    true
}

/// How many characters a text has.
pub fn char_count(s: &str) -> (r: usize)
    ensures
        r == s@.len(),
{
    to_chars(s).len()
}

// ---------------------------------------------------------------------------
// Cutting
// ---------------------------------------------------------------------------
/// The first place from `i` on at which `t` stands in `s`.
pub open spec fn find_from(s: Seq<char>, t: Seq<char>, i: int) -> Option<int>
    decreases s.len() - i + 1,
{
    if i > s.len() {
        None
    } else if occurs_at(s, t, i) {
        Some(i)
    } else {
        find_from(s, t, i + 1)
    }
}

/// The first place from `from` on at which `t` stands in `s`.
pub fn find(s: &Vec<char>, t: &Vec<char>, from: usize) -> (r: Option<usize>)
    requires
        from <= s@.len(),
    ensures
        match r {
            Some(p) => find_from(s@, t@, from as int) == Some(p as int) && from <= p && p
                + t@.len() <= s@.len(),
            None => find_from(s@, t@, from as int) is None,
        },
{
    let mut i: usize = from;
    while i < s.len()
        invariant
            from <= i <= s@.len(),
            find_from(s@, t@, from as int) == find_from(s@, t@, i as int),
        decreases s@.len() - i,
    {
        if text_at(s, t, i) {
            return Some(i);
        }
        i += 1;
    }
    if text_at(s, t, i) {
        return Some(i);
    }
    assert(find_from(s@, t@, i + 1) is None);
    None
}

/// The first place from `i` on at which `c` stands in `s`.
pub open spec fn char_from(s: Seq<char>, c: char, i: int) -> Option<int>
    decreases s.len() - i,
{
    if i >= s.len() {
        None
    } else if s[i] == c {
        Some(i)
    } else {
        char_from(s, c, i + 1)
    }
}

/// The first place from `from` on at which `c` stands in `s`.
pub fn find_char(s: &Vec<char>, c: char, from: usize) -> (r: Option<usize>)
    requires
        from <= s@.len(),
    ensures
        match r {
            Some(p) => char_from(s@, c, from as int) == Some(p as int) && from <= p < s@.len(),
            None => char_from(s@, c, from as int) is None,
        },
{
    let mut i: usize = from;
    while i < s.len()
        invariant
            from <= i <= s@.len(),
            char_from(s@, c, from as int) == char_from(s@, c, i as int),
        decreases s@.len() - i,
    {
        if s[i] == c {
            return Some(i);
        }
        i += 1;
    }
    None
}

/// Where a search finds something, it finds it in place.
pub proof fn lemma_char_from(s: Seq<char>, c: char, i: int)
    requires
        0 <= i,
    ensures
        char_from(s, c, i) matches Some(p) ==> i <= p < s.len() && s[p] == c,
        char_from(s, c, i) matches Some(p) ==> forall|j: int| i <= j < p ==> #[trigger] s[j] != c,
        char_from(s, c, i) is None ==> forall|j: int| i <= j < s.len() ==> #[trigger] s[j] != c,
    decreases s.len() - i,
{
    if i < s.len() && s[i] != c {
        lemma_char_from(s, c, i + 1);
    }
}

/// A line without the carriage return at its end.
pub open spec fn without_cr(s: Seq<char>) -> Seq<char> {
    if s.len() > 0 && s.last() == '\r' {
        s.drop_last()
    } else {
        s
    }
}

/// The lines of the text from place `i` on. A line ends with a line feed, or a
/// carriage return and a line feed, which are no part of it; the last line may
/// lack the end.
pub open spec fn lines_from(s: Seq<char>, i: int) -> Seq<Seq<char>>
    decreases s.len() - i,
{
    if i < 0 || i >= s.len() {
        Seq::empty()
    } else {
        match char_from(s, '\n', i) {
            Some(p) => if i <= p < s.len() {
                seq![without_cr(s.subrange(i, p))] + lines_from(s, p + 1)
            } else {
                Seq::empty()
            },
            None => seq![s.skip(i)],
        }
    }
}

/// The lines of a text.
pub open spec fn lines_of(s: Seq<char>) -> Seq<Seq<char>> {
    lines_from(s, 0)
}

/// The lines of a text.
pub fn lines(s: &str) -> (r: Vec<String>)
    ensures
        texts(r@) == lines_of(s@),
{
    let chars = to_chars(s);
    let n: usize = chars.len();
    let mut out: Vec<String> = Vec::new();
    let mut from: usize = 0;
    assert(texts(out@) + lines_of(s@) =~= lines_of(s@));
    while from < n
        invariant
            chars@ == s@,
            n == s@.len(),
            from <= n,
            texts(out@) + lines_from(s@, from as int) == lines_of(s@),
        decreases n - from,
    {
        let ghost was = texts(out@);
        match find_char(&chars, '\n', from) {
            Some(p) => {
                let line = if p > from && chars[p - 1] == '\r' {
                    assert(s@.subrange(from as int, p as int).drop_last() =~= s@.subrange(
                        from as int,
                        p - 1,
                    ));
                    from_range(&chars, from, p - 1)
                } else {
                    from_range(&chars, from, p)
                };
                assert(line@ == without_cr(s@.subrange(from as int, p as int)));
                out.push(line);
                assert(texts(out@) =~= was.push(line@));
                assert(was.push(line@) + lines_from(s@, p + 1) =~= was + (seq![line@] + lines_from(
                    s@,
                    p + 1,
                )));
                from = p + 1;
            },
            None => {
                let line = from_range(&chars, from, n);
                assert(line@ =~= s@.skip(from as int));
                out.push(line);
                assert(texts(out@) =~= was + seq![line@]);
                from = n;
                assert(texts(out@) + lines_from(s@, n as int) =~= texts(out@));
            },
        }
    }
    assert(texts(out@) + lines_from(s@, n as int) =~= texts(out@));
    out
}

/// The front of a text, at most `n` characters long.
pub open spec fn front(s: Seq<char>, n: nat) -> Seq<char> {
    if s.len() <= n {
        s
    } else {
        s.take(n as int)
    }
}

/// The front of a text, at most `n` characters long.
pub fn first_chars(s: &str, n: usize) -> (r: String)
    ensures
        r@ == front(s@, n as nat),
{
    let chars = to_chars(s);
    if chars.len() <= n {
        s.to_owned()
    } else {
        from_range(&chars, 0, n)
    }
}

/// The place of the last `c` in `s`.
pub open spec fn last_place(s: Seq<char>, c: char) -> Option<int>
    decreases s.len(),
{
    if s.len() == 0 {
        None
    } else if s.last() == c {
        Some(s.len() - 1)
    } else {
        last_place(s.drop_last(), c)
    }
}

/// The place of the last `c` in `s`.
pub fn find_last(s: &Vec<char>, c: char) -> (r: Option<usize>)
    ensures
        match r {
            Some(p) => last_place(s@, c) == Some(p as int) && p < s@.len(),
            None => last_place(s@, c) is None,
        },
{
    let mut n: usize = s.len();
    assert(s@.take(n as int) =~= s@);
    while n > 0
        invariant
            n <= s@.len(),
            last_place(s@, c) == last_place(s@.take(n as int), c),
        decreases n,
    {
        assert(s@.take(n as int).drop_last() =~= s@.take(n - 1));
        if s[n - 1] == c {
            return Some(n - 1);
        }
        n -= 1;
    }
    None
}

/// `s` without the characters `c` at its end.
pub open spec fn strip_end(s: Seq<char>, c: char) -> Seq<char>
    decreases s.len(),
{
    if s.len() > 0 && s.last() == c {
        strip_end(s.drop_last(), c)
    } else {
        s
    }
}

/// The text without the characters `c` at its end.
pub fn trim_end_char(s: &str, c: char) -> (r: String)
    ensures
        r@ == strip_end(s@, c),
{
    let chars = to_chars(s);
    let mut to: usize = chars.len();
    assert(s@.take(to as int) =~= s@);
    while to > 0 && chars[to - 1] == c
        invariant
            chars@ == s@,
            to <= chars@.len(),
            strip_end(s@, c) == strip_end(s@.take(to as int), c),
        decreases to,
    {
        assert(s@.take(to as int).drop_last() =~= s@.take(to - 1));
        to -= 1;
    }
    from_range(&chars, 0, to)
}

// ---------------------------------------------------------------------------
// Joining
// ---------------------------------------------------------------------------
/// The texts in a row, with `sep` between each two.
pub open spec fn joined(parts: Seq<Seq<char>>, sep: Seq<char>) -> Seq<char>
    decreases parts.len(),
{
    if parts.len() == 0 {
        Seq::empty()
    } else if parts.len() == 1 {
        parts[0]
    } else {
        joined(parts.drop_last(), sep) + sep + parts.last()
    }
}

/// The texts in a row, with `sep` between each two.
pub fn join(parts: &Vec<String>, sep: &str) -> (r: String)
    ensures
        r@ == joined(texts(parts@), sep@),
{
    let ghost all = texts(parts@);
    let mut out = String::new();
    let mut i: usize = 0;
    while i < parts.len()
        invariant
            i <= parts@.len(),
            all == texts(parts@),
            out@ == joined(all.take(i as int), sep@),
        decreases parts@.len() - i,
    {
        if i > 0 {
            out.append(sep);
        }
        out.append(parts[i].as_str());
        proof {
            assert(all.take(i + 1).drop_last() =~= all.take(i as int));
            assert(all.take(i + 1).last() == parts@[i as int]@);
            if i == 0 {
                assert(Seq::<char>::empty() + parts@[0]@ =~= parts@[0]@);
            }
        }
        i += 1;
    }
    assert(all.take(i as int) =~= all);
    out
}

/// The pieces of `s` between the places where `sep` stands.
pub open spec fn pieces(s: Seq<char>, sep: Seq<char>) -> Seq<Seq<char>>
    decreases s.len(),
{
    match find_from(s, sep, 0) {
        Some(p) => if sep.len() > 0 && 0 <= p && p + sep.len() <= s.len() {
            seq![s.take(p)] + pieces(s.skip((p + sep.len()) as int), sep)
        } else {
            seq![s]
        },
        None => seq![s],
    }
}

/// The pieces of a text between the places where `sep` stands.
pub fn split(s: &str, sep: &str) -> (r: Vec<String>)
    requires
        sep@.len() > 0,
    ensures
        texts(r@) == pieces(s@, sep@),
{
    let mark = to_chars(sep);
    let mut rest = to_chars(s);
    let mut out: Vec<String> = Vec::new();
    let ghost goal = pieces(s@, sep@);
    assert(texts(out@) + goal =~= goal);
    loop
        invariant
            mark@ == sep@,
            sep@.len() > 0,
            texts(out@) + pieces(rest@, sep@) == goal,
        ensures
            texts(out@) + seq![rest@] == goal,
        decreases rest@.len(),
    {
        let ghost was = texts(out@);
        let ghost whole = rest@;
        match find(&rest, &mark, 0) {
            None => {
                break ;
            },
            Some(p) => {
                let piece = from_range(&rest, 0, p);
                assert(piece@ =~= whole.take(p as int));
                assert(p + mark.len() <= rest.len());
                let from: usize = p + mark.len();
                let tail = to_chars(from_range(&rest, from, rest.len()).as_str());
                assert(tail@ =~= whole.skip(from as int));
                rest = tail;
                out.push(piece);
                assert(texts(out@) =~= was.push(piece@));
                assert(was.push(piece@) + pieces(rest@, sep@) =~= was + (seq![piece@] + pieces(
                    rest@,
                    sep@,
                )));
            },
        }
    }
    let ghost was = texts(out@);
    let last = from_range(&rest, 0, rest.len());
    assert(last@ =~= rest@);
    out.push(last);
    assert(texts(out@) =~= was + seq![rest@]);
    out
}

/// Where a search finds a text, the text stands there.
pub proof fn lemma_find_from(s: Seq<char>, t: Seq<char>, i: int)
    requires
        0 <= i,
    ensures
        find_from(s, t, i) matches Some(p) ==> i <= p && occurs_at(s, t, p),
    decreases s.len() - i + 1,
{
    if i <= s.len() && !occurs_at(s, t, i) {
        lemma_find_from(s, t, i + 1);
    }
}

/// One more part in front.
pub proof fn lemma_joined_front(first: Seq<char>, rest: Seq<Seq<char>>, sep: Seq<char>)
    requires
        rest.len() > 0,
    ensures
        joined(seq![first] + rest, sep) == first + sep + joined(rest, sep),
    decreases rest.len(),
{
    let all = seq![first] + rest;
    assert(all.drop_last() =~= seq![first] + rest.drop_last());
    assert(all.last() == rest.last());
    if rest.len() == 1 {
        assert(all.drop_last() =~= seq![first]);
        assert(joined(all.drop_last(), sep) == first);
        assert(joined(rest, sep) == rest[0]);
    } else {
        lemma_joined_front(first, rest.drop_last(), sep);
        assert(first + sep + joined(rest.drop_last(), sep) + sep + rest.last() =~= first + sep + (
        joined(rest.drop_last(), sep) + sep + rest.last()));
    }
}

/// Joining the pieces of a text gives back the text.
pub proof fn law_split_join(s: Seq<char>, sep: Seq<char>)
    requires
        sep.len() > 0,
    ensures
        pieces(s, sep).len() > 0,
        joined(pieces(s, sep), sep) == s,
    decreases s.len(),
{
    lemma_find_from(s, sep, 0);
    match find_from(s, sep, 0) {
        Some(p) => {
            let rest = s.skip((p + sep.len()) as int);
            law_split_join(rest, sep);
            lemma_joined_front(s.take(p), pieces(rest, sep), sep);
            assert(s.take(p) + sep + rest =~= s);
        },
        None => {},
    }
}

/// The parts from place `k` on, behind those before it.
pub proof fn lemma_joined_parts(parts: Seq<Seq<char>>, sep: Seq<char>, k: int)
    requires
        0 < k < parts.len(),
    ensures
        joined(parts, sep) == joined(parts.take(k), sep) + sep + joined(parts.skip(k), sep),
    decreases k,
{
    let first = parts[0];
    let rest = parts.drop_first();
    assert(parts =~= seq![first] + rest);
    lemma_joined_front(first, rest, sep);
    if k == 1 {
        assert(parts.take(1) =~= seq![first]);
        assert(parts.skip(1) =~= rest);
    } else {
        lemma_joined_parts(rest, sep, k - 1);
        assert(parts.take(k) =~= seq![first] + rest.take(k - 1));
        assert(parts.skip(k) =~= rest.skip(k - 1));
        lemma_joined_front(first, rest.take(k - 1), sep);
        assert(first + sep + (joined(rest.take(k - 1), sep) + sep + joined(rest.skip(k - 1), sep))
            =~= first + sep + joined(rest.take(k - 1), sep) + sep + joined(rest.skip(k - 1), sep));
    }
}

// ---------------------------------------------------------------------------
// Order
// ---------------------------------------------------------------------------
/// Whether `a` comes before `b`, by the code points of their characters.
pub open spec fn text_less(a: Seq<char>, b: Seq<char>) -> bool
    decreases a.len(),
{
    if b.len() == 0 {
        false
    } else if a.len() == 0 {
        true
    } else if a[0] as int != b[0] as int {
        (a[0] as int) < (b[0] as int)
    } else {
        text_less(a.drop_first(), b.drop_first())
    }
}

/// No text comes before itself, and of two different ones one comes first.
pub proof fn lemma_text_less_total(a: Seq<char>, b: Seq<char>)
    ensures
        !text_less(a, a),
        text_less(a, b) ==> !text_less(b, a),
        a != b ==> text_less(a, b) || text_less(b, a),
    decreases a.len(),
{
    if a.len() > 0 {
        lemma_text_less_total(a.drop_first(), a.drop_first());
        if b.len() > 0 && a[0] as int == b[0] as int {
            lemma_text_less_total(a.drop_first(), b.drop_first());
            if a.drop_first() == b.drop_first() {
                assert(a =~= seq![a[0]] + a.drop_first());
                assert(b =~= seq![b[0]] + b.drop_first());
                assert(a[0] == b[0]);
            }
        }
    } else if b.len() == 0 {
        assert(a =~= b);
    }
}

/// The order carries over.
pub proof fn lemma_text_less_carries(a: Seq<char>, b: Seq<char>, c: Seq<char>)
    requires
        text_less(a, b),
        text_less(b, c),
    ensures
        text_less(a, c),
    decreases a.len(),
{
    if a.len() > 0 && a[0] as int == b[0] as int && b[0] as int == c[0] as int {
        lemma_text_less_carries(a.drop_first(), b.drop_first(), c.drop_first());
    }
}

/// The code point of a character.
fn code(c: char) -> (r: u32)
    ensures
        r as int == c as int,
{
    c as u32
}

/// Whether `a` comes before `b`.
pub fn comes_before(a: &str, b: &str) -> (r: bool)
    ensures
        r == text_less(a@, b@),
{
    let x = to_chars(a);
    let y = to_chars(b);
    let mut i: usize = 0;
    assert(a@.skip(0) =~= a@);
    assert(b@.skip(0) =~= b@);
    while i < x.len() && i < y.len() && code(x[i]) == code(y[i])
        invariant
            x@ == a@,
            y@ == b@,
            i <= x@.len(),
            i <= y@.len(),
            text_less(a@, b@) == text_less(a@.skip(i as int), b@.skip(i as int)),
        decreases x@.len() - i,
    {
        assert(a@.skip(i as int).drop_first() =~= a@.skip(i + 1));
        assert(b@.skip(i as int).drop_first() =~= b@.skip(i + 1));
        i += 1;
    }
    if i == y.len() {
        false
    } else if i == x.len() {
        true
    } else {
        code(x[i]) < code(y[i])
    }
}

/// Strictly ascending: in order, and nothing twice.
pub open spec fn ascending(v: Seq<Seq<char>>) -> bool {
    forall|i: int, j: int| 0 <= i < j < v.len() ==> text_less(#[trigger] v[i], #[trigger] v[j])
}

/// Puts a text in its place in an ascending list, unless it is there already.
pub fn insert_ascending(v: &mut Vec<String>, s: String)
    requires
        ascending(texts(old(v)@)),
    ensures
        ascending(texts(final(v)@)),
        forall|t: Seq<char>| #[trigger]
            texts(final(v)@).contains(t) <==> texts(old(v)@).contains(t) || t == s@,
{
    let ghost before = texts(v@);
    let mut i: usize = 0;
    while i < v.len() && comes_before(v[i].as_str(), s.as_str())
        invariant
            i <= v@.len(),
            texts(v@) == before,
            ascending(before),
            forall|j: int| 0 <= j < i ==> text_less(#[trigger] before[j], s@),
        decreases v@.len() - i,
    {
        i += 1;
    }
    if i < v.len() && same_text(v[i].as_str(), s.as_str()) {
        assert(before[i as int] == s@);
        return ;
    }
    let ghost new = s@;
    v.insert(i, s);
    proof {
        let after = texts(v@);
        assert(after =~= before.insert(i as int, new));
        if i < before.len() {
            lemma_text_less_total(before[i as int], new);
        }
        assert forall|a: int, b: int| 0 <= a < b < after.len() implies text_less(
            #[trigger] after[a],
            #[trigger] after[b],
        ) by {
            if b < i {
                assert(text_less(before[a], before[b]));
            } else if b == i {
                assert(text_less(before[a], new));
            } else if a < i {
                assert(text_less(before[a], before[b - 1]));
            } else if a == i {
                if b - 1 > i {
                    assert(text_less(before[i as int], before[b - 1]));
                    lemma_text_less_carries(new, before[i as int], before[b - 1]);
                }
            } else {
                assert(text_less(before[a - 1], before[b - 1]));
            }
        }
        assert forall|t: Seq<char>| #[trigger] after.contains(t) <==> before.contains(t) || t
            == new by {
            if before.contains(t) {
                let k = choose|k: int| 0 <= k < before.len() && before[k] == t;
                assert(after[if k < i { k } else { k + 1 }] == t);
            }
            assert(after[i as int] == new);
            if after.contains(t) {
                let k = choose|k: int| 0 <= k < after.len() && after[k] == t;
                if k < i {
                    assert(before[k] == t);
                } else if k > i {
                    assert(before[k - 1] == t);
                }
            }
        }
    }
}

// ---------------------------------------------------------------------------
// Laws
// ---------------------------------------------------------------------------
/// Trimming takes away the space around a text and nothing of the text: between
/// two texts of space, what neither begins nor ends with space is what is left.
pub proof fn law_trimming_takes_only_space(a: Seq<char>, s: Seq<char>, b: Seq<char>)
    requires
        blank(a),
        blank(b),
        s.len() > 0,
        !is_space(s[0]),
        !is_space(s.last()),
    ensures
        trimmed(a + s + b) == s,
        trim_end(s + b) == s,
        trimmed(a) == Seq::<char>::empty(),
        is_space(' ') && is_space('\n') && is_space('\t') && is_space('\r'),
        !is_space('a') && !is_space('0') && !is_space('-'),
{
    let all = a + s + b;
    lemma_trim_start(all);
    let t = trim_start(all);
    let k = all.len() - t.len();
    assert(all[a.len() as int] == s[0]);
    if k > a.len() {
        assert(is_space(all[a.len() as int]));
    }
    if k < a.len() {
        assert(t[0] == all[k]);
        assert(all[k] == a[k]);
    }
    assert(t =~= s + b);
    lemma_trim_end(s + b);
    let e = trim_end(s + b);
    let n = s.len() as int;
    if e.len() < n {
        assert(is_space((s + b)[n - 1]));
        assert((s + b)[n - 1] == s.last());
    }
    if e.len() > n {
        assert(e.last() == (s + b)[e.len() - 1]);
        assert((s + b)[e.len() - 1] == b[e.len() - 1 - n]);
    }
    assert(e =~= s);
    lemma_blank_trims_to_nothing(a);
    assert(trimmed(a) =~= Seq::empty());
}

/// A number is written with the digits that it is read by, and no more of them
/// than it takes.
pub proof fn law_numbers_are_read_as_written(n: nat)
    ensures
        number_of(decimal(n)) == Some(n),
        decimal(n).len() > 0,
        n > 0 ==> decimal(n)[0] != '0',
        decimal_int(-(n as int)) == (if n == 0 {
            decimal(0)
        } else {
            seq!['-'] + decimal(n)
        }),
        decimal_int(n as int) == decimal(n),
    decreases n,
{
    lemma_decimal(n);
    assert(decimal(n)[0] != '+');
}

proof fn lemma_decimal(n: nat)
    ensures
        decimal(n).len() > 0,
        forall|i: int| 0 <= i < decimal(n).len() ==> is_digit(#[trigger] decimal(n)[i]),
        digits_value(decimal(n)) == n,
        n > 0 ==> decimal(n)[0] != '0',
        is_digit(decimal(n)[0]),
    decreases n,
{
    if n < 10 {
        assert(is_digit(digit(n)));
        assert(decimal(n).drop_last() =~= Seq::empty());
        assert(digits_value(decimal(n).drop_last()) == 0);
    } else {
        lemma_decimal(n / 10);
        assert(decimal(n).drop_last() =~= decimal(n / 10));
        assert(is_digit(digit(n % 10)));
        assert(decimal(n)[0] == decimal(n / 10)[0]);
        assert forall|i: int| 0 <= i < decimal(n).len() implies is_digit(
            #[trigger] decimal(n)[i],
        ) by {
            if i < decimal(n / 10).len() {
                assert(decimal(n)[i] == decimal(n / 10)[i]);
            }
        }
    }
}

/// Parts that are joined are all there, in their order, with what joins them
/// between any two and nowhere else.
pub proof fn law_joined_parts_are_all_there(
    a: Seq<Seq<char>>,
    b: Seq<Seq<char>>,
    part: Seq<char>,
    sep: Seq<char>,
)
    requires
        a.len() > 0,
        b.len() > 0,
    ensures
        joined(Seq::empty(), sep) == Seq::<char>::empty(),
        joined(seq![part], sep) == part,
        joined(a + b, sep) == joined(a, sep) + sep + joined(b, sep),
    decreases b.len(),
{
    let all = a + b;
    assert(all.drop_last() =~= a + b.drop_last());
    if b.len() == 1 {
        assert(all.drop_last() =~= a);
        assert(joined(b, sep) == b[0]);
    } else {
        law_joined_parts_are_all_there(a, b.drop_last(), part, sep);
        assert(joined(all, sep) =~= joined(a, sep) + sep + joined(b, sep));
    }
}

/// Stripping an end takes every one of the character there and nothing else.
pub proof fn law_stripping_takes_only_the_end(s: Seq<char>, c: char)
    ensures
        strip_end(s.push(c), c) == strip_end(s, c),
        s.len() == 0 || s.last() != c ==> strip_end(s, c) == s,
{
    assert(s.push(c).drop_last() =~= s);
}

proof fn lemma_lines_shift(a: Seq<char>, s: Seq<char>, i: int)
    requires
        0 <= i <= s.len(),
    ensures
        lines_from(a + s, a.len() + i) == lines_from(s, i),
    decreases s.len() - i,
{
    if i < s.len() {
        lemma_char_from(s, '\n', i);
        lemma_char_from(a + s, '\n', a.len() + i);
        match char_from(s, '\n', i) {
            Some(p) => {
                assert((a + s)[a.len() + p] == '\n');
                let q = char_from(a + s, '\n', a.len() + i)->Some_0;
                if q < a.len() + p {
                    assert(s[q - a.len()] == '\n');
                }
                assert(q == a.len() + p);
                assert((a + s).subrange(a.len() + i, q) =~= s.subrange(i, p));
                lemma_lines_shift(a, s, p + 1);
            },
            None => {
                if let Some(q) = char_from(a + s, '\n', a.len() + i) {
                    assert(s[q - a.len()] == '\n');
                }
                assert((a + s).skip(a.len() + i) =~= s.skip(i));
            },
        }
    }
}

/// A text is read line by line, to its end: a line ends where the next begins, a
/// carriage return at its end belongs to the break, and a text without a break is
/// one line.
pub proof fn law_lines_are_read_one_by_one(line: Seq<char>, rest: Seq<char>)
    requires
        !line.contains('\n'),
    ensures
        lines_of(Seq::empty()) == Seq::<Seq<char>>::empty(),
        line.len() > 0 ==> lines_of(line) == seq![line],
        lines_of(line + seq!['\n'] + rest) == seq![without_cr(line)] + lines_of(rest),
        without_cr(line.push('\r')) == line,
        line.len() == 0 || line.last() != '\r' ==> without_cr(line) == line,
{
    let n = line.len() as int;
    let s = line + seq!['\n'] + rest;
    lemma_char_from(line, '\n', 0);
    lemma_char_from(s, '\n', 0);
    if let Some(p) = char_from(line, '\n', 0) {
        assert(line[p] == '\n');
    }
    assert(line.skip(0) =~= line);
    assert(s[n] == '\n');
    let p = char_from(s, '\n', 0)->Some_0;
    if p < n {
        assert(line[p] == '\n');
    }
    assert(p == n);
    assert(s.subrange(0, n) =~= line);
    let head = line + seq!['\n'];
    assert(s =~= head + rest);
    lemma_lines_shift(head, rest, 0);
    assert(line.push('\r').drop_last() =~= line);
}

/// Texts are ordered by their first difference, and one that another begins with
/// comes before it; no text comes before itself.
pub proof fn law_texts_in_order(head: Seq<char>, a: Seq<char>, b: Seq<char>)
    ensures
        !text_less(head, head),
        a.len() > 0 ==> text_less(head, head + a),
        a.len() > 0 && b.len() > 0 && (a[0] as int) < (b[0] as int) ==> text_less(head + a, head + b)
            && !text_less(head + b, head + a),
    decreases head.len(),
{
    if head.len() > 0 {
        let rest = head.drop_first();
        law_texts_in_order(rest, a, b);
        assert((head + a).drop_first() =~= rest + a);
        assert((head + b).drop_first() =~= rest + b);
    } else {
        assert(head + a =~= a);
        assert(head + b =~= b);
    }
}

} // verus!
