//! Text primitives: conversion between text and characters, search, splitting
//! and joining, number formatting and parsing, trimming and case mapping.

use vstd::prelude::*;
use vstd::string::*;
use vstd::utf8::*;

verus! {

/// `String::push`: appends one character to the end of the text.
pub assume_specification[ String::push ](s: &mut String, c: char)
    ensures
        final(s)@ == old(s)@.push(c),
;

/// The texts of a sequence of strings.
pub open spec fn texts(v: Seq<String>) -> Seq<Seq<char>> {
    v.map_values(|s: String| s@)
}

/// The text of an optional string.
pub open spec fn opt_text(o: Option<String>) -> Option<Seq<char>> {
    match o {
        Some(s) => Some(s@),
        None => None,
    }
}

/// The text of an optional string slice.
pub open spec fn opt_str(o: Option<&str>) -> Option<Seq<char>> {
    match o {
        Some(s) => Some(s@),
        None => None,
    }
}

/// The characters of `s`, in order.
pub fn chars_of(s: &str) -> (chars: Vec<char>)
    ensures
        chars@ == s@,
{
    let mut chars: Vec<char> = Vec::new();
    for c in it: s.chars()
        invariant
            it.seq() == s@,
            chars@ == s@.take(it.index()),
    {
        chars.push(c);
        assert(s@.take(it.index() + 1) =~= s@.take(it.index()).push(c));
    }
    assert(s@.take(s@.len() as int) =~= s@);
    chars
}

/// Whether two texts are the same, character by character.
pub fn same_text(a: &str, b: &str) -> (same: bool)
    ensures
        same == (a@ == b@),
{
    let x = chars_of(a);
    let y = chars_of(b);
    if x.len() != y.len() {
        return false;
    }
    for i in 0..x.len()
        invariant
            x@ == a@,
            y@ == b@,
            x@.len() == y@.len(),
            forall|j: int| 0 <= j < i ==> x@[j] == y@[j],
    {
        if x[i] != y[i] {
            assert(a@[i as int] != b@[i as int]);
            return false;
        }
    }
    assert(a@ =~= b@);
    true
}

/// `pattern` occurs in `s` at position `i`.
pub open spec fn occurs_at(s: Seq<char>, pattern: Seq<char>, i: int) -> bool {
    &&& 0 <= i
    &&& i + pattern.len() <= s.len()
    &&& s.subrange(i, i + pattern.len()) == pattern
}

/// `pattern` occurs somewhere in `s`.
pub open spec fn contains_seq(s: Seq<char>, pattern: Seq<char>) -> bool {
    exists|i: int| occurs_at(s, pattern, i)
}

fn occurs_here(x: &Vec<char>, y: &Vec<char>, i: usize) -> (found: bool)
    requires
        i + y@.len() <= x@.len(),
    ensures
        found == occurs_at(x@, y@, i as int),
{
    let n: usize = x.len();
    for j in 0..y.len()
        invariant
            n == x@.len(),
            i + y@.len() <= n,
            forall|k: int| 0 <= k < j ==> x@[i + k] == y@[k],
    {
        if x[i + j] != y[j] {
            assert(x@.subrange(i as int, i + y@.len())[j as int] != y@[j as int]);
            return false;
        }
    }
    assert(x@.subrange(i as int, i + y@.len()) =~= y@);
    true
}

/// Whether `pattern` occurs in `s`.
pub fn contains_text(s: &str, pattern: &str) -> (found: bool)
    ensures
        found == contains_seq(s@, pattern@),
{
    let x = chars_of(s);
    let y = chars_of(pattern);
    if y.len() > x.len() {
        return false;
    }
    let last: usize = x.len() - y.len();
    let mut i: usize = 0;
    while i <= last
        invariant
            x@ == s@,
            y@ == pattern@,
            last == x@.len() - y@.len(),
            0 <= i <= last + 1,
            forall|j: int| 0 <= j < i ==> !occurs_at(s@, pattern@, j),
        decreases last + 1 - i,
    {
        if occurs_here(&x, &y, i) {
            return true;
        }
        if i == last {
            assert forall|j: int| !occurs_at(s@, pattern@, j) by {
                if j > last {
                    assert(j + pattern@.len() > s@.len());
                }
            }
            return false;
        }
        i += 1;
    }
    false
}

/// The rest of `s` after `prefix`, when `s` begins with `prefix`.
pub open spec fn after_prefix(s: Seq<char>, prefix: Seq<char>) -> Option<Seq<char>> {
    if occurs_at(s, prefix, 0) {
        Some(s.skip(prefix.len() as int))
    } else {
        None
    }
}

/// Removes `prefix` from the front of `s`, when it is there.
pub fn strip_prefix(s: &str, prefix: &str) -> (rest: Option<String>)
    ensures
        opt_text(rest) == after_prefix(s@, prefix@),
{
    let x = chars_of(s);
    let y = chars_of(prefix);
    if y.len() > x.len() || !occurs_here(&x, &y, 0) {
        return None;
    }
    let rest = s.substring_char(y.len(), x.len());
    assert(rest@ =~= s@.skip(prefix@.len() as int));
    Some(rest.to_owned())
}

// Splitting and joining.

/// The pieces of `s` between occurrences of `sep`: one more than there are
/// separators, empty pieces included.
pub open spec fn split(s: Seq<char>, sep: char) -> Seq<Seq<char>>
    decreases s.len(),
{
    if s.len() == 0 {
        seq![Seq::<char>::empty()]
    } else {
        let pieces = split(s.drop_last(), sep);
        if s.last() == sep {
            pieces.push(Seq::<char>::empty())
        } else {
            pieces.drop_last().push(pieces.last().push(s.last()))
        }
    }
}

/// The pieces in order, with `sep` between neighbours.
pub open spec fn join(pieces: Seq<Seq<char>>, sep: char) -> Seq<char>
    decreases pieces.len(),
{
    if pieces.len() == 0 {
        Seq::<char>::empty()
    } else if pieces.len() == 1 {
        pieces[0]
    } else {
        join(pieces.drop_last(), sep).push(sep) + pieces.last()
    }
}

/// There is always at least one piece.
pub proof fn lemma_split_nonempty(s: Seq<char>, sep: char)
    ensures
        split(s, sep).len() >= 1,
    decreases s.len(),
{
    if s.len() > 0 {
        lemma_split_nonempty(s.drop_last(), sep);
    }
}

/// Splits `s` at every occurrence of `sep`.
pub fn split_text(s: &str, sep: char) -> (pieces: Vec<String>)
    ensures
        texts(pieces@) == split(s@, sep),
{
    let chars = chars_of(s);
    let mut pieces: Vec<String> = Vec::new();
    let mut current: String = String::new();
    for i in 0..chars.len()
        invariant
            chars@ == s@,
            texts(pieces@).push(current@) == split(s@.take(i as int), sep),
    {
        let ghost before = texts(pieces@);
        let ghost piece = current@;
        assert(s@.take(i + 1).drop_last() =~= s@.take(i as int));
        assert(before.push(piece).drop_last() =~= before);
        if chars[i] == sep {
            pieces.push(current);
            current = String::new();
            assert(texts(pieces@) =~= before.push(piece));
        } else {
            current.push(chars[i]);
        }
    }
    assert(s@.take(s@.len() as int) =~= s@);
    let ghost before = texts(pieces@);
    let ghost piece = current@;
    pieces.push(current);
    assert(texts(pieces@) =~= before.push(piece));
    pieces
}

/// Joins the pieces with `sep` between neighbours.
pub fn join_texts(pieces: &Vec<String>, sep: char) -> (joined: String)
    ensures
        joined@ == join(texts(pieces@), sep),
{
    let mut joined: String = String::new();
    for i in 0..pieces.len()
        invariant
            joined@ == join(texts(pieces@).take(i as int), sep),
    {
        let ghost parts = texts(pieces@);
        assert(parts.take(i + 1).drop_last() =~= parts.take(i as int));
        if i > 0 {
            joined.push(sep);
        }
        joined.append(pieces[i].as_str());
        assert(joined@ =~= join(parts.take(i + 1), sep));
    }
    assert(texts(pieces@).take(pieces@.len() as int) =~= texts(pieces@));
    joined
}

/// What holds no separator only makes the last piece longer.
pub proof fn lemma_split_append(s: Seq<char>, tail: Seq<char>, sep: char)
    requires
        !tail.contains(sep),
    ensures
        split(s + tail, sep) == split(s, sep).drop_last().push(split(s, sep).last() + tail),
    decreases tail.len(),
{
    lemma_split_nonempty(s, sep);
    if tail.len() == 0 {
        assert(s + tail =~= s);
        assert(split(s, sep).last() + tail =~= split(s, sep).last());
        assert(split(s, sep).drop_last().push(split(s, sep).last()) =~= split(s, sep));
    } else {
        let shorter = tail.drop_last();
        assert forall|c: char| shorter.contains(c) implies tail.contains(c) by {
            let k = choose|k: int| 0 <= k < shorter.len() && shorter[k] == c;
            assert(tail[k] == c);
        }
        lemma_split_append(s, shorter, sep);
        assert((s + tail).drop_last() =~= s + shorter);
        assert((s + tail).last() == tail.last());
        assert(tail.contains(tail.last()));
        let pieces = split(s + shorter, sep);
        assert(pieces.drop_last() =~= split(s, sep).drop_last());
        assert(pieces.last().push(tail.last()) =~= split(s, sep).last() + tail);
    }
}

/// Splitting undoes joining: pieces that do not hold the separator come back
/// unchanged and in order.
pub proof fn law_split_undoes_join(pieces: Seq<Seq<char>>, sep: char)
    requires
        pieces.len() > 0,
        forall|i: int| 0 <= i < pieces.len() ==> !(#[trigger] pieces[i]).contains(sep),
    ensures
        split(join(pieces, sep), sep) == pieces,
    decreases pieces.len(),
{
    let last = pieces.last();
    if pieces.len() == 1 {
        let empty = Seq::<char>::empty();
        lemma_split_append(empty, pieces[0], sep);
        assert(empty + pieces[0] =~= pieces[0]);
        assert(split(pieces[0], sep) =~= pieces);
    } else {
        let front = pieces.drop_last();
        law_split_undoes_join(front, sep);
        let head = join(front, sep).push(sep);
        assert(head.drop_last() =~= join(front, sep));
        assert(split(head, sep) =~= front.push(Seq::<char>::empty()));
        lemma_split_append(head, last, sep);
        assert(split(head, sep).drop_last() =~= front);
        assert(split(head, sep).last() + last =~= last);
        assert(front.push(last) =~= pieces);
    }
}

// Numbers.

/// The decimal digit `d` as a character.
pub open spec fn digit_char(d: nat) -> char {
    (48 + d) as char
}

/// The hexadecimal digit `d` as a lower case character.
pub open spec fn hex_char(d: nat) -> char {
    if d < 10 {
        (48 + d) as char
    } else {
        (87 + d) as char
    }
}

/// `n` in decimal, without leading zeros.
pub open spec fn decimal(n: nat) -> Seq<char>
    decreases n,
{
    if n < 10 {
        seq![digit_char(n)]
    } else {
        decimal(n / 10).push(digit_char(n % 10))
    }
}

/// `n` in lower case hexadecimal, without leading zeros.
pub open spec fn hexadecimal(n: nat) -> Seq<char>
    decreases n,
{
    if n < 16 {
        seq![hex_char(n)]
    } else {
        hexadecimal(n / 16).push(hex_char(n % 16))
    }
}

/// `n` in decimal, filled up on the left with zeros to three digits.
pub open spec fn decimal3(n: nat) -> Seq<char> {
    if n < 10 {
        seq!['0', '0'] + decimal(n)
    } else if n < 100 {
        seq!['0'] + decimal(n)
    } else {
        decimal(n)
    }
}

/// The signed decimal form of `n`.
pub open spec fn signed_decimal(n: int) -> Seq<char> {
    if n < 0 {
        seq!['-'] + decimal((-n) as nat)
    } else {
        decimal(n as nat)
    }
}

/// `n` in decimal.
pub fn decimal_text(n: u64) -> (text: String)
    ensures
        text@ == decimal(n as nat),
    decreases n,
{
    if n < 10 {
        let mut text = String::new();
        text.push((48 + n as u8) as char);
        assert(text@ =~= decimal(n as nat));
        text
    } else {
        let mut text = decimal_text(n / 10);
        let d: u8 = (n % 10) as u8;
        text.push((48 + d) as char);
        text
    }
}

/// `n` in lower case hexadecimal.
pub fn hexadecimal_text(n: u64) -> (text: String)
    ensures
        text@ == hexadecimal(n as nat),
    decreases n,
{
    let d: u8 = (n % 16) as u8;
    let c: char = if d < 10 { (48 + d) as char } else { (87 + d) as char };
    if n < 16 {
        let mut text = String::new();
        text.push(c);
        assert(text@ =~= hexadecimal(n as nat));
        text
    } else {
        let mut text = hexadecimal_text(n / 16);
        text.push(c);
        text
    }
}

/// `n` in decimal, with at least three digits.
pub fn decimal3_text(n: u64) -> (text: String)
    ensures
        text@ == decimal3(n as nat),
{
    let mut text = String::new();
    if n < 100 {
        text.push('0');
    }
    if n < 10 {
        text.push('0');
    }
    text.append(decimal_text(n).as_str());
    assert(text@ =~= decimal3(n as nat));
    text
}

/// `n` in decimal, with a minus sign when it is negative.
pub fn signed_decimal_text(n: i32) -> (text: String)
    ensures
        text@ == signed_decimal(n as int),
{
    let mut text = String::new();
    if n < 0 {
        text.push('-');
        let m: u64 = (-(n as i64)) as u64;
        text.append(decimal_text(m).as_str());
    } else {
        text.append(decimal_text(n as u64).as_str());
    }
    assert(text@ =~= signed_decimal(n as int));
    text
}

/// `c` is a decimal digit.
pub open spec fn is_digit(c: char) -> bool {
    '0' <= c <= '9'
}

/// Every character of `s` is a decimal digit.
pub open spec fn all_digits(s: Seq<char>) -> bool {
    forall|i: int| 0 <= i < s.len() ==> is_digit(#[trigger] s[i])
}

/// The number that a sequence of decimal digits stands for.
pub open spec fn digits_value(s: Seq<char>) -> nat
    decreases s.len(),
{
    if s.len() == 0 {
        0
    } else {
        digits_value(s.drop_last()) * 10 + (s.last() as nat - 48) as nat
    }
}

/// `s` without one leading plus sign.
pub open spec fn without_plus(s: Seq<char>) -> Seq<char> {
    if s.len() > 0 && s[0] == '+' {
        s.skip(1)
    } else {
        s
    }
}

/// The number below 2^32 that `s` spells in decimal: an optional plus sign,
/// then at least one digit and nothing else.
pub open spec fn parsed_u32(s: Seq<char>) -> Option<u32> {
    let body = without_plus(s);
    if body.len() > 0 && all_digits(body) && digits_value(body) <= u32::MAX {
        Some(digits_value(body) as u32)
    } else {
        None
    }
}

proof fn lemma_digits_value_grows(s: Seq<char>, n: int)
    requires
        0 <= n <= s.len(),
        all_digits(s),
    ensures
        digits_value(s.take(n)) <= digits_value(s),
    decreases s.len(),
{
    if n == s.len() {
        assert(s.take(n) =~= s);
    } else {
        let front = s.drop_last();
        assert(all_digits(front));
        lemma_digits_value_grows(front, n);
        assert(front.take(n) =~= s.take(n));
        assert(is_digit(s[s.len() - 1]));
    }
}

/// Reads `s` as an unsigned 32 bit number.
pub fn parse_u32(s: &str) -> (n: Option<u32>)
    ensures
        n == parsed_u32(s@),
{
    let chars = chars_of(s);
    let mut i: usize = 0;
    if chars.len() > 0 && chars[0] == '+' {
        i = 1;
    }
    let ghost body = without_plus(s@);
    assert(body =~= chars@.skip(i as int));
    if i == chars.len() {
        return None;
    }
    let start: usize = i;
    let mut value: u64 = 0;
    while i < chars.len()
        invariant
            chars@ == s@,
            body == chars@.skip(start as int),
            body == without_plus(s@),
            body.len() > 0,
            start <= i <= chars@.len(),
            value <= u32::MAX,
            all_digits(body.take(i - start)),
            value == digits_value(body.take(i - start)),
        decreases chars@.len() - i,
    {
        let c = chars[i];
        let ghost k = i - start;
        assert(body[k] == c);
        if c < '0' || c > '9' {
            assert(!is_digit(body[k]));
            return None;
        }
        assert(body.take(k + 1).drop_last() =~= body.take(k));
        let d: u64 = c as u64 - 48;
        value = value * 10 + d;
        assert(value == digits_value(body.take(k + 1)));
        assert(all_digits(body.take(k + 1))) by {
            assert forall|j: int| 0 <= j < k + 1 implies is_digit(#[trigger] body.take(k + 1)[j]) by {
                if j < k {
                    assert(body.take(k)[j] == body.take(k + 1)[j]);
                }
            }
        }
        if value > 4294967295 {
            proof {
                if all_digits(body) {
                    lemma_digits_value_grows(body, k + 1);
                }
            }
            return None;
        }
        i += 1;
    }
    assert(body.take(body.len() as int) =~= body);
    Some(value as u32)
}

/// The decimal form of a number consists of digits, at least one, that stand for the
/// number.
pub proof fn lemma_decimal_digits(n: nat)
    ensures
        decimal(n).len() > 0,
        all_digits(decimal(n)),
        digits_value(decimal(n)) == n,
    decreases n,
{
    reveal_with_fuel(digits_value, 2);
    if n < 10 {
        let s = decimal(n);
        assert(s.drop_last() =~= Seq::<char>::empty());
    } else {
        lemma_decimal_digits(n / 10);
        let s = decimal(n);
        assert(s.drop_last() =~= decimal(n / 10));
        assert forall|i: int| 0 <= i < s.len() implies is_digit(#[trigger] s[i]) by {
            if i < s.len() - 1 {
                assert(decimal(n / 10)[i] == s[i]);
            }
        }
    }
}

/// Reading a number back from its decimal form gives the number.
pub proof fn law_parse_undoes_decimal(n: u32)
    ensures
        parsed_u32(decimal(n as nat)) == Some(n),
{
    lemma_decimal_digits(n as nat);
    let s = decimal(n as nat);
    assert(is_digit(s[0]));
    assert(without_plus(s) == s);
}

/// Different numbers have different decimal forms.
pub proof fn law_decimal_injective(m: nat, n: nat)
    requires
        decimal(m) == decimal(n),
    ensures
        m == n,
{
    lemma_decimal_digits(m);
    lemma_decimal_digits(n);
}

// Trimming and case.

/// `c` has the Unicode property White_Space.
pub open spec fn is_whitespace(c: char) -> bool {
    let n = c as nat;
    ||| 9 <= n <= 13
    ||| n == 0x20
    ||| n == 0x85
    ||| n == 0xa0
    ||| n == 0x1680
    ||| 0x2000 <= n <= 0x200a
    ||| n == 0x2028
    ||| n == 0x2029
    ||| n == 0x202f
    ||| n == 0x205f
    ||| n == 0x3000
}

/// `s` without its leading white space.
pub open spec fn trim_front(s: Seq<char>) -> Seq<char>
    decreases s.len(),
{
    if s.len() > 0 && is_whitespace(s[0]) {
        trim_front(s.drop_first())
    } else {
        s
    }
}

/// `s` without its trailing white space.
pub open spec fn trim_back(s: Seq<char>) -> Seq<char>
    decreases s.len(),
{
    if s.len() > 0 && is_whitespace(s.last()) {
        trim_back(s.drop_last())
    } else {
        s
    }
}

/// `s` without leading and trailing white space.
pub open spec fn trimmed(s: Seq<char>) -> Seq<char> {
    trim_back(trim_front(s))
}

fn whitespace(c: char) -> (r: bool)
    ensures
        r == is_whitespace(c),
{
    let n: u32 = c as u32;
    (n >= 9 && n <= 13) || n == 0x20 || n == 0x85 || n == 0xa0 || n == 0x1680 || (n >= 0x2000 && n
        <= 0x200a) || n == 0x2028 || n == 0x2029 || n == 0x202f || n == 0x205f || n == 0x3000
}

/// The text without leading and trailing white space.
pub fn trim_text(s: &str) -> (t: String)
    ensures
        t@ == trimmed(s@),
{
    let chars = chars_of(s);
    let n: usize = chars.len();
    let mut from: usize = 0;
    assert(s@.skip(0) =~= s@);
    while from < n && whitespace(chars[from])
        invariant
            chars@ == s@,
            n == s@.len(),
            from <= n,
            trim_front(s@) == trim_front(s@.skip(from as int)),
        decreases n - from,
    {
        assert(s@.skip(from as int).drop_first() =~= s@.skip(from + 1));
        from += 1;
    }
    let ghost front = s@.skip(from as int);
    let mut to: usize = n;
    assert(s@.subrange(from as int, n as int) =~= front);
    while to > from && whitespace(chars[to - 1])
        invariant
            chars@ == s@,
            n == s@.len(),
            from <= to <= n,
            trim_back(front) == trim_back(s@.subrange(from as int, to as int)),
        decreases to,
    {
        assert(s@.subrange(from as int, to as int).drop_last() =~= s@.subrange(
            from as int,
            to - 1,
        ));
        to -= 1;
    }
    s.substring_char(from, to).to_owned()
}

/// The lower case mapping of a text, `str::to_lowercase`.
pub uninterp spec fn lowercase(s: Seq<char>) -> Seq<char>;

/// The upper case mapping of a text, `str::to_uppercase`.
pub uninterp spec fn uppercase(s: Seq<char>) -> Seq<char>;

/// The lower case form of an ASCII character.
pub open spec fn ascii_lower(c: char) -> char {
    if 'A' <= c <= 'Z' {
        (c as nat + 32) as char
    } else {
        c
    }
}

/// The upper case form of an ASCII character.
pub open spec fn ascii_upper(c: char) -> char {
    if 'a' <= c <= 'z' {
        (c as nat - 32) as char
    } else {
        c
    }
}

/// Every character of `s` is an ASCII character.
pub open spec fn ascii_only(s: Seq<char>) -> bool {
    forall|i: int| 0 <= i < s.len() ==> (#[trigger] s[i] as nat) < 128
}

/// `str::to_lowercase`: the result depends on the text alone, and on an ASCII
/// text it maps the letters A to Z one by one and keeps everything else.
#[verifier::external_body]
pub(crate) fn lowercase_text(s: &str) -> (t: String)
    ensures
        t@ == lowercase(s@),
        ascii_only(s@) ==> t@ == s@.map_values(|c: char| ascii_lower(c)),
{
    s.to_lowercase()
}

/// `str::to_uppercase`: the result depends on the text alone, and on an ASCII
/// text it maps the letters a to z one by one and keeps everything else.
#[verifier::external_body]
pub(crate) fn uppercase_text(s: &str) -> (t: String)
    ensures
        t@ == uppercase(s@),
        ascii_only(s@) ==> t@ == s@.map_values(|c: char| ascii_upper(c)),
{
    s.to_uppercase()
}

/// Texts are seen as they are: a list of them text by text and in order, and one that may be
/// missing exactly when it is there.
pub proof fn law_texts_are_seen_as_they_are(v: Seq<String>, i: int, s: String, t: &str)
    ensures
        texts(v).len() == v.len(),
        0 <= i < v.len() ==> texts(v)[i] == v[i]@,
        opt_text(Some(s)) == Some(s@),
        opt_text(None) is None,
        opt_str(Some(t)) == Some(t@),
        opt_str(None) is None,
{
}

// Laws of the number forms.

/// A digit that is added at the end makes the number ten times as great and adds its own
/// value; without digits the number is zero.
pub proof fn law_digits_count_by_tens(s: Seq<char>, c: char)
    requires
        '0' <= c <= '9',
    ensures
        digits_value(Seq::<char>::empty()) == 0,
        digits_value(s.push(c)) == 10 * digits_value(s) + (c as int - '0' as int),
{
    assert(s.push(c).drop_last() =~= s);
}

/// The decimal form of a number consists of the digits 0 to 9 alone, has no leading zero,
/// and stands for the number.
pub proof fn law_decimal_is_plain(n: nat)
    ensures
        decimal(n).len() > 0,
        forall|i: int| 0 <= i < decimal(n).len() ==> '0' <= #[trigger] decimal(n)[i] <= '9',
        decimal(n).len() > 1 ==> decimal(n)[0] != '0',
        digits_value(decimal(n)) == n,
    decreases n,
{
    lemma_decimal_digits(n);
    assert forall|i: int| 0 <= i < decimal(n).len() implies '0' <= #[trigger] decimal(n)[i] <= '9' by {
        assert(is_digit(decimal(n)[i]));
    }
    if n >= 10 {
        law_decimal_is_plain(n / 10);
        assert(decimal(n)[0] == decimal(n / 10)[0]);
        if n < 100 {
            assert(decimal(n / 10) == seq![digit_char(n / 10)]);
        } else {
            lemma_decimal_digits(n / 10 / 10);
            assert(decimal(n / 10).len() > 1);
        }
    }
}

/// Digits without a leading zero are the decimal form of the number that they stand for:
/// a number has only one such form.
pub proof fn law_plain_digits_are_decimal(s: Seq<char>)
    requires
        s.len() > 0,
        forall|i: int| 0 <= i < s.len() ==> '0' <= #[trigger] s[i] <= '9',
        s.len() > 1 ==> s[0] != '0',
    ensures
        decimal(digits_value(s)) == s,
    decreases s.len(),
{
    reveal_with_fuel(digits_value, 2);
    let last = s.last();
    assert('0' <= s[s.len() - 1] <= '9');
    let d = (last as nat - 48) as nat;
    assert(digit_char(d) == last);
    if s.len() == 1 {
        assert(s.drop_last() =~= Seq::<char>::empty());
        assert(decimal(digits_value(s)) =~= s);
    } else {
        let front = s.drop_last();
        law_plain_digits_are_decimal(front);
        let v = digits_value(front);
        assert(front[0] == s[0]);
        if v == 0 {
            assert(decimal(0)[0] == '0');
        }
        assert(digits_value(s) == 10 * v + d);
        assert(digits_value(s) / 10 == v);
        assert(digits_value(s) % 10 == d);
        assert(decimal(digits_value(s)) =~= front.push(last));
        assert(front.push(last) =~= s);
    }
}

/// The value of a hexadecimal digit.
pub open spec fn hex_digit_value(c: char) -> int {
    if '0' <= c <= '9' {
        c as int - '0' as int
    } else {
        c as int - 'a' as int + 10
    }
}

/// The number that a sequence of lower case hexadecimal digits stands for.
pub open spec fn hex_digits_value(s: Seq<char>) -> int
    decreases s.len(),
{
    if s.len() == 0 {
        0
    } else {
        16 * hex_digits_value(s.drop_last()) + hex_digit_value(s.last())
    }
}

/// The hexadecimal form of a number consists of the digits 0 to 9 and a to f alone, has no
/// leading zero, and stands for the number.
pub proof fn law_hexadecimal_is_plain(n: nat)
    ensures
        hexadecimal(n).len() > 0,
        forall|i: int|
            0 <= i < hexadecimal(n).len() ==> {
                ||| '0' <= #[trigger] hexadecimal(n)[i] <= '9'
                ||| 'a' <= hexadecimal(n)[i] <= 'f'
            },
        hexadecimal(n).len() > 1 ==> hexadecimal(n)[0] != '0',
        hex_digits_value(hexadecimal(n)) == n,
    decreases n,
{
    let s = hexadecimal(n);
    reveal_with_fuel(hex_digits_value, 2);
    if n < 16 {
        assert(s.drop_last() =~= Seq::<char>::empty());
    } else {
        law_hexadecimal_is_plain(n / 16);
        let front = hexadecimal(n / 16);
        assert(s.drop_last() =~= front);
        assert(s[0] == front[0]);
        if n < 256 {
            assert(front == seq![hex_char(n / 16)]);
        } else {
            law_hexadecimal_is_plain(n / 16 / 16);
            assert(front.len() > 1);
        }
        assert forall|i: int| 0 <= i < s.len() implies {
            ||| '0' <= #[trigger] s[i] <= '9'
            ||| 'a' <= s[i] <= 'f'
        } by {
            if i < s.len() - 1 {
                assert(s[i] == front[i]);
            }
        }
    }
}

/// Different numbers have different hexadecimal forms.
pub proof fn law_hexadecimal_injective(m: nat, n: nat)
    requires
        hexadecimal(m) == hexadecimal(n),
    ensures
        m == n,
{
    law_hexadecimal_is_plain(m);
    law_hexadecimal_is_plain(n);
}

/// A number that is filled up to three digits has exactly three of them below a thousand,
/// and is its plain decimal form from a hundred on; it still stands for the number.
pub proof fn law_three_digits_at_least(n: nat)
    ensures
        decimal3(n).len() >= 3,
        n < 1000 ==> decimal3(n).len() == 3,
        n >= 100 ==> decimal3(n) == decimal(n),
        forall|i: int| 0 <= i < decimal3(n).len() ==> '0' <= #[trigger] decimal3(n)[i] <= '9',
        digits_value(decimal3(n)) == n,
{
    law_decimal_is_plain(n);
    reveal_with_fuel(decimal, 3);
    let plain = decimal(n);
    let s = decimal3(n);
    if n < 10 {
        assert(plain == seq![digit_char(n)]);
        reveal_with_fuel(digits_value, 4);
        assert(s.drop_last() =~= seq!['0', '0']);
        assert(seq!['0', '0'].drop_last() =~= seq!['0']);
        assert(seq!['0'].drop_last() =~= Seq::<char>::empty());
    } else if n < 100 {
        assert(plain =~= seq![digit_char(n / 10), digit_char(n % 10)]);
        reveal_with_fuel(digits_value, 4);
        let two = seq!['0', digit_char(n / 10)];
        assert(s.drop_last() =~= two);
        assert(two.drop_last() =~= seq!['0']);
        assert(seq!['0'].drop_last() =~= Seq::<char>::empty());
    } else if n >= 1000 {
        assert(decimal(n / 10).len() >= 3);
    }
    assert forall|i: int| 0 <= i < s.len() implies '0' <= #[trigger] s[i] <= '9' by {
        let k = s.len() - plain.len();
        if i >= k {
            assert(s[i] == plain[i - k]);
        }
    }
}

/// A number that is not negative is written without a sign, and its negative with a minus
/// sign before the same digits.
pub proof fn law_minus_sign_and_digits(n: nat)
    ensures
        signed_decimal(n as int) == decimal(n),
        n > 0 ==> signed_decimal(-(n as int)) == seq!['-'] + decimal(n),
{
}

/// A number is read from digits alone, after at most one plus sign, and only when it is small
/// enough; what is read is what the digits stand for.
pub proof fn law_only_digits_are_read(sign: bool, body: Seq<char>)
    requires
        !sign && body.len() > 0 ==> body[0] != '+',
    ensures
        ({
            let s = if sign {
                seq!['+'] + body
            } else {
                body
            };
            let digits = forall|i: int| 0 <= i < body.len() ==> '0' <= #[trigger] body[i] <= '9';
            &&& parsed_u32(s) is Some <==> body.len() > 0 && digits && digits_value(body)
                <= 0xffff_ffff
            &&& parsed_u32(s) matches Some(n) ==> n == digits_value(body)
        }),
{
    let s = if sign {
        seq!['+'] + body
    } else {
        body
    };
    assert(without_plus(s) =~= body);
    if forall|i: int| 0 <= i < body.len() ==> '0' <= #[trigger] body[i] <= '9' {
        assert(all_digits(body));
    }
    if all_digits(body) {
        assert forall|i: int| 0 <= i < body.len() implies '0' <= #[trigger] body[i] <= '9' by {
            assert(is_digit(body[i]));
        }
    }
}

// Laws of search, splitting and trimming.

/// A pattern is found in a text wherever it stands.
pub proof fn law_pattern_is_found(before: Seq<char>, pattern: Seq<char>, after: Seq<char>)
    ensures
        contains_seq(before + pattern + after, pattern),
{
    let s = before + pattern + after;
    let i = before.len() as int;
    assert(s.subrange(i, i + pattern.len()) =~= pattern);
    assert(occurs_at(s, pattern, i));
}

/// A pattern is found only in a text that it is part of.
pub proof fn law_found_pattern_is_there(s: Seq<char>, pattern: Seq<char>)
    requires
        contains_seq(s, pattern),
    ensures
        exists|before: Seq<char>, after: Seq<char>| s == #[trigger] (before + pattern + after),
{
    let i = choose|i: int| occurs_at(s, pattern, i);
    let before = s.take(i);
    let after = s.skip(i + pattern.len());
    assert(s =~= s.take(i) + s.subrange(i, i + pattern.len()) + s.skip(i + pattern.len()));
    assert(s == before + pattern + after);
}

/// What is left after a prefix is what was added to the prefix, and nothing is left of a text
/// that does not begin with it.
pub proof fn law_prefix_is_taken_off(prefix: Seq<char>, rest: Seq<char>, s: Seq<char>)
    ensures
        after_prefix(prefix + rest, prefix) == Some(rest),
        after_prefix(s, prefix) matches Some(r) ==> s == prefix + r,
{
    let all = prefix + rest;
    assert(all.subrange(0, prefix.len() as int) =~= prefix);
    assert(all.skip(prefix.len() as int) =~= rest);
    if after_prefix(s, prefix) is Some {
        assert(s =~= s.subrange(0, prefix.len() as int) + s.skip(prefix.len() as int));
    }
}

/// Joined pieces stand in order with one separator between neighbours, and with nothing else
/// around them.
pub proof fn law_one_separator_between_neighbours(
    pieces: Seq<Seq<char>>,
    piece: Seq<char>,
    sep: char,
)
    ensures
        join(Seq::<Seq<char>>::empty(), sep) == Seq::<char>::empty(),
        join(seq![piece], sep) == piece,
        pieces.len() > 0 ==> join(pieces.push(piece), sep) == join(pieces, sep) + seq![sep] + piece,
{
    if pieces.len() > 0 {
        assert(pieces.push(piece).drop_last() =~= pieces);
        assert(join(pieces, sep).push(sep) =~= join(pieces, sep) + seq![sep]);
    }
}

/// Joining undoes splitting, and no piece holds the separator.
pub proof fn law_join_undoes_split(s: Seq<char>, sep: char)
    ensures
        join(split(s, sep), sep) == s,
        forall|i: int| 0 <= i < split(s, sep).len() ==> !(#[trigger] split(s, sep)[i]).contains(sep),
    decreases s.len(),
{
    if s.len() == 0 {
        assert(join(split(s, sep), sep) =~= s);
    } else {
        let front = s.drop_last();
        let pieces = split(front, sep);
        let all = split(s, sep);
        law_join_undoes_split(front, sep);
        lemma_split_nonempty(front, sep);
        assert(front.push(s.last()) =~= s);
        if s.last() == sep {
            assert(all.drop_last() =~= pieces);
            assert(join(all, sep) =~= s);
        } else {
            let longer = pieces.last().push(s.last());
            assert(all.drop_last() =~= pieces.drop_last());
            assert(all.last() == longer);
            assert(join(all, sep) =~= join(pieces, sep).push(s.last()));
            assert forall|i: int| 0 <= i < all.len() implies !(#[trigger] all[i]).contains(sep) by {
                if i == all.len() - 1 {
                    assert(!pieces[i].contains(sep));
                    assert(all[i] == longer);
                    if longer.contains(sep) {
                        let k = choose|k: int| 0 <= k < longer.len() && longer[k] == sep;
                        assert(k < longer.len() - 1);
                        assert(pieces[i][k] == sep);
                    }
                } else {
                    assert(all[i] == pieces[i]);
                }
            }
        }
    }
}

/// No character beyond the ideographic space is white space, and no printing ASCII character
/// is; blanks, tabs and line ends are.
pub proof fn law_white_space_is_blank(c: char)
    ensures
        c > '\u{3000}' ==> !is_whitespace(c),
        '!' <= c <= '~' ==> !is_whitespace(c),
        c == ' ' || c == '\t' || c == '\n' || c == '\r' ==> is_whitespace(c),
{
}

proof fn lemma_trim_front(s: Seq<char>) -> (from: int)
    ensures
        0 <= from <= s.len(),
        trim_front(s) == s.skip(from),
        forall|i: int| 0 <= i < from ==> is_whitespace(#[trigger] s[i]),
        from < s.len() ==> !is_whitespace(s[from]),
    decreases s.len(),
{
    if s.len() > 0 && is_whitespace(s[0]) {
        let rest = s.drop_first();
        let k = lemma_trim_front(rest);
        assert(rest.skip(k) =~= s.skip(k + 1));
        assert forall|i: int| 0 <= i < k + 1 implies is_whitespace(#[trigger] s[i]) by {
            if i > 0 {
                assert(s[i] == rest[i - 1]);
            }
        }
        k + 1
    } else {
        assert(s.skip(0) =~= s);
        0
    }
}

proof fn lemma_trim_back(s: Seq<char>) -> (to: int)
    ensures
        0 <= to <= s.len(),
        trim_back(s) == s.take(to),
        forall|i: int| to <= i < s.len() ==> is_whitespace(#[trigger] s[i]),
        to > 0 ==> !is_whitespace(s[to - 1]),
    decreases s.len(),
{
    if s.len() > 0 && is_whitespace(s.last()) {
        let rest = s.drop_last();
        let k = lemma_trim_back(rest);
        assert(rest.take(k) =~= s.take(k));
        assert forall|i: int| k <= i < s.len() implies is_whitespace(#[trigger] s[i]) by {
            if i < s.len() - 1 {
                assert(s[i] == rest[i]);
            }
        }
        k
    } else {
        assert(s.take(s.len() as int) =~= s);
        s.len() as int
    }
}

/// Trimming keeps a stretch of the text as it is, takes nothing but white space off both
/// ends, and leaves none at either.
pub proof fn law_only_white_space_is_trimmed(s: Seq<char>)
    ensures
        exists|from: int, to: int|
            0 <= from <= to <= s.len() && trimmed(s) == #[trigger] s.subrange(from, to) && (forall|
                i: int,
            |
                0 <= i < from || to <= i < s.len() ==> is_whitespace(#[trigger] s[i])),
        trimmed(s).len() > 0 ==> !is_whitespace(trimmed(s)[0]) && !is_whitespace(trimmed(s).last()),
{
    let from = lemma_trim_front(s);
    let rest = s.skip(from);
    let k = lemma_trim_back(rest);
    let to = from + k;
    assert(rest.take(k) =~= s.subrange(from, to));
    assert forall|i: int| 0 <= i < from || to <= i < s.len() implies is_whitespace(
        #[trigger] s[i],
    ) by {
        if i >= to {
            assert(s[i] == rest[i - from]);
        }
    }
    if k > 0 {
        assert(rest[0] == s[from]);
    }
}

/// What is trimmed of white space around a text that has none at its ends is that text; a
/// text of nothing but white space leaves nothing.
pub proof fn law_trimming_finds_the_core(before: Seq<char>, core: Seq<char>, after: Seq<char>)
    requires
        forall|i: int| 0 <= i < before.len() ==> is_whitespace(#[trigger] before[i]),
        forall|i: int| 0 <= i < after.len() ==> is_whitespace(#[trigger] after[i]),
        core.len() > 0 ==> !is_whitespace(core[0]) && !is_whitespace(core.last()),
    ensures
        trimmed(before + core + after) == core,
{
    let s = before + core + after;
    let from = lemma_trim_front(s);
    let rest = s.skip(from);
    let k = lemma_trim_back(rest);
    if core.len() > 0 {
        let b = before.len() as int;
        let e = b + core.len();
        assert(s[b] == core[0]);
        assert(s[e - 1] == core.last());
        if from < b {
            assert(s[from] == before[from]);
        }
        assert(from == b);
        assert(rest[core.len() - 1] == core.last());
        if k > core.len() {
            assert(rest[k - 1] == after[k - 1 - core.len()]);
        }
        assert(k == core.len());
        assert(rest.take(k) =~= core);
    } else {
        if from < s.len() {
            if from < before.len() {
                assert(s[from] == before[from]);
            } else {
                assert(s[from] == after[from - before.len()]);
            }
        }
        assert(rest.take(k) =~= core);
    }
}

/// Case mapping of ASCII touches letters only: a capital letter and its small one go over
/// into each other, and everything else stays.
pub proof fn law_ascii_case(c: char)
    ensures
        !('A' <= c <= 'Z') ==> ascii_lower(c) == c,
        !('a' <= c <= 'z') ==> ascii_upper(c) == c,
        'A' <= c <= 'Z' ==> 'a' <= ascii_lower(c) <= 'z' && ascii_lower(c) as int - 'a' as int == c
            as int - 'A' as int && ascii_upper(ascii_lower(c)) == c,
        'a' <= c <= 'z' ==> 'A' <= ascii_upper(c) <= 'Z' && ascii_lower(ascii_upper(c)) == c,
{
}

// Bytes as text.

/// A byte sequence read as UTF-8 with a replacement character for what is not,
/// `String::from_utf8_lossy`.
pub uninterp spec fn lossy_utf8(bytes: Seq<u8>) -> Seq<char>;

/// `String::from_utf8_lossy`: the result depends on the bytes alone, and is the
/// text that they encode when they are valid UTF-8.
#[verifier::external_body]
pub(crate) fn lossy_text(bytes: &[u8]) -> (t: String)
    ensures
        t@ == lossy_utf8(bytes@),
        valid_utf8(bytes@) ==> t@ == decode_utf8(bytes@),
{
    String::from_utf8_lossy(bytes).into_owned()
}

/// The text that valid UTF-8 encodes; nothing for other bytes.
pub open spec fn strict_utf8(bytes: Seq<u8>) -> Option<Seq<char>> {
    if valid_utf8(bytes) {
        Some(decode_utf8(bytes))
    } else {
        None
    }
}

/// `str::from_utf8`: the text that the bytes encode, `None` when they are not
/// valid UTF-8.
#[verifier::external_body]
pub(crate) fn strict_text(bytes: &[u8]) -> (t: Option<String>)
    ensures
        opt_text(t) == strict_utf8(bytes@),
{
    std::str::from_utf8(bytes).ok().map(|t| t.to_owned())
}

} // verus!
