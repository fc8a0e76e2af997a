use vstd::prelude::*;

verus! {

// ---------------------------------------------------------------------------
// Mathematical model of the text operations used throughout the library.
// Texts are modelled as sequences of Unicode scalar values (`Seq<char>`).
// ---------------------------------------------------------------------------

/// `char::is_whitespace`: the Unicode `White_Space` property.
pub open spec fn is_ws(c: char) -> bool {
    ||| c == '\t'
    ||| c == '\n'
    ||| c == '\u{0B}'
    ||| c == '\u{0C}'
    ||| c == '\r'
    ||| c == ' '
    ||| c == '\u{85}'
    ||| c == '\u{A0}'
    ||| c == '\u{1680}'
    ||| ('\u{2000}' <= c && c <= '\u{200A}')
    ||| c == '\u{2028}'
    ||| c == '\u{2029}'
    ||| c == '\u{202F}'
    ||| c == '\u{205F}'
    ||| c == '\u{3000}'
}

/// The text without its leading whitespace.
pub open spec fn trim_start(s: Seq<char>) -> Seq<char>
    decreases s.len(),
{
    if s.len() > 0 && is_ws(s[0]) {
        trim_start(s.drop_first())
    } else {
        s
    }
}

/// The text without its trailing whitespace.
pub open spec fn trim_end(s: Seq<char>) -> Seq<char>
    decreases s.len(),
{
    if s.len() > 0 && is_ws(s.last()) {
        trim_end(s.drop_last())
    } else {
        s
    }
}

/// `str::trim`: the text without leading and trailing whitespace.
pub open spec fn trim(s: Seq<char>) -> Seq<char> {
    trim_end(trim_start(s))
}

/// `str::split(c)`: the pieces between occurrences of `c` (there is always at least one).
pub open spec fn split_on(s: Seq<char>, c: char) -> Seq<Seq<char>>
    decreases s.len(),
{
    if s.len() == 0 {
        seq![Seq::<char>::empty()]
    } else {
        let r = split_on(s.drop_last(), c);
        if s.last() == c {
            r.push(Seq::<char>::empty())
        } else {
            r.update(r.len() - 1, r.last().push(s.last()))
        }
    }
}

/// `str::split_whitespace`: the maximal runs of non-whitespace characters.
pub open spec fn words(s: Seq<char>) -> Seq<Seq<char>>
    decreases s.len(),
{
    if s.len() == 0 {
        Seq::<Seq<char>>::empty()
    } else {
        let r = words(s.drop_last());
        let c = s.last();
        if is_ws(c) {
            r
        } else if s.len() >= 2 && !is_ws(s[s.len() - 2]) {
            r.update(r.len() - 1, r.last().push(c))
        } else {
            r.push(seq![c])
        }
    }
}

/// A piece without one trailing carriage return.
pub open spec fn strip_cr(s: Seq<char>) -> Seq<char> {
    if s.len() > 0 && s.last() == '\r' {
        s.drop_last()
    } else {
        s
    }
}

/// `str::lines`: split at `\n`, drop the `\r` of a `\r\n` ending, and do not count
/// an empty piece after a final line ending.
pub open spec fn lines(s: Seq<char>) -> Seq<Seq<char>> {
    let parts = split_on(s, '\n');
    if s.len() == 0 {
        Seq::<Seq<char>>::empty()
    } else if s.last() == '\n' {
        Seq::new((parts.len() - 1) as nat, |j: int| strip_cr(parts[j]))
    } else {
        Seq::new(
            parts.len(),
            |j: int|
                if j < parts.len() - 1 {
                    strip_cr(parts[j])
                } else {
                    parts[j]
                },
        )
    }
}

/// `str::starts_with`.
pub open spec fn starts_with(s: Seq<char>, p: Seq<char>) -> bool {
    p.len() <= s.len() && s.take(p.len() as int) == p
}

/// `str::contains` for a text pattern.
pub open spec fn contains_at(s: Seq<char>, p: Seq<char>, i: int) -> bool {
    0 <= i && i + p.len() <= s.len() && s.subrange(i, i + p.len()) == p
}

/// `str::contains` for a text pattern.
pub open spec fn contains(s: Seq<char>, p: Seq<char>) -> bool {
    exists|i: int| contains_at(s, p, i)
}

/// `str::replace(from, to)`: every non-overlapping occurrence of `from`, taken from
/// the left, replaced by `to`.
pub open spec fn replace_all(s: Seq<char>, from: Seq<char>, to: Seq<char>) -> Seq<char>
    recommends
        from.len() > 0,
    decreases s.len(),
{
    if from.len() == 0 || s.len() < from.len() {
        s
    } else if s.take(from.len() as int) == from {
        to + replace_all(s.skip(from.len() as int), from, to)
    } else {
        seq![s[0]] + replace_all(s.drop_first(), from, to)
    }
}

/// The ASCII digit for a value below ten.
pub open spec fn digit_char(d: nat) -> char {
    (d + 48) as char
}

/// `'0'..='9'`.
pub open spec fn is_digit(c: char) -> bool {
    '0' <= c && c <= '9'
}

/// The value of an ASCII digit.
pub open spec fn digit_value(c: char) -> nat {
    (c as int - 48) as nat
}

/// The decimal representation of a natural number, without leading zeros.
pub open spec fn decimal(n: nat) -> Seq<char>
    decreases n,
{
    if n < 10 {
        seq![digit_char(n)]
    } else {
        decimal(n / 10).push(digit_char(n % 10))
    }
}

/// The value denoted by a sequence of decimal digits.
pub open spec fn digits_value(s: Seq<char>) -> nat
    decreases s.len(),
{
    if s.len() == 0 {
        0
    } else {
        digits_value(s.drop_last()) * 10 + digit_value(s.last())
    }
}

/// The reasons `str::parse` gives for refusing an unsigned integer (`IntErrorKind`).
#[derive(PartialEq, Eq, Structural, Clone, Copy, Debug)]
pub enum IntErrorKind {
    Empty,
    InvalidDigit,
    PosOverflow,
}

/// The message `ParseIntError` displays for each kind.
pub open spec fn int_error_message(k: IntErrorKind) -> Seq<char> {
    match k {
        IntErrorKind::Empty => "cannot parse integer from empty string"@,
        IntErrorKind::InvalidDigit => "invalid digit found in string"@,
        IntErrorKind::PosOverflow => "number too large to fit in target type"@,
    }
}

/// Digits are read from the left; at each position an invalid character is reported
/// before an overflow.
pub open spec fn scan_digits(b: Seq<char>, i: int, acc: nat, max: nat) -> Result<nat, IntErrorKind>
    decreases b.len() - i,
{
    if i < 0 || i >= b.len() {
        Ok(acc)
    } else if !is_digit(b[i]) {
        Err(IntErrorKind::InvalidDigit)
    } else if acc * 10 + digit_value(b[i]) > max {
        Err(IntErrorKind::PosOverflow)
    } else {
        scan_digits(b, i + 1, acc * 10 + digit_value(b[i]), max)
    }
}

/// `str::parse` (radix 10) for an unsigned integer type whose largest value is `max`:
/// an optional `+`, then at least one ASCII digit.
pub open spec fn parse_unsigned(s: Seq<char>, max: nat) -> Result<nat, IntErrorKind> {
    if s.len() == 0 {
        Err(IntErrorKind::Empty)
    } else if s.len() == 1 && (s[0] == '+' || s[0] == '-') {
        Err(IntErrorKind::InvalidDigit)
    } else if s[0] == '+' {
        scan_digits(s.drop_first(), 0, 0, max)
    } else {
        scan_digits(s, 0, 0, max)
    }
}

/// The value of a hexadecimal digit (either case), if it is one.
pub open spec fn hex_digit_value(c: char) -> Option<nat> {
    if '0' <= c && c <= '9' {
        Some((c as int - 48) as nat)
    } else if 'a' <= c && c <= 'f' {
        Some((c as int - 87) as nat)
    } else if 'A' <= c && c <= 'F' {
        Some((c as int - 55) as nat)
    } else {
        None
    }
}

/// Digits of radix 16 read from the left, as `u8::from_str_radix(_, 16)` reads them.
pub open spec fn scan_hex(b: Seq<char>, i: int, acc: nat) -> Result<nat, IntErrorKind>
    decreases b.len() - i,
{
    if i < 0 || i >= b.len() {
        Ok(acc)
    } else {
        match hex_digit_value(b[i]) {
            None => Err(IntErrorKind::InvalidDigit),
            Some(d) => if acc * 16 + d > 255 {
                Err(IntErrorKind::PosOverflow)
            } else {
                scan_hex(b, i + 1, acc * 16 + d)
            },
        }
    }
}

/// `u8::from_str_radix(s, 16)`.
pub open spec fn parse_hex_u8(s: Seq<char>) -> Result<nat, IntErrorKind> {
    if s.len() == 0 {
        Err(IntErrorKind::Empty)
    } else if s.len() == 1 && (s[0] == '+' || s[0] == '-') {
        Err(IntErrorKind::InvalidDigit)
    } else if s[0] == '+' {
        scan_hex(s.drop_first(), 0, 0)
    } else {
        scan_hex(s, 0, 0)
    }
}

// ---------------------------------------------------------------------------
// Executable text operations.
// ---------------------------------------------------------------------------

/// Appends one character to a string (`String::push`).
#[verifier::external_body]
pub(crate) fn push_char(s: &mut String, c: char)
    ensures
        final(s)@ == old(s)@.push(c),
{
    s.push(c)
}

/// Copies the characters of a string slice into a vector.
pub fn chars_of(s: &str) -> (v: Vec<char>)
    ensures
        v@ == s@,
{
    let mut v: Vec<char> = Vec::new();
    for c in it: s.chars()
        invariant
            v@ == it.seq().take(it.index() as int),
            it.seq() == s@,
    {
        v.push(c);
    }
    v
}

/// Builds a string from a sequence of characters.
pub fn string_of(v: &[char]) -> (s: String)
    ensures
        s@ == v@,
{
    let mut s = String::new();
    let mut i: usize = 0;
    while i < v.len()
        invariant
            i <= v.len(),
            s@ == v@.take(i as int),
        decreases v.len() - i,
    {
        push_char(&mut s, v[i]);
        proof {
            assert(v@.take(i as int).push(v@[i as int]) =~= v@.take(i + 1));
        }
        i = i + 1;
    }
    proof {
        assert(v@.take(v.len() as int) =~= v@);
    }
    s
}

/// Appends the characters of `src` to `out`.
pub fn extend_chars(out: &mut Vec<char>, src: &[char])
    ensures
        final(out)@ == old(out)@ + src@,
{
    let mut i: usize = 0;
    while i < src.len()
        invariant
            i <= src.len(),
            out@ == old(out)@ + src@.take(i as int),
        decreases src.len() - i,
    {
        out.push(src[i]);
        proof {
            assert(src@.take(i as int).push(src@[i as int]) =~= src@.take(i + 1));
        }
        i = i + 1;
    }
    proof {
        assert(src@.take(src.len() as int) =~= src@);
    }
}

/// Appends the characters of a string slice to `out`.
pub fn extend_str(out: &mut Vec<char>, src: &str)
    ensures
        final(out)@ == old(out)@ + src@,
{
    let v = chars_of(src);
    extend_chars(out, &v);
}

/// The concatenation of two string slices.
pub fn concat2(a: &str, b: &str) -> (s: String)
    ensures
        s@ == a@ + b@,
{
    let mut v = chars_of(a);
    extend_str(&mut v, b);
    string_of(&v)
}

/// The concatenation of three string slices.
pub fn concat3(a: &str, b: &str, c: &str) -> (s: String)
    ensures
        s@ == a@ + b@ + c@,
{
    let mut v = chars_of(a);
    extend_str(&mut v, b);
    extend_str(&mut v, c);
    string_of(&v)
}

/// Equality of two string slices.
pub fn str_eq(a: &str, b: &str) -> (r: bool)
    ensures
        r == (a@ == b@),
{
    let av = chars_of(a);
    let bv = chars_of(b);
    chars_eq(&av, &bv)
}

/// Equality of two character slices.
pub fn chars_eq(a: &[char], b: &[char]) -> (r: bool)
    ensures
        r == (a@ == b@),
{
    if a.len() != b.len() {
        return false;
    }
    let mut i: usize = 0;
    while i < a.len()
        invariant
            a.len() == b.len(),
            i <= a.len(),
            forall|j: int| 0 <= j < i ==> a@[j] == b@[j],
        decreases a.len() - i,
    {
        if a[i] != b[i] {
            return false;
        }
        i = i + 1;
    }
    proof {
        assert(a@ =~= b@);
    }
    true
}

/// `str::starts_with` on character slices.
pub fn chars_starts_with(s: &[char], p: &[char]) -> (r: bool)
    ensures
        r == starts_with(s@, p@),
{
    if p.len() > s.len() {
        return false;
    }
    let mut i: usize = 0;
    while i < p.len()
        invariant
            p.len() <= s.len(),
            i <= p.len(),
            forall|j: int| 0 <= j < i ==> s@[j] == p@[j],
        decreases p.len() - i,
    {
        if s[i] != p[i] {
            proof {
                assert(s@.take(p.len() as int)[i as int] != p@[i as int]);
            }
            return false;
        }
        i = i + 1;
    }
    proof {
        assert(s@.take(p.len() as int) =~= p@);
    }
    true
}

/// Whether `p` occurs in `s` starting at `i`.
pub fn chars_match_at(s: &[char], p: &[char], i: usize) -> (r: bool)
    ensures
        r == contains_at(s@, p@, i as int),
{
    if i > s.len() || p.len() > s.len() - i {
        return false;
    }
    let mut k: usize = 0;
    while k < p.len()
        invariant
            i + p.len() <= s.len(),
            k <= p.len(),
            forall|j: int| 0 <= j < k ==> s@[i + j] == p@[j],
        decreases p.len() - k,
    {
        if s[i + k] != p[k] {
            proof {
                assert(s@.subrange(i as int, i + p.len())[k as int] != p@[k as int]);
            }
            return false;
        }
        k = k + 1;
    }
    proof {
        assert(s@.subrange(i as int, i + p.len()) =~= p@);
    }
    true
}

/// `str::contains` on character slices.
pub fn chars_contains(s: &[char], p: &[char]) -> (r: bool)
    ensures
        r == contains(s@, p@),
{
    let mut i: usize = 0;
    while i <= s.len()
        invariant
            i <= s.len() + 1,
            forall|j: int| 0 <= j < i ==> !contains_at(s@, p@, j),
        decreases s.len() + 1 - i,
    {
        if chars_match_at(s, p, i) {
            return true;
        }
        if i == s.len() {
            proof {
                assert forall|j: int| !contains_at(s@, p@, j) by {
                    if 0 <= j && j <= s.len() {
                        assert(j <= i);
                    }
                }
            }
            return false;
        }
        i = i + 1;
    }
    proof {
        assert forall|j: int| !contains_at(s@, p@, j) by {
            if 0 <= j && j <= s.len() {
                assert(j < i);
            }
        }
    }
    false
}

/// `str::contains` on a string slice and a pattern slice.
pub fn str_contains(s: &str, p: &str) -> (r: bool)
    ensures
        r == contains(s@, p@),
{
    let sv = chars_of(s);
    let pv = chars_of(p);
    chars_contains(&sv, &pv)
}


/// `char::is_whitespace`.
pub fn char_is_ws(c: char) -> (r: bool)
    ensures
        r == is_ws(c),
{
    c == '\t' || c == '\n' || c == '\u{0B}' || c == '\u{0C}' || c == '\r' || c == ' '
        || c == '\u{85}' || c == '\u{A0}' || c == '\u{1680}' || ('\u{2000}' <= c && c
        <= '\u{200A}') || c == '\u{2028}' || c == '\u{2029}' || c == '\u{202F}' || c
        == '\u{205F}' || c == '\u{3000}'
}

proof fn lemma_trim_start_skip(s: Seq<char>, i: int)
    requires
        0 <= i <= s.len(),
        forall|j: int| 0 <= j < i ==> is_ws(s[j]),
    ensures
        trim_start(s) == trim_start(s.skip(i)),
    decreases i,
{
    if i > 0 {
        assert(s.skip(1) =~= s.drop_first());
        lemma_trim_start_skip(s.drop_first(), i - 1);
        assert(s.drop_first().skip(i - 1) =~= s.skip(i));
    } else {
        assert(s.skip(0) =~= s);
    }
}

proof fn lemma_trim_end_take(s: Seq<char>, k: int)
    requires
        0 <= k <= s.len(),
        forall|j: int| k <= j < s.len() ==> is_ws(s[j]),
    ensures
        trim_end(s) == trim_end(s.take(k)),
    decreases s.len() - k,
{
    if k < s.len() {
        assert(s.take(s.len() - 1) =~= s.drop_last());
        lemma_trim_end_take(s.drop_last(), k);
        assert(s.drop_last().take(k) =~= s.take(k));
    } else {
        assert(s.take(k) =~= s);
    }
}

/// `str::trim` on character slices.
pub fn chars_trim(s: &[char]) -> (r: Vec<char>)
    ensures
        r@ == trim(s@),
{
    let mut i: usize = 0;
    while i < s.len() && char_is_ws(s[i])
        invariant
            i <= s.len(),
            forall|j: int| 0 <= j < i ==> is_ws(s@[j]),
        decreases s.len() - i,
    {
        i = i + 1;
    }
    proof {
        lemma_trim_start_skip(s@, i as int);
        assert(i < s.len() ==> !is_ws(s@.skip(i as int)[0]));
    }
    let ghost t = s@.skip(i as int);
    let mut k: usize = s.len();
    while k > i && char_is_ws(s[k - 1])
        invariant
            i <= k <= s.len(),
            forall|j: int| k <= j < s.len() ==> is_ws(s@[j]),
        decreases k,
    {
        k = k - 1;
    }
    proof {
        assert(trim_start(s@) == t);
        lemma_trim_end_take(t, k - i);
        assert(t.take(k - i) =~= s@.subrange(i as int, k as int));
        let u = s@.subrange(i as int, k as int);
        assert(u.len() > 0 ==> !is_ws(u.last()));
    }
    let mut r: Vec<char> = Vec::new();
    let mut m: usize = i;
    while m < k
        invariant
            i <= m <= k <= s.len(),
            r@ == s@.subrange(i as int, m as int),
        decreases k - m,
    {
        r.push(s[m]);
        proof {
            assert(s@.subrange(i as int, m as int).push(s@[m as int]) =~= s@.subrange(
                i as int,
                m + 1,
            ));
        }
        m = m + 1;
    }
    r
}

/// The texts held by a sequence of character vectors.
pub open spec fn views(v: Seq<Vec<char>>) -> Seq<Seq<char>> {
    Seq::new(v.len(), |i: int| v[i]@)
}

/// The texts held by a sequence of strings.
pub open spec fn string_views(v: Seq<String>) -> Seq<Seq<char>> {
    Seq::new(v.len(), |i: int| v[i]@)
}

/// Copies a list of strings.
pub fn clone_strings(v: &Vec<String>) -> (r: Vec<String>)
    ensures
        r@ == v@,
{
    let mut out: Vec<String> = Vec::new();
    let mut i: usize = 0;
    while i < v.len()
        invariant
            i <= v@.len(),
            out@ == v@.take(i as int),
        decreases v@.len() - i,
    {
        out.push(v[i].clone());
        proof {
            assert(out@ =~= v@.take(i + 1));
        }
        i = i + 1;
    }
    proof {
        assert(v@.take(v@.len() as int) =~= v@);
    }
    out
}

/// `str::split(c)` on character slices.
pub fn chars_split(s: &[char], c: char) -> (r: Vec<Vec<char>>)
    ensures
        views(r@) == split_on(s@, c),
{
    let mut r: Vec<Vec<char>> = Vec::new();
    let mut cur: Vec<char> = Vec::new();
    let mut i: usize = 0;
    proof {
        assert(s@.take(0) =~= Seq::<char>::empty());
        assert(views(r@).push(cur@) =~= split_on(s@.take(0), c));
    }
    while i < s.len()
        invariant
            i <= s.len(),
            views(r@).push(cur@) == split_on(s@.take(i as int), c),
        decreases s.len() - i,
    {
        let ghost prev = s@.take(i as int);
        proof {
            assert(s@.take(i + 1).drop_last() =~= prev);
            assert(s@.take(i + 1).last() == s@[i as int]);
        }
        if s[i] == c {
            let ghost old_r = views(r@);
            let done = cur;
            let ghost done_v = done@;
            r.push(done);
            cur = Vec::new();
            proof {
                assert(views(r@) =~= old_r.push(done_v));
                assert(views(r@).push(cur@) =~= old_r.push(done_v).push(Seq::<char>::empty()));
            }
        } else {
            let ghost old_r = views(r@);
            cur.push(s[i]);
            proof {
                let sp = split_on(prev, c);
                assert(sp.update(sp.len() - 1, sp.last().push(s@[i as int])) =~= old_r.push(
                    cur@,
                ));
            }
        }
        i = i + 1;
    }
    proof {
        assert(s@.take(s.len() as int) =~= s@);
    }
    let ghost old_r = views(r@);
    let ghost cur_v = cur@;
    r.push(cur);
    proof {
        assert(views(r@) =~= old_r.push(cur_v));
    }
    r
}

proof fn lemma_words_nonempty(s: Seq<char>)
    requires
        s.len() > 0,
        !is_ws(s.last()),
    ensures
        words(s).len() > 0,
    decreases s.len(),
{
    if s.len() >= 2 && !is_ws(s[s.len() - 2]) {
        assert(s.drop_last().last() == s[s.len() - 2]);
        lemma_words_nonempty(s.drop_last());
    }
}

/// `str::split_whitespace` on character slices.
pub fn chars_words(s: &[char]) -> (r: Vec<Vec<char>>)
    ensures
        views(r@) == words(s@),
{
    let mut r: Vec<Vec<char>> = Vec::new();
    let mut i: usize = 0;
    proof {
        assert(s@.take(0) =~= Seq::<char>::empty());
        assert(views(r@) =~= words(s@.take(0)));
    }
    while i < s.len()
        invariant
            i <= s.len(),
            views(r@) == words(s@.take(i as int)),
        decreases s.len() - i,
    {
        let ghost prev = s@.take(i as int);
        let ghost next = s@.take(i + 1);
        proof {
            assert(next.drop_last() =~= prev);
            assert(next.last() == s@[i as int]);
        }
        let c = s[i];
        if char_is_ws(c) {
        } else if i >= 1 && !char_is_ws(s[i - 1]) {
            proof {
                assert(prev.last() == s@[i - 1]);
                lemma_words_nonempty(prev);
                assert(next[next.len() - 2] == s@[i - 1]);
            }
            let ghost old_r = views(r@);
            let mut last = match r.pop() {
                Some(l) => l,
                None => Vec::new(),
            };
            let ghost old_last = last@;
            proof {
                assert(old_last == old_r.last());
            }
            last.push(c);
            r.push(last);
            proof {
                assert(views(r@) =~= old_r.update(old_r.len() - 1, old_r.last().push(c)));
            }
        } else {
            proof {
                assert(i >= 1 ==> next[next.len() - 2] == s@[i - 1]);
            }
            let ghost old_r = views(r@);
            let mut w: Vec<char> = Vec::new();
            w.push(c);
            proof {
                assert(w@ =~= seq![c]);
            }
            r.push(w);
            proof {
                assert(views(r@) =~= old_r.push(seq![c]));
            }
        }
        i = i + 1;
    }
    proof {
        assert(s@.take(s.len() as int) =~= s@);
    }
    r
}

/// The piece without a trailing carriage return.
pub fn chars_strip_cr(s: &[char]) -> (r: Vec<char>)
    ensures
        r@ == strip_cr(s@),
{
    let mut r: Vec<char> = Vec::new();
    extend_chars(&mut r, s);
    if r.len() > 0 && r[r.len() - 1] == '\r' {
        r.pop();
        proof {
            assert(r@ =~= s@.drop_last());
        }
    }
    r
}

/// `str::lines` on character slices.
pub fn chars_lines(s: &[char]) -> (r: Vec<Vec<char>>)
    ensures
        views(r@) == lines(s@),
{
    let mut r: Vec<Vec<char>> = Vec::new();
    if s.len() == 0 {
        proof {
            assert(views(r@) =~= lines(s@));
        }
        return r;
    }
    let parts = chars_split(s, '\n');
    let ends_nl = s[s.len() - 1] == '\n';
    proof {
        assert(split_on(s@, '\n').len() == parts@.len());
        assert(parts@.len() >= 1) by {
            lemma_split_nonempty(s@, '\n');
        }
    }
    let n: usize = if ends_nl {
        parts.len() - 1
    } else {
        parts.len()
    };
    let mut j: usize = 0;
    while j < n
        invariant
            s.len() > 0,
            ends_nl == (s@.last() == '\n'),
            views(parts@) == split_on(s@, '\n'),
            parts@.len() >= 1,
            n == (if ends_nl { parts@.len() - 1 } else { parts@.len() as int }),
            j <= n,
            r@.len() == j,
            forall|k: int|
                0 <= k < j ==> #[trigger] r@[k]@ == lines(s@)[k],
        decreases n - j,
    {
        let line = if j + 1 < parts.len() {
            chars_strip_cr(&parts[j])
        } else {
            let mut v: Vec<char> = Vec::new();
            extend_chars(&mut v, &parts[j]);
            v
        };
        proof {
            assert(views(parts@)[j as int] == parts@[j as int]@);
        }
        r.push(line);
        j = j + 1;
    }
    proof {
        assert(views(r@) =~= lines(s@));
    }
    r
}

pub proof fn lemma_split_nonempty(s: Seq<char>, c: char)
    ensures
        split_on(s, c).len() >= 1,
    decreases s.len(),
{
    if s.len() > 0 {
        lemma_split_nonempty(s.drop_last(), c);
    }
}

/// `str::replace(from, to)` on character slices.
pub fn chars_replace(s: &[char], from: &[char], to: &[char]) -> (r: Vec<char>)
    requires
        from@.len() > 0,
    ensures
        r@ == replace_all(s@, from@, to@),
{
    let mut out: Vec<char> = Vec::new();
    let mut i: usize = 0;
    proof {
        assert(s@.skip(0) =~= s@);
    }
    while i < s.len() && s.len() - i >= from.len()
        invariant
            from@.len() > 0,
            i <= s.len(),
            out@ + replace_all(s@.skip(i as int), from@, to@) == replace_all(s@, from@, to@),
        decreases s.len() - i,
    {
        let ghost rest = s@.skip(i as int);
        if chars_match_at(s, from, i) {
            proof {
                assert(rest.take(from@.len() as int) =~= s@.subrange(i as int, i + from@.len()));
                assert(rest.skip(from@.len() as int) =~= s@.skip(i + from@.len()));
            }
            let ghost old_out = out@;
            extend_chars(&mut out, to);
            proof {
                assert(old_out + (to@ + replace_all(s@.skip(i + from@.len()), from@, to@)) =~= out@
                    + replace_all(s@.skip(i + from@.len()), from@, to@));
            }
            i = i + from.len();
        } else {
            proof {
                assert(rest.take(from@.len() as int) =~= s@.subrange(i as int, i + from@.len()));
                assert(rest.drop_first() =~= s@.skip(i + 1));
                assert(rest[0] == s@[i as int]);
            }
            let ghost old_out = out@;
            out.push(s[i]);
            proof {
                assert(old_out + (seq![s@[i as int]] + replace_all(s@.skip(i + 1), from@, to@))
                    =~= out@ + replace_all(s@.skip(i + 1), from@, to@));
            }
            i = i + 1;
        }
    }
    let ghost old_out = out@;
    let mut k: usize = i;
    while k < s.len()
        invariant
            i <= k <= s.len(),
            out@ == old_out + s@.subrange(i as int, k as int),
        decreases s.len() - k,
    {
        out.push(s[k]);
        proof {
            assert(s@.subrange(i as int, k as int).push(s@[k as int]) =~= s@.subrange(
                i as int,
                k + 1,
            ));
        }
        k = k + 1;
    }
    proof {
        assert(s@.skip(i as int) =~= s@.subrange(i as int, s.len() as int));
        assert(replace_all(s@.skip(i as int), from@, to@) == s@.skip(i as int));
    }
    out
}

/// The decimal representation of a signed integer.
pub open spec fn signed_decimal(n: int) -> Seq<char> {
    if n < 0 {
        seq!['-'] + decimal((-n) as nat)
    } else {
        decimal(n as nat)
    }
}

/// Appends the decimal representation of a signed `n`.
pub fn push_signed_decimal(out: &mut Vec<char>, n: i64)
    ensures
        final(out)@ == old(out)@ + signed_decimal(n as int),
{
    if n < 0 {
        out.push('-');
        let m: u64 = ((-(n + 1)) as u64) + 1;
        push_decimal(out, m);
        proof {
            assert(final(out)@ =~= old(out)@ + signed_decimal(n as int));
        }
    } else {
        push_decimal(out, n as u64);
    }
}

/// Appends the decimal representation of `n`.
pub fn push_decimal(out: &mut Vec<char>, n: u64)
    ensures
        final(out)@ == old(out)@ + decimal(n as nat),
    decreases n,
{
    if n >= 10 {
        push_decimal(out, n / 10);
    }
    let d = (n % 10) as u32;
    let c = char_from_digit(d);
    out.push(c);
    proof {
        if n >= 10 {
            assert(old(out)@ + decimal((n / 10) as nat) + seq![c] =~= old(out)@ + decimal(
                n as nat,
            ));
        } else {
            assert(old(out)@ + seq![c] =~= old(out)@ + decimal(n as nat));
        }
    }
}

/// The ASCII digit of a value below ten.
pub fn char_from_digit(d: u32) -> (c: char)
    requires
        d < 10,
    ensures
        c == digit_char(d as nat),
{
    if d == 0 { '0' }
    else if d == 1 { '1' }
    else if d == 2 { '2' }
    else if d == 3 { '3' }
    else if d == 4 { '4' }
    else if d == 5 { '5' }
    else if d == 6 { '6' }
    else if d == 7 { '7' }
    else if d == 8 { '8' }
    else { '9' }
}

/// The decimal representation of `n` as a string (`n.to_string()`).
pub fn decimal_string(n: u64) -> (s: String)
    ensures
        s@ == decimal(n as nat),
{
    let mut v: Vec<char> = Vec::new();
    push_decimal(&mut v, n);
    proof {
        assert(Seq::<char>::empty() + decimal(n as nat) =~= decimal(n as nat));
    }
    string_of(&v)
}

/// Reads unsigned decimal digits as `str::parse` does, for a type whose largest value is `max`.
pub fn parse_unsigned_chars(s: &[char], max: u64) -> (r: Result<u64, IntErrorKind>)
    ensures
        match r {
            Ok(v) => parse_unsigned(s@, max as nat) == Ok::<nat, IntErrorKind>(v as nat),
            Err(k) => parse_unsigned(s@, max as nat) == Err::<nat, IntErrorKind>(k),
        },
{
    if s.len() == 0 {
        return Err(IntErrorKind::Empty);
    }
    if s.len() == 1 && (s[0] == '+' || s[0] == '-') {
        return Err(IntErrorKind::InvalidDigit);
    }
    let start: usize = if s[0] == '+' {
        1
    } else {
        0
    };
    let ghost b = s@.skip(start as int);
    proof {
        if start == 1 {
            assert(b =~= s@.drop_first());
        } else {
            assert(b =~= s@);
        }
    }
    let mut acc: u64 = 0;
    let mut i: usize = start;
    while i < s.len()
        invariant
            start <= i <= s.len(),
            b == s@.skip(start as int),
            parse_unsigned(s@, max as nat) == scan_digits(b, 0, 0, max as nat),
            acc <= max,
            scan_digits(b, 0, 0, max as nat) == scan_digits(b, i - start, acc as nat, max as nat),
        decreases s.len() - i,
    {
        let c = s[i];
        proof {
            assert(b[i - start] == c);
        }
        if !('0' <= c && c <= '9') {
            proof {
                assert(scan_digits(b, i - start, acc as nat, max as nat) == Err::<nat, IntErrorKind>(IntErrorKind::InvalidDigit));
            }
            return Err(IntErrorKind::InvalidDigit);
        }
        let d = (c as u32 - 48) as u64;
        let next: u128 = acc as u128 * 10 + d as u128;
        if next > max as u128 {
            proof {
                assert(scan_digits(b, i - start, acc as nat, max as nat) == Err::<nat, IntErrorKind>(IntErrorKind::PosOverflow));
            }
            return Err(IntErrorKind::PosOverflow);
        }
        acc = next as u64;
        i = i + 1;
    }
    Ok(acc)
}

/// Reads hexadecimal digits as `u8::from_str_radix(_, 16)` does.
pub fn parse_hex_u8_chars(s: &[char]) -> (r: Result<u8, IntErrorKind>)
    ensures
        match r {
            Ok(v) => parse_hex_u8(s@) == Ok::<nat, IntErrorKind>(v as nat),
            Err(k) => parse_hex_u8(s@) == Err::<nat, IntErrorKind>(k),
        },
{
    if s.len() == 0 {
        return Err(IntErrorKind::Empty);
    }
    if s.len() == 1 && (s[0] == '+' || s[0] == '-') {
        return Err(IntErrorKind::InvalidDigit);
    }
    let start: usize = if s[0] == '+' {
        1
    } else {
        0
    };
    let ghost b = s@.skip(start as int);
    proof {
        if start == 1 {
            assert(b =~= s@.drop_first());
        } else {
            assert(b =~= s@);
        }
    }
    let mut acc: u32 = 0;
    let mut i: usize = start;
    while i < s.len()
        invariant
            start <= i <= s.len(),
            b == s@.skip(start as int),
            parse_hex_u8(s@) == scan_hex(b, 0, 0),
            acc <= 255,
            scan_hex(b, 0, 0) == scan_hex(b, i - start, acc as nat),
        decreases s.len() - i,
    {
        let c = s[i];
        proof {
            assert(b[i - start] == c);
        }
        let d: u32 = if '0' <= c && c <= '9' {
            c as u32 - 48
        } else if 'a' <= c && c <= 'f' {
            c as u32 - 87
        } else if 'A' <= c && c <= 'F' {
            c as u32 - 55
        } else {
            proof {
                assert(scan_hex(b, i - start, acc as nat) == Err::<nat, IntErrorKind>(IntErrorKind::InvalidDigit));
            }
            return Err(IntErrorKind::InvalidDigit);
        };
        let next: u32 = acc * 16 + d;
        if next > 255 {
            proof {
                assert(scan_hex(b, i - start, acc as nat) == Err::<nat, IntErrorKind>(IntErrorKind::PosOverflow));
            }
            return Err(IntErrorKind::PosOverflow);
        }
        acc = next;
        i = i + 1;
    }
    Ok(acc as u8)
}

/// The message `ParseIntError` displays.
pub fn int_error_string(k: IntErrorKind) -> (s: String)
    ensures
        s@ == int_error_message(k),
{
    match k {
        IntErrorKind::Empty => String::from_str("cannot parse integer from empty string"),
        IntErrorKind::InvalidDigit => String::from_str("invalid digit found in string"),
        IntErrorKind::PosOverflow => String::from_str("number too large to fit in target type"),
    }
}

/// Every character of the text is a decimal digit.
pub open spec fn all_digits(s: Seq<char>) -> bool {
    forall|i: int| 0 <= i < s.len() ==> is_digit(#[trigger] s[i])
}

proof fn lemma_digit_roundtrip(k: nat)
    requires
        k < 10,
    ensures
        digit_value(digit_char(k)) == k,
        is_digit(digit_char(k)),
{
    assert(((k + 48) as char) as int == k + 48);
}

proof fn lemma_decimal_digits(n: nat)
    ensures
        all_digits(decimal(n)),
        decimal(n).len() > 0,
        digits_value(decimal(n)) == n,
    decreases n,
{
    lemma_digit_roundtrip(n % 10);
    if n >= 10 {
        lemma_decimal_digits(n / 10);
        let d = decimal(n);
        assert(d.drop_last() =~= decimal(n / 10));
        assert(d.last() == digit_char(n % 10));
        assert(digits_value(d) == digits_value(d.drop_last()) * 10 + digit_value(d.last()));
        assert((n / 10) * 10 + n % 10 == n);
        assert forall|i: int| 0 <= i < d.len() implies is_digit(#[trigger] d[i]) by {
            if i < d.len() - 1 {
                assert(d[i] == decimal(n / 10)[i]);
            }
        }
    } else {
        let d = decimal(n);
        assert(d.drop_last() =~= Seq::<char>::empty());
        assert(digits_value(d) == digits_value(d.drop_last()) * 10 + digit_value(d.last()));
    }
}

proof fn lemma_prefix_value_le(b: Seq<char>, i: int)
    requires
        0 <= i <= b.len(),
    ensures
        digits_value(b.take(i)) <= digits_value(b),
    decreases b.len() - i,
{
    if i < b.len() {
        lemma_prefix_value_le(b, i + 1);
        assert(b.take(i + 1).drop_last() =~= b.take(i));
    } else {
        assert(b.take(i) =~= b);
    }
}

proof fn lemma_scan_digits_ok(b: Seq<char>, i: int, max: nat)
    requires
        0 <= i <= b.len(),
        all_digits(b),
        digits_value(b) <= max,
    ensures
        scan_digits(b, i, digits_value(b.take(i)), max) == Ok::<nat, IntErrorKind>(digits_value(b)),
    decreases b.len() - i,
{
    if i < b.len() {
        assert(b.take(i + 1).drop_last() =~= b.take(i));
        assert(b.take(i + 1).last() == b[i]);
        lemma_prefix_value_le(b, i + 1);
        lemma_scan_digits_ok(b, i + 1, max);
    } else {
        assert(b.take(i) =~= b);
    }
}

/// Reading back the decimal representation of a number gives the number, for every
/// Distinct numbers have distinct decimal representations.
pub proof fn lemma_decimal_injective(a: nat, b: nat)
    requires
        a != b,
    ensures
        decimal(a) != decimal(b),
{
    let m = if a > b { a } else { b };
    lemma_parse_decimal(a, m);
    lemma_parse_decimal(b, m);
}

/// number that fits the target type.
pub proof fn lemma_parse_decimal(n: nat, max: nat)
    requires
        n <= max,
    ensures
        parse_unsigned(decimal(n), max) == Ok::<nat, IntErrorKind>(n),
{
    lemma_decimal_digits(n);
    let d = decimal(n);
    assert(is_digit(d[0]));
    assert(d.take(0) =~= Seq::<char>::empty());
    lemma_scan_digits_ok(d, 0, max);
}

/// The text holds no `c`.
pub open spec fn lacks(s: Seq<char>, c: char) -> bool {
    forall|i: int| 0 <= i < s.len() ==> s[i] != c
}

/// A text without the separator is a single piece.
pub proof fn lemma_split_single(s: Seq<char>, c: char)
    requires
        lacks(s, c),
    ensures
        split_on(s, c) == seq![s],
    decreases s.len(),
{
    if s.len() > 0 {
        lemma_split_single(s.drop_last(), c);
        assert(s.drop_last().push(s.last()) =~= s);
        assert(s.last() == s[s.len() - 1]);
        assert(seq![s.drop_last()].update(0, s.drop_last().push(s.last())) =~= seq![s]);
    } else {
        assert(s =~= Seq::<char>::empty());
        assert(seq![Seq::<char>::empty()] =~= seq![s]);
    }
}

/// Splitting `a c b` where `a` holds no `c`: `a`, then the pieces of `b`.
pub proof fn lemma_split_join(a: Seq<char>, c: char, b: Seq<char>)
    requires
        lacks(a, c),
    ensures
        split_on(a + seq![c] + b, c) == seq![a] + split_on(b, c),
    decreases b.len(),
{
    if b.len() == 0 {
        lemma_split_single(a, c);
        assert((a + seq![c] + b).drop_last() =~= a);
        assert(seq![a].push(Seq::<char>::empty()) =~= seq![a] + split_on(b, c));
    } else {
        lemma_split_join(a, c, b.drop_last());
        let whole = a + seq![c] + b;
        assert(whole.drop_last() =~= a + seq![c] + b.drop_last());
        assert(whole.last() == b.last());
        let r = split_on(b.drop_last(), c);
        lemma_split_nonempty(b.drop_last(), c);
        if b.last() == c {
            assert((seq![a] + r).push(Seq::<char>::empty()) =~= seq![a] + r.push(Seq::<char>::empty()));
        } else {
            let ar = seq![a] + r;
            assert(ar.update(ar.len() - 1, ar.last().push(b.last())) =~= seq![a] + r.update(
                r.len() - 1,
                r.last().push(b.last()),
            ));
        }
    }
}

/// Decimal representations hold only digits.
pub proof fn lemma_decimal_lacks(n: nat, c: char)
    requires
        !is_digit(c),
    ensures
        lacks(decimal(n), c),
        decimal(n).len() > 0,
{
    lemma_decimal_digits(n);
}

/// A text contains each piece it is made of.
pub proof fn lemma_contains_middle(a: Seq<char>, b: Seq<char>, c: Seq<char>)
    ensures
        contains(a + b + c, b),
{
    assert((a + b + c).subrange(a.len() as int, (a.len() + b.len()) as int) =~= b);
    assert(contains_at(a + b + c, b, a.len() as int));
}

} // verus!
