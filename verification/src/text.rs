//! Text handling on character sequences: whitespace, trimming, lines,
//! whitespace-separated words, substrings and decimal numbers.
use vstd::prelude::*;
use vstd::string::*;

verus! {

broadcast use vstd::string::group_string_axioms;

// ---------------------------------------------------------------------------
// Specifications
// ---------------------------------------------------------------------------

/// Unicode `White_Space` property, which is what `char::is_whitespace` tests.
pub open spec fn is_ws(c: char) -> bool {
    let n = c as u32;
    ||| 0x09 <= n <= 0x0D
    ||| n == 0x20
    ||| n == 0x85
    ||| n == 0xA0
    ||| n == 0x1680
    ||| 0x2000 <= n <= 0x200A
    ||| n == 0x2028
    ||| n == 0x2029
    ||| n == 0x202F
    ||| n == 0x205F
    ||| n == 0x3000
}

/// `s` without its leading whitespace.
pub open spec fn trim_start(s: Seq<char>) -> Seq<char>
    decreases s.len(),
{
    if s.len() > 0 && is_ws(s[0]) {
        trim_start(s.drop_first())
    } else {
        s
    }
}

/// `s` without its trailing whitespace.
pub open spec fn trim_end(s: Seq<char>) -> Seq<char>
    decreases s.len(),
{
    if s.len() > 0 && is_ws(s.last()) {
        trim_end(s.drop_last())
    } else {
        s
    }
}

/// `s` without leading and trailing whitespace.
pub open spec fn trim(s: Seq<char>) -> Seq<char> {
    trim_end(trim_start(s))
}

/// Whether every character of `s` is whitespace.
pub open spec fn is_blank(s: Seq<char>) -> bool {
    forall|i: int| 0 <= i < s.len() ==> is_ws(#[trigger] s[i])
}

/// Number of leading characters of `s` that are not whitespace.
pub open spec fn word_len(s: Seq<char>) -> nat
    decreases s.len(),
{
    if s.len() > 0 && !is_ws(s[0]) {
        1 + word_len(s.drop_first())
    } else {
        0
    }
}

/// The maximal runs of non-whitespace characters of `s`, in order
/// (what `str::split_whitespace` yields).
pub open spec fn words(s: Seq<char>) -> Seq<Seq<char>>
    decreases s.len(),
{
    if s.len() == 0 {
        seq![]
    } else if is_ws(s[0]) {
        words(s.drop_first())
    } else {
        proof {
            lemma_word_len_bounds(s);
        }
        let n = word_len(s);
        seq![s.take(n as int)] + words(s.skip(n as int))
    }
}

/// Index of the first `'\n'` in `s`, or `s.len()` where there is none.
pub open spec fn newline_pos(s: Seq<char>) -> nat
    decreases s.len(),
{
    if s.len() == 0 || s[0] == '\n' {
        0
    } else {
        1 + newline_pos(s.drop_first())
    }
}

/// A line without the `'\r'` of a `"\r\n"` terminator.
pub open spec fn strip_cr(l: Seq<char>) -> Seq<char> {
    if l.len() > 0 && l.last() == '\r' {
        l.drop_last()
    } else {
        l
    }
}

/// The lines of `s` (what `str::lines` yields): pieces ended by `"\n"` or
/// `"\r\n"`, the terminator removed; a final piece without terminator counts
/// as a line when it is not empty.
pub open spec fn lines(s: Seq<char>) -> Seq<Seq<char>>
    decreases s.len(),
{
    if s.len() == 0 {
        seq![]
    } else {
        proof {
            lemma_newline_pos_bounds(s);
        }
        let n = newline_pos(s);
        if n < s.len() {
            seq![strip_cr(s.take(n as int))] + lines(s.skip(n + 1int))
        } else {
            seq![s]
        }
    }
}

/// `needle` occurs in `hay` starting at index `i`.
pub open spec fn occurs_at(hay: Seq<char>, needle: Seq<char>, i: int) -> bool {
    0 <= i && i + needle.len() <= hay.len() && hay.subrange(i, i + needle.len()) == needle
}

/// `needle` occurs somewhere in `hay`.
pub open spec fn contains(hay: Seq<char>, needle: Seq<char>) -> bool {
    exists|i: int| occurs_at(hay, needle, i)
}

/// `s` begins with `p`.
pub open spec fn starts_with(s: Seq<char>, p: Seq<char>) -> bool {
    p.len() <= s.len() && s.take(p.len() as int) == p
}

// ---------------------------------------------------------------------------
// Lemmas
// ---------------------------------------------------------------------------

pub proof fn lemma_word_len_bounds(s: Seq<char>)
    ensures
        word_len(s) <= s.len(),
        s.len() > 0 && !is_ws(s[0]) ==> word_len(s) >= 1,
        forall|i: int| 0 <= i < word_len(s) ==> !is_ws(#[trigger] s[i]),
        word_len(s) < s.len() ==> is_ws(s[word_len(s) as int]),
    decreases s.len(),
{
    if s.len() > 0 && !is_ws(s[0]) {
        lemma_word_len_bounds(s.drop_first());
        assert forall|i: int| 0 <= i < word_len(s) implies !is_ws(#[trigger] s[i]) by {
            if i > 0 {
                assert(s[i] == s.drop_first()[i - 1]);
            }
        }
    }
}

pub proof fn lemma_newline_pos_bounds(s: Seq<char>)
    ensures
        newline_pos(s) <= s.len(),
        newline_pos(s) < s.len() ==> s[newline_pos(s) as int] == '\n',
        forall|i: int| 0 <= i < newline_pos(s) ==> #[trigger] s[i] != '\n',
    decreases s.len(),
{
    if s.len() > 0 && s[0] != '\n' {
        lemma_newline_pos_bounds(s.drop_first());
        assert forall|i: int| 0 <= i < newline_pos(s) implies #[trigger] s[i] != '\n' by {
            if i > 0 {
                assert(s[i] == s.drop_first()[i - 1]);
            }
        }
    }
}

// ---------------------------------------------------------------------------
// Executable building blocks
// ---------------------------------------------------------------------------

/// Appends one character to a `String` (std's `String::push`).
/// Claimed: the new contents are the old contents followed by `c`.
#[verifier::external_body]
fn push_char(s: &mut String, c: char)
    ensures
        final(s)@ == old(s)@.push(c),
{
    s.push(c);
}

/// The characters of `s`, in order.
pub fn chars_of(s: &str) -> (v: Vec<char>)
    ensures
        v@ == s@,
{
    let mut v: Vec<char> = Vec::new();
    for c in it: s.chars()
        invariant
            it.seq() == s@,
            v@ == it.seq().take(it.index() as int),
    {
        v.push(c);
    }
    v
}

/// The `String` made of `cs[lo..hi]`.
pub fn string_of(cs: &Vec<char>, lo: usize, hi: usize) -> (r: String)
    requires
        lo <= hi <= cs.len(),
    ensures
        r@ == cs@.subrange(lo as int, hi as int),
{
    let mut r = String::new();
    let mut i = lo;
    while i < hi
        invariant
            lo <= i <= hi <= cs.len(),
            r@ == cs@.subrange(lo as int, i as int),
        decreases hi - i,
    {
        push_char(&mut r, cs[i]);
        assert(cs@.subrange(lo as int, i + 1) =~= cs@.subrange(lo as int, i as int).push(cs@[i as int]));
        i += 1;
    }
    r
}

/// Whether `c` is whitespace (`char::is_whitespace`).
pub fn is_whitespace(c: char) -> (b: bool)
    ensures
        b == is_ws(c),
{
    let n = c as u32;
    (0x09 <= n && n <= 0x0D) || n == 0x20 || n == 0x85 || n == 0xA0 || n == 0x1680 || (0x2000
        <= n && n <= 0x200A) || n == 0x2028 || n == 0x2029 || n == 0x202F || n == 0x205F || n
        == 0x3000
}

/// First index at or after `lo` that is not whitespace, or `hi`.
fn skip_ws(cs: &Vec<char>, lo: usize, hi: usize) -> (i: usize)
    requires
        lo <= hi <= cs.len(),
    ensures
        lo <= i <= hi,
        trim_start(cs@.subrange(lo as int, hi as int)) == cs@.subrange(i as int, hi as int),
{
    let mut i = lo;
    while i < hi && is_whitespace(cs[i])
        invariant
            lo <= i <= hi <= cs.len(),
            trim_start(cs@.subrange(lo as int, hi as int)) == trim_start(
                cs@.subrange(i as int, hi as int),
            ),
        decreases hi - i,
    {
        assert(cs@.subrange(i as int, hi as int).drop_first() =~= cs@.subrange(i + 1, hi as int));
        i += 1;
    }
    i
}

/// Last index at or before `hi` whose predecessor is not whitespace, or `lo`.
fn skip_ws_back(cs: &Vec<char>, lo: usize, hi: usize) -> (j: usize)
    requires
        lo <= hi <= cs.len(),
    ensures
        lo <= j <= hi,
        trim_end(cs@.subrange(lo as int, hi as int)) == cs@.subrange(lo as int, j as int),
{
    let mut j = hi;
    while j > lo && is_whitespace(cs[j - 1])
        invariant
            lo <= j <= hi <= cs.len(),
            trim_end(cs@.subrange(lo as int, hi as int)) == trim_end(
                cs@.subrange(lo as int, j as int),
            ),
        decreases j - lo,
    {
        assert(cs@.subrange(lo as int, j as int).drop_last() =~= cs@.subrange(lo as int, j - 1));
        j -= 1;
    }
    j
}

/// `s` without leading and trailing whitespace (`str::trim`).
pub fn trim_str(s: &str) -> (r: String)
    ensures
        r@ == trim(s@),
{
    let cs = chars_of(s);
    let n = cs.len();
    assert(cs@.subrange(0, n as int) =~= cs@);
    let i = skip_ws(&cs, 0, n);
    let j = skip_ws_back(&cs, i, n);
    string_of(&cs, i, j)
}

/// `s` without trailing whitespace (`str::trim_end`).
pub fn trim_end_str(s: &str) -> (r: String)
    ensures
        r@ == trim_end(s@),
{
    let cs = chars_of(s);
    let n = cs.len();
    assert(cs@.subrange(0, n as int) =~= cs@);
    let j = skip_ws_back(&cs, 0, n);
    string_of(&cs, 0, j)
}


/// End of the word that starts at `i`: the first whitespace index after `i`, or `n`.
fn word_end(cs: &Vec<char>, i: usize, n: usize) -> (j: usize)
    requires
        i < n == cs.len(),
        !is_ws(cs@[i as int]),
    ensures
        i < j <= n,
        word_len(cs@.skip(i as int)) == j - i,
{
    let mut j = i;
    while j < n && !is_whitespace(cs[j])
        invariant
            i <= j <= n == cs.len(),
            word_len(cs@.skip(i as int)) == (j - i) + word_len(cs@.skip(j as int)),
        decreases n - j,
    {
        assert(cs@.skip(j as int).drop_first() =~= cs@.skip(j + 1));
        j += 1;
    }
    j
}

/// The whitespace-separated words of `s` (`str::split_whitespace`).
pub fn split_whitespace(s: &str) -> (ws: Vec<String>)
    ensures
        ws.deep_view() == words(s@),
{
    let cs = chars_of(s);
    let n = cs.len();
    let mut out: Vec<String> = Vec::new();
    let mut i: usize = 0;
    assert(cs@.skip(0) =~= cs@);
    assert(out.deep_view() =~= Seq::<Seq<char>>::empty());
    while i < n
        invariant
            i <= n == cs.len(),
            cs@ == s@,
            out.deep_view() + words(cs@.skip(i as int)) == words(s@),
        decreases n - i,
    {
        if is_whitespace(cs[i]) {
            assert(cs@.skip(i as int).drop_first() =~= cs@.skip(i + 1));
            i += 1;
        } else {
            let j = word_end(&cs, i, n);
            let w = string_of(&cs, i, j);
            let ghost before = out.deep_view();
            proof {
                let t = cs@.skip(i as int);
                assert(t.take((j - i) as int) =~= cs@.subrange(i as int, j as int));
                assert(t.skip((j - i) as int) =~= cs@.skip(j as int));
                assert(words(t) == seq![w@] + words(cs@.skip(j as int)));
            }
            out.push(w);
            assert(out.deep_view() =~= before.push(w@));
            assert(before + (seq![w@] + words(cs@.skip(j as int))) =~= before.push(w@) + words(
                cs@.skip(j as int),
            ));
            i = j;
        }
    }
    assert(cs@.skip(n as int) =~= Seq::<char>::empty());
    assert(out.deep_view() + Seq::<Seq<char>>::empty() =~= out.deep_view());
    out
}

/// Index of the first `'\n'` at or after `i`, or `n`.
fn find_newline(cs: &Vec<char>, i: usize, n: usize) -> (j: usize)
    requires
        i <= n == cs.len(),
    ensures
        i <= j <= n,
        newline_pos(cs@.skip(i as int)) == j - i,
{
    let mut j = i;
    while j < n && cs[j] != '\n'
        invariant
            i <= j <= n == cs.len(),
            newline_pos(cs@.skip(i as int)) == (j - i) + newline_pos(cs@.skip(j as int)),
        decreases n - j,
    {
        assert(cs@.skip(j as int).drop_first() =~= cs@.skip(j + 1));
        j += 1;
    }
    j
}

/// The lines of `s` (`str::lines`).
pub fn lines_of(s: &str) -> (ls: Vec<String>)
    ensures
        ls.deep_view() == lines(s@),
{
    let cs = chars_of(s);
    let n = cs.len();
    let mut out: Vec<String> = Vec::new();
    let mut i: usize = 0;
    assert(cs@.skip(0) =~= cs@);
    assert(out.deep_view() =~= Seq::<Seq<char>>::empty());
    while i < n
        invariant
            i <= n == cs.len(),
            cs@ == s@,
            out.deep_view() + lines(cs@.skip(i as int)) == lines(s@),
        decreases n - i,
    {
        let j = find_newline(&cs, i, n);
        let ghost before = out.deep_view();
        let ghost t = cs@.skip(i as int);
        if j < n {
            let e = if j > i && cs[j - 1] == '\r' {
                j - 1
            } else {
                j
            };
            let l = string_of(&cs, i, e);
            proof {
                assert(t.take((j - i) as int) =~= cs@.subrange(i as int, j as int));
                assert(cs@.subrange(i as int, j as int).len() > 0 ==> cs@.subrange(
                    i as int,
                    j as int,
                ).drop_last() =~= cs@.subrange(i as int, j - 1));
                assert(strip_cr(t.take((j - i) as int)) =~= l@);
                assert(t.skip((j - i) + 1) =~= cs@.skip(j + 1));
                assert(lines(t) == seq![l@] + lines(cs@.skip(j + 1)));
            }
            out.push(l);
            assert(out.deep_view() =~= before.push(l@));
            assert(before + (seq![l@] + lines(cs@.skip(j + 1))) =~= before.push(l@) + lines(
                cs@.skip(j + 1),
            ));
            i = j + 1;
        } else {
            let l = string_of(&cs, i, n);
            proof {
                assert(t =~= l@);
                assert(lines(t) == seq![l@]);
            }
            out.push(l);
            assert(out.deep_view() =~= before.push(l@));
            assert(cs@.skip(n as int) =~= Seq::<char>::empty());
            assert(before + seq![l@] =~= before.push(l@) + lines(cs@.skip(n as int)));
            i = n;
        }
    }
    assert(cs@.skip(n as int) =~= Seq::<char>::empty());
    assert(out.deep_view() + Seq::<Seq<char>>::empty() =~= out.deep_view());
    out
}

/// Whether `nd` occurs in `h` at index `i`.
fn matches_at(h: &Vec<char>, nd: &Vec<char>, i: usize) -> (b: bool)
    requires
        i + nd.len() <= h.len(),
    ensures
        b == (h@.subrange(i as int, i + nd.len()) == nd@),
{
    let mut k: usize = 0;
    while k < nd.len()
        invariant
            k <= nd.len(),
            i + nd.len() <= h.len(),
            forall|m: int| 0 <= m < k ==> h@[i + m] == nd@[m],
        decreases nd.len() - k,
    {
        if h[i + k] != nd[k] {
            assert(h@.subrange(i as int, i + nd.len())[k as int] != nd@[k as int]);
            return false;
        }
        k += 1;
    }
    assert(h@.subrange(i as int, i + nd.len()) =~= nd@);
    true
}

/// Whether `needle` occurs in `hay` (`str::contains` with a string pattern).
pub fn contains_str(hay: &str, needle: &str) -> (b: bool)
    ensures
        b == contains(hay@, needle@),
{
    let h = chars_of(hay);
    let nd = chars_of(needle);
    if nd.len() > h.len() {
        assert forall|k: int| !occurs_at(hay@, needle@, k) by {}
        return false;
    }
    let last = h.len() - nd.len();
    let mut i: usize = 0;
    while i <= last
        invariant
            last == h.len() - nd.len(),
            nd.len() <= h.len(),
            h@ == hay@,
            nd@ == needle@,
            forall|k: int| 0 <= k < i ==> !occurs_at(hay@, needle@, k),
        decreases last + 1 - i,
    {
        if matches_at(&h, &nd, i) {
            assert(occurs_at(hay@, needle@, i as int));
            return true;
        }
        if i == last {
            assert forall|k: int| !occurs_at(hay@, needle@, k) by {}
            return false;
        }
        i += 1;
    }
    assert forall|k: int| !occurs_at(hay@, needle@, k) by {}
    false
}

/// Whether `a` and `b` hold the same characters.
pub fn str_eq(a: &str, b: &str) -> (r: bool)
    ensures
        r == (a@ == b@),
{
    let x = chars_of(a);
    let y = chars_of(b);
    if x.len() != y.len() {
        return false;
    }
    let r = matches_at(&x, &y, 0);
    assert(x@.subrange(0, y.len() as int) =~= x@);
    r
}

/// `s` without the prefix `p`, when `s` starts with `p` (`str::strip_prefix`).
pub fn strip_prefix(s: &str, p: &str) -> (r: Option<String>)
    ensures
        r is Some <==> starts_with(s@, p@),
        r matches Some(rest) ==> rest@ == s@.skip(p@.len() as int),
{
    let cs = chars_of(s);
    let ps = chars_of(p);
    if ps.len() > cs.len() {
        return None;
    }
    if matches_at(&cs, &ps, 0) {
        assert(cs@.subrange(0, ps.len() as int) =~= cs@.take(ps.len() as int));
        let n = cs.len();
        let rest = string_of(&cs, ps.len(), n);
        assert(rest@ =~= s@.skip(p@.len() as int));
        Some(rest)
    } else {
        assert(cs@.subrange(0, ps.len() as int) =~= cs@.take(ps.len() as int));
        None
    }
}


// ---------------------------------------------------------------------------
// Decimal numbers
// ---------------------------------------------------------------------------

/// Why a string is not a `u32` (the kinds of std's `ParseIntError` that
/// parsing an unsigned integer can give).
#[derive(Clone, Copy, Debug, PartialEq, Eq, Structural)]
pub enum IntErrorKind {
    Empty,
    InvalidDigit,
    PosOverflow,
}

/// An ASCII decimal digit.
pub open spec fn is_digit(c: char) -> bool {
    48 <= c as u32 <= 57
}

/// The value of an ASCII decimal digit.
pub open spec fn digit_value(c: char) -> nat {
    (c as u32 - 48) as nat
}

/// The ASCII digit for `d < 10`.
pub open spec fn digit_char(d: nat) -> char {
    (d + 48) as char
}

/// The decimal notation of `n`, without sign or leading zeros.
pub open spec fn decimal(n: nat) -> Seq<char>
    decreases n,
{
    if n < 10 {
        seq![digit_char(n)]
    } else {
        decimal(n / 10).push(digit_char(n % 10))
    }
}

/// Number of leading ASCII digits of `s`.
pub open spec fn leading_digits(s: Seq<char>) -> nat
    decreases s.len(),
{
    if s.len() > 0 && is_digit(s[0]) {
        1 + leading_digits(s.drop_first())
    } else {
        0
    }
}

/// The number that the digits `s` spell.
pub open spec fn digits_value(s: Seq<char>) -> nat
    decreases s.len(),
{
    if s.len() == 0 {
        0
    } else {
        digits_value(s.drop_last()) * 10 + digit_value(s.last())
    }
}

/// What std's `str::parse::<u32>` gives: an optional `+`, then decimal digits
/// only; a character that is not a digit is reported unless the digits before it
/// already exceed `u32::MAX`.
pub open spec fn parse_u32_spec(s: Seq<char>) -> Result<u32, IntErrorKind> {
    if s.len() == 0 {
        Err(IntErrorKind::Empty)
    } else if s.len() == 1 && (s[0] == '+' || s[0] == '-') {
        Err(IntErrorKind::InvalidDigit)
    } else {
        let d = if s[0] == '+' {
            s.drop_first()
        } else {
            s
        };
        let k = leading_digits(d);
        if digits_value(d.take(k as int)) > u32::MAX {
            Err(IntErrorKind::PosOverflow)
        } else if k < d.len() {
            Err(IntErrorKind::InvalidDigit)
        } else {
            Ok(digits_value(d) as u32)
        }
    }
}

pub proof fn lemma_leading_digits_bounds(s: Seq<char>)
    ensures
        leading_digits(s) <= s.len(),
        forall|i: int| 0 <= i < leading_digits(s) ==> is_digit(#[trigger] s[i]),
        leading_digits(s) < s.len() ==> !is_digit(s[leading_digits(s) as int]),
    decreases s.len(),
{
    if s.len() > 0 && is_digit(s[0]) {
        lemma_leading_digits_bounds(s.drop_first());
        assert forall|i: int| 0 <= i < leading_digits(s) implies is_digit(#[trigger] s[i]) by {
            if i > 0 {
                assert(s[i] == s.drop_first()[i - 1]);
            }
        }
    }
}

/// A string of digits only has all of its characters as leading digits.
pub proof fn lemma_all_digits(s: Seq<char>)
    requires
        forall|i: int| 0 <= i < s.len() ==> is_digit(#[trigger] s[i]),
    ensures
        leading_digits(s) == s.len(),
    decreases s.len(),
{
    if s.len() > 0 {
        assert forall|i: int| 0 <= i < s.drop_first().len() implies is_digit(
            #[trigger] s.drop_first()[i],
        ) by {
            assert(s.drop_first()[i] == s[i + 1]);
        }
        lemma_all_digits(s.drop_first());
    }
}

/// Longer digit prefixes never spell smaller numbers.
pub proof fn lemma_digits_value_prefix_mono(s: Seq<char>, i: int, j: int)
    requires
        0 <= i <= j <= s.len(),
    ensures
        digits_value(s.take(i)) <= digits_value(s.take(j)),
    decreases j - i,
{
    if i < j {
        lemma_digits_value_prefix_mono(s, i, j - 1);
        assert(s.take(j).drop_last() =~= s.take(j - 1));
    }
}

/// The decimal notation of `n` is made of digits and spells `n`.
pub proof fn lemma_decimal(n: nat)
    ensures
        decimal(n).len() >= 1,
        forall|i: int| 0 <= i < decimal(n).len() ==> is_digit(#[trigger] decimal(n)[i]),
        digits_value(decimal(n)) == n,
    decreases n,
{
    assert(seq![digit_char(n)].drop_last() =~= Seq::<char>::empty());
    if n < 10 {
        assert(digit_value(digit_char(n)) == n);
        assert(digits_value(decimal(n)) == digits_value(Seq::<char>::empty()) * 10 + digit_value(
            digit_char(n),
        ));
    }
    if n >= 10 {
        lemma_decimal(n / 10);
        let d = decimal(n / 10);
        assert(d.push(digit_char(n % 10)).drop_last() =~= d);
        assert(digit_value(digit_char(n % 10)) == n % 10);
        assert((n / 10) * 10 + n % 10 == n);
        assert forall|i: int| 0 <= i < decimal(n).len() implies is_digit(
            #[trigger] decimal(n)[i],
        ) by {
            if i < d.len() {
                assert(decimal(n)[i] == d[i]);
            }
        }
    }
}

/// Parsing the decimal notation of a `u32` gives it back.
pub proof fn lemma_parse_decimal(n: u32)
    ensures
        parse_u32_spec(decimal(n as nat)) == Ok::<u32, IntErrorKind>(n),
{
    let s = decimal(n as nat);
    lemma_decimal(n as nat);
    lemma_all_digits(s);
    assert(is_digit(s[0]));
    assert(s.take(s.len() as int) =~= s);
}

/// Appends the decimal notation of `n` to `out`.
pub fn push_decimal(out: &mut String, n: u64)
    ensures
        final(out)@ == old(out)@ + decimal(n as nat),
    decreases n,
{
    let ghost start = out@;
    if n >= 10 {
        push_decimal(out, n / 10);
    }
    let d = (n % 10) as u8;
    let c = (d + 48) as char;
    assert(c == digit_char((n % 10) as nat));
    push_char(out, c);
    if n >= 10 {
        assert(start + decimal((n / 10) as nat).push(c) =~= (start + decimal((n / 10) as nat)).push(c));
    } else {
        assert(start + seq![c] =~= start.push(c));
    }
}

/// The decimal notation of `n`.
pub fn decimal_string(n: u64) -> (r: String)
    ensures
        r@ == decimal(n as nat),
{
    let mut r = String::new();
    push_decimal(&mut r, n);
    assert(Seq::<char>::empty() + decimal(n as nat) =~= decimal(n as nat));
    r
}

/// `s` as a `u32` (std's `str::parse::<u32>`).
pub fn parse_u32(s: &str) -> (r: Result<u32, IntErrorKind>)
    ensures
        r == parse_u32_spec(s@),
{
    let cs = chars_of(s);
    let n = cs.len();
    if n == 0 {
        return Err(IntErrorKind::Empty);
    }
    if n == 1 && (cs[0] == '+' || cs[0] == '-') {
        return Err(IntErrorKind::InvalidDigit);
    }
    let start: usize = if cs[0] == '+' {
        1
    } else {
        0
    };
    let ghost d = if cs@[0] == '+' {
        cs@.drop_first()
    } else {
        cs@
    };
    assert(d =~= cs@.skip(start as int));
    proof {
        lemma_leading_digits_bounds(d);
    }
    let mut acc: u64 = 0;
    let mut i = start;
    assert(d.take(0) =~= Seq::<char>::empty());
    while i < n
        invariant
            start <= i <= n == cs.len(),
            d == cs@.skip(start as int),
            d == (if cs@[0] == '+' { cs@.drop_first() } else { cs@ }),
            s@ == cs@,
            forall|m: int| 0 <= m < i - start ==> is_digit(#[trigger] d[m]),
            acc == digits_value(d.take(i - start)),
            acc <= u32::MAX,
            leading_digits(d) <= d.len(),
            forall|m: int| 0 <= m < leading_digits(d) ==> is_digit(#[trigger] d[m]),
            leading_digits(d) < d.len() ==> !is_digit(d[leading_digits(d) as int]),
        decreases n - i,
    {
        let c = cs[i];
        let v = c as u32;
        assert(d[i - start] == c);
        if v < 48 || v > 57 {
            // The first character that is not a digit.
            assert(leading_digits(d) == i - start) by {
                if leading_digits(d) < i - start {
                    assert(is_digit(d[leading_digits(d) as int]));
                }
            }
            return Err(IntErrorKind::InvalidDigit);
        }
        acc = acc * 10 + (v - 48) as u64;
        assert(d.take(i - start + 1).drop_last() =~= d.take(i - start));
        if acc > 4294967295 {
            proof {
                if leading_digits(d) < i - start + 1 {
                    assert(is_digit(d[leading_digits(d) as int]));
                }
                lemma_digits_value_prefix_mono(d, i - start + 1, leading_digits(d) as int);
            }
            return Err(IntErrorKind::PosOverflow);
        }
        i += 1;
    }
    proof {
        lemma_all_digits(d);
        assert(d.take(d.len() as int) =~= d);
    }
    Ok(acc as u32)
}


// ---------------------------------------------------------------------------
// Joining and concatenating
// ---------------------------------------------------------------------------

/// The words of `ws` separated by single spaces (`[&str]::join(" ")`).
pub open spec fn join_spaced(ws: Seq<Seq<char>>) -> Seq<char>
    decreases ws.len(),
{
    if ws.len() == 0 {
        seq![]
    } else if ws.len() == 1 {
        ws[0]
    } else {
        join_spaced(ws.drop_last()) + seq![' '] + ws.last()
    }
}

/// Appends the characters of `t` to `out`.
pub fn append_str(out: &mut String, t: &str)
    ensures
        final(out)@ == old(out)@ + t@,
{
    let cs = chars_of(t);
    let ghost start = out@;
    let mut i: usize = 0;
    while i < cs.len()
        invariant
            i <= cs.len(),
            cs@ == t@,
            out@ == start + cs@.take(i as int),
        decreases cs.len() - i,
    {
        push_char(out, cs[i]);
        assert(cs@.take(i + 1) =~= cs@.take(i as int).push(cs@[i as int]));
        i += 1;
    }
    assert(cs@.take(cs.len() as int) =~= cs@);
}

/// `a` followed by `b`.
pub fn concat_strs(a: &str, b: &str) -> (r: String)
    ensures
        r@ == a@ + b@,
{
    let mut r = String::new();
    append_str(&mut r, a);
    append_str(&mut r, b);
    assert(Seq::<char>::empty() + a@ =~= a@);
    r
}

/// `a`, `b` and `c` one after the other.
pub fn concat3_strs(a: &str, b: &str, c: &str) -> (r: String)
    ensures
        r@ == a@ + b@ + c@,
{
    let mut r = concat_strs(a, b);
    append_str(&mut r, c);
    r
}

/// The strings of `ws` separated by single spaces.
pub fn join_spaced_strings(ws: &Vec<String>) -> (r: String)
    ensures
        r@ == join_spaced(ws.deep_view()),
{
    let mut r = String::new();
    let mut i: usize = 0;
    while i < ws.len()
        invariant
            i <= ws.len(),
            r@ == join_spaced(ws.deep_view().take(i as int)),
        decreases ws.len() - i,
    {
        let ghost before = r@;
        assert(ws.deep_view().take(i + 1).drop_last() =~= ws.deep_view().take(i as int));
        if i > 0 {
            push_char(&mut r, ' ');
        } else {
            assert(ws.deep_view().take(0) =~= Seq::<Seq<char>>::empty());
        }
        append_str(&mut r, ws[i].as_str());
        proof {
            let t = ws.deep_view().take(i + 1);
            assert(t.last() == ws[i as int]@);
            if i == 0 {
                assert(before =~= Seq::<char>::empty());
                assert(r@ =~= t[0]);
            }
        }
        i += 1;
    }
    assert(ws.deep_view().take(ws.len() as int) =~= ws.deep_view());
    r
}


/// `s` without leading whitespace (`str::trim_start`).
pub fn trim_start_str(s: &str) -> (r: String)
    ensures
        r@ == trim_start(s@),
{
    let cs = chars_of(s);
    let n = cs.len();
    assert(cs@.subrange(0, n as int) =~= cs@);
    let i = skip_ws(&cs, 0, n);
    string_of(&cs, i, n)
}

/// What is left after trimming the front starts with a non-whitespace character,
/// and is a suffix of the input.
pub proof fn lemma_trim_start(s: Seq<char>)
    ensures
        trim_start(s).len() <= s.len(),
        trim_start(s) == s.skip(s.len() - trim_start(s).len()),
        trim_start(s).len() > 0 ==> !is_ws(trim_start(s)[0]),
        forall|i: int| 0 <= i < s.len() - trim_start(s).len() ==> is_ws(#[trigger] s[i]),
    decreases s.len(),
{
    if s.len() > 0 && is_ws(s[0]) {
        lemma_trim_start(s.drop_first());
        assert(s.drop_first().skip(s.drop_first().len() - trim_start(s).len()) =~= s.skip(
            s.len() - trim_start(s).len(),
        ));
        assert forall|i: int| 0 <= i < s.len() - trim_start(s).len() implies is_ws(
            #[trigger] s[i],
        ) by {
            if i > 0 {
                assert(s[i] == s.drop_first()[i - 1]);
            }
        }
    } else {
        assert(s.skip(0) =~= s);
    }
}

/// A text whose first character is not whitespace has a first word, which
/// starts it.
pub proof fn lemma_words_head(s: Seq<char>)
    requires
        s.len() > 0,
        !is_ws(s[0]),
    ensures
        words(s).len() >= 1,
        words(s)[0] == s.take(word_len(s) as int),
{
    lemma_word_len_bounds(s);
}


// ---------------------------------------------------------------------------
// Facts about words and trimming
// ---------------------------------------------------------------------------

/// Every word is non-empty and holds no whitespace.
pub proof fn lemma_words_are_words(s: Seq<char>)
    ensures
        forall|i: int| 0 <= i < words(s).len() ==> (#[trigger] words(s)[i]).len() > 0,
        forall|i: int, j: int|
            0 <= i < words(s).len() && 0 <= j < words(s)[i].len() ==> !is_ws(
                #[trigger] words(s)[i][j],
            ),
    decreases s.len(),
{
    if s.len() == 0 {
    } else if is_ws(s[0]) {
        lemma_words_are_words(s.drop_first());
        assert(words(s) == words(s.drop_first()));
    } else {
        lemma_word_len_bounds(s);
        let n = word_len(s);
        lemma_words_are_words(s.skip(n as int));
        let rest = words(s.skip(n as int));
        assert(words(s) == seq![s.take(n as int)] + rest);
        assert forall|i: int| 0 <= i < words(s).len() implies (#[trigger] words(s)[i]).len()
            > 0 by {
            if i > 0 {
                assert(words(s)[i] == rest[i - 1]);
            }
        }
        assert forall|i: int, j: int|
            0 <= i < words(s).len() && 0 <= j < words(s)[i].len() implies !is_ws(
            #[trigger] words(s)[i][j],
        ) by {
            if i > 0 {
                assert(words(s)[i] == rest[i - 1]);
            } else {
                assert(words(s)[0][j] == s[j]);
            }
        }
    }
}

/// A blank text has no words.
pub proof fn lemma_words_blank(t: Seq<char>)
    requires
        is_blank(t),
    ensures
        words(t) == Seq::<Seq<char>>::empty(),
    decreases t.len(),
{
    if t.len() > 0 {
        assert(is_ws(t[0]));
        assert forall|i: int| 0 <= i < t.drop_first().len() implies is_ws(
            #[trigger] t.drop_first()[i],
        ) by {
            assert(t.drop_first()[i] == t[i + 1]);
        }
        lemma_words_blank(t.drop_first());
    }
}

/// A run without whitespace, followed by nothing or by whitespace, is a word.
pub proof fn lemma_word_len_run(x: Seq<char>, y: Seq<char>)
    requires
        forall|i: int| 0 <= i < x.len() ==> !is_ws(#[trigger] x[i]),
        y.len() == 0 || is_ws(y[0]),
    ensures
        word_len(x + y) == x.len(),
    decreases x.len(),
{
    if x.len() == 0 {
        assert(x + y =~= y);
    } else {
        assert((x + y).drop_first() =~= x.drop_first() + y);
        assert forall|i: int| 0 <= i < x.drop_first().len() implies !is_ws(
            #[trigger] x.drop_first()[i],
        ) by {
            assert(x.drop_first()[i] == x[i + 1]);
        }
        lemma_word_len_run(x.drop_first(), y);
    }
}

/// The words of a run without whitespace followed by a blank tail: the run alone.
pub proof fn lemma_words_single(x: Seq<char>, tail: Seq<char>)
    requires
        x.len() > 0,
        forall|i: int| 0 <= i < x.len() ==> !is_ws(#[trigger] x[i]),
        is_blank(tail),
    ensures
        words(x + tail) == seq![x],
{
    let s = x + tail;
    lemma_word_len_run(x, tail);
    assert(!is_ws(s[0]));
    assert(s.take(x.len() as int) =~= x);
    assert(s.skip(x.len() as int) =~= tail);
    lemma_words_blank(tail);
    assert(words(s) == seq![x] + words(tail));
    assert(seq![x] + Seq::<Seq<char>>::empty() =~= seq![x]);
}

/// Trailing blanks after a text that ends in a non-whitespace character are
/// what trimming the end removes.
pub proof fn lemma_trim_end_blank_tail(x: Seq<char>, tail: Seq<char>)
    requires
        x.len() > 0,
        !is_ws(x.last()),
        is_blank(tail),
    ensures
        trim_end(x + tail) == x,
    decreases tail.len(),
{
    if tail.len() == 0 {
        assert(x + tail =~= x);
    } else {
        assert((x + tail).last() == tail.last());
        assert(is_ws(tail[tail.len() - 1]));
        assert((x + tail).drop_last() =~= x + tail.drop_last());
        assert forall|i: int| 0 <= i < tail.drop_last().len() implies is_ws(
            #[trigger] tail.drop_last()[i],
        ) by {
            assert(tail.drop_last()[i] == tail[i]);
        }
        lemma_trim_end_blank_tail(x, tail.drop_last());
    }
}

/// Decimal digits are not whitespace.
pub proof fn lemma_decimal_no_ws(n: nat)
    ensures
        decimal(n).len() > 0,
        forall|i: int| 0 <= i < decimal(n).len() ==> !is_ws(#[trigger] decimal(n)[i]),
{
    lemma_decimal(n);
    assert forall|i: int| 0 <= i < decimal(n).len() implies !is_ws(#[trigger] decimal(n)[i]) by {
        assert(is_digit(decimal(n)[i]));
    }
}


/// Leading whitespace does not change the words.
pub proof fn lemma_words_trim_start(s: Seq<char>)
    ensures
        words(trim_start(s)) == words(s),
    decreases s.len(),
{
    if s.len() > 0 && is_ws(s[0]) {
        lemma_words_trim_start(s.drop_first());
    }
}

/// What occurs in a suffix occurs in the whole.
pub proof fn lemma_contains_skip(s: Seq<char>, k: int, n: Seq<char>)
    requires
        0 <= k <= s.len(),
        contains(s.skip(k), n),
    ensures
        contains(s, n),
{
    let i = choose|i: int| occurs_at(s.skip(k), n, i);
    assert(s.subrange(i + k, i + k + n.len()) =~= s.skip(k).subrange(i, i + n.len()));
    assert(occurs_at(s, n, i + k));
}

/// A pattern that starts with a character other than whitespace occurs in a
/// text exactly when it occurs in the text without its leading whitespace.
pub proof fn lemma_contains_trim_start(s: Seq<char>, n: Seq<char>)
    requires
        n.len() > 0,
        !is_ws(n[0]),
    ensures
        contains(trim_start(s), n) <==> contains(s, n),
{
    lemma_trim_start(s);
    let k = s.len() - trim_start(s).len();
    if contains(trim_start(s), n) {
        lemma_contains_skip(s, k, n);
    }
    if contains(s, n) {
        let i = choose|i: int| occurs_at(s, n, i);
        assert(s.subrange(i, i + n.len())[0] == s[i]);
        assert(!is_ws(s[i]));
        assert(i >= k);
        assert(trim_start(s).subrange(i - k, i - k + n.len()) =~= s.subrange(i, i + n.len()));
        assert(occurs_at(trim_start(s), n, i - k));
    }
}


/// Trimming the end keeps a prefix, removes only whitespace, and leaves a
/// text that is empty or ends in a character other than whitespace.
pub proof fn law_trim_end_shape(s: Seq<char>)
    ensures
        trim_end(s).len() <= s.len(),
        trim_end(s) == s.take(trim_end(s).len() as int),
        forall|i: int| trim_end(s).len() <= i < s.len() ==> is_ws(#[trigger] s[i]),
        trim_end(s).len() == 0 || !is_ws(trim_end(s).last()),
    decreases s.len(),
{
    if s.len() > 0 && is_ws(s.last()) {
        law_trim_end_shape(s.drop_last());
        assert(s.drop_last().take(trim_end(s).len() as int) =~= s.take(trim_end(s).len() as int));
        assert forall|i: int| trim_end(s).len() <= i < s.len() implies is_ws(#[trigger] s[i]) by {
            if i < s.len() - 1 {
                assert(s[i] == s.drop_last()[i]);
            }
        }
    } else {
        assert(s.take(s.len() as int) =~= s);
    }
}

/// Trimming keeps a contiguous part of the text, removes only whitespace on
/// both sides, and leaves a text that is empty or begins and ends with
/// characters other than whitespace.
pub proof fn law_trim_shape(s: Seq<char>)
    ensures
        exists|a: int|
            0 <= a && a + trim(s).len() <= s.len() && #[trigger] s.subrange(a, a + trim(s).len())
                == trim(s) && (forall|i: int| 0 <= i < a ==> is_ws(#[trigger] s[i])) && (forall|
                i: int,
            |
                a + trim(s).len() <= i < s.len() ==> is_ws(#[trigger] s[i])),
        trim(s).len() == 0 || (!is_ws(trim(s)[0]) && !is_ws(trim(s).last())),
{
    lemma_trim_start(s);
    let u = trim_start(s);
    let a = s.len() - u.len();
    law_trim_end_shape(u);
    let t = trim_end(u);
    assert(s.subrange(a, a + t.len()) =~= t);
    assert forall|i: int| a + t.len() <= i < s.len() implies is_ws(#[trigger] s[i]) by {
        assert(s[i] == u[i - a]);
    }
    if t.len() > 0 {
        assert(t[0] == u[0]);
    }
    assert(s.subrange(a, a + trim(s).len()) == trim(s));
}

} // verus!
