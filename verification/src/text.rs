use vstd::prelude::*;

verus! {

broadcast use vstd::string::group_string_axioms;

/// The characters with the Unicode `White_Space` property.
pub open spec fn is_white_space(c: char) -> bool {
    let n = c as u32;
    ||| 0x09 <= n <= 0x0D
    ||| n == 0x20
    ||| n == 0x85
    ||| n == 0xA0
    ||| n == 0x1680
    ||| 0x2000 <= n <= 0x200A
    ||| n == 0x2028
    ||| n == 0x2029
    ||| n == 0x202F
    ||| n == 0x205F
    ||| n == 0x3000
}

/// `char::is_whitespace` of std, which the documentation defines as the
/// Unicode `White_Space` property; the contract lists those code points.
#[verifier::external_body]
fn char_is_whitespace(c: char) -> (r: bool)
    ensures
        r == is_white_space(c),
{
    c.is_whitespace()
}

/// The characters of `s`, in order.
pub fn chars_of(s: &str) -> (r: Vec<char>)
    ensures
        r@ == s@,
{
    let n = s.unicode_len();
    let mut out: Vec<char> = Vec::new();
    let mut i: usize = 0;
    while i < n
        invariant
            n == s@.len(),
            i <= n,
            out@ == s@.take(i as int),
        decreases n - i,
    {
        let c = s.get_char(i);
        out.push(c);
        proof {
            assert(s@.take(i + 1) =~= s@.take(i as int).push(c));
        }
        i = i + 1;
    }
    proof {
        assert(s@.take(n as int) =~= s@);
    }
    out
}

/// The length of the run of non-white-space characters that `s` starts with.
pub open spec fn word_len(s: Seq<char>) -> nat
    decreases s.len(),
{
    if s.len() == 0 || is_white_space(s[0]) {
        0
    } else {
        1 + word_len(s.drop_first())
    }
}

pub proof fn lemma_word_len_bounds(s: Seq<char>)
    ensures
        word_len(s) <= s.len(),
        s.len() > 0 && !is_white_space(s[0]) ==> word_len(s) >= 1,
    decreases s.len(),
{
    if s.len() > 0 && !is_white_space(s[0]) {
        lemma_word_len_bounds(s.drop_first());
    }
}

/// The words of `s`: its maximal runs of non-white-space characters, in
/// order.
pub open spec fn words(s: Seq<char>) -> Seq<Seq<char>>
    decreases s.len(),
{
    if s.len() == 0 {
        seq![]
    } else if is_white_space(s[0]) {
        words(s.drop_first())
    } else {
        proof {
            lemma_word_len_bounds(s);
        }
        seq![s.take(word_len(s) as int)] + words(s.skip(word_len(s) as int))
    }
}

/// A run of non-white-space characters that ends at white space or at the
/// end of `s` is the whole first word.
proof fn lemma_word_len_run(s: Seq<char>, j: int)
    requires
        0 <= j <= s.len(),
        forall|k: int| 0 <= k < j ==> !is_white_space(#[trigger] s[k]),
        j == s.len() || is_white_space(s[j]),
    ensures
        word_len(s) == j,
    decreases j,
{
    if j > 0 {
        let t = s.drop_first();
        assert forall|k: int| 0 <= k < j - 1 implies !is_white_space(#[trigger] t[k]) by {
            assert(t[k] == s[k + 1]);
        }
        if j < s.len() {
            assert(t[j - 1] == s[j]);
        }
        lemma_word_len_run(t, j - 1);
    }
}

/// The view of each string of `v`.
pub open spec fn views(v: Seq<String>) -> Seq<Seq<char>> {
    v.map_values(|w: String| w@)
}

/// Splits `s` into its words, as `str::split_whitespace` does.
pub fn split_words(s: &str) -> (r: Vec<String>)
    ensures
        views(r@) == words(s@),
{
    let chars = chars_of(s);
    let n = chars.len();
    let mut out: Vec<String> = Vec::new();
    let mut i: usize = 0;
    proof {
        assert(s@.skip(0) =~= s@);
        assert(views(out@) + words(s@) =~= words(s@));
    }
    while i < n
        invariant
            chars@ == s@,
            n == s@.len(),
            i <= n,
            words(s@) == views(out@) + words(s@.skip(i as int)),
        decreases n - i,
    {
        let ghost rest = s@.skip(i as int);
        if char_is_whitespace(chars[i]) {
            proof {
                assert(rest.drop_first() =~= s@.skip(i + 1));
            }
            i = i + 1;
        } else {
            let mut j: usize = i + 1;
            while j < n && !char_is_whitespace(chars[j])
                invariant
                    chars@ == s@,
                    n == s@.len(),
                    i < j <= n,
                    !is_white_space(s@[i as int]),
                    forall|k: int| i <= k < j ==> !is_white_space(#[trigger] s@[k]),
                decreases n - j,
            {
                j = j + 1;
            }
            let word = s.substring_char(i, j).to_owned();
            proof {
                assert forall|k: int| 0 <= k < j - i implies !is_white_space(#[trigger] rest[k]) by {
                    assert(rest[k] == s@[i + k]);
                }
                if j < n {
                    assert(rest[j - i] == s@[j as int]);
                }
                lemma_word_len_run(rest, j - i);
                assert(rest.take(j - i) =~= s@.subrange(i as int, j as int));
                assert(rest.skip(j - i) =~= s@.skip(j as int));
            }
            let ghost before = out@;
            out.push(word);
            proof {
                assert(views(out@) =~= views(before).push(word@));
                assert(views(before) + words(rest) =~= views(out@) + words(s@.skip(j as int)));
            }
            i = j;
        }
    }
    proof {
        assert(s@.skip(n as int) =~= Seq::<char>::empty());
        assert(views(out@) + seq![] =~= views(out@));
    }
    out
}

/// Whether `p` occurs in `s` as a run of consecutive characters.
pub open spec fn has_infix(s: Seq<char>, p: Seq<char>) -> bool {
    exists|i: int| 0 <= i && i + p.len() <= s.len() && #[trigger] occurs(s, p, i)
}

/// Whether `p` occurs in `s` starting at position `i`.
pub open spec fn occurs(s: Seq<char>, p: Seq<char>, i: int) -> bool {
    s.subrange(i, i + p.len()) == p
}

/// Whether `s` begins with `p`.
pub open spec fn has_prefix(s: Seq<char>, p: Seq<char>) -> bool {
    p.len() <= s.len() && s.subrange(0, p.len() as int) == p
}

/// Whether `p` occurs in `s` at position `at`.
fn occurs_at(s: &Vec<char>, p: &Vec<char>, at: usize) -> (r: bool)
    requires
        at + p@.len() <= s@.len(),
    ensures
        r == (s@.subrange(at as int, at + p@.len()) == p@),
{
    let m = p.len();
    let n = s.len();
    let mut k: usize = 0;
    while k < m
        invariant
            m == p@.len(),
            n == s@.len(),
            at + m <= s@.len(),
            k <= m,
            forall|t: int| 0 <= t < k ==> s@[at + t] == p@[t],
        decreases m - k,
    {
        if s[at + k] != p[k] {
            proof {
                let sub = s@.subrange(at as int, at + m);
                assert(sub[k as int] != p@[k as int]);
            }
            return false;
        }
        k = k + 1;
    }
    proof {
        assert(s@.subrange(at as int, at + m) =~= p@);
    }
    true
}

/// Whether `p` occurs in `s`, as `str::contains` with a string pattern.
pub fn contains_chars(s: &Vec<char>, p: &Vec<char>) -> (r: bool)
    ensures
        r == has_infix(s@, p@),
{
    let n = s.len();
    let m = p.len();
    if m > n {
        return false;
    }
    if m == 0 {
        proof {
            assert(s@.subrange(0, 0) =~= p@);
            assert(occurs(s@, p@, 0));
        }
        return true;
    }
    let mut i: usize = 0;
    while i <= n - m
        invariant
            n == s@.len(),
            m == p@.len(),
            0 < m <= n,
            i <= n - m + 1,
            forall|j: int| 0 <= j < i ==> !#[trigger] occurs(s@, p@, j),
        decreases n - m + 1 - i,
    {
        if occurs_at(s, p, i) {
            proof {
                assert(occurs(s@, p@, i as int));
            }
            return true;
        }
        i = i + 1;
    }
    false
}

/// Whether `s` begins with `p`, as `str::starts_with` with a string pattern.
pub fn starts_with_chars(s: &Vec<char>, p: &Vec<char>) -> (r: bool)
    ensures
        r == has_prefix(s@, p@),
{
    if p.len() > s.len() {
        return false;
    }
    occurs_at(s, p, 0)
}

/// Whether `c` is one of the ten decimal digits.
pub open spec fn is_digit(c: char) -> bool {
    '0' <= c <= '9'
}

/// Whether every character of `s` is a decimal digit.
pub open spec fn all_digits(s: Seq<char>) -> bool {
    forall|i: int| 0 <= i < s.len() ==> is_digit(#[trigger] s[i])
}

/// The number that a run of decimal digits spells.
pub open spec fn digits_value(s: Seq<char>) -> int
    decreases s.len(),
{
    if s.len() == 0 {
        0
    } else {
        digits_value(s.drop_last()) * 10 + (s.last() as int - '0' as int)
    }
}

/// What `str::parse::<i32>` gives: an optional `+` or `-` sign followed by
/// at least one decimal digit and nothing else, whose value fits in `i32`.
pub open spec fn parse_i32_spec(s: Seq<char>) -> Option<i32> {
    let negative = s.len() > 0 && s[0] == '-';
    let signed = s.len() > 0 && (s[0] == '-' || s[0] == '+');
    let digits = if signed { s.drop_first() } else { s };
    let value = if negative { -digits_value(digits) } else { digits_value(digits) };
    if digits.len() > 0 && all_digits(digits) && i32::MIN <= value <= i32::MAX {
        Some(value as i32)
    } else {
        None
    }
}

/// `str::parse::<i32>` of std, whose documentation (`i32::from_str_radix`
/// with radix 10) accepts an optional `+` or `-` followed by digits only and
/// fails on anything else or on a value out of range; the contract states
/// that, and maps the error to `None`.
#[verifier::external_body]
pub(crate) fn parse_i32(s: &str) -> (r: Option<i32>)
    ensures
        r == parse_i32_spec(s@),
{
    s.parse::<i32>().ok()
}

/// Whether `w` is a nonempty run of characters none of which is white
/// space.
pub open spec fn is_run(w: Seq<char>) -> bool {
    w.len() > 0 && forall|k: int| 0 <= k < w.len() ==> !is_white_space(#[trigger] w[k])
}

/// Every word is a nonempty run of characters none of which is white space.
pub proof fn lemma_words_are_runs(s: Seq<char>)
    ensures
        forall|i: int| 0 <= i < words(s).len() ==> is_run(#[trigger] words(s)[i]),
    decreases s.len(),
{
    if s.len() == 0 {
    } else if is_white_space(s[0]) {
        lemma_words_are_runs(s.drop_first());
        assert(words(s) == words(s.drop_first()));
    } else {
        let n = word_len(s) as int;
        lemma_word_len_bounds(s);
        lemma_word_len_is_run(s);
        lemma_words_are_runs(s.skip(n));
        let w = words(s);
        assert(w == seq![s.take(n)] + words(s.skip(n)));
        assert forall|i: int| 0 <= i < w.len() implies is_run(#[trigger] w[i]) by {
            if i > 0 {
                assert(w[i] == words(s.skip(n))[i - 1]);
            } else {
                assert(w[0] == s.take(n));
                assert forall|k: int| 0 <= k < n implies !is_white_space(#[trigger] s.take(n)[k]) by {
                    assert(s.take(n)[k] == s[k]);
                }
            }
        }
    }
}

/// The first `word_len(s)` characters of `s` are not white space.
proof fn lemma_word_len_is_run(s: Seq<char>)
    ensures
        forall|k: int| 0 <= k < word_len(s) ==> !is_white_space(#[trigger] s[k]),
    decreases s.len(),
{
    if s.len() > 0 && !is_white_space(s[0]) {
        let t = s.drop_first();
        lemma_word_len_bounds(s);
        lemma_word_len_is_run(t);
        assert forall|k: int| 0 <= k < word_len(s) implies !is_white_space(#[trigger] s[k]) by {
            if k > 0 {
                assert(s[k] == t[k - 1]);
            }
        }
    }
}

} // verus!
