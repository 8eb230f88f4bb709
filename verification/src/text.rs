//! Character-sequence helpers shared by the policy and prompt modules.
use vstd::prelude::*;
use vstd::string::*;
use vstd::utf8::{decode_utf8, encode_utf8, is_char_boundary};

verus! {

/// `p` occurs in `s` starting at index `i`.
pub open spec fn occurs_at(s: Seq<char>, p: Seq<char>, i: int) -> bool {
    &&& 0 <= i
    &&& i + p.len() <= s.len()
    &&& s.subrange(i, i + p.len()) == p
}

/// `p` occurs somewhere in `s`.
pub open spec fn contains_seq(s: Seq<char>, p: Seq<char>) -> bool {
    exists|i: int| occurs_at(s, p, i)
}

/// `p` is a prefix of `s`.
pub open spec fn starts_with_seq(s: Seq<char>, p: Seq<char>) -> bool {
    occurs_at(s, p, 0)
}

/// `p` is a suffix of `s`.
pub open spec fn ends_with_seq(s: Seq<char>, p: Seq<char>) -> bool {
    p.len() <= s.len() && occurs_at(s, p, s.len() - p.len())
}

/// Replace every non-overlapping occurrence of `p` in `s`, scanning left to right.
pub open spec fn replace_seq(s: Seq<char>, p: Seq<char>, r: Seq<char>) -> Seq<char>
    decreases s.len(),
{
    if p.len() == 0 || s.len() < p.len() {
        s
    } else if s.subrange(0, p.len() as int) == p {
        r + replace_seq(s.subrange(p.len() as int, s.len() as int), p, r)
    } else {
        seq![s[0]] + replace_seq(s.subrange(1, s.len() as int), p, r)
    }
}

/// Index of the last occurrence of `c` in `s`, or -1.
pub open spec fn last_index_of(s: Seq<char>, c: char) -> int
    decreases s.len(),
{
    if s.len() == 0 {
        -1
    } else if s.last() == c {
        s.len() - 1
    } else {
        last_index_of(s.drop_last(), c)
    }
}

/// Index of the first occurrence of `c` in `s`, or -1.
pub open spec fn first_index_of(s: Seq<char>, c: char) -> int
    decreases s.len(),
{
    if s.len() == 0 {
        -1
    } else if s[0] == c {
        0
    } else {
        let k = first_index_of(s.drop_first(), c);
        if k < 0 { -1 } else { k + 1 }
    }
}

/// The characters that `char::is_whitespace` accepts (Unicode White_Space).
pub open spec fn is_white(c: char) -> bool {
    let u = c as u32;
    ||| (0x09 <= u && u <= 0x0d)
    ||| u == 0x20
    ||| u == 0x85
    ||| u == 0xa0
    ||| u == 0x1680
    ||| (0x2000 <= u && u <= 0x200a)
    ||| u == 0x2028
    ||| u == 0x2029
    ||| u == 0x202f
    ||| u == 0x205f
    ||| u == 0x3000
}

/// Drop leading white space.
pub open spec fn trim_start_seq(s: Seq<char>) -> Seq<char>
    decreases s.len(),
{
    if s.len() > 0 && is_white(s[0]) {
        trim_start_seq(s.drop_first())
    } else {
        s
    }
}

/// Drop trailing white space.
pub open spec fn trim_end_seq(s: Seq<char>) -> Seq<char>
    decreases s.len(),
{
    if s.len() > 0 && is_white(s.last()) {
        trim_end_seq(s.drop_last())
    } else {
        s
    }
}

/// `str::trim`: white space removed at both ends.
pub open spec fn trim_seq(s: Seq<char>) -> Seq<char> {
    trim_end_seq(trim_start_seq(s))
}

/// Decimal digits of `n`, most significant first, without leading zeros ("0" for zero).
pub open spec fn decimal_seq(n: nat) -> Seq<char>
    decreases n,
{
    if n < 10 {
        seq![digit_char(n)]
    } else {
        decimal_seq(n / 10) + seq![digit_char(n % 10)]
    }
}

/// The decimal representation has at least one digit.
pub proof fn lemma_decimal_nonempty(n: nat)
    ensures
        decimal_seq(n).len() >= 1,
    decreases n,
{
    if n >= 10 {
        lemma_decimal_nonempty(n / 10);
    }
}

/// Different numbers have different decimal representations.
pub proof fn lemma_decimal_injective(a: nat, b: nat)
    requires
        decimal_seq(a) == decimal_seq(b),
    ensures
        a == b,
    decreases a,
{
    let da = decimal_seq(a);
    assert(da.last() == digit_char(a % 10));
    assert(decimal_seq(b).last() == digit_char(b % 10));
    if a < 10 && b >= 10 {
        lemma_decimal_nonempty(b / 10);
        assert(false);
    } else if a >= 10 && b < 10 {
        lemma_decimal_nonempty(a / 10);
        assert(false);
    } else if a >= 10 {
        assert(da.drop_last() =~= decimal_seq(a / 10));
        assert(decimal_seq(b).drop_last() =~= decimal_seq(b / 10));
        lemma_decimal_injective(a / 10, b / 10);
    }
}

pub open spec fn digit_char(d: nat) -> char {
    if d == 0 { '0' }
    else if d == 1 { '1' }
    else if d == 2 { '2' }
    else if d == 3 { '3' }
    else if d == 4 { '4' }
    else if d == 5 { '5' }
    else if d == 6 { '6' }
    else if d == 7 { '7' }
    else if d == 8 { '8' }
    else { '9' }
}

/// Join `parts` with `sep` between consecutive elements.
pub open spec fn join_seq(parts: Seq<Seq<char>>, sep: Seq<char>) -> Seq<char>
    decreases parts.len(),
{
    if parts.len() == 0 {
        Seq::empty()
    } else if parts.len() == 1 {
        parts[0]
    } else {
        join_seq(parts.drop_last(), sep) + sep + parts.last()
    }
}

/// Unicode lower-case mapping of a string, as `str::to_lowercase` computes it.
pub uninterp spec fn lowercase_of(s: Seq<char>) -> Seq<char>;

/// Unicode `Alphabetic` property of a character, as `char::is_alphabetic` reports it.
pub uninterp spec fn alphabetic_of(c: char) -> bool;

/// Unicode `Numeric` property of a character, as `char::is_numeric` reports it.
pub uninterp spec fn numeric_of(c: char) -> bool;

/// A character that is alphabetic or numeric.
pub open spec fn alnum_of(c: char) -> bool {
    alphabetic_of(c) || numeric_of(c)
}

/// The characters of `s`, in order.
pub fn chars_of(s: &str) -> (v: Vec<char>)
    ensures
        v@ == s@,
{
    broadcast use vstd::string::axiom_spec_iter;
    let mut v: Vec<char> = Vec::new();
    for c in it: s.chars()
        invariant
            it.seq() == s@,
            v@ == it.seq().take(it.index()),
    {
        v.push(c);
    }
    v
}

/// A `String` of the characters of `v`, in order.
pub fn string_of(v: &[char]) -> (s: String)
    ensures
        s@ == v@,
{
    let mut s = String::new();
    let mut i: usize = 0;
    while i < v.len()
        invariant
            i <= v.len(),
            s@ == v@.subrange(0, i as int),
        decreases v.len() - i,
    {
        push_char(&mut s, v[i]);
        i = i + 1;
        assert(s@ =~= v@.subrange(0, i as int));
    }
    assert(v@.subrange(0, v@.len() as int) =~= v@);
    s
}

/// The `Debug` text of a string, as std's `{:?}` writes it: quoted, with escapes.
pub uninterp spec fn debug_str_text(s: Seq<char>) -> Seq<char>;

/// Formats a string with std's `{:?}`; the text is named by `debug_str_text`.
#[verifier::external_body]
pub(crate) fn debug_str(s: &str) -> (r: String)
    ensures
        r@ == debug_str_text(s@),
{
    format!("{:?}", s)
}

/// The `Debug` text of a list of strings: each item's `Debug` text, separated by `", "`,
/// in square brackets, as std writes a `Vec<String>`.
pub open spec fn debug_list_text(items: Seq<Seq<char>>) -> Seq<char> {
    "["@ + join_seq(items.map_values(|x: Seq<char>| debug_str_text(x)), ", "@) + "]"@
}

/// The `Debug` text of a list of strings.
pub fn debug_list(items: &Vec<String>) -> (r: String)
    ensures
        r@ == debug_list_text(names_view(items@)),
{
    let mut parts: Vec<String> = Vec::new();
    let mut i: usize = 0;
    while i < items.len()
        invariant
            i <= items.len(),
            names_view(parts@) == names_view(items@).subrange(0, i as int).map_values(
                |x: Seq<char>| debug_str_text(x),
            ),
        decreases items.len() - i,
    {
        let d = debug_str(items[i].as_str());
        proof {
            lemma_names_push(parts@, d);
        }
        parts.push(d);
        i = i + 1;
        assert(names_view(parts@) =~= names_view(items@).subrange(0, i as int).map_values(
            |x: Seq<char>| debug_str_text(x),
        ));
    }
    assert(names_view(items@).subrange(0, items.len() as int) =~= names_view(items@));
    let mut r = concat2("[", join_strings(&parts, ", ").as_str());
    r.append("]");
    r
}

/// Calls `String::push`: appends one character.
#[verifier::external_body]
pub fn push_char(s: &mut String, c: char)
    ensures
        final(s)@ == old(s)@.push(c),
{
    s.push(c);
}

/// Every character is ASCII.
pub open spec fn is_ascii_seq(s: Seq<char>) -> bool {
    forall|i: int| 0 <= i < s.len() ==> (#[trigger] s[i] as u32) < 128
}

/// ASCII lower-case mapping of one character: `A`..`Z` become `a`..`z`, others stay.
pub open spec fn ascii_lower_char(c: char) -> char {
    if 65 <= (c as u32) <= 90 {
        ((c as u32) + 32) as char
    } else {
        c
    }
}

/// ASCII lower-case mapping of a string, character by character.
pub open spec fn ascii_lower(s: Seq<char>) -> Seq<char> {
    s.map_values(|c: char| ascii_lower_char(c))
}

/// Calls `str::to_lowercase`; the result is named by `lowercase_of`. On ASCII text the
/// Unicode lower-case mapping is the ASCII one, character by character; beyond ASCII
/// nothing more is stated.
#[verifier::external_body]
pub fn to_lowercase(s: &str) -> (r: String)
    ensures
        r@ == lowercase_of(s@),
        is_ascii_seq(s@) ==> r@ == ascii_lower(s@),
{
    s.to_lowercase()
}

/// Calls `char::is_alphabetic`; the answer is named by `alphabetic_of`.
#[verifier::external_body]
fn char_is_alphabetic(c: char) -> (b: bool)
    ensures
        b == alphabetic_of(c),
{
    c.is_alphabetic()
}

/// Calls `char::is_numeric`; the answer is named by `numeric_of`.
#[verifier::external_body]
fn char_is_numeric(c: char) -> (b: bool)
    ensures
        b == numeric_of(c),
{
    c.is_numeric()
}

/// Whether a character is alphabetic or numeric.
pub fn char_is_alnum(c: char) -> (b: bool)
    ensures
        b == alnum_of(c),
{
    char_is_alphabetic(c) || char_is_numeric(c)
}

/// A new `String` with the contents of `s`.
pub fn owned(s: &str) -> (r: String)
    ensures
        r@ == s@,
{
    s.to_owned()
}

/// Concatenation of two strings into a new one.
pub fn concat2(a: &str, b: &str) -> (r: String)
    ensures
        r@ == a@ + b@,
{
    let mut r = a.to_owned();
    r.append(b);
    r
}

/// Whether `p` occurs in `s` at index `i`.
pub fn occurs_at_exec(s: &Vec<char>, p: &Vec<char>, i: usize) -> (b: bool)
    ensures
        b == occurs_at(s@, p@, i as int),
{
    if i > s.len() || p.len() > s.len() - i {
        return false;
    }
    let mut k: usize = 0;
    while k < p.len()
        invariant
            i + p.len() <= s.len(),
            k <= p.len(),
            forall|j: int| 0 <= j < k ==> s@[i + j] == p@[j],
        decreases p.len() - k,
    {
        if s[i + k] != p[k] {
            proof {
                assert(s@.subrange(i as int, i + p.len())[k as int] != p@[k as int]);
            }
            return false;
        }
        k = k + 1;
    }
    assert(s@.subrange(i as int, i + p.len()) =~= p@);
    true
}

/// Whether `p` occurs anywhere in `s`.
pub fn contains_exec(s: &Vec<char>, p: &Vec<char>) -> (b: bool)
    ensures
        b == contains_seq(s@, p@),
{
    if p.len() == 0 {
        assert(s@.subrange(0, 0) =~= p@);
        assert(occurs_at(s@, p@, 0));
        return true;
    }
    let mut i: usize = 0;
    while i < s.len()
        invariant
            i <= s.len(),
            forall|j: int| 0 <= j < i ==> !occurs_at(s@, p@, j),
        decreases s.len() - i,
    {
        if occurs_at_exec(s, p, i) {
            return true;
        }
        i = i + 1;
    }
    assert forall|j: int| !occurs_at(s@, p@, j) by {
        if 0 <= j && j < i {
        }
    }
    false
}

/// Whether `p` is a prefix of `s`.
pub fn starts_with_exec(s: &Vec<char>, p: &Vec<char>) -> (b: bool)
    ensures
        b == starts_with_seq(s@, p@),
{
    occurs_at_exec(s, p, 0)
}

/// Whether `p` is a suffix of `s`.
pub fn ends_with_exec(s: &Vec<char>, p: &Vec<char>) -> (b: bool)
    ensures
        b == ends_with_seq(s@, p@),
{
    if p.len() > s.len() {
        return false;
    }
    occurs_at_exec(s, p, s.len() - p.len())
}

/// Whether the string `s` contains `p`.
pub fn str_contains(s: &str, p: &str) -> (b: bool)
    ensures
        b == contains_seq(s@, p@),
{
    let sv = chars_of(s);
    let pv = chars_of(p);
    contains_exec(&sv, &pv)
}

/// Whether the string `s` starts with `p`.
pub fn str_starts_with(s: &str, p: &str) -> (b: bool)
    ensures
        b == starts_with_seq(s@, p@),
{
    let sv = chars_of(s);
    let pv = chars_of(p);
    starts_with_exec(&sv, &pv)
}

/// Whether two strings hold the same characters.
pub fn str_eq(a: &str, b: &str) -> (r: bool)
    ensures
        r == (a@ == b@),
{
    let x = a.to_owned();
    let y = b.to_owned();
    x == y
}

/// Index of the last `c` in `s`, if any.
pub fn rfind_char(s: &Vec<char>, c: char) -> (r: Option<usize>)
    ensures
        match r {
            Some(i) => i as int == last_index_of(s@, c),
            None => last_index_of(s@, c) == -1,
        },
{
    let mut i: usize = s.len();
    assert(s@.subrange(0, i as int) =~= s@);
    while i > 0
        invariant
            i <= s.len(),
            last_index_of(s@, c) == last_index_of(s@.subrange(0, i as int), c),
        decreases i,
    {
        let ghost t = s@.subrange(0, i as int);
        assert(t.drop_last() =~= s@.subrange(0, i - 1));
        if s[i - 1] == c {
            return Some(i - 1);
        }
        i = i - 1;
    }
    None
}

/// Decimal representation of `n`.
pub fn decimal_string(n: u64) -> (s: String)
    ensures
        s@ == decimal_seq(n as nat),
    decreases n,
{
    let d = (n % 10) as u32;
    let c = if d == 0 { '0' } else if d == 1 { '1' } else if d == 2 { '2' } else if d == 3 {
        '3'
    } else if d == 4 { '4' } else if d == 5 { '5' } else if d == 6 { '6' } else if d == 7 {
        '7'
    } else if d == 8 { '8' } else { '9' };
    assert(c == digit_char((n % 10) as nat));
    if n < 10 {
        let mut s = String::new();
        push_char(&mut s, c);
        assert(s@ =~= seq![c]);
        s
    } else {
        let mut s = decimal_string(n / 10);
        push_char(&mut s, c);
        s
    }
}

/// `s` with white space removed at both ends.
pub fn trim_chars(s: &Vec<char>) -> (r: Vec<char>)
    ensures
        r@ == trim_seq(s@),
{
    let mut lo: usize = 0;
    assert(s@.subrange(0, s.len() as int) =~= s@);
    while lo < s.len() && is_white_exec(s[lo])
        invariant
            lo <= s.len(),
            trim_start_seq(s@) == trim_start_seq(s@.subrange(lo as int, s.len() as int)),
        decreases s.len() - lo,
    {
        let ghost t = s@.subrange(lo as int, s.len() as int);
        assert(t.drop_first() =~= s@.subrange(lo + 1, s.len() as int));
        lo = lo + 1;
    }
    let ghost mid = s@.subrange(lo as int, s.len() as int);
    assert(trim_start_seq(mid) == mid);
    let mut hi: usize = s.len();
    while hi > lo && is_white_exec(s[hi - 1])
        invariant
            lo <= hi <= s.len(),
            trim_end_seq(mid) == trim_end_seq(s@.subrange(lo as int, hi as int)),
        decreases hi,
    {
        let ghost t = s@.subrange(lo as int, hi as int);
        assert(t.drop_last() =~= s@.subrange(lo as int, hi - 1));
        hi = hi - 1;
    }
    let r = slice_chars(s, lo, hi);
    assert(trim_end_seq(r@) == r@);
    r
}

/// Whether `c` is white space, as `char::is_whitespace` decides.
pub fn is_white_exec(c: char) -> (b: bool)
    ensures
        b == is_white(c),
{
    let u = c as u32;
    (0x09 <= u && u <= 0x0d) || u == 0x20 || u == 0x85 || u == 0xa0 || u == 0x1680 || (0x2000
        <= u && u <= 0x200a) || u == 0x2028 || u == 0x2029 || u == 0x202f || u == 0x205f || u
        == 0x3000
}

/// The characters of `s` in `[lo, hi)`.
pub fn slice_chars(s: &Vec<char>, lo: usize, hi: usize) -> (r: Vec<char>)
    requires
        lo <= hi <= s.len(),
    ensures
        r@ == s@.subrange(lo as int, hi as int),
{
    let mut r: Vec<char> = Vec::new();
    let mut i = lo;
    while i < hi
        invariant
            lo <= i <= hi <= s.len(),
            r@ == s@.subrange(lo as int, i as int),
        decreases hi - i,
    {
        r.push(s[i]);
        i = i + 1;
        assert(r@ =~= s@.subrange(lo as int, i as int));
    }
    r
}

/// Appends all characters of `v` to `s`.
pub fn push_chars(s: &mut String, v: &Vec<char>)
    ensures
        final(s)@ == old(s)@ + v@,
{
    let mut i: usize = 0;
    while i < v.len()
        invariant
            i <= v.len(),
            s@ == old(s)@ + v@.subrange(0, i as int),
        decreases v.len() - i,
    {
        push_char(s, v[i]);
        i = i + 1;
        assert(s@ =~= old(s)@ + v@.subrange(0, i as int));
    }
    assert(v@.subrange(0, v.len() as int) =~= v@);
}

/// `s` with every non-overlapping occurrence of `p` replaced by `r`, as `str::replace` does
/// for a non-empty pattern.
pub fn replace_all(s: &str, p: &str, r: &str) -> (out: String)
    requires
        p@.len() > 0,
    ensures
        out@ == replace_seq(s@, p@, r@),
{
    let sv = chars_of(s);
    let pv = chars_of(p);
    let rv = chars_of(r);
    let mut out = String::new();
    let mut i: usize = 0;
    assert(sv@.subrange(0, sv.len() as int) =~= sv@);
    assert(out@ + sv@ =~= sv@);
    while i < sv.len()
        invariant
            i <= sv.len(),
            pv@.len() > 0,
            out@ + replace_seq(sv@.subrange(i as int, sv.len() as int), pv@, rv@) == replace_seq(
                sv@,
                pv@,
                rv@,
            ),
        decreases sv.len() - i,
    {
        let ghost rest = sv@.subrange(i as int, sv.len() as int);
        if occurs_at_exec(&sv, &pv, i) {
            assert(rest.subrange(0, pv@.len() as int) =~= pv@);
            assert(rest.subrange(pv@.len() as int, rest.len() as int) =~= sv@.subrange(
                i + pv@.len(),
                sv.len() as int,
            ));
            push_chars(&mut out, &rv);
            i = i + pv.len();
            assert(out@ + replace_seq(sv@.subrange(i as int, sv.len() as int), pv@, rv@) =~= (
            out@.subrange(0, out@.len() - rv@.len()) + (rv@ + replace_seq(
                sv@.subrange(i as int, sv.len() as int),
                pv@,
                rv@,
            ))));
        } else {
            if pv.len() <= sv.len() - i {
                assert(rest.subrange(0, pv@.len() as int) != pv@) by {
                    if rest.subrange(0, pv@.len() as int) == pv@ {
                        assert(sv@.subrange(i as int, i + pv@.len()) =~= rest.subrange(
                            0,
                            pv@.len() as int,
                        ));
                    }
                }
                assert(rest.subrange(1, rest.len() as int) =~= sv@.subrange(
                    i + 1,
                    sv.len() as int,
                ));
            } else {
                assert(replace_seq(rest, pv@, rv@) == rest);
                assert(sv@.subrange(i as int, sv.len() as int) =~= seq![sv@[i as int]]
                    + sv@.subrange(i + 1, sv.len() as int));
                assert(replace_seq(sv@.subrange(i + 1, sv.len() as int), pv@, rv@) == sv@.subrange(
                    i + 1,
                    sv.len() as int,
                ));
            }
            let c = sv[i];
            push_char(&mut out, c);
            i = i + 1;
            assert(out@ + replace_seq(sv@.subrange(i as int, sv.len() as int), pv@, rv@) =~= (
            out@.drop_last() + (seq![c] + replace_seq(
                sv@.subrange(i as int, sv.len() as int),
                pv@,
                rv@,
            ))));
        }
    }
    assert(replace_seq(sv@.subrange(i as int, sv.len() as int), pv@, rv@) =~= Seq::empty());
    assert(out@ + Seq::<char>::empty() =~= out@);
    out
}

/// The characters of each string.
pub open spec fn names_view(v: Seq<String>) -> Seq<Seq<char>> {
    v.map_values(|s: String| s@)
}

/// Whether `x` is one of the strings of `list`.
pub fn contains_string(list: &Vec<String>, x: &str) -> (b: bool)
    ensures
        b == names_view(list@).contains(x@),
        b == names_view(list@).to_set().contains(x@),
{
    let target = owned(x);
    let mut k: usize = 0;
    while k < list.len()
        invariant
            k <= list.len(),
            target@ == x@,
            forall|j: int| 0 <= j < k ==> list@[j]@ != x@,
        decreases list.len() - k,
    {
        if list[k] == target {
            proof {
                assert(names_view(list@)[k as int] == x@);
            }
            return true;
        }
        k = k + 1;
    }
    proof {
        if names_view(list@).contains(x@) {
            let j = choose|j: int| 0 <= j < names_view(list@).len() && names_view(list@)[j] == x@;
            assert(list@[j]@ == x@);
        }
    }
    false
}

/// `last_index_of` is -1 or an index of `s` holding `c`, with no `c` after it.
pub proof fn lemma_last_index_of(s: Seq<char>, c: char)
    ensures
        -1 <= last_index_of(s, c) < s.len(),
        last_index_of(s, c) >= 0 ==> s[last_index_of(s, c)] == c,
        forall|j: int| last_index_of(s, c) < j < s.len() ==> s[j] != c,
    decreases s.len(),
{
    if s.len() > 0 && s.last() != c {
        lemma_last_index_of(s.drop_last(), c);
        assert forall|j: int| last_index_of(s, c) < j < s.len() implies s[j] != c by {
            if j < s.len() - 1 {
                assert(s.drop_last()[j] == s[j]);
            }
        }
    }
}

/// The strings of `parts` joined with `sep` between consecutive ones.
pub fn join_strings(parts: &Vec<String>, sep: &str) -> (r: String)
    ensures
        r@ == join_seq(names_view(parts@), sep@),
{
    let mut r = String::new();
    let mut i: usize = 0;
    while i < parts.len()
        invariant
            i <= parts.len(),
            r@ == join_seq(names_view(parts@).subrange(0, i as int), sep@),
        decreases parts.len() - i,
    {
        let ghost before = names_view(parts@).subrange(0, i as int);
        let ghost after = names_view(parts@).subrange(0, i + 1);
        assert(after.drop_last() =~= before);
        assert(after.last() == parts@[i as int]@);
        if i > 0 {
            r.append(sep);
        } else {
            assert(before =~= Seq::<Seq<char>>::empty());
        }
        r.append(parts[i].as_str());
        i = i + 1;
        assert(r@ =~= join_seq(names_view(parts@).subrange(0, i as int), sep@));
    }
    assert(names_view(parts@).subrange(0, parts.len() as int) =~= names_view(parts@));
    r
}

/// The first `n` characters of `s` (all of them when it is shorter).
pub open spec fn take_chars(s: Seq<char>, n: nat) -> Seq<char> {
    if s.len() <= n { s } else { s.subrange(0, n as int) }
}

/// The base64 digit of `v` (below 64): `A`-`Z`, `a`-`z`, `0`-`9`, `+`, `/`.
pub open spec fn b64_digit(v: int) -> char {
    if v < 26 {
        ((65 + v) as u8) as char
    } else if v < 52 {
        ((71 + v) as u8) as char
    } else if v < 62 {
        ((v - 4) as u8) as char
    } else if v == 62 {
        '+'
    } else {
        '/'
    }
}

/// The four digits of three bytes.
pub open spec fn b64_quad(a: int, b: int, c: int) -> Seq<char> {
    seq![b64_digit(a / 4), b64_digit((a % 4) * 16 + b / 16), b64_digit((b % 16) * 4 + c / 64), b64_digit(c % 64)]
}

/// The digits of the first `n` full groups of three bytes.
pub open spec fn b64_groups(b: Seq<u8>, n: nat) -> Seq<char>
    decreases n,
{
    if n == 0 {
        Seq::empty()
    } else {
        let i = 3 * (n - 1);
        b64_groups(b, (n - 1) as nat) + b64_quad(b[i] as int, b[i + 1] as int, b[i + 2] as int)
    }
}

/// Standard base64 of `b`, padded with `=`.
pub open spec fn base64(b: Seq<u8>) -> Seq<char> {
    let n = b.len() / 3;
    let r = b.len() % 3;
    b64_groups(b, n) + if r == 0 {
        Seq::empty()
    } else if r == 1 {
        let a = b[b.len() - 1] as int;
        seq![b64_digit(a / 4), b64_digit((a % 4) * 16), '=', '=']
    } else {
        let a = b[b.len() - 2] as int;
        let c = b[b.len() - 1] as int;
        seq![b64_digit(a / 4), b64_digit((a % 4) * 16 + c / 16), b64_digit((c % 16) * 4), '=']
    }
}

/// The base64 digit of `v`.
fn b64_digit_exec(v: u8) -> (c: char)
    requires
        v < 64,
    ensures
        c == b64_digit(v as int),
{
    if v < 26 {
        (65 + v) as char
    } else if v < 52 {
        (71 + v) as char
    } else if v < 62 {
        (v - 4) as char
    } else if v == 62 {
        '+'
    } else {
        '/'
    }
}

/// Standard base64 of `bytes`, padded with `=`.
pub fn base64_encode(bytes: &[u8]) -> (s: String)
    ensures
        s@ == base64(bytes@),
{
    let len = bytes.len();
    let n = len / 3;
    let mut out = String::new();
    let mut k: usize = 0;
    while k < n
        invariant
            k <= n,
            n == bytes@.len() / 3,
            len == bytes@.len(),
            out@ == b64_groups(bytes@, k as nat),
        decreases n - k,
    {
        let i = 3 * k;
        let a = bytes[i];
        let b = bytes[i + 1];
        let c = bytes[i + 2];
        push_char(&mut out, b64_digit_exec(a / 4));
        push_char(&mut out, b64_digit_exec((a % 4) * 16 + b / 16));
        push_char(&mut out, b64_digit_exec((b % 16) * 4 + c / 64));
        push_char(&mut out, b64_digit_exec(c % 64));
        k = k + 1;
        assert(out@ =~= b64_groups(bytes@, k as nat));
    }
    let r = len % 3;
    if r == 1 {
        let a = bytes[len - 1];
        push_char(&mut out, b64_digit_exec(a / 4));
        push_char(&mut out, b64_digit_exec((a % 4) * 16));
        push_char(&mut out, '=');
        push_char(&mut out, '=');
    } else if r == 2 {
        let a = bytes[len - 2];
        let c = bytes[len - 1];
        push_char(&mut out, b64_digit_exec(a / 4));
        push_char(&mut out, b64_digit_exec((a % 4) * 16 + c / 16));
        push_char(&mut out, b64_digit_exec((c % 16) * 4));
        push_char(&mut out, '=');
    }
    assert(out@ =~= base64(bytes@));
    out
}

/// The characters of the first `n` UTF-8 bytes of `s` (all of `s` when it is shorter).
pub open spec fn byte_prefix(s: Seq<char>, n: nat) -> Seq<char> {
    let b = encode_utf8(s);
    if b.len() <= n { s } else { decode_utf8(b.subrange(0, n as int)) }
}

/// Cutting `s` after `n` bytes does not split a character.
pub open spec fn cut_ok(s: Seq<char>, n: nat) -> bool {
    let b = encode_utf8(s);
    b.len() <= n || is_char_boundary(b, n as int)
}

/// The first `n` bytes of `s`, which must end on a character boundary.
pub fn byte_prefix_string(s: &str, n: usize) -> (r: String)
    requires
        cut_ok(s@, n as nat),
    ensures
        r@ == byte_prefix(s@, n as nat),
{
    let len = s.as_bytes().len();
    proof {
        assert(s.spec_bytes() == encode_utf8(s@));
    }
    if len <= n {
        owned(s)
    } else {
        let (head, _) = s.split_at(n);
        proof {
            vstd::utf8::encode_utf8_decode_utf8(head@);
        }
        owned(head)
    }
}

/// Viewing a sequence of strings commutes with appending one.
pub proof fn lemma_names_push(s: Seq<String>, x: String)
    ensures
        names_view(s.push(x)) == names_view(s).push(x@),
{
    assert(names_view(s.push(x)) =~= names_view(s).push(x@));
}

} // verus!
