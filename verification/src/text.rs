//! Verified text utilities shared by the provider modules: string
//! equality, whitespace trimming, left-aligned padding and joining.

use vstd::prelude::*;
use vstd::string::*;

verus! {

broadcast use vstd::utf8::encode_utf8_decode_utf8;

/// Number of UTF-8 bytes of a character sequence, as `str::len` reports it.
pub open spec fn byte_len(s: Seq<char>) -> usize {
    vstd::utf8::encode_utf8(s).len() as usize
}

/// The white-space characters of Unicode (the `White_Space` property),
/// which is what `char::is_whitespace` tests.
pub open spec fn is_white(c: char) -> bool {
    ||| ('\u{9}' <= c && c <= '\u{d}')
    ||| c == ' '
    ||| c == '\u{85}'
    ||| c == '\u{a0}'
    ||| c == '\u{1680}'
    ||| ('\u{2000}' <= c && c <= '\u{200a}')
    ||| c == '\u{2028}'
    ||| c == '\u{2029}'
    ||| c == '\u{202f}'
    ||| c == '\u{205f}'
    ||| c == '\u{3000}'
}

/// Index of the first non-white character at or after `i` (or `s.len()`).
pub open spec fn first_non_white_from(s: Seq<char>, i: int) -> int
    decreases s.len() - i,
{
    if i >= s.len() {
        s.len() as int
    } else if !is_white(s[i]) {
        i
    } else {
        first_non_white_from(s, i + 1)
    }
}

/// One past the last non-white character before `j` that is not before `lo`.
pub open spec fn last_non_white_before(s: Seq<char>, lo: int, j: int) -> int
    decreases j - lo,
{
    if j <= lo {
        lo
    } else if !is_white(s[j - 1]) {
        j
    } else {
        last_non_white_before(s, lo, j - 1)
    }
}

/// `s` with leading and trailing white space removed (what `str::trim` returns).
pub open spec fn trimmed(s: Seq<char>) -> Seq<char> {
    let lo = first_non_white_from(s, 0);
    let hi = last_non_white_before(s, lo, s.len() as int);
    s.subrange(lo, hi)
}

proof fn lemma_first_non_white(s: Seq<char>, i: int)
    requires
        0 <= i <= s.len(),
    ensures
        i <= first_non_white_from(s, i) <= s.len(),
        first_non_white_from(s, i) < s.len() ==> !is_white(s[first_non_white_from(s, i)]),
        forall|k: int| i <= k < first_non_white_from(s, i) ==> is_white(s[k]),
    decreases s.len() - i,
{
    if i < s.len() && is_white(s[i]) {
        lemma_first_non_white(s, i + 1);
    }
}

proof fn lemma_last_non_white(s: Seq<char>, lo: int, j: int)
    requires
        0 <= lo <= j <= s.len(),
    ensures
        lo <= last_non_white_before(s, lo, j) <= j,
        last_non_white_before(s, lo, j) > lo ==> !is_white(s[last_non_white_before(s, lo, j) - 1]),
        forall|k: int| last_non_white_before(s, lo, j) <= k < j ==> is_white(s[k]),
    decreases j - lo,
{
    if j > lo && is_white(s[j - 1]) {
        lemma_last_non_white(s, lo, j - 1);
    }
}

/// Trimmed text neither starts nor ends with white space, and trimming it
/// again changes nothing: a resolved token is its own trimmed form.
pub proof fn law_trim_idempotent(s: Seq<char>)
    ensures
        trimmed(trimmed(s)) == trimmed(s),
        trimmed(s).len() > 0 ==> !is_white(trimmed(s)[0]) && !is_white(trimmed(s).last()),
{
    let lo = first_non_white_from(s, 0);
    lemma_first_non_white(s, 0);
    let hi = last_non_white_before(s, lo, s.len() as int);
    lemma_last_non_white(s, lo, s.len() as int);
    let t = trimmed(s);
    assert(t == s.subrange(lo, hi));
    if t.len() > 0 {
        assert(t[0] == s[lo]);
        assert(t.last() == s[hi - 1]);
        assert(first_non_white_from(t, 0) == 0);
        lemma_first_non_white(t, 0);
        assert(last_non_white_before(t, 0, t.len() as int) == t.len());
        assert(t.subrange(0, t.len() as int) =~= t);
    } else {
        assert(first_non_white_from(t, 0) == 0);
        assert(last_non_white_before(t, 0, 0) == 0);
        assert(t.subrange(0, 0) =~= t);
    }
}

/// `s` followed by spaces up to a width of `w` characters; a longer `s` is
/// left alone (what the format specifier `{:<w$}` produces).
pub open spec fn pad_right(s: Seq<char>, w: nat) -> Seq<char> {
    if s.len() >= w {
        s
    } else {
        s + Seq::new((w - s.len()) as nat, |_i: int| ' ')
    }
}

pub fn str_eq(a: &str, b: &str) -> (res: bool)
    ensures
        res == (a@ == b@),
{
    let ab = a.as_bytes();
    let bb = b.as_bytes();
    if ab.len() != bb.len() {
        return false;
    }
    let mut i: usize = 0;
    while i < ab.len()
        invariant
            ab@ == a.spec_bytes(),
            bb@ == b.spec_bytes(),
            ab@.len() == bb@.len(),
            i <= ab@.len(),
            forall|j: int| 0 <= j < i ==> ab@[j] == bb@[j],
        decreases ab@.len() - i,
    {
        if ab[i] != bb[i] {
            return false;
        }
        i = i + 1;
    }
    proof {
        assert(ab@ =~= bb@);
        assert(vstd::utf8::decode_utf8(vstd::utf8::encode_utf8(a@)) == a@);
        assert(vstd::utf8::decode_utf8(vstd::utf8::encode_utf8(b@)) == b@);
    }
    true
}


/// The characters of `s`, in order.
pub fn chars_of(s: &str) -> (v: Vec<char>)
    ensures
        v@ == s@,
{
    let mut v: Vec<char> = Vec::new();
    for c in it: s.chars()
        invariant
            v@ == it.seq().take(it.index() as int),
    {
        v.push(c);
        assert(v@ == it.seq().take(it.index() + 1)) by {
            assert(it.seq().take(it.index() + 1) =~= it.seq().take(it.index() as int).push(c));
        }
    }
    assert(v@ =~= s@);
    v
}


/// Whether `c` is a Unicode white-space character.
pub fn is_white_char(c: char) -> (res: bool)
    ensures
        res == is_white(c),
{
    ('\u{9}' <= c && c <= '\u{d}') || c == ' ' || c == '\u{85}' || c == '\u{a0}'
        || c == '\u{1680}' || ('\u{2000}' <= c && c <= '\u{200a}') || c == '\u{2028}'
        || c == '\u{2029}' || c == '\u{202f}' || c == '\u{205f}' || c == '\u{3000}'
}

/// `s` without its leading and trailing white space, as a new `String`.
pub fn trim_to_string(s: &str) -> (res: String)
    ensures
        res@ == trimmed(s@),
{
    let cs = chars_of(s);
    let n = cs.len();
    let mut lo: usize = 0;
    while lo < n && is_white_char(cs[lo])
        invariant
            cs@ == s@,
            n == cs@.len(),
            lo <= n,
            first_non_white_from(s@, 0) == first_non_white_from(s@, lo as int),
        decreases n - lo,
    {
        lo = lo + 1;
    }
    let mut hi: usize = n;
    while hi > lo && is_white_char(cs[hi - 1])
        invariant
            cs@ == s@,
            n == cs@.len(),
            lo <= hi <= n,
            first_non_white_from(s@, 0) == lo,
            last_non_white_before(s@, lo as int, n as int)
                == last_non_white_before(s@, lo as int, hi as int),
        decreases hi - lo,
    {
        hi = hi - 1;
    }
    let sub = s.substring_char(lo, hi);
    sub.to_owned()
}

/// Appends `s` to `out`, followed by spaces up to a total of `w` characters.
pub fn push_padded(out: &mut String, s: &str, w: usize)
    ensures
        final(out)@ == old(out)@ + pad_right(s@, w as nat),
{
    let n = s.unicode_len();
    out.append(s);
    let mut k: usize = n;
    while k < w
        invariant
            n == s@.len(),
            n <= k,
            k <= w || k == n,
            out@ == old(out)@ + s@ + Seq::new((k - n) as nat, |_i: int| ' '),
        decreases w - k,
    {
        let ghost before = out@;
        out.append(" ");
        proof {
            reveal_strlit(" ");
            assert(Seq::new((k + 1 - n) as nat, |_i: int| ' ') =~= Seq::new(
                (k - n) as nat,
                |_i: int| ' ',
            ).push(' '));
        }
        k = k + 1;
    }
    proof {
        if n >= w {
            assert(Seq::new((k - n) as nat, |_i: int| ' ') =~= Seq::<char>::empty());
            assert(out@ =~= old(out)@ + s@);
        } else {
            assert(out@ =~= old(out)@ + (s@ + Seq::new((w - n) as nat, |_i: int| ' ')));
        }
    }
}


/// The largest UTF-8 byte length among `cols` (0 for none).
pub open spec fn max_byte_len(cols: Seq<Seq<char>>) -> usize
    decreases cols.len(),
{
    if cols.len() == 0 {
        0
    } else {
        let rest = max_byte_len(cols.drop_last());
        let last = byte_len(cols.last());
        if rest >= last { rest } else { last }
    }
}

/// The UTF-8 byte length of `s` (what `str::len` returns).
pub fn byte_length(s: &str) -> (res: usize)
    ensures
        res == byte_len(s@),
{
    s.len()
}

/// `parts` joined with `sep` between consecutive parts.
pub open spec fn joined(parts: Seq<Seq<char>>, sep: Seq<char>) -> Seq<char>
    decreases parts.len(),
{
    if parts.len() == 0 {
        Seq::empty()
    } else if parts.len() == 1 {
        parts[0]
    } else {
        joined(parts.drop_last(), sep) + sep + parts.last()
    }
}

/// The views of a sequence of strings.
pub open spec fn views(v: Seq<String>) -> Seq<Seq<char>> {
    v.map_values(|s: String| s@)
}

/// The strings of `parts` joined by `sep` (what `parts.join(sep)` returns).
pub fn join_strings(parts: &[String], sep: &str) -> (res: String)
    ensures
        res@ == joined(views(parts@), sep@),
{
    let mut res = String::new();
    let mut i: usize = 0;
    while i < parts.len()
        invariant
            i <= parts@.len(),
            res@ == joined(views(parts@).take(i as int), sep@),
        decreases parts@.len() - i,
    {
        proof {
            assert(views(parts@).take(i + 1).drop_last() =~= views(parts@).take(i as int));
        }
        if i > 0 {
            res.append(sep);
        }
        res.append(parts[i].as_str());
        proof {
            if i == 0 {
                assert(res@ =~= views(parts@).take(1)[0]);
            }
        }
        i = i + 1;
    }
    proof {
        assert(views(parts@).take(parts@.len() as int) =~= views(parts@));
    }
    res
}

/// The decimal digits of `n`, most significant first (what `Display`
/// writes for an unsigned integer).
pub open spec fn decimal(n: nat) -> Seq<char>
    decreases n,
{
    if n < 10 {
        seq![digit_char(n)]
    } else {
        decimal(n / 10) + seq![digit_char(n % 10)]
    }
}

pub open spec fn digit_char(d: nat) -> char {
    if d == 0 { '0' } else if d == 1 { '1' } else if d == 2 { '2' } else if d == 3 { '3' }
    else if d == 4 { '4' } else if d == 5 { '5' } else if d == 6 { '6' } else if d == 7 { '7' }
    else if d == 8 { '8' } else { '9' }
}

fn digit_str(d: u64) -> (res: &'static str)
    requires
        d < 10,
    ensures
        res@ == seq![digit_char(d as nat)],
{
    proof {
        reveal_strlit("0");
        reveal_strlit("1");
        reveal_strlit("2");
        reveal_strlit("3");
        reveal_strlit("4");
        reveal_strlit("5");
        reveal_strlit("6");
        reveal_strlit("7");
        reveal_strlit("8");
        reveal_strlit("9");
    }
    if d == 0 { "0" } else if d == 1 { "1" } else if d == 2 { "2" } else if d == 3 { "3" }
    else if d == 4 { "4" } else if d == 5 { "5" } else if d == 6 { "6" } else if d == 7 { "7" }
    else if d == 8 { "8" } else { "9" }
}

/// Appends the decimal digits of `n` to `out`.
pub fn push_decimal(out: &mut String, n: u64)
    ensures
        final(out)@ == old(out)@ + decimal(n as nat),
    decreases n,
{
    if n < 10 {
        out.append(digit_str(n));
    } else {
        push_decimal(out, n / 10);
        out.append(digit_str(n % 10));
    }
}

/// Whether `s` is one of the strings of `list`.
pub open spec fn listed(list: Seq<&str>, s: Seq<char>) -> bool {
    exists|i: int| 0 <= i < list.len() && list[i]@ == s
}

/// Whether `s` occurs in `list` (what `list.contains(&s)` computes).
pub fn list_contains(list: &[&str], s: &str) -> (res: bool)
    ensures
        res == listed(list@, s@),
{
    let mut i: usize = 0;
    while i < list.len()
        invariant
            i <= list@.len(),
            forall|j: int| 0 <= j < i ==> list@[j]@ != s@,
        decreases list@.len() - i,
    {
        if str_eq(list[i], s) {
            return true;
        }
        i = i + 1;
    }
    false
}

/// The raw token: the flag where given, else the environment variable's
/// value, else nothing.
pub open spec fn raw_token(flag: Option<String>, env_value: Option<String>) -> Seq<char> {
    match flag {
        Some(f) => f@,
        None => match env_value {
            Some(e) => e@,
            None => Seq::empty(),
        },
    }
}

/// The raw token as `flag.unwrap_or(env_value.unwrap_or_default())` gives it.
pub fn pick_token(flag: Option<String>, env_value: Option<String>) -> (res: String)
    ensures
        res@ == raw_token(flag, env_value),
{
    match flag {
        Some(v) => v,
        None => match env_value {
            Some(e) => e,
            None => String::new(),
        },
    }
}


/// `part` occurs in `text` starting at position `i`.
pub open spec fn occurs_at(text: Seq<char>, part: Seq<char>, i: int) -> bool {
    0 <= i && i + part.len() <= text.len() && text.subrange(i, i + part.len()) == part
}

/// `part` occurs somewhere in `text`.
pub open spec fn contains_text(text: Seq<char>, part: Seq<char>) -> bool {
    exists|i: int| occurs_at(text, part, i)
}

pub proof fn lemma_contains_concat(a: Seq<char>, b: Seq<char>, part: Seq<char>)
    ensures
        contains_text(a, part) ==> contains_text(a + b, part),
        contains_text(b, part) ==> contains_text(a + b, part),
{
    if contains_text(a, part) {
        let i = choose|i: int| occurs_at(a, part, i);
        assert((a + b).subrange(i, i + part.len()) =~= a.subrange(i, i + part.len()));
        assert(occurs_at(a + b, part, i));
    }
    if contains_text(b, part) {
        let i = choose|i: int| occurs_at(b, part, i);
        assert((a + b).subrange(a.len() + i, a.len() + i + part.len()) =~= b.subrange(i, i + part.len()));
        assert(occurs_at(a + b, part, a.len() + i));
    }
}

pub proof fn lemma_contains_self(a: Seq<char>)
    ensures
        contains_text(a, a),
{
    assert(a.subrange(0, a.len() as int) =~= a);
    assert(occurs_at(a, a, 0));
}

pub proof fn lemma_contains_trans(outer: Seq<char>, middle: Seq<char>, inner: Seq<char>)
    requires
        contains_text(outer, middle),
        contains_text(middle, inner),
    ensures
        contains_text(outer, inner),
{
    let i = choose|i: int| occurs_at(outer, middle, i);
    let j = choose|j: int| occurs_at(middle, inner, j);
    assert(outer.subrange(i + j, i + j + inner.len()) =~= middle.subrange(j, j + inner.len()));
    assert(occurs_at(outer, inner, i + j));
}

/// Every part of a joined text occurs in it.
pub proof fn lemma_joined_contains(parts: Seq<Seq<char>>, sep: Seq<char>, k: int)
    requires
        0 <= k < parts.len(),
    ensures
        contains_text(joined(parts, sep), parts[k]),
    decreases parts.len(),
{
    lemma_contains_self(parts[k]);
    if parts.len() == 1 {
    } else if k == parts.len() - 1 {
        lemma_contains_concat(joined(parts.drop_last(), sep) + sep, parts.last(), parts[k]);
    } else {
        lemma_joined_contains(parts.drop_last(), sep, k);
        lemma_contains_concat(joined(parts.drop_last(), sep), sep, parts[k]);
        lemma_contains_concat(joined(parts.drop_last(), sep) + sep, parts.last(), parts[k]);
    }
}

pub proof fn lemma_pad_contains(s: Seq<char>, w: nat)
    ensures
        contains_text(pad_right(s, w), s),
{
    lemma_contains_self(s);
    if s.len() < w {
        lemma_contains_concat(s, Seq::new((w - s.len()) as nat, |_i: int| ' '), s);
    }
}

/// Number of occurrences of the character `c` in `s`.
pub open spec fn count_char(s: Seq<char>, c: char) -> nat
    decreases s.len(),
{
    if s.len() == 0 {
        0
    } else {
        count_char(s.drop_last(), c) + if s.last() == c { 1nat } else { 0nat }
    }
}

pub proof fn lemma_count_char_concat(a: Seq<char>, b: Seq<char>, c: char)
    ensures
        count_char(a + b, c) == count_char(a, c) + count_char(b, c),
    decreases b.len(),
{
    if b.len() == 0 {
        assert(a + b =~= a);
    } else {
        assert((a + b).drop_last() =~= a + b.drop_last());
        lemma_count_char_concat(a, b.drop_last(), c);
    }
}

/// Joining `n > 0` parts none of which holds the one-character separator
/// `c` puts exactly `n - 1` copies of `c` into the text.
pub proof fn lemma_joined_separator_count(parts: Seq<Seq<char>>, c: char)
    requires
        parts.len() > 0,
        forall|i: int| 0 <= i < parts.len() ==> count_char(#[trigger] parts[i], c) == 0,
    ensures
        count_char(joined(parts, seq![c]), c) == parts.len() - 1,
    decreases parts.len(),
{
    if parts.len() > 1 {
        lemma_joined_separator_count(parts.drop_last(), c);
        let front = joined(parts.drop_last(), seq![c]);
        lemma_count_char_concat(front, seq![c], c);
        lemma_count_char_concat(front + seq![c], parts.last(), c);
        assert(count_char(seq![c], c) == 1) by {
            assert(seq![c].drop_last() =~= Seq::<char>::empty());
            assert(count_char(Seq::<char>::empty(), c) == 0);
            assert(seq![c].last() == c);
        }
    }
}

} // verus!
