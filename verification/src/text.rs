use vstd::prelude::*;
use vstd::utf8::{char_is_scalar, encode_scalar, encode_utf8};

verus! {

/// `String::push` from std: appends one character.
#[verifier::external_body]
pub fn push_char(s: &mut String, c: char)
    ensures
        final(s)@ == old(s)@.push(c),
{
    s.push(c);
}

/// Collects the characters of a string slice.
pub fn chars_of(s: &str) -> (out: Vec<char>)
    ensures
        out@ == s@,
{
    let mut out: Vec<char> = Vec::new();
    for c in it: s.chars()
        invariant
            out@ == it.seq().take(it.index() as int),
            it.seq() == s@,
    {
        out.push(c);
    }
    out
}

/// Builds a string from a sequence of characters.
pub fn string_of(cs: &Vec<char>) -> (out: String)
    ensures
        out@ == cs@,
{
    let mut out = String::new();
    let mut i: usize = 0;
    while i < cs.len()
        invariant
            i <= cs.len(),
            out@ == cs@.take(i as int),
        decreases cs.len() - i,
    {
        push_char(&mut out, cs[i]);
        assert(cs@.take(i as int).push(cs@[i as int]) =~= cs@.take(i + 1));
        i = i + 1;
    }
    assert(cs@.take(cs.len() as int) =~= cs@);
    out
}

}

verus! {

/// The characters that carry the Unicode `White_Space` property.
pub open spec fn is_white_space(c: char) -> bool {
    let v = c as u32;
    ||| 0x09 <= v <= 0x0d
    ||| v == 0x20
    ||| v == 0x85
    ||| v == 0xa0
    ||| v == 0x1680
    ||| 0x2000 <= v <= 0x200a
    ||| v == 0x2028
    ||| v == 0x2029
    ||| v == 0x202f
    ||| v == 0x205f
    ||| v == 0x3000
}

/// Whether a character carries the Unicode `White_Space` property, as `char::is_whitespace`
/// of std tests.
pub fn char_is_whitespace(c: char) -> (r: bool)
    ensures
        r == is_white_space(c),
{
    let v = c as u32;
    (0x09 <= v && v <= 0x0d) || v == 0x20 || v == 0x85 || v == 0xa0 || v == 0x1680
        || (0x2000 <= v && v <= 0x200a) || v == 0x2028 || v == 0x2029 || v == 0x202f
        || v == 0x205f || v == 0x3000
}

/// What `str::to_lowercase` from std gives for a string: the Unicode lower-case mapping.
pub uninterp spec fn lowercase(s: Seq<char>) -> Seq<char>;

/// `str::to_lowercase` from std. Its result is the Unicode lower-case mapping of the
/// argument, named `lowercase` here; the mapping itself is not written out.
#[verifier::external_body]
pub fn to_lowercase(s: &str) -> (r: String)
    ensures
        r@ == lowercase(s@),
{
    s.to_lowercase()
}

/// `s` without its leading white space.
pub open spec fn trim_start_seq(s: Seq<char>) -> Seq<char>
    decreases s.len(),
{
    if s.len() > 0 && is_white_space(s[0]) {
        trim_start_seq(s.drop_first())
    } else {
        s
    }
}

/// `s` without its trailing white space.
pub open spec fn trim_end_seq(s: Seq<char>) -> Seq<char>
    decreases s.len(),
{
    if s.len() > 0 && is_white_space(s.last()) {
        trim_end_seq(s.drop_last())
    } else {
        s
    }
}

/// `s` without leading and trailing white space, as `str::trim` gives it.
pub open spec fn trim_seq(s: Seq<char>) -> Seq<char> {
    trim_end_seq(trim_start_seq(s))
}

proof fn lemma_trim_start_skip(s: Seq<char>, i: int)
    requires
        0 <= i <= s.len(),
        forall|k: int| 0 <= k < i ==> is_white_space(#[trigger] s[k]),
    ensures
        trim_start_seq(s) == trim_start_seq(s.skip(i)),
    decreases i,
{
    if i > 0 {
        assert(s.drop_first().skip(i - 1) =~= s.skip(i));
        lemma_trim_start_skip(s.drop_first(), i - 1);
    } else {
        assert(s.skip(0) =~= s);
    }
}

proof fn lemma_trim_end_take(s: Seq<char>, j: int)
    requires
        0 <= j <= s.len(),
        forall|k: int| j <= k < s.len() ==> is_white_space(#[trigger] s[k]),
    ensures
        trim_end_seq(s) == trim_end_seq(s.take(j)),
    decreases s.len() - j,
{
    if j < s.len() {
        assert(s.drop_last().take(j) =~= s.take(j));
        lemma_trim_end_take(s.drop_last(), j);
    } else {
        assert(s.take(j) =~= s);
    }
}

/// The characters of `s` without leading and trailing white space.
pub fn trim_chars(s: &Vec<char>) -> (out: Vec<char>)
    ensures
        out@ == trim_seq(s@),
{
    let n = s.len();
    let mut i: usize = 0;
    while i < n && char_is_whitespace(s[i])
        invariant
            n == s.len(),
            i <= n,
            forall|k: int| 0 <= k < i ==> is_white_space(#[trigger] s@[k]),
        decreases n - i,
    {
        i = i + 1;
    }
    proof {
        lemma_trim_start_skip(s@, i as int);
    }
    let ghost rest = s@.skip(i as int);
    assert(trim_start_seq(rest) == rest);
    let mut j: usize = n;
    while j > i && char_is_whitespace(s[j - 1])
        invariant
            n == s.len(),
            i <= j <= n,
            forall|k: int| j <= k < n ==> is_white_space(#[trigger] s@[k]),
        decreases j,
    {
        j = j - 1;
    }
    proof {
        assert forall|k: int| j - i <= k < rest.len() implies is_white_space(#[trigger] rest[k]) by {
            assert(rest[k] == s@[k + i]);
        }
        lemma_trim_end_take(rest, j - i);
        assert(rest.take(j - i) =~= s@.subrange(i as int, j as int));
    }
    let mut out: Vec<char> = Vec::new();
    let mut k: usize = i;
    while k < j
        invariant
            i <= k <= j <= n,
            n == s.len(),
            out@ =~= s@.subrange(i as int, k as int),
        decreases j - k,
    {
        out.push(s[k]);
        k = k + 1;
    }
    out
}

/// `str::trim` on an owned copy.
pub fn trim_str(s: &str) -> (out: String)
    ensures
        out@ == trim_seq(s@),
{
    let cs = chars_of(s);
    let t = trim_chars(&cs);
    string_of(&t)
}

/// `needle` occurs in `hay` starting at position `i`.
pub open spec fn occurs_at(hay: Seq<char>, needle: Seq<char>, i: int) -> bool {
    0 <= i && i + needle.len() <= hay.len() && hay.subrange(i, i + needle.len()) == needle
}

/// `needle` occurs somewhere in `hay`, as `str::contains` tests.
pub open spec fn contains_seq(hay: Seq<char>, needle: Seq<char>) -> bool {
    exists|i: int| occurs_at(hay, needle, i)
}

fn matches_at(hay: &Vec<char>, needle: &Vec<char>, i: usize) -> (r: bool)
    requires
        i + needle.len() <= hay.len(),
    ensures
        r == occurs_at(hay@, needle@, i as int),
{
    let mut k: usize = 0;
    while k < needle.len()
        invariant
            i + needle.len() <= hay.len(),
            k <= needle.len(),
            forall|m: int| 0 <= m < k ==> hay@[i + m] == needle@[m],
        decreases needle.len() - k,
    {
        if hay[i + k] != needle[k] {
            assert(hay@.subrange(i as int, i + needle.len())[k as int] != needle@[k as int]);
            return false;
        }
        k = k + 1;
    }
    assert(hay@.subrange(i as int, i + needle.len()) =~= needle@);
    true
}

/// The first position at which `needle` occurs in `hay`, as `str::find` gives it.
pub fn find_chars(hay: &Vec<char>, needle: &Vec<char>) -> (r: Option<usize>)
    ensures
        match r {
            Some(i) => occurs_at(hay@, needle@, i as int) && forall|j: int|
                0 <= j < i ==> !occurs_at(hay@, needle@, j),
            None => !contains_seq(hay@, needle@),
        },
{
    if needle.len() > hay.len() {
        return None;
    }
    let last = hay.len() - needle.len();
    let mut i: usize = 0;
    while i <= last
        invariant
            last + needle.len() == hay.len(),
            forall|j: int| 0 <= j < i ==> !occurs_at(hay@, needle@, j),
        decreases last + 1 - i,
    {
        if matches_at(hay, needle, i) {
            return Some(i);
        }
        if i == last {
            assert forall|j: int| 0 <= j <= last implies !occurs_at(hay@, needle@, j) by {}
            return None;
        }
        i = i + 1;
    }
    None
}

/// Whether `needle` occurs in `hay`.
pub fn contains_chars(hay: &Vec<char>, needle: &Vec<char>) -> (r: bool)
    ensures
        r == contains_seq(hay@, needle@),
{
    match find_chars(hay, needle) {
        Some(_) => true,
        None => false,
    }
}

} // verus!

verus! {

/// Whether two string slices hold the same characters.
pub fn str_eq(a: &str, b: &str) -> (r: bool)
    ensures
        r == (a@ == b@),
{
    let x = chars_of(a);
    let y = chars_of(b);
    chars_eq(&x, &y)
}

/// Whether two character vectors are equal.
pub fn chars_eq(x: &Vec<char>, y: &Vec<char>) -> (r: bool)
    ensures
        r == (x@ == y@),
{
    if x.len() != y.len() {
        return false;
    }
    let mut i: usize = 0;
    while i < x.len()
        invariant
            x.len() == y.len(),
            i <= x.len(),
            forall|k: int| 0 <= k < i ==> x@[k] == y@[k],
        decreases x.len() - i,
    {
        if x[i] != y[i] {
            return false;
        }
        i = i + 1;
    }
    assert(x@ =~= y@);
    true
}

/// `s` begins with `prefix`.
pub open spec fn starts_with_seq(s: Seq<char>, prefix: Seq<char>) -> bool {
    prefix.len() <= s.len() && s.take(prefix.len() as int) == prefix
}

/// Whether `s` begins with `prefix`, as `str::starts_with` tests.
pub fn starts_with_chars(s: &Vec<char>, prefix: &Vec<char>) -> (r: bool)
    ensures
        r == starts_with_seq(s@, prefix@),
{
    if prefix.len() > s.len() {
        return false;
    }
    let mut i: usize = 0;
    while i < prefix.len()
        invariant
            prefix.len() <= s.len(),
            i <= prefix.len(),
            forall|k: int| 0 <= k < i ==> s@[k] == prefix@[k],
        decreases prefix.len() - i,
    {
        if s[i] != prefix[i] {
            assert(s@.take(prefix.len() as int)[i as int] != prefix@[i as int]);
            return false;
        }
        i = i + 1;
    }
    assert(s@.take(prefix.len() as int) =~= prefix@);
    true
}

/// Appends the characters of `extra` to `out`.
pub fn extend_chars(out: &mut Vec<char>, extra: &Vec<char>)
    ensures
        final(out)@ == old(out)@ + extra@,
{
    let mut i: usize = 0;
    let ghost start = out@;
    while i < extra.len()
        invariant
            i <= extra.len(),
            out@ =~= start + extra@.take(i as int),
        decreases extra.len() - i,
    {
        out.push(extra[i]);
        i = i + 1;
    }
    assert(extra@.take(extra.len() as int) =~= extra@);
}

/// Replaces every non-overlapping occurrence of `pat`, scanning from the left, by `rep`,
/// as `str::replace` does for a non-empty pattern.
pub open spec fn replace_seq(s: Seq<char>, pat: Seq<char>, rep: Seq<char>) -> Seq<char>
    recommends
        pat.len() > 0,
    decreases s.len(),
{
    if pat.len() == 0 || s.len() < pat.len() {
        s
    } else if s.take(pat.len() as int) == pat {
        rep + replace_seq(s.skip(pat.len() as int), pat, rep)
    } else {
        seq![s[0]] + replace_seq(s.drop_first(), pat, rep)
    }
}

/// `str::replace` with a non-empty pattern, on characters.
pub fn replace_chars(s: &Vec<char>, pat: &Vec<char>, rep: &Vec<char>) -> (out: Vec<char>)
    requires
        pat.len() > 0,
    ensures
        out@ == replace_seq(s@, pat@, rep@),
{
    let mut out: Vec<char> = Vec::new();
    let mut i: usize = 0;
    let n = s.len();
    assert(s@.skip(0) =~= s@);
    while i < n
        invariant
            n == s.len(),
            pat.len() > 0,
            i <= n,
            out@ + replace_seq(s@.skip(i as int), pat@, rep@) == replace_seq(s@, pat@, rep@),
        decreases n - i,
    {
        let ghost rest = s@.skip(i as int);
        if pat.len() <= n - i && matches_at(s, pat, i) {
            assert(rest.take(pat.len() as int) =~= s@.subrange(i as int, i + pat.len()));
            assert(rest.skip(pat.len() as int) =~= s@.skip(i + pat.len()));
            extend_chars(&mut out, rep);
            i = i + pat.len();
        } else {
            proof {
                if pat.len() <= rest.len() {
                    assert(rest.take(pat.len() as int) =~= s@.subrange(i as int, i + pat.len()));
                }
                assert(rest.drop_first() =~= s@.skip(i + 1));
                if rest.len() < pat.len() {
                    // The tail is too short to hold the pattern: it is kept as it is.
                    assert(replace_seq(rest, pat@, rep@) == rest);
                    assert(rest.drop_first().len() < pat.len());
                    assert(replace_seq(rest.drop_first(), pat@, rep@) == rest.drop_first());
                    assert(rest =~= seq![rest[0]] + rest.drop_first());
                }
            }
            out.push(s[i]);
            assert(out@ + replace_seq(s@.skip(i + 1), pat@, rep@) =~= (out@.drop_last()
                + seq![s@[i as int]]) + replace_seq(s@.skip(i + 1), pat@, rep@));
            i = i + 1;
        }
    }
    assert(s@.skip(n as int) =~= Seq::<char>::empty());
    assert(out@ + Seq::<char>::empty() =~= out@);
    out
}

/// A text that starts with `pat` has it replaced by `rep`, and the rest of the text has
/// `pat` replaced again: the replacement goes on past the first occurrence.
pub proof fn lemma_replace_leading(t: Seq<char>, pat: Seq<char>, rep: Seq<char>)
    requires
        pat.len() > 0,
    ensures
        replace_seq(pat + t, pat, rep) == rep + replace_seq(t, pat, rep),
{
    let s = pat + t;
    assert(s.take(pat.len() as int) =~= pat);
    assert(s.skip(pat.len() as int) =~= t);
}

/// A text in which `pat` does not occur comes back unchanged.
pub proof fn lemma_replace_absent(s: Seq<char>, pat: Seq<char>, rep: Seq<char>)
    requires
        pat.len() > 0,
        forall|i: int| !occurs_at(s, pat, i),
    ensures
        replace_seq(s, pat, rep) == s,
    decreases s.len(),
{
    if s.len() >= pat.len() {
        assert(!occurs_at(s, pat, 0));
        assert(s.subrange(0, pat.len() as int) =~= s.take(pat.len() as int));
        let r = s.drop_first();
        assert forall|i: int| !occurs_at(r, pat, i) by {
            if occurs_at(r, pat, i) {
                assert(r.subrange(i, i + pat.len()) =~= s.subrange(i + 1, i + 1 + pat.len()));
                assert(occurs_at(s, pat, i + 1));
            }
        }
        lemma_replace_absent(r, pat, rep);
        assert(s =~= seq![s[0]] + r);
    }
}

/// Every occurrence is replaced: the text before the first occurrence of `pat` is kept,
/// that occurrence becomes `rep`, and the text after it has each occurrence replaced in
/// the same way. With `lemma_replace_absent` this fixes the result on every text.
pub proof fn lemma_replace_first_occurrence(s1: Seq<char>, s2: Seq<char>, pat: Seq<char>, rep: Seq<char>)
    requires
        pat.len() > 0,
        forall|i: int| 0 <= i < s1.len() ==> !occurs_at(s1 + pat + s2, pat, i),
    ensures
        replace_seq(s1 + pat + s2, pat, rep) == s1 + rep + replace_seq(s2, pat, rep),
    decreases s1.len(),
{
    let s = s1 + pat + s2;
    if s1.len() == 0 {
        assert(s =~= pat + s2);
        lemma_replace_leading(s2, pat, rep);
        assert(s1 + rep + replace_seq(s2, pat, rep) =~= rep + replace_seq(s2, pat, rep));
    } else {
        assert(!occurs_at(s, pat, 0));
        assert(s.subrange(0, pat.len() as int) =~= s.take(pat.len() as int));
        let r1 = s1.drop_first();
        let r = r1 + pat + s2;
        assert(s.drop_first() =~= r);
        assert forall|i: int| 0 <= i < r1.len() implies !occurs_at(r, pat, i) by {
            if occurs_at(r, pat, i) {
                assert(r.subrange(i, i + pat.len()) =~= s.subrange(i + 1, i + 1 + pat.len()));
                assert(occurs_at(s, pat, i + 1));
            }
        }
        lemma_replace_first_occurrence(r1, s2, pat, rep);
        assert(s1 + rep + replace_seq(s2, pat, rep) =~= seq![s[0]] + (r1 + rep + replace_seq(s2, pat, rep)));
    }
}

/// The characters of `s` outside `<...>` tags, starting inside a tag when `in_tag` holds.
pub open spec fn strip_tags_seq(s: Seq<char>, in_tag: bool) -> Seq<char>
    decreases s.len(),
{
    if s.len() == 0 {
        s
    } else if s[0] == '<' {
        strip_tags_seq(s.drop_first(), true)
    } else if s[0] == '>' {
        strip_tags_seq(s.drop_first(), false)
    } else if in_tag {
        strip_tags_seq(s.drop_first(), in_tag)
    } else {
        seq![s[0]] + strip_tags_seq(s.drop_first(), in_tag)
    }
}

/// Removes `<...>` tags from `s`.
pub fn strip_tags_chars(s: &Vec<char>) -> (out: Vec<char>)
    ensures
        out@ == strip_tags_seq(s@, false),
{
    let mut out: Vec<char> = Vec::new();
    let mut in_tag = false;
    let mut i: usize = 0;
    assert(s@.skip(0) =~= s@);
    while i < s.len()
        invariant
            i <= s.len(),
            out@ + strip_tags_seq(s@.skip(i as int), in_tag) == strip_tags_seq(s@, false),
        decreases s.len() - i,
    {
        let c = s[i];
        assert(s@.skip(i as int).drop_first() =~= s@.skip(i + 1));
        if c == '<' {
            in_tag = true;
        } else if c == '>' {
            in_tag = false;
        } else if !in_tag {
            out.push(c);
            assert(out@ + strip_tags_seq(s@.skip(i + 1), in_tag) =~= out@.drop_last() + (seq![c]
                + strip_tags_seq(s@.skip(i + 1), in_tag)));
        }
        i = i + 1;
    }
    assert(s@.skip(s.len() as int) =~= Seq::<char>::empty());
    assert(out@ + Seq::<char>::empty() =~= out@);
    out
}

/// `a` comes no later than `b` in the lexicographic order of their characters,
/// which is the order `str` compares by.
pub open spec fn seq_le(a: Seq<char>, b: Seq<char>) -> bool
    decreases a.len(),
{
    if a.len() == 0 {
        true
    } else if b.len() == 0 {
        false
    } else if a[0] != b[0] {
        a[0] < b[0]
    } else {
        seq_le(a.drop_first(), b.drop_first())
    }
}

/// Any two texts compare: one of them is at most the other.
pub proof fn lemma_seq_le_total(a: Seq<char>, b: Seq<char>)
    ensures
        seq_le(a, b) || seq_le(b, a),
    decreases a.len(),
{
    if a.len() > 0 && b.len() > 0 && a[0] == b[0] {
        lemma_seq_le_total(a.drop_first(), b.drop_first());
    }
}

/// Comparing texts is transitive.
pub proof fn lemma_seq_le_trans(a: Seq<char>, b: Seq<char>, c: Seq<char>)
    requires
        seq_le(a, b),
        seq_le(b, c),
    ensures
        seq_le(a, c),
    decreases a.len(),
{
    if a.len() > 0 && b.len() > 0 && c.len() > 0 && a[0] == b[0] && b[0] == c[0] {
        lemma_seq_le_trans(a.drop_first(), b.drop_first(), c.drop_first());
    }
}

/// Whether `a` comes no later than `b` in lexicographic order.
pub fn chars_le(a: &Vec<char>, b: &Vec<char>) -> (r: bool)
    ensures
        r == seq_le(a@, b@),
{
    let mut i: usize = 0;
    assert(a@.skip(0) =~= a@);
    assert(b@.skip(0) =~= b@);
    while i < a.len()
        invariant
            i <= a.len(),
            i <= b.len(),
            forall|k: int| 0 <= k < i ==> a@[k] == b@[k],
            seq_le(a@, b@) == seq_le(a@.skip(i as int), b@.skip(i as int)),
        decreases a.len() - i,
    {
        if i == b.len() {
            return false;
        }
        assert(a@.skip(i as int).drop_first() =~= a@.skip(i + 1));
        assert(b@.skip(i as int).drop_first() =~= b@.skip(i + 1));
        if a[i] != b[i] {
            return a[i] < b[i];
        }
        i = i + 1;
    }
    true
}

/// The decimal digit for `d < 10`.
pub open spec fn digit_char(d: nat) -> char {
    if d == 0 { '0' }
    else if d == 1 { '1' }
    else if d == 2 { '2' }
    else if d == 3 { '3' }
    else if d == 4 { '4' }
    else if d == 5 { '5' }
    else if d == 6 { '6' }
    else if d == 7 { '7' }
    else if d == 8 { '8' }
    else { '9' }
}

/// The decimal representation of `n`, without sign or leading zeros.
pub open spec fn decimal_seq(n: nat) -> Seq<char>
    decreases n,
{
    if n < 10 {
        seq![digit_char(n)]
    } else {
        decimal_seq(n / 10).push(digit_char(n % 10))
    }
}

fn digit_of(d: u64) -> (c: char)
    requires
        d < 10,
    ensures
        c == digit_char(d as nat),
{
    if d == 0 { '0' }
    else if d == 1 { '1' }
    else if d == 2 { '2' }
    else if d == 3 { '3' }
    else if d == 4 { '4' }
    else if d == 5 { '5' }
    else if d == 6 { '6' }
    else if d == 7 { '7' }
    else if d == 8 { '8' }
    else { '9' }
}

/// The decimal representation of `n`, as `u64::to_string` gives it.
pub fn decimal_chars(n: u64) -> (out: Vec<char>)
    ensures
        out@ == decimal_seq(n as nat),
    decreases n,
{
    if n < 10 {
        let mut v: Vec<char> = Vec::new();
        v.push(digit_of(n));
        v
    } else {
        let mut v = decimal_chars(n / 10);
        v.push(digit_of(n % 10));
        v
    }
}

} // verus!

verus! {

/// The lines of `s` scanned from `cur`, the part of the current line read so far,
/// as `str::lines` yields them: lines end at `\n`, a `\r` just before that `\n` is
/// dropped, and an empty last line after the final `\n` is not yielded.
pub open spec fn lines_from(s: Seq<char>, cur: Seq<char>) -> Seq<Seq<char>>
    decreases s.len(),
{
    if s.len() == 0 {
        if cur.len() == 0 {
            Seq::empty()
        } else {
            seq![cur]
        }
    } else if s[0] == '\n' {
        seq![drop_cr(cur)] + lines_from(s.drop_first(), Seq::empty())
    } else {
        lines_from(s.drop_first(), cur.push(s[0]))
    }
}

/// `line` without one trailing `\r`.
pub open spec fn drop_cr(line: Seq<char>) -> Seq<char> {
    if line.len() > 0 && line.last() == '\r' {
        line.drop_last()
    } else {
        line
    }
}

/// The lines of `s`, as `str::lines` yields them.
pub open spec fn lines_seq(s: Seq<char>) -> Seq<Seq<char>> {
    lines_from(s, Seq::empty())
}

/// The pieces of `list` joined with `sep` between each two, as `join` on a slice gives it.
pub open spec fn join_seq(list: Seq<Seq<char>>, sep: Seq<char>) -> Seq<char>
    decreases list.len(),
{
    if list.len() == 0 {
        Seq::empty()
    } else if list.len() == 1 {
        list[0]
    } else {
        join_seq(list.drop_last(), sep) + sep + list.last()
    }
}

/// Characters without a line break only lengthen the line being read.
pub proof fn lemma_lines_from_plain(l: Seq<char>, s: Seq<char>, cur: Seq<char>)
    requires
        forall|k: int| 0 <= k < l.len() ==> l[k] != '\n',
    ensures
        lines_from(l + s, cur) == lines_from(s, cur + l),
    decreases l.len(),
{
    if l.len() == 0 {
        assert(l + s =~= s);
        assert(cur + l =~= cur);
    } else {
        let t = l.drop_first();
        assert((l + s).drop_first() =~= t + s);
        assert(cur.push(l[0]) + t =~= cur + l);
        lemma_lines_from_plain(t, s, cur.push(l[0]));
    }
}

/// A non-empty text has at least one line.
pub proof fn lemma_lines_from_nonempty(s: Seq<char>, cur: Seq<char>)
    requires
        s.len() > 0 || cur.len() > 0,
    ensures
        lines_from(s, cur).len() > 0,
    decreases s.len(),
{
    if s.len() > 0 && s[0] != '\n' {
        lemma_lines_from_nonempty(s.drop_first(), cur.push(s[0]));
    }
}

/// Joining a list with one more piece in front puts that piece and a separator in front.
pub proof fn lemma_join_prepend(x: Seq<char>, list: Seq<Seq<char>>, sep: Seq<char>)
    requires
        list.len() > 0,
    ensures
        join_seq(seq![x] + list, sep) == x + sep + join_seq(list, sep),
    decreases list.len(),
{
    let whole = seq![x] + list;
    if list.len() == 1 {
        assert(whole.drop_last() =~= seq![x]);
        assert(whole.last() == list[0]);
        assert(join_seq(seq![x], sep) == seq![x][0]);
        assert(join_seq(list, sep) == list[0]);
        assert(join_seq(whole, sep) == join_seq(whole.drop_last(), sep) + sep + whole.last());
    } else {
        lemma_join_prepend(x, list.drop_last(), sep);
        assert(whole.drop_last() =~= seq![x] + list.drop_last());
        assert(whole.last() == list.last());
        assert(join_seq(whole, sep) == join_seq(whole.drop_last(), sep) + sep + whole.last());
        assert(join_seq(list, sep) == join_seq(list.drop_last(), sep) + sep + list.last());
        assert(x + sep + join_seq(list, sep) =~= (x + sep + join_seq(list.drop_last(), sep)) + sep + list.last());
    }
}

fn drop_cr_chars(line: Vec<char>) -> (out: Vec<char>)
    ensures
        out@ == drop_cr(line@),
{
    let mut line = line;
    if line.len() > 0 && line[line.len() - 1] == '\r' {
        line.pop();
    }
    line
}

/// The lines of `s`, as `str::lines` yields them.
pub fn lines_chars(s: &Vec<char>) -> (out: Vec<Vec<char>>)
    ensures
        out@.map_values(|l: Vec<char>| l@) == lines_seq(s@),
{
    let mut out: Vec<Vec<char>> = Vec::new();
    let mut cur: Vec<char> = Vec::new();
    let mut i: usize = 0;
    assert(s@.skip(0) =~= s@);
    while i < s.len()
        invariant
            i <= s.len(),
            out@.map_values(|l: Vec<char>| l@) + lines_from(s@.skip(i as int), cur@) == lines_seq(s@),
        decreases s.len() - i,
    {
        let c = s[i];
        assert(s@.skip(i as int).drop_first() =~= s@.skip(i + 1));
        if c == '\n' {
            let ghost before = out@.map_values(|l: Vec<char>| l@);
            let done = drop_cr_chars(cur);
            out.push(done);
            assert(out@.map_values(|l: Vec<char>| l@) =~= before.push(done@));
            cur = Vec::new();
            assert(before + (seq![done@] + lines_from(s@.skip(i + 1), Seq::empty())) =~= out@.map_values(|l: Vec<char>| l@) + lines_from(s@.skip(i + 1), cur@));
        } else {
            cur.push(c);
        }
        i = i + 1;
    }
    assert(s@.skip(s.len() as int) =~= Seq::<char>::empty());
    if cur.len() > 0 {
        let ghost before = out@.map_values(|l: Vec<char>| l@);
        out.push(cur);
        assert(out@.map_values(|l: Vec<char>| l@) =~= before + lines_from(Seq::empty(), cur@));
    } else {
        assert(out@.map_values(|l: Vec<char>| l@) =~= out@.map_values(|l: Vec<char>| l@) + lines_from(Seq::empty(), cur@));
    }
    out
}

/// The pieces joined with `sep` between each two.
pub fn join_chars(list: &Vec<Vec<char>>, sep: &Vec<char>) -> (out: Vec<char>)
    ensures
        out@ == join_seq(list@.map_values(|l: Vec<char>| l@), sep@),
{
    let ghost views = list@.map_values(|l: Vec<char>| l@);
    let mut out: Vec<char> = Vec::new();
    let mut i: usize = 0;
    while i < list.len()
        invariant
            i <= list.len(),
            views == list@.map_values(|l: Vec<char>| l@),
            out@ == join_seq(views.take(i as int), sep@),
        decreases list.len() - i,
    {
        assert(views.take(i + 1).drop_last() =~= views.take(i as int));
        if i > 0 {
            extend_chars(&mut out, sep);
        }
        extend_chars(&mut out, &list[i]);
        i = i + 1;
    }
    assert(views.take(list.len() as int) =~= views);
    out
}

} // verus!

verus! {

/// `s` with `c` inserted before the character at `idx`.
pub fn insert_char_at(s: &String, idx: usize, c: char) -> (r: String)
    requires
        idx <= s@.len(),
    ensures
        r@ == s@.insert(idx as int, c),
        s@.len() < usize::MAX,
{
    let mut cs = chars_of(s.as_str());
    cs.insert(idx, c);
    assert(cs@.len() == cs.len());
    string_of(&cs)
}

/// `s` without the character at `idx`.
pub fn remove_char_at(s: &String, idx: usize) -> (r: String)
    requires
        idx < s@.len(),
    ensures
        r@ == s@.remove(idx as int),
{
    let mut cs = chars_of(s.as_str());
    cs.remove(idx);
    string_of(&cs)
}

/// The number of characters in `s`.
pub fn char_count(s: &str) -> (n: usize)
    ensures
        n == s@.len(),
{
    chars_of(s).len()
}

/// Inserting a character and then removing it at the same place gives the text back.
pub proof fn lemma_insert_then_remove(s: Seq<char>, idx: int, c: char)
    requires
        0 <= idx <= s.len(),
    ensures
        s.insert(idx, c).remove(idx) == s,
{
    assert(s.insert(idx, c).remove(idx) =~= s);
}

} // verus!

verus! {

/// The first position from `i` on at which `needle` occurs in `hay`.
pub open spec fn find_from(hay: Seq<char>, needle: Seq<char>, i: int) -> Option<int>
    decreases hay.len() + 1 - i,
{
    if i < 0 || i + needle.len() > hay.len() {
        None
    } else if occurs_at(hay, needle, i) {
        Some(i)
    } else {
        find_from(hay, needle, i + 1)
    }
}

/// The first position at which `needle` occurs in `hay`, as `str::find` gives it.
pub open spec fn find_seq(hay: Seq<char>, needle: Seq<char>) -> Option<int> {
    find_from(hay, needle, 0)
}

proof fn lemma_find_from_skip(hay: Seq<char>, needle: Seq<char>, i: int, j: int)
    requires
        0 <= i <= j,
        forall|k: int| i <= k < j ==> !occurs_at(hay, needle, k),
    ensures
        find_from(hay, needle, i) == find_from(hay, needle, j),
    decreases j - i,
{
    if i < j {
        lemma_find_from_skip(hay, needle, i + 1, j);
    }
}

/// `find_seq` is the first occurrence, where there is one, and none otherwise.
pub proof fn lemma_find_seq(hay: Seq<char>, needle: Seq<char>, r: Option<usize>)
    requires
        match r {
            Some(i) => occurs_at(hay, needle, i as int) && forall|j: int|
                0 <= j < i ==> !occurs_at(hay, needle, j),
            None => !contains_seq(hay, needle),
        },
    ensures
        find_seq(hay, needle) == (match r {
            Some(i) => Some(i as int),
            None => None::<int>,
        }),
{
    match r {
        Some(i) => {
            lemma_find_from_skip(hay, needle, 0, i as int);
        },
        None => {
            let n = if hay.len() >= needle.len() { hay.len() - needle.len() + 1 } else { 0 };
            lemma_find_from_skip(hay, needle, 0, n as int);
        },
    }
}

} // verus!

verus! {

/// Joins strings with a separator between each two.
pub fn join_strings(list: &Vec<String>, sep: &str) -> (out: String)
    ensures
        out@ == join_seq(list@.map_values(|s: String| s@), sep@),
{
    let ghost views = list@.map_values(|s: String| s@);
    if list.len() == 0 {
        return String::new();
    }
    let mut out = list[0].clone();
    let mut i: usize = 1;
    assert(views.take(1).drop_last() =~= Seq::<Seq<char>>::empty());
    while i < list.len()
        invariant
            1 <= i <= list.len(),
            views == list@.map_values(|s: String| s@),
            out@ == join_seq(views.take(i as int), sep@),
        decreases list.len() - i,
    {
        assert(views.take(i + 1).drop_last() =~= views.take(i as int));
        out = out.concat(sep).concat(list[i].as_str());
        i = i + 1;
    }
    assert(views.take(list.len() as int) =~= views);
    out
}

} // verus!

verus! {

/// The number of bytes of a text in UTF-8.
pub open spec fn utf8_len(s: Seq<char>) -> nat {
    encode_utf8(s).len()
}

/// The UTF-8 encoding of two texts one after the other is their encodings one after the other.
pub proof fn lemma_encode_concat(a: Seq<char>, b: Seq<char>)
    ensures
        encode_utf8(a + b) == encode_utf8(a) + encode_utf8(b),
    decreases a.len(),
{
    if a.len() == 0 {
        assert(a + b =~= b);
        assert(encode_utf8(a) + encode_utf8(b) =~= encode_utf8(b));
    } else {
        lemma_encode_concat(a.drop_first(), b);
        assert((a + b).drop_first() =~= a.drop_first() + b);
        assert((a + b)[0] == a[0]);
        assert(encode_utf8(a + b) =~= encode_scalar(a[0] as u32) + encode_utf8(a.drop_first() + b));
        assert(encode_utf8(a + b) =~= encode_utf8(a) + encode_utf8(b));
    }
}

/// The number of UTF-8 bytes of a character.
pub fn utf8_width(c: char) -> (n: usize)
    ensures
        n == encode_scalar(c as u32).len(),
        1 <= n <= 4,
{
    proof {
        char_is_scalar(c);
    }
    let v = c as u32;
    if v <= 0x7F {
        1
    } else if v <= 0x7FF {
        2
    } else if v <= 0xFFFF {
        3
    } else {
        4
    }
}

/// The UTF-8 length of a prefix grows by the width of the next character.
pub proof fn lemma_prefix_len_step(s: Seq<char>, i: int)
    requires
        0 <= i < s.len(),
    ensures
        utf8_len(s.take(i + 1)) == utf8_len(s.take(i)) + encode_scalar(s[i] as u32).len(),
{
    assert(s.take(i + 1) =~= s.take(i) + seq![s[i]]);
    lemma_encode_concat(s.take(i), seq![s[i]]);
    assert(seq![s[i]].drop_first() =~= Seq::<char>::empty());
    assert(encode_utf8(seq![s[i]]) =~= encode_scalar(s[i] as u32) + encode_utf8(Seq::<char>::empty()));
}

/// A prefix takes no more bytes than the whole text.
pub proof fn lemma_prefix_len_le(s: Seq<char>, i: int)
    requires
        0 <= i <= s.len(),
    ensures
        utf8_len(s.take(i)) <= utf8_len(s),
{
    assert(s =~= s.take(i) + s.skip(i));
    lemma_encode_concat(s.take(i), s.skip(i));
}


/// The UTF-8 length of a prefix grows strictly with the prefix.
pub proof fn lemma_prefix_len_strict(s: Seq<char>, i: int, j: int)
    requires
        0 <= i < j <= s.len(),
    ensures
        utf8_len(s.take(i)) < utf8_len(s.take(j)),
    decreases j - i,
{
    lemma_prefix_len_step(s, j - 1);
    if i < j - 1 {
        lemma_prefix_len_strict(s, i, j - 1);
    }
}

/// The character position at byte offset `b` of `s`: the number of characters whose
/// encoding fills the first `b` bytes, where `b` falls between characters or at an end;
/// nothing where it falls inside a character or past the end.
pub open spec fn char_at_byte(s: Seq<char>, b: int) -> Option<int> {
    if exists|k: int| 0 <= k <= s.len() && #[trigger] utf8_len(s.take(k)) == b {
        Some(choose|k: int| 0 <= k <= s.len() && #[trigger] utf8_len(s.take(k)) == b)
    } else {
        None
    }
}

/// The byte offset after the first `k` characters is their position.
pub proof fn lemma_char_at_byte_prefix(s: Seq<char>, k: int)
    requires
        0 <= k <= s.len(),
    ensures
        char_at_byte(s, utf8_len(s.take(k)) as int) == Some(k),
{
    let b = utf8_len(s.take(k)) as int;
    assert(0 <= k <= s.len() && utf8_len(s.take(k)) == b);
    let j = choose|j: int| 0 <= j <= s.len() && #[trigger] utf8_len(s.take(j)) == b;
    if j < k {
        lemma_prefix_len_strict(s, j, k);
    } else if k < j {
        lemma_prefix_len_strict(s, k, j);
    }
}

/// No character position lies at byte offset `b` when every prefix up to `i`
/// characters is shorter than `b` and every longer one is longer.
proof fn lemma_no_char_at_byte(s: Seq<char>, b: int, i: int)
    requires
        0 <= i <= s.len(),
        utf8_len(s.take(i)) < b,
        i < s.len() ==> utf8_len(s.take(i + 1)) > b,
    ensures
        char_at_byte(s, b) is None,
{
    if exists|k: int| 0 <= k <= s.len() && #[trigger] utf8_len(s.take(k)) == b {
        let k = choose|k: int| 0 <= k <= s.len() && #[trigger] utf8_len(s.take(k)) == b;
        if k < i {
            lemma_prefix_len_strict(s, k, i);
        } else if k > i + 1 {
            lemma_prefix_len_strict(s, i + 1, k);
        }
    }
}

/// The character position at byte offset `b` of `s`, where `b` falls between characters
/// or at an end.
pub fn char_index_at_byte(s: &str, b: usize) -> (r: Option<usize>)
    ensures
        match r {
            Some(k) => char_at_byte(s@, b as int) == Some(k as int),
            None => char_at_byte(s@, b as int) is None,
        },
{
    let cs = chars_of(s);
    let mut used: usize = 0;
    let mut i: usize = 0;
    assert(cs@.take(0) =~= Seq::<char>::empty());
    while i < cs.len() && used < b
        invariant
            i <= cs.len(),
            cs@ == s@,
            used == utf8_len(cs@.take(i as int)),
            used <= b,
        decreases cs.len() - i,
    {
        let w = utf8_width(cs[i]);
        proof {
            lemma_prefix_len_step(cs@, i as int);
        }
        if w > b - used {
            proof {
                lemma_no_char_at_byte(s@, b as int, i as int);
            }
            return None;
        }
        used = used + w;
        i = i + 1;
    }
    if used == b {
        proof {
            lemma_char_at_byte_prefix(s@, i as int);
        }
        Some(i)
    } else {
        assert(cs@.take(i as int) =~= cs@);
        proof {
            lemma_no_char_at_byte(s@, b as int, i as int);
        }
        None
    }
}

/// Whether `s` takes more than `n` bytes in UTF-8.
pub fn longer_than_bytes(s: &str, n: usize) -> (r: bool)
    ensures
        r == (utf8_len(s@) > n),
{
    let cs = chars_of(s);
    let mut used: usize = 0;
    let mut i: usize = 0;
    while i < cs.len()
        invariant
            i <= cs.len(),
            cs@ == s@,
            used == utf8_len(cs@.take(i as int)),
            used <= n,
        decreases cs.len() - i,
    {
        let w = utf8_width(cs[i]);
        proof {
            lemma_prefix_len_step(cs@, i as int);
        }
        if w > n - used {
            proof {
                lemma_prefix_len_le(cs@, i + 1);
            }
            return true;
        }
        used = used + w;
        i = i + 1;
    }
    assert(cs@.take(i as int) =~= cs@);
    false
}

/// `s` with `c` inserted at byte offset `b`, as `String::insert` does; `s` itself where
/// `b` does not fall between characters, on which `String::insert` panics.
pub open spec fn insert_at_byte(s: Seq<char>, b: int, c: char) -> Seq<char> {
    match char_at_byte(s, b) {
        Some(k) => s.insert(k, c),
        None => s,
    }
}

/// `s` without the character that starts at byte offset `b`, as `String::remove` does;
/// `s` itself where no character starts there, on which `String::remove` panics.
pub open spec fn remove_at_byte(s: Seq<char>, b: int) -> Seq<char> {
    match char_at_byte(s, b) {
        Some(k) => if k < s.len() { s.remove(k) } else { s },
        None => s,
    }
}

/// `String::insert` at byte offset `b` does not panic: `b` falls between characters.
pub open spec fn can_insert_at_byte(s: Seq<char>, b: int) -> bool {
    char_at_byte(s, b) is Some
}

/// `String::remove` at byte offset `b` does not panic: a character starts there.
pub open spec fn can_remove_at_byte(s: Seq<char>, b: int) -> bool {
    char_at_byte(s, b) matches Some(k) && k < s.len()
}

/// `s` with `c` inserted at byte offset `b`.
pub fn insert_at_byte_offset(s: &String, b: usize, c: char) -> (r: String)
    requires
        can_insert_at_byte(s@, b as int),
    ensures
        r@ == insert_at_byte(s@, b as int, c),
{
    match char_index_at_byte(s.as_str(), b) {
        Some(k) => insert_char_at(s, k, c),
        None => s.clone(),
    }
}

/// `s` without the character that starts at byte offset `b`.
pub fn remove_at_byte_offset(s: &String, b: usize) -> (r: String)
    requires
        can_remove_at_byte(s@, b as int),
    ensures
        r@ == remove_at_byte(s@, b as int),
{
    match char_index_at_byte(s.as_str(), b) {
        Some(k) => remove_char_at(s, k),
        None => s.clone(),
    }
}

/// Where a character position lies at byte offset `b`, the characters before it fill
/// exactly `b` bytes.
pub proof fn lemma_char_at_byte_some(s: Seq<char>, b: int)
    ensures
        char_at_byte(s, b) matches Some(k) ==> 0 <= k <= s.len() && utf8_len(s.take(k)) == b,
{
}

/// Inserting a character at a byte offset between characters leaves a text longer than
/// that offset.
pub proof fn lemma_insert_at_byte_len(s: Seq<char>, b: int, c: char)
    requires
        can_insert_at_byte(s, b),
    ensures
        utf8_len(insert_at_byte(s, b, c)) >= b + 1,
{
    lemma_char_at_byte_some(s, b);
    let k = char_at_byte(s, b)->Some_0;
    let t = s.insert(k, c);
    assert(t.take(k) =~= s.take(k));
    lemma_prefix_len_step(t, k);
    lemma_prefix_len_le(t, k + 1);
}

/// Removing the character that starts at a byte offset leaves a text of at least that
/// many bytes.
pub proof fn lemma_remove_at_byte_len(s: Seq<char>, b: int)
    requires
        can_remove_at_byte(s, b),
    ensures
        utf8_len(remove_at_byte(s, b)) >= b,
{
    lemma_char_at_byte_some(s, b);
    let k = char_at_byte(s, b)->Some_0;
    let t = s.remove(k);
    assert(t.take(k) =~= s.take(k));
    lemma_prefix_len_le(t, k);
}

/// Typing a character at a byte offset between characters and then removing the
/// character at that offset gives the text back.
pub proof fn lemma_insert_then_remove_at_byte(s: Seq<char>, b: int, c: char)
    requires
        can_insert_at_byte(s, b),
    ensures
        can_remove_at_byte(insert_at_byte(s, b, c), b),
        remove_at_byte(insert_at_byte(s, b, c), b) == s,
{
    let k = char_at_byte(s, b)->Some_0;
    let t = s.insert(k, c);
    assert(utf8_len(s.take(k)) == b);
    assert(t.take(k) =~= s.take(k));
    lemma_char_at_byte_prefix(t, k);
    lemma_insert_then_remove(s, k, c);
}

} // verus!
