//! Character-level text helpers used by the game's message formatting.
use vstd::prelude::*;
use vstd::string::*;

verus! {

/// The decimal digit character for `d` (0..=9).
pub open spec fn digit_char(d: nat) -> char {
    if d == 0 { '0' } else if d == 1 { '1' } else if d == 2 { '2' } else if d == 3 { '3' }
    else if d == 4 { '4' } else if d == 5 { '5' } else if d == 6 { '6' } else if d == 7 { '7' }
    else if d == 8 { '8' } else { '9' }
}

/// Decimal digits of a natural number, most significant first, no leading zeros.
pub open spec fn decimal(n: nat) -> Seq<char>
    decreases n,
{
    if n < 10 { seq![digit_char(n)] } else { decimal(n / 10) + seq![digit_char(n % 10)] }
}

/// Decimal text of a signed integer, with a leading '-' when negative.
pub open spec fn signed_decimal(i: int) -> Seq<char> {
    if i < 0 { seq!['-'] + decimal((-i) as nat) } else { decimal(i as nat) }
}

/// What `str::to_lowercase` returns for the given characters (full Unicode lowercasing).
pub uninterp spec fn lowercase(s: Seq<char>) -> Seq<char>;

/// Whether a character has the Unicode `White_Space` property (what `char::is_whitespace`
/// tests): tab through carriage return, space, next line, no-break space, ogham space mark,
/// the en quad through hair space, the line and paragraph separators, the narrow no-break
/// space, the medium mathematical space and the ideographic space.
pub open spec fn is_white_space(c: char) -> bool {
    let u = c as u32;
    (0x9 <= u && u <= 0xd) || u == 0x20 || u == 0x85 || u == 0xa0 || u == 0x1680
        || (0x2000 <= u && u <= 0x200a) || u == 0x2028 || u == 0x2029 || u == 0x202f
        || u == 0x205f || u == 0x3000
}

/// The text without its leading white space.
pub open spec fn trim_start_ws(s: Seq<char>) -> Seq<char>
    decreases s.len(),
{
    if s.len() > 0 && is_white_space(s[0]) { trim_start_ws(s.drop_first()) } else { s }
}

/// The text without its trailing white space.
pub open spec fn trim_end_ws(s: Seq<char>) -> Seq<char>
    decreases s.len(),
{
    if s.len() > 0 && is_white_space(s.last()) { trim_end_ws(s.drop_last()) } else { s }
}

/// What `str::trim` returns: the text with leading and trailing white space removed.
pub open spec fn trimmed(s: Seq<char>) -> Seq<char> {
    trim_end_ws(trim_start_ws(s))
}

/// The decimal digit character for `d`.
fn digit_of(d: u64) -> (c: char)
    requires
        d < 10,
    ensures
        c == digit_char(d as nat),
{
    if d == 0 { '0' } else if d == 1 { '1' } else if d == 2 { '2' } else if d == 3 { '3' }
    else if d == 4 { '4' } else if d == 5 { '5' } else if d == 6 { '6' } else if d == 7 { '7' }
    else if d == 8 { '8' } else { '9' }
}

/// The decimal digits of `n`, most significant first.
fn decimal_digits(n: u64) -> (r: Vec<char>)
    ensures
        r@ == decimal(n as nat),
    decreases n,
{
    if n < 10 {
        vec![digit_of(n)]
    } else {
        let mut v = decimal_digits(n / 10);
        v.push(digit_of(n % 10));
        v
    }
}

/// The decimal text of a `u64`, as its `Display` writes it.
pub(crate) fn u64_text(n: u64) -> (r: String)
    ensures
        r@ == decimal(n as nat),
{
    let digits = decimal_digits(n);
    let mut s = String::new();
    push_chars(&mut s, &digits);
    s
}

/// The decimal text of an `i64`, with a leading '-' when negative, as its `Display` writes it.
pub(crate) fn i64_text(n: i64) -> (r: String)
    ensures
        r@ == signed_decimal(n as int),
{
    let mut s = String::new();
    if n < 0 {
        push_char(&mut s, '-');
        let m: u64 = (0i128 - n as i128) as u64;
        let digits = decimal_digits(m);
        push_chars(&mut s, &digits);
    } else {
        let digits = decimal_digits(n as u64);
        push_chars(&mut s, &digits);
    }
    s
}

/// Trusted: `str::to_lowercase`; its result is named `lowercase`.
#[verifier::external_body]
pub(crate) fn to_lower(s: &str) -> (r: String)
    ensures
        r@ == lowercase(s@),
{
    s.to_lowercase()
}

/// The text with its leading and trailing white space removed, as `str::trim` gives it (see
/// `trimmed`).
pub(crate) fn trim_text(s: &str) -> (r: String)
    ensures
        r@ == trimmed(s@),
{
    let cs = chars_of(s);
    let n = cs.len();
    let mut start: usize = 0;
    assert(cs@.subrange(0, n as int) =~= cs@);
    while start < n && is_ws(cs[start])
        invariant
            start <= n,
            n == cs@.len(),
            trim_start_ws(cs@) == trim_start_ws(cs@.subrange(start as int, n as int)),
        decreases n - start,
    {
        let ghost sub = cs@.subrange(start as int, n as int);
        assert(sub[0] == cs@[start as int]);
        assert(sub.drop_first() =~= cs@.subrange(start + 1, n as int));
        start = start + 1;
    }
    let ghost t = cs@.subrange(start as int, n as int);
    assert(trim_start_ws(cs@) == t) by {
        if start < n {
            assert(t[0] == cs@[start as int]);
        } else {
            assert(t.len() == 0);
        }
    }
    let mut end: usize = n;
    assert(cs@.subrange(start as int, n as int) =~= t);
    while end > start && is_ws(cs[end - 1])
        invariant
            start <= end <= n,
            n == cs@.len(),
            t == cs@.subrange(start as int, n as int),
            trim_end_ws(t) == trim_end_ws(cs@.subrange(start as int, end as int)),
        decreases end - start,
    {
        let ghost sub = cs@.subrange(start as int, end as int);
        assert(sub.last() == cs@[end - 1]);
        assert(sub.drop_last() =~= cs@.subrange(start as int, end - 1));
        end = end - 1;
    }
    let ghost u = cs@.subrange(start as int, end as int);
    assert(trim_end_ws(t) == u) by {
        if end > start {
            assert(u.last() == cs@[end - 1]);
        } else {
            assert(u.len() == 0);
        }
    }
    let mut r = String::new();
    let mut k: usize = start;
    while k < end
        invariant
            start <= k <= end <= n,
            n == cs@.len(),
            r@ == cs@.subrange(start as int, k as int),
        decreases end - k,
    {
        push_char(&mut r, cs[k]);
        k = k + 1;
        assert(r@ =~= cs@.subrange(start as int, k as int));
    }
    r
}

/// Trusted: `String::push` appends one character.
#[verifier::external_body]
pub(crate) fn push_char(s: &mut String, c: char)
    ensures
        final(s)@ == old(s)@.push(c),
{
    s.push(c);
}

/// The characters of a string slice, in order.
pub fn chars_of(s: &str) -> (r: Vec<char>)
    ensures
        r@ == s@,
{
    let n = s.unicode_len();
    let mut v: Vec<char> = Vec::new();
    let mut i: usize = 0;
    while i < n
        invariant
            n == s@.len(),
            i <= n,
            v@ == s@.subrange(0, i as int),
        decreases n - i,
    {
        let c = s.get_char(i);
        v.push(c);
        i = i + 1;
    }
    v
}

/// Appends the given characters to a string.
pub(crate) fn push_chars(s: &mut String, cs: &Vec<char>)
    ensures
        final(s)@ == old(s)@ + cs@,
{
    let mut i: usize = 0;
    while i < cs.len()
        invariant
            i <= cs@.len(),
            s@ == old(s)@ + cs@.subrange(0, i as int),
        decreases cs.len() - i,
    {
        push_char(s, cs[i]);
        i = i + 1;
        assert(cs@.subrange(0, i as int) == cs@.subrange(0, i - 1) + seq![cs@[i - 1]]);
    }
    assert(cs@.subrange(0, cs@.len() as int) == cs@);
}

/// A string made of the given characters.
pub fn string_of(cs: &Vec<char>) -> (r: String)
    ensures
        r@ == cs@,
{
    let mut s = String::new();
    push_chars(&mut s, cs);
    s
}

/// A copy of a string slice as an owned string.
pub fn owned(s: &str) -> (r: String)
    ensures
        r@ == s@,
{
    String::from_str(s)
}

/// Decimal text of a `u32`.
pub fn u32_text(n: u32) -> (r: String)
    ensures
        r@ == decimal(n as nat),
{
    u64_text(n as u64)
}

/// Decimal text of an `i32`.
pub fn i32_text(n: i32) -> (r: String)
    ensures
        r@ == signed_decimal(n as int),
{
    i64_text(n as i64)
}

/// `parts` joined with `sep` between consecutive parts.
pub open spec fn join_seq(parts: Seq<Seq<char>>, sep: Seq<char>) -> Seq<char>
    decreases parts.len(),
{
    if parts.len() == 0 {
        seq![]
    } else if parts.len() == 1 {
        parts[0]
    } else {
        join_seq(parts.drop_last(), sep) + sep + parts.last()
    }
}

/// The views of a list of strings.
pub open spec fn views(v: Seq<String>) -> Seq<Seq<char>> {
    v.map_values(|s: String| s@)
}

/// Joins strings with a separator, as `[String]::join` does.
pub fn join(parts: &Vec<String>, sep: &str) -> (r: String)
    ensures
        r@ == join_seq(views(parts@), sep@),
{
    let mut res = String::new();
    let mut i: usize = 0;
    while i < parts.len()
        invariant
            i <= parts@.len(),
            res@ == join_seq(views(parts@.subrange(0, i as int)), sep@),
        decreases parts.len() - i,
    {
        let ghost prev = views(parts@.subrange(0, i as int));
        let ghost next = views(parts@.subrange(0, i + 1));
        assert(next.drop_last() =~= prev);
        assert(next.last() == parts@[i as int]@);
        if i != 0 {
            res.append(sep);
        } else {
            assert(next =~= seq![parts@[0]@]);
        }
        res.append(parts[i].as_str());
        i = i + 1;
    }
    assert(parts@.subrange(0, parts@.len() as int) =~= parts@);
    res
}

/// Character sequence equality, decided element by element.
pub fn same_chars(a: &Vec<char>, b: &Vec<char>) -> (r: bool)
    ensures
        r == (a@ == b@),
{
    if a.len() != b.len() {
        return false;
    }
    let mut i: usize = 0;
    while i < a.len()
        invariant
            a@.len() == b@.len(),
            i <= a@.len(),
            forall|j: int| 0 <= j < i ==> a@[j] == b@[j],
        decreases a.len() - i,
    {
        if a[i] != b[i] {
            return false;
        }
        i = i + 1;
    }
    assert(a@ =~= b@);
    true
}

/// String equality by content.
pub fn str_eq(a: &str, b: &str) -> (r: bool)
    ensures
        r == (a@ == b@),
{
    let x = chars_of(a);
    let y = chars_of(b);
    same_chars(&x, &y)
}

/// Whether `p` occurs in `s` starting at position `i`.
pub open spec fn occurs_at(s: Seq<char>, p: Seq<char>, i: int) -> bool {
    0 <= i && i + p.len() <= s.len() && s.subrange(i, i + p.len()) == p
}

/// Decides `occurs_at`.
pub fn matches_at(s: &Vec<char>, p: &Vec<char>, i: usize) -> (r: bool)
    requires
        i <= s@.len(),
    ensures
        r == occurs_at(s@, p@, i as int),
{
    if p.len() > s.len() - i {
        return false;
    }
    let slen = s.len();
    let mut k: usize = 0;
    while k < p.len()
        invariant
            slen == s@.len(),
            i + p@.len() <= s@.len(),
            k <= p@.len(),
            forall|j: int| 0 <= j < k ==> s@[i + j] == p@[j],
        decreases p.len() - k,
    {
        assert(i + k < s@.len());
        if s[i + k] != p[k] {
            assert(s@.subrange(i as int, i + p@.len())[k as int] != p@[k as int]);
            return false;
        }
        k = k + 1;
    }
    assert(s@.subrange(i as int, i + p@.len()) =~= p@);
    true
}

/// Left-to-right replacement of every non-overlapping occurrence of a non-empty `from`
/// by `to`, as `str::replace` does.
pub open spec fn replace_seq(s: Seq<char>, from: Seq<char>, to: Seq<char>) -> Seq<char>
    decreases s.len(),
{
    if s.len() == 0 || from.len() == 0 {
        s
    } else if occurs_at(s, from, 0) {
        to + replace_seq(s.subrange(from.len() as int, s.len() as int), from, to)
    } else {
        seq![s[0]] + replace_seq(s.subrange(1, s.len() as int), from, to)
    }
}

/// Replaces every occurrence of `from` (non-empty) by `to`.
pub fn replace_all(s: &str, from: &str, to: &str) -> (r: String)
    requires
        from@.len() > 0,
    ensures
        r@ == replace_seq(s@, from@, to@),
{
    let cs = chars_of(s);
    let fs = chars_of(from);
    let ts = chars_of(to);
    let mut res: Vec<char> = Vec::new();
    let mut i: usize = 0;
    assert(cs@.subrange(0, cs@.len() as int) =~= cs@);
    assert(res@ + cs@ =~= cs@);
    while i < cs.len()
        invariant
            fs@.len() > 0,
            i <= cs@.len(),
            res@ + replace_seq(cs@.subrange(i as int, cs@.len() as int), fs@, ts@)
                == replace_seq(cs@, fs@, ts@),
        decreases cs.len() - i,
    {
        let ghost rest = cs@.subrange(i as int, cs@.len() as int);
        if matches_at(&cs, &fs, i) {
            assert(occurs_at(rest, fs@, 0)) by {
                assert(rest.subrange(0, fs@.len() as int) =~= cs@.subrange(i as int, i + fs@.len()));
            }
            assert(rest.subrange(fs@.len() as int, rest.len() as int)
                =~= cs@.subrange(i + fs@.len(), cs@.len() as int));
            let ghost before = res@;
            let mut k: usize = 0;
            while k < ts.len()
                invariant
                    k <= ts@.len(),
                    res@ == before + ts@.subrange(0, k as int),
                decreases ts.len() - k,
            {
                res.push(ts[k]);
                k = k + 1;
                assert(ts@.subrange(0, k as int) =~= ts@.subrange(0, k - 1).push(ts@[k - 1]));
            }
            assert(ts@.subrange(0, ts@.len() as int) =~= ts@);
            i = i + fs.len();
        } else {
            assert(!occurs_at(rest, fs@, 0)) by {
                if occurs_at(rest, fs@, 0) {
                    assert(rest.subrange(0, fs@.len() as int) =~= cs@.subrange(i as int, i + fs@.len()));
                }
            }
            assert(rest.subrange(1, rest.len() as int) =~= cs@.subrange(i + 1, cs@.len() as int));
            res.push(cs[i]);
            i = i + 1;
        }
    }
    string_of(&res)
}

/// `s` with every leading copy of a non-empty `p` removed, as `str::trim_start_matches` does.
pub open spec fn strip_prefixes(s: Seq<char>, p: Seq<char>) -> Seq<char>
    decreases s.len(),
{
    if p.len() > 0 && occurs_at(s, p, 0) {
        strip_prefixes(s.subrange(p.len() as int, s.len() as int), p)
    } else {
        s
    }
}

/// Removes every leading copy of `p` (non-empty).
pub fn trim_start_all(s: &str, p: &str) -> (r: String)
    requires
        p@.len() > 0,
    ensures
        r@ == strip_prefixes(s@, p@),
{
    let cs = chars_of(s);
    let ps = chars_of(p);
    let mut i: usize = 0;
    assert(cs@.subrange(0, cs@.len() as int) =~= cs@);
    while i < cs.len() && matches_at(&cs, &ps, i)
        invariant
            ps@.len() > 0,
            i <= cs@.len(),
            strip_prefixes(cs@, ps@) == strip_prefixes(cs@.subrange(i as int, cs@.len() as int), ps@),
        decreases cs.len() - i,
    {
        let ghost t = cs@.subrange(i as int, cs@.len() as int);
        assert(occurs_at(t, ps@, 0)) by {
            assert(t.subrange(0, ps@.len() as int) =~= cs@.subrange(i as int, i + ps@.len()));
        }
        assert(t.subrange(ps@.len() as int, t.len() as int) =~= cs@.subrange(i + ps@.len(), cs@.len() as int));
        i = i + ps.len();
    }
    let ghost t = cs@.subrange(i as int, cs@.len() as int);
    if i < cs.len() {
        assert(!occurs_at(t, ps@, 0)) by {
            if occurs_at(t, ps@, 0) {
                assert(t.subrange(0, ps@.len() as int) =~= cs@.subrange(i as int, i + ps@.len()));
            }
        }
    } else {
        assert(t.len() == 0);
    }
    let mut out: Vec<char> = Vec::new();
    let mut k: usize = i;
    while k < cs.len()
        invariant
            i <= k <= cs@.len(),
            out@ == cs@.subrange(i as int, k as int),
        decreases cs.len() - k,
    {
        out.push(cs[k]);
        k = k + 1;
        assert(out@ =~= cs@.subrange(i as int, k as int));
    }
    string_of(&out)
}

/// How a tag name reads in text: underscores become spaces, then lowercased.
pub open spec fn tag_phrase(t: Seq<char>) -> Seq<char> {
    lowercase(replace_seq(t, "_"@, " "@))
}

/// `tag_phrase` of a tag name.
pub fn tag_display(t: &str) -> (r: String)
    ensures
        r@ == tag_phrase(t@),
{
    proof { reveal_strlit("_"); }
    let spaced = replace_all(t, "_", " ");
    to_lower(spaced.as_str())
}


/// The words of a text, as `str::split_whitespace` gives them: the maximal runs of
/// characters that are not white space, in order. `cur` is the word being read.
pub open spec fn words_from(s: Seq<char>, cur: Seq<char>) -> Seq<Seq<char>>
    decreases s.len(),
{
    if s.len() == 0 {
        if cur.len() == 0 { seq![] } else { seq![cur] }
    } else if is_white_space(s[0]) {
        if cur.len() == 0 { words_from(s.drop_first(), cur) } else { seq![cur] + words_from(s.drop_first(), seq![]) }
    } else {
        words_from(s.drop_first(), cur.push(s[0]))
    }
}

/// The words of a text (see `words_from`).
pub open spec fn words(s: Seq<char>) -> Seq<Seq<char>> {
    words_from(s, seq![])
}

/// The number of bytes a character takes in UTF-8.
pub open spec fn char_utf8_len(c: char) -> nat {
    let u = c as u32;
    if u < 0x80 { 1 } else if u < 0x800 { 2 } else if u < 0x10000 { 3 } else { 4 }
}

/// The number of bytes a text takes in UTF-8 (what `str::len` returns).
pub open spec fn utf8_len(s: Seq<char>) -> nat
    decreases s.len(),
{
    if s.len() == 0 { 0 } else { utf8_len(s.drop_last()) + char_utf8_len(s.last()) }
}

/// Whether a character is white space (see `is_white_space`).
pub fn is_ws(c: char) -> (r: bool)
    ensures
        r == is_white_space(c),
{
    let u = c as u32;
    (0x9 <= u && u <= 0xd) || u == 0x20 || u == 0x85 || u == 0xa0 || u == 0x1680
        || (0x2000 <= u && u <= 0x200a) || u == 0x2028 || u == 0x2029 || u == 0x202f
        || u == 0x205f || u == 0x3000
}

/// The words of a text, in order (see `words`).
pub fn split_words(s: &str) -> (r: Vec<Vec<char>>)
    ensures
        r@.map_values(|w: Vec<char>| w@) == words(s@),
{
    let cs = chars_of(s);
    let mut r: Vec<Vec<char>> = Vec::new();
    let mut cur: Vec<char> = Vec::new();
    let mut i: usize = 0;
    assert(cs@.subrange(0, cs@.len() as int) =~= cs@);
    assert(r@.map_values(|w: Vec<char>| w@) + words_from(cs@, cur@) =~= words(s@));
    while i < cs.len()
        invariant
            i <= cs@.len(),
            cs@ == s@,
            r@.map_values(|w: Vec<char>| w@) + words_from(cs@.subrange(i as int, cs@.len() as int), cur@) == words(s@),
        decreases cs.len() - i,
    {
        let ghost rest = cs@.subrange(i as int, cs@.len() as int);
        assert(rest.drop_first() =~= cs@.subrange(i + 1, cs@.len() as int));
        assert(rest[0] == cs@[i as int]);
        if is_ws(cs[i]) {
            if cur.len() > 0 {
                let ghost before = r@.map_values(|w: Vec<char>| w@);
                let ghost cv = cur@;
                r.push(cur);
                cur = Vec::new();
                assert(r@.map_values(|w: Vec<char>| w@) =~= before.push(cv));
                assert(before + (seq![cv] + words_from(rest.drop_first(), seq![]))
                    =~= before.push(cv) + words_from(rest.drop_first(), cur@));
            }
        } else {
            cur.push(cs[i]);
        }
        i = i + 1;
    }
    assert(cs@.subrange(i as int, cs@.len() as int) =~= Seq::<char>::empty());
    if cur.len() > 0 {
        let ghost before = r@.map_values(|w: Vec<char>| w@);
        let ghost cv = cur@;
        r.push(cur);
        assert(r@.map_values(|w: Vec<char>| w@) =~= before + seq![cv]);
    } else {
        assert(r@.map_values(|w: Vec<char>| w@) =~= r@.map_values(|w: Vec<char>| w@) + Seq::<Seq<char>>::empty());
    }
    r
}

/// The UTF-8 byte length of some characters.
pub fn utf8_length(cs: &Vec<char>) -> (r: u128)
    ensures
        r == utf8_len(cs@),
        r <= 4 * usize::MAX,
{
    let mut n: u128 = 0;
    let mut i: usize = 0;
    while i < cs.len()
        invariant
            i <= cs@.len(),
            n == utf8_len(cs@.subrange(0, i as int)),
            n <= 4 * i,
        decreases cs.len() - i,
    {
        assert(cs@.subrange(0, i + 1).drop_last() =~= cs@.subrange(0, i as int));
        let u = cs[i] as u32;
        let b: u128 = if u < 0x80 { 1 } else if u < 0x800 { 2 } else if u < 0x10000 { 3 } else { 4 };
        n = n + b;
        i = i + 1;
    }
    assert(cs@.subrange(0, cs@.len() as int) =~= cs@);
    n
}

} // verus!
