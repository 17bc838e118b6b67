//! Character-level building blocks: decimal and hexadecimal digits,
//! padding, and the conversions between `str`, `String` and `Vec<char>`.
use vstd::prelude::*;
use vstd::utf8::{decode_utf8, valid_utf8};

verus! {

broadcast use vstd::string::group_string_axioms;

/// Appends one character to a `String` (std's `String::push`).
#[verifier::external_body]
pub(crate) fn push_char(s: &mut String, c: char)
    ensures
        final(s)@ == old(s)@.push(c),
{
    s.push(c);
}

/// A name for the text that `String::from_utf8_lossy` makes of these bytes.
pub uninterp spec fn utf8_lossy(bytes: Seq<u8>) -> Seq<char>;

/// `String::from_utf8_lossy`, owned. Its contract claims that the result is
/// [`utf8_lossy`] of the bytes, and, as std documents, that bytes which are
/// valid UTF-8 decode to exactly their characters. What it puts in place of
/// invalid sequences (U+FFFD) is left unsaid.
#[verifier::external_body]
pub(crate) fn lossy_text(bytes: &[u8]) -> (r: String)
    ensures
        r@ == utf8_lossy(bytes@),
        valid_utf8(bytes@) ==> r@ == decode_utf8(bytes@),
{
    String::from_utf8_lossy(bytes).into_owned()
}

/// Appends a string slice to a `String`.
pub fn push_str(s: &mut String, t: &str)
    ensures
        final(s)@ == old(s)@ + t@,
{
    s.append(t);
}

/// The characters of a string slice, in order.
pub fn chars_of(s: &str) -> (r: Vec<char>)
    ensures
        r@ == s@,
{
    let mut v: Vec<char> = Vec::new();
    for c in it: s.chars()
        invariant
            v@ == it.seq().take(it.index() as int),
            it.seq() == s@,
    {
        v.push(c);
    }
    v
}

/// The string made of the characters `v[from..to]`.
pub fn string_of_range(v: &Vec<char>, from: usize, to: usize) -> (r: String)
    requires
        from <= to <= v@.len(),
    ensures
        r@ == v@.subrange(from as int, to as int),
{
    let mut s = String::new();
    let mut i = from;
    while i < to
        invariant
            from <= i <= to <= v@.len(),
            s@ == v@.subrange(from as int, i as int),
        decreases to - i,
    {
        push_char(&mut s, v[i]);
        i += 1;
    }
    s
}

/// The string made of all the characters of `v`.
pub fn string_of(v: &Vec<char>) -> (r: String)
    ensures
        r@ == v@,
{
    let r = string_of_range(v, 0, v.len());
    assert(v@.subrange(0, v@.len() as int) =~= v@);
    r
}

/// The character that writes the digit `d` (lower-case letters above nine).
pub open spec fn digit_char(d: nat) -> char {
    if d < 10 {
        ((d + 48) as u8) as char
    } else {
        ((d + 87) as u8) as char
    }
}

/// The digits of `n` in base `base`, most significant first, without sign or padding.
pub open spec fn digits(n: nat, base: nat) -> Seq<char>
    decreases n,
{
    if base < 2 || n < base {
        seq![digit_char(n)]
    } else {
        proof {
            lemma_div_smaller(n, base);
        }
        digits(n / base, base).push(digit_char(n % base))
    }
}

/// Dividing by a base of two or more makes a positive number smaller.
pub proof fn lemma_div_smaller(n: nat, base: nat)
    requires
        base >= 2,
        n >= 1,
    ensures
        n / base < n,
{
    assert(n / base < n) by (nonlinear_arith)
        requires
            base >= 2,
            n >= 1,
    ;
}

/// Decimal digits of `n`.
pub open spec fn dec(n: nat) -> Seq<char> {
    digits(n, 10)
}

/// Lower-case hexadecimal digits of `n`.
pub open spec fn hex(n: nat) -> Seq<char> {
    digits(n, 16)
}

/// `s` preceded by as many `fill` characters as bring it to `width` characters.
pub open spec fn pad_left(s: Seq<char>, width: nat, fill: char) -> Seq<char> {
    if s.len() >= width {
        s
    } else {
        Seq::new((width - s.len()) as nat, |i: int| fill) + s
    }
}

/// A zero-padded number of at least `width` digits (`{:0width$}` on an unsigned value).
pub open spec fn dec_pad(n: nat, width: nat) -> Seq<char> {
    pad_left(dec(n), width, '0')
}

/// `{:0width$}` on a signed value: the sign, then the digits padded so that
/// sign and digits together fill `width` characters.
pub open spec fn signed_pad(v: int, width: nat) -> Seq<char> {
    if v >= 0 {
        dec_pad(v as nat, width)
    } else {
        seq!['-'] + dec_pad((-v) as nat, if width >= 1 { (width - 1) as nat } else { 0 })
    }
}

pub fn digit_to_char(d: u8) -> (c: char)
    requires
        d < 16,
    ensures
        c == digit_char(d as nat),
{
    if d < 10 {
        (d + 48) as char
    } else {
        (d + 87) as char
    }
}

/// Appends the digits of `n` in base `base`.
pub fn push_digits(out: &mut String, n: u128, base: u128)
    requires
        2 <= base <= 16,
    ensures
        final(out)@ == old(out)@ + digits(n as nat, base as nat),
    decreases n,
{
    if n >= base {
        proof {
            lemma_div_smaller(n as nat, base as nat);
        }
        push_digits(out, n / base, base);
    }
    let d = (n % base) as u8;
    push_char(out, digit_to_char(d));
    proof {
        if n < base {
            assert(n % base == n) by (nonlinear_arith)
                requires
                    n < base,
                    base >= 2,
            ;
            assert(final(out)@ =~= old(out)@ + digits(n as nat, base as nat));
        } else {
            assert(final(out)@ =~= old(out)@ + digits((n / base) as nat, base as nat).push(
                digit_char((n % base) as nat),
            ));
        }
    }
}

/// The length of the digit sequence of `n` is at least one.
pub proof fn lemma_digits_len(n: nat, base: nat)
    ensures
        digits(n, base).len() >= 1,
    decreases n,
{
    if base >= 2 && n >= base {
        lemma_div_smaller(n, base);
        lemma_digits_len(n / base, base);
    }
}

/// Appends the digits of `n`, zero-padded to `width` characters.
pub fn push_padded(out: &mut String, n: u128, base: u128, width: usize)
    requires
        2 <= base <= 16,
    ensures
        final(out)@ == old(out)@ + pad_left(digits(n as nat, base as nat), width as nat, '0'),
{
    let mut ds = String::new();
    push_digits(&mut ds, n, base);
    assert(ds@ =~= digits(n as nat, base as nat));
    let len = ds.as_str().unicode_len();
    let ghost before = out@;
    let mut k = len;
    while k < width
        invariant
            len <= k,
            k <= width || k == len,
            out@ == before + Seq::new((k - len) as nat, |i: int| '0'),
        decreases width - k,
    {
        push_char(out, '0');
        assert(out@ =~= before + Seq::new((k + 1 - len) as nat, |i: int| '0'));
        k += 1;
    }
    push_str(out, ds.as_str());
    proof {
        let d = digits(n as nat, base as nat);
        if d.len() >= width {
            assert(out@ =~= before + d);
        } else {
            assert(out@ =~= before + (Seq::new((width - d.len()) as nat, |i: int| '0') + d));
        }
    }
}

/// Appends `{:0width$}` of a signed value.
pub fn push_signed_padded(out: &mut String, v: i64, width: usize)
    ensures
        final(out)@ == old(out)@ + signed_pad(v as int, width as nat),
{
    if v >= 0 {
        push_padded(out, v as u128, 10, width);
    } else {
        push_char(out, '-');
        let mag: u128 = if v == i64::MIN {
            9223372036854775808u128
        } else {
            (-v) as u128
        };
        let w = if width >= 1 {
            width - 1
        } else {
            0
        };
        push_padded(out, mag, 10, w);
        assert(final(out)@ =~= old(out)@ + signed_pad(v as int, width as nat));
    }
}

/// Whether two string slices hold the same characters.
pub fn str_eq(a: &str, b: &str) -> (r: bool)
    ensures
        r == (a@ == b@),
{
    let x = chars_of(a);
    let y = chars_of(b);
    if x.len() != y.len() {
        return false;
    }
    let mut i: usize = 0;
    while i < x.len()
        invariant
            x@ == a@,
            y@ == b@,
            x@.len() == y@.len(),
            i <= x@.len(),
            forall|j: int| 0 <= j < i ==> x@[j] == y@[j],
        decreases x@.len() - i,
    {
        if x[i] != y[i] {
            return false;
        }
        i += 1;
    }
    assert(x@ =~= y@);
    true
}

/// A line without the `\r` that ends it, if one does.
pub open spec fn strip_cr(line: Seq<char>) -> Seq<char> {
    if line.len() > 0 && line.last() == '\r' {
        line.drop_last()
    } else {
        line
    }
}

/// The lines of `s` after the partial line `cur`: `str::lines` splits after
/// each `\n`, drops it and a `\r` just before it, keeps a last piece that has
/// no `\n`, and gives no empty piece after a final `\n`.
pub open spec fn lines_from(s: Seq<char>, cur: Seq<char>) -> Seq<Seq<char>>
    decreases s.len(),
{
    if s.len() == 0 {
        if cur.len() == 0 {
            Seq::empty()
        } else {
            seq![cur]
        }
    } else if s[0] == '\n' {
        seq![strip_cr(cur)] + lines_from(s.drop_first(), Seq::empty())
    } else {
        lines_from(s.drop_first(), cur.push(s[0]))
    }
}

/// `str::lines`.
pub open spec fn lines(s: Seq<char>) -> Seq<Seq<char>> {
    lines_from(s, Seq::empty())
}

/// The views of a vector of character vectors.
pub open spec fn views(v: Seq<Vec<char>>) -> Seq<Seq<char>> {
    v.map_values(|l: Vec<char>| l@)
}

/// Splits characters into lines as `str::lines` does.
pub fn split_lines(cs: &Vec<char>) -> (r: Vec<Vec<char>>)
    ensures
        views(r@) == lines(cs@),
{
    let mut done: Vec<Vec<char>> = Vec::new();
    let mut cur: Vec<char> = Vec::new();
    let mut i: usize = 0;
    assert(cs@.skip(0) =~= cs@);
    while i < cs.len()
        invariant
            i <= cs@.len(),
            lines(cs@) == views(done@) + lines_from(cs@.skip(i as int), cur@),
        decreases cs@.len() - i,
    {
        assert(cs@.skip(i as int)[0] == cs@[i as int]);
        assert(cs@.skip(i as int).drop_first() =~= cs@.skip(i + 1));
        if cs[i] == '\n' {
            let mut line = cur;
            if line.len() > 0 && line[line.len() - 1] == '\r' {
                line.pop();
            }
            assert(line@ == strip_cr(cur@));
            let ghost old_done = done@;
            done.push(line);
            assert(views(done@) =~= views(old_done) + seq![strip_cr(cur@)]);
            cur = Vec::new();
        } else {
            cur.push(cs[i]);
        }
        i += 1;
    }
    if cur.len() > 0 {
        let ghost old_done = done@;
        let ghost c = cur@;
        done.push(cur);
        assert(views(done@) =~= views(old_done) + seq![c]);
    } else {
        assert(views(done@) =~= views(done@) + Seq::<Seq<char>>::empty());
    }
    done
}

/// ASCII upper-case letters to lower case; other characters unchanged.
pub open spec fn ascii_lower(c: char) -> char {
    if 'A' <= c <= 'Z' {
        ((c as u32) + 32) as char
    } else {
        c
    }
}

/// `line` starts with the lower-case ASCII text `p`, letters compared without
/// regard to case. For a pattern of ASCII characters other than `i` and `k`
/// this is `line.to_lowercase().starts_with(p)`: no character outside ASCII
/// lower-cases to an ASCII character other than `i` or `k`.
pub open spec fn ci_starts_with(line: Seq<char>, p: Seq<char>) -> bool {
    p.len() <= line.len() && forall|j: int| 0 <= j < p.len() ==> ascii_lower(line[j]) == p[j]
}

/// Lower-cases an ASCII letter.
pub fn ascii_lower_exec(c: char) -> (r: char)
    ensures
        r == ascii_lower(c),
{
    if 'A' <= c && c <= 'Z' {
        ((c as u32) + 32) as u8 as char
    } else {
        c
    }
}

/// Whether `line` starts with `p`, ASCII letters compared without regard to case.
pub fn ci_starts_with_exec(line: &Vec<char>, p: &Vec<char>) -> (r: bool)
    ensures
        r == ci_starts_with(line@, p@),
{
    if p.len() > line.len() {
        return false;
    }
    let mut j: usize = 0;
    while j < p.len()
        invariant
            p@.len() <= line@.len(),
            j <= p@.len(),
            forall|k: int| 0 <= k < j ==> ascii_lower(line@[k]) == p@[k],
        decreases p@.len() - j,
    {
        if ascii_lower_exec(line[j]) != p[j] {
            return false;
        }
        j += 1;
    }
    true
}

/// `s.replace(pat, rep)` for an empty pattern: `rep` before every character and at the end.
pub open spec fn replace_empty(s: Seq<char>, rep: Seq<char>) -> Seq<char>
    decreases s.len(),
{
    if s.len() == 0 {
        rep
    } else {
        rep + seq![s[0]] + replace_empty(s.drop_first(), rep)
    }
}

/// `s.replace(pat, rep)` for a non-empty pattern: leftmost matches, each
/// replaced, the search going on after the replaced text.
pub open spec fn replace_nonempty(s: Seq<char>, pat: Seq<char>, rep: Seq<char>) -> Seq<char>
    decreases s.len(),
{
    if s.len() == 0 || pat.len() == 0 {
        s
    } else if pat.len() <= s.len() && s.take(pat.len() as int) == pat {
        rep + replace_nonempty(s.skip(pat.len() as int), pat, rep)
    } else {
        seq![s[0]] + replace_nonempty(s.drop_first(), pat, rep)
    }
}

/// `str::replace`.
pub open spec fn replace_all(s: Seq<char>, pat: Seq<char>, rep: Seq<char>) -> Seq<char> {
    if pat.len() == 0 {
        replace_empty(s, rep)
    } else {
        replace_nonempty(s, pat, rep)
    }
}

/// Whether `cs[i..]` starts with `pat`.
fn matches_at(cs: &Vec<char>, i: usize, pat: &Vec<char>) -> (r: bool)
    requires
        i <= cs@.len(),
    ensures
        r == (pat@.len() <= cs@.len() - i && cs@.skip(i as int).take(pat@.len() as int) == pat@),
{
    if pat.len() > cs.len() - i {
        return false;
    }
    let mut j: usize = 0;
    while j < pat.len()
        invariant
            i <= cs@.len(),
            pat@.len() <= cs@.len() - i,
            i + pat@.len() <= cs.len(),
            j <= pat@.len(),
            forall|k: int| 0 <= k < j ==> cs@[i + k] == pat@[k],
        decreases pat@.len() - j,
    {
        let k: usize = i + j;
        if cs[k] != pat[j] {
            assert(cs@.skip(i as int).take(pat@.len() as int)[j as int] != pat@[j as int]);
            return false;
        }
        j += 1;
    }
    assert(cs@.skip(i as int).take(pat@.len() as int) =~= pat@);
    true
}

/// `s.replace(pat, rep)`.
pub fn replace_str(s: &str, pat: &str, rep: &str) -> (r: String)
    ensures
        r@ == replace_all(s@, pat@, rep@),
{
    let cs = chars_of(s);
    let ps = chars_of(pat);
    let mut out = String::new();
    let mut i: usize = 0;
    assert(cs@.skip(0) =~= cs@);
    if ps.len() == 0 {
        while i < cs.len()
            invariant
                cs@ == s@,
                ps@ == pat@,
                i <= cs@.len(),
                out@ + replace_empty(cs@.skip(i as int), rep@) == replace_empty(s@, rep@),
            decreases cs@.len() - i,
        {
            let ghost before = out@;
            push_str(&mut out, rep);
            push_char(&mut out, cs[i]);
            assert(cs@.skip(i as int).drop_first() =~= cs@.skip(i + 1));
            assert(out@ =~= before + rep@ + seq![cs@.skip(i as int)[0]]);
            i += 1;
        }
        push_str(&mut out, rep);
        assert(out@ =~= replace_empty(s@, rep@));
    } else {
        while i < cs.len()
            invariant
                cs@ == s@,
                ps@ == pat@,
                ps@.len() > 0,
                i <= cs@.len(),
                out@ + replace_nonempty(cs@.skip(i as int), pat@, rep@) == replace_nonempty(s@, pat@, rep@),
            decreases cs@.len() - i,
        {
            let ghost before = out@;
            if matches_at(&cs, i, &ps) {
                push_str(&mut out, rep);
                assert(cs@.skip(i as int).skip(ps@.len() as int) =~= cs@.skip(i + ps@.len()));
                i += ps.len();
            } else {
                push_char(&mut out, cs[i]);
                assert(cs@.skip(i as int).drop_first() =~= cs@.skip(i + 1));
                assert(out@ =~= before + seq![cs@.skip(i as int)[0]]);
                i += 1;
            }
        }
        assert(cs@.skip(i as int).len() == 0);
    }
    out
}

/// `char::is_whitespace`: the characters with the Unicode White_Space property.
pub open spec fn is_ws(c: char) -> bool {
    let u = c as u32;
    (0x09 <= u <= 0x0d) || u == 0x20 || u == 0x85 || u == 0xa0 || u == 0x1680 || (0x2000 <= u <= 0x200a)
        || u == 0x2028 || u == 0x2029 || u == 0x202f || u == 0x205f || u == 0x3000
}

/// Whether a character is white space.
pub fn is_ws_exec(c: char) -> (r: bool)
    ensures
        r == is_ws(c),
{
    let u = c as u32;
    (0x09 <= u && u <= 0x0d) || u == 0x20 || u == 0x85 || u == 0xa0 || u == 0x1680 || (0x2000 <= u
        && u <= 0x200a) || u == 0x2028 || u == 0x2029 || u == 0x202f || u == 0x205f || u == 0x3000
}

/// `s` without its leading white space.
pub open spec fn trim_start(s: Seq<char>) -> Seq<char>
    decreases s.len(),
{
    if s.len() > 0 && is_ws(s[0]) {
        trim_start(s.drop_first())
    } else {
        s
    }
}

/// `s` without its trailing white space (`str::trim_end`).
pub open spec fn trim_end(s: Seq<char>) -> Seq<char>
    decreases s.len(),
{
    if s.len() > 0 && is_ws(s.last()) {
        trim_end(s.drop_last())
    } else {
        s
    }
}

/// `str::trim`.
pub open spec fn trim(s: Seq<char>) -> Seq<char> {
    trim_end(trim_start(s))
}

/// The bounds `[a, b)` of `cs` without its leading and trailing white space.
pub fn trim_bounds(cs: &Vec<char>, from: usize, to: usize) -> (r: (usize, usize))
    requires
        from <= to <= cs@.len(),
    ensures
        from <= r.0 <= r.1 <= to,
        cs@.subrange(r.0 as int, r.1 as int) == trim(cs@.subrange(from as int, to as int)),
{
    let mut a = from;
    while a < to && is_ws_exec(cs[a])
        invariant
            from <= a <= to <= cs@.len(),
            trim_start(cs@.subrange(from as int, to as int)) == trim_start(cs@.subrange(a as int, to as int)),
        decreases to - a,
    {
        assert(cs@.subrange(a as int, to as int).drop_first() =~= cs@.subrange(a + 1, to as int));
        a += 1;
    }
    let mut b = to;
    while b > a && is_ws_exec(cs[b - 1])
        invariant
            from <= a <= b <= to <= cs@.len(),
            trim_end(cs@.subrange(a as int, to as int)) == trim_end(cs@.subrange(a as int, b as int)),
        decreases b - a,
    {
        assert(cs@.subrange(a as int, b as int).drop_last() =~= cs@.subrange(a as int, b - 1));
        b -= 1;
    }
    (a, b)
}

/// The end `b` of `cs[from..to]` without its trailing white space.
pub fn trim_end_bound(cs: &Vec<char>, from: usize, to: usize) -> (b: usize)
    requires
        from <= to <= cs@.len(),
    ensures
        from <= b <= to,
        cs@.subrange(from as int, b as int) == trim_end(cs@.subrange(from as int, to as int)),
{
    let mut b = to;
    while b > from && is_ws_exec(cs[b - 1])
        invariant
            from <= b <= to <= cs@.len(),
            trim_end(cs@.subrange(from as int, to as int)) == trim_end(cs@.subrange(from as int, b as int)),
        decreases b - from,
    {
        assert(cs@.subrange(from as int, b as int).drop_last() =~= cs@.subrange(from as int, b - 1));
        b -= 1;
    }
    b
}

/// `split` gives at least one piece.
pub proof fn lemma_split_from_nonempty(s: Seq<char>, sep: char, cur: Seq<char>)
    ensures
        split_from(s, sep, cur).len() >= 1,
    decreases s.len(),
{
    if s.len() > 0 {
        if s[0] == sep {
            lemma_split_from_nonempty(s.drop_first(), sep, Seq::empty());
        } else {
            lemma_split_from_nonempty(s.drop_first(), sep, cur.push(s[0]));
        }
    }
}

/// `str::trim` of a string slice.
pub fn trim_str(s: &str) -> (r: String)
    ensures
        r@ == trim(s@),
{
    let cs = chars_of(s);
    let (a, b) = trim_bounds(&cs, 0, cs.len());
    assert(cs@.subrange(0, cs@.len() as int) =~= cs@);
    string_of_range(&cs, a, b)
}

/// The pieces of `s` after the partial piece `cur`, split at each `sep`.
pub open spec fn split_from(s: Seq<char>, sep: char, cur: Seq<char>) -> Seq<Seq<char>>
    decreases s.len(),
{
    if s.len() == 0 {
        seq![cur]
    } else if s[0] == sep {
        seq![cur] + split_from(s.drop_first(), sep, Seq::empty())
    } else {
        split_from(s.drop_first(), sep, cur.push(s[0]))
    }
}

/// `str::split` at a character: every piece, empty ones included.
pub open spec fn split(s: Seq<char>, sep: char) -> Seq<Seq<char>> {
    split_from(s, sep, Seq::empty())
}

/// Splits characters at each `sep`.
pub fn split_chars(cs: &Vec<char>, sep: char) -> (r: Vec<Vec<char>>)
    ensures
        views(r@) == split(cs@, sep),
{
    let mut done: Vec<Vec<char>> = Vec::new();
    let mut cur: Vec<char> = Vec::new();
    let mut i: usize = 0;
    assert(cs@.skip(0) =~= cs@);
    while i < cs.len()
        invariant
            i <= cs@.len(),
            split(cs@, sep) == views(done@) + split_from(cs@.skip(i as int), sep, cur@),
        decreases cs@.len() - i,
    {
        assert(cs@.skip(i as int)[0] == cs@[i as int]);
        assert(cs@.skip(i as int).drop_first() =~= cs@.skip(i + 1));
        if cs[i] == sep {
            let ghost old_done = done@;
            let ghost c = cur@;
            done.push(cur);
            assert(views(done@) =~= views(old_done) + seq![c]);
            cur = Vec::new();
        } else {
            cur.push(cs[i]);
        }
        i += 1;
    }
    let ghost old_done = done@;
    let ghost c = cur@;
    done.push(cur);
    assert(views(done@) =~= views(old_done) + seq![c]);
    done
}

/// The position of the first `c` in `s`.
pub open spec fn first_index(s: Seq<char>, c: char) -> Option<nat>
    decreases s.len(),
{
    if s.len() == 0 {
        None
    } else if s[0] == c {
        Some(0)
    } else {
        match first_index(s.drop_first(), c) {
            Some(i) => Some(i + 1),
            None => None,
        }
    }
}

/// Finds the first `c` in `cs`.
pub fn find_char(cs: &Vec<char>, c: char) -> (r: Option<usize>)
    ensures
        r == (match first_index(cs@, c) {
            Some(i) => Some(i as usize),
            None => None::<usize>,
        }),
        match r {
            Some(i) => i < cs@.len() && cs@[i as int] == c && forall|j: int| 0 <= j < i ==> cs@[j] != c,
            None => forall|j: int| 0 <= j < cs@.len() ==> cs@[j] != c,
        },
{
    let mut i: usize = 0;
    while i < cs.len()
        invariant
            i <= cs@.len(),
            forall|j: int| 0 <= j < i ==> cs@[j] != c,
        decreases cs@.len() - i,
    {
        if cs[i] == c {
            proof {
                lemma_first_index(cs@, c, i as int);
            }
            return Some(i);
        }
        i += 1;
    }
    proof {
        lemma_first_index_none(cs@, c);
    }
    None
}

/// The first index is the first position holding `c`.
pub proof fn lemma_first_index(s: Seq<char>, c: char, i: int)
    requires
        0 <= i < s.len(),
        s[i] == c,
        forall|j: int| 0 <= j < i ==> s[j] != c,
    ensures
        first_index(s, c) == Some(i as nat),
    decreases s.len(),
{
    if i > 0 {
        lemma_first_index(s.drop_first(), c, i - 1);
    }
}

/// Without `c` there is no first index of it.
pub proof fn lemma_first_index_none(s: Seq<char>, c: char)
    requires
        forall|j: int| 0 <= j < s.len() ==> s[j] != c,
    ensures
        first_index(s, c) is None,
    decreases s.len(),
{
    if s.len() > 0 {
        lemma_first_index_none(s.drop_first(), c);
    }
}

/// `s` holds `p` at position `i`.
pub open spec fn occurs_at(s: Seq<char>, p: Seq<char>, i: int) -> bool {
    0 <= i && i + p.len() <= s.len() && s.subrange(i, i + p.len()) == p
}

/// `str::contains`.
pub open spec fn contains(s: Seq<char>, p: Seq<char>) -> bool {
    exists|i: int| occurs_at(s, p, i)
}

/// `str::ends_with`.
pub open spec fn ends_with(s: Seq<char>, p: Seq<char>) -> bool {
    p.len() <= s.len() && s.skip(s.len() - p.len()) == p
}

/// `str::starts_with`.
pub open spec fn starts_with(s: Seq<char>, p: Seq<char>) -> bool {
    p.len() <= s.len() && s.take(p.len() as int) == p
}

fn occurs_at_exec(s: &Vec<char>, p: &Vec<char>, i: usize) -> (r: bool)
    ensures
        r == occurs_at(s@, p@, i as int),
{
    if i > s.len() || p.len() > s.len() - i {
        return false;
    }
    let mut j: usize = 0;
    while j < p.len()
        invariant
            i + p@.len() <= s@.len(),
            i + p@.len() <= s.len(),
            j <= p@.len(),
            forall|k: int| 0 <= k < j ==> s@[i + k] == p@[k],
        decreases p@.len() - j,
    {
        let k: usize = i + j;
        if s[k] != p[j] {
            assert(s@.subrange(i as int, i + p@.len())[j as int] != p@[j as int]);
            return false;
        }
        j += 1;
    }
    assert(s@.subrange(i as int, i + p@.len()) =~= p@);
    true
}

/// Whether `s` contains `p`.
pub fn contains_exec(s: &Vec<char>, p: &Vec<char>) -> (r: bool)
    ensures
        r == contains(s@, p@),
{
    if p.len() > s.len() {
        return false;
    }
    let limit = s.len() - p.len();
    let mut i: usize = 0;
    loop
        invariant
            p@.len() <= s@.len(),
            limit == s@.len() - p@.len(),
            i <= limit,
            forall|k: int| 0 <= k < i ==> !occurs_at(s@, p@, k),
        ensures
            forall|k: int| 0 <= k <= limit ==> !occurs_at(s@, p@, k),
        decreases limit - i,
    {
        if occurs_at_exec(s, p, i) {
            return true;
        }
        if i == limit {
            break;
        }
        i += 1;
    }
    assert forall|k: int| !occurs_at(s@, p@, k) by {
        if 0 <= k <= limit {
        }
    }
    false
}

/// Whether `s` contains `p` (string slices).
pub fn str_contains(s: &str, p: &str) -> (r: bool)
    ensures
        r == contains(s@, p@),
{
    contains_exec(&chars_of(s), &chars_of(p))
}

/// Whether `s` ends with `p`.
pub fn str_ends_with(s: &str, p: &str) -> (r: bool)
    ensures
        r == ends_with(s@, p@),
{
    let x = chars_of(s);
    let y = chars_of(p);
    if y.len() > x.len() {
        return false;
    }
    let r = occurs_at_exec(&x, &y, x.len() - y.len());
    assert(x@.subrange(x@.len() - y@.len(), x@.len() as int) =~= x@.skip(x@.len() - y@.len()));
    r
}

/// Whether `s` starts with `p`.
pub fn str_starts_with(s: &str, p: &str) -> (r: bool)
    ensures
        r == starts_with(s@, p@),
{
    let x = chars_of(s);
    let y = chars_of(p);
    let r = occurs_at_exec(&x, &y, 0);
    assert(y@.len() <= x@.len() ==> x@.subrange(0, y@.len() as int) =~= x@.take(y@.len() as int));
    r
}

/// The value of a string of decimal digits.
pub open spec fn digits_value(s: Seq<char>) -> nat
    decreases s.len(),
{
    if s.len() == 0 {
        0
    } else {
        digits_value(s.drop_last()) * 10 + ((s.last() as u32) - 48) as nat
    }
}

/// Every character is an ASCII digit.
pub open spec fn all_digits(s: Seq<char>) -> bool {
    forall|i: int| 0 <= i < s.len() ==> '0' <= #[trigger] s[i] <= '9'
}

/// Rust's `parse` of an unsigned integer of at most `max`: an optional `+`,
/// then one or more ASCII digits whose value does not exceed `max`.
pub open spec fn parse_unsigned(s: Seq<char>, max: nat) -> Option<nat> {
    let ds = if s.len() > 1 && s[0] == '+' {
        s.drop_first()
    } else {
        s
    };
    if ds.len() > 0 && all_digits(ds) && digits_value(ds) <= max {
        Some(digits_value(ds))
    } else {
        None
    }
}

/// Parses an unsigned integer of at most `max` from `cs[from..to]`.
pub fn parse_unsigned_exec(cs: &Vec<char>, from: usize, to: usize, max: u64) -> (r: Option<u64>)
    requires
        from <= to <= cs@.len(),
    ensures
        r == (match parse_unsigned(cs@.subrange(from as int, to as int), max as nat) {
            Some(v) => Some(v as u64),
            None => None::<u64>,
        }),
{
    let ghost s = cs@.subrange(from as int, to as int);
    let start = if to - from > 1 && cs[from] == '+' {
        from + 1
    } else {
        from
    };
    let ghost ds = cs@.subrange(start as int, to as int);
    assert(ds =~= (if s.len() > 1 && s[0] == '+' {
        s.drop_first()
    } else {
        s
    }));
    if start == to {
        return None;
    }
    let mut v: u64 = 0;
    let mut i = start;
    assert(cs@.subrange(start as int, start as int) =~= Seq::<char>::empty());
    while i < to
        invariant
            start <= i <= to <= cs@.len(),
            start < to,
            s == cs@.subrange(from as int, to as int),
            ds == cs@.subrange(start as int, to as int),
            ds == (if s.len() > 1 && s[0] == '+' {
                s.drop_first()
            } else {
                s
            }),
            all_digits(cs@.subrange(start as int, i as int)),
            v == digits_value(cs@.subrange(start as int, i as int)),
            v <= max,
        decreases to - i,
    {
        let c = cs[i];
        let ghost pre = cs@.subrange(start as int, i + 1);
        assert(pre.drop_last() =~= cs@.subrange(start as int, i as int));
        assert(pre =~= ds.take(i + 1 - start));
        if c < '0' || c > '9' {
            assert(ds[i - start] == c);
            assert(!all_digits(ds));
            return None;
        }
        let d = (c as u32 - 48) as u64;
        assert(digits_value(pre) == v * 10 + d);
        if d > max || v > (max - d) / 10 {
            proof {
                if all_digits(ds) {
                    lemma_digits_value_monotone(ds, (i + 1 - start) as int);
                }
                if d <= max {
                    assert(v * 10 + d > max) by (nonlinear_arith)
                        requires
                            v > (max - d) / 10,
                            d <= max,
                    ;
                }
            }
            return None;
        }
        proof {
            assert(v * 10 + d <= max) by (nonlinear_arith)
                requires
                    v <= (max - d) / 10,
                    d <= max,
            ;
        }
        v = v * 10 + d;
        i += 1;
    }
    Some(v)
}

/// A prefix of a digit string has no larger value than the whole.
pub proof fn lemma_digits_value_monotone(s: Seq<char>, k: int)
    requires
        0 <= k <= s.len(),
        all_digits(s),
    ensures
        digits_value(s.take(k)) <= digits_value(s),
    decreases s.len(),
{
    if k < s.len() {
        assert(s.drop_last().take(k) =~= s.take(k));
        lemma_digits_value_monotone(s.drop_last(), k);
    } else {
        assert(s.take(k) =~= s);
    }
}

} // verus!
