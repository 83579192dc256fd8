//! Character-level text handling shared by the output parsers: whitespace,
//! trimming, line splitting and word splitting, each stated as a spec
//! function over `Seq<char>` and implemented by a verified loop.
use vstd::prelude::*;

verus! {

/// The characters that Rust's `char::is_whitespace` accepts (Unicode
/// `White_Space`).
pub open spec fn is_space(c: char) -> bool {
    let u = c as u32;
    ||| 0x09 <= u <= 0x0D
    ||| u == 0x20
    ||| u == 0x85
    ||| u == 0xA0
    ||| u == 0x1680
    ||| 0x2000 <= u <= 0x200A
    ||| u == 0x2028
    ||| u == 0x2029
    ||| u == 0x202F
    ||| u == 0x205F
    ||| u == 0x3000
}

pub fn is_space_char(c: char) -> (r: bool)
    ensures
        r == is_space(c),
{
    let u = c as u32;
    (0x09 <= u && u <= 0x0D) || u == 0x20 || u == 0x85 || u == 0xA0 || u == 0x1680 || (0x2000
        <= u && u <= 0x200A) || u == 0x2028 || u == 0x2029 || u == 0x202F || u == 0x205F || u
        == 0x3000
}

/// `s` without its leading whitespace.
pub open spec fn trim_start(s: Seq<char>) -> Seq<char>
    decreases s.len(),
{
    if s.len() > 0 && is_space(s[0]) {
        trim_start(s.drop_first())
    } else {
        s
    }
}

/// `s` without its trailing whitespace.
pub open spec fn trim_end(s: Seq<char>) -> Seq<char>
    decreases s.len(),
{
    if s.len() > 0 && is_space(s.last()) {
        trim_end(s.drop_last())
    } else {
        s
    }
}

/// `s` without leading and trailing whitespace, as `str::trim` gives it.
pub open spec fn trim(s: Seq<char>) -> Seq<char> {
    trim_end(trim_start(s))
}

/// `s` without one trailing carriage return.
pub open spec fn strip_cr(s: Seq<char>) -> Seq<char> {
    if s.len() > 0 && s.last() == '\r' {
        s.drop_last()
    } else {
        s
    }
}

/// The lines of `s` that a newline has closed, and the text after the last
/// newline.
pub open spec fn line_pieces(s: Seq<char>) -> (Seq<Seq<char>>, Seq<char>)
    decreases s.len(),
{
    if s.len() == 0 {
        (seq![], seq![])
    } else {
        let (done, cur) = line_pieces(s.drop_last());
        if s.last() == '\n' {
            (done.push(strip_cr(cur)), seq![])
        } else {
            (done, cur.push(s.last()))
        }
    }
}

/// The lines of `s`, as `str::lines` yields them: split at each `\n`, a
/// `\r` before it dropped, and no empty line after a final newline.
pub open spec fn lines(s: Seq<char>) -> Seq<Seq<char>> {
    let (done, cur) = line_pieces(s);
    if cur.len() == 0 {
        done
    } else {
        done.push(cur)
    }
}

/// The words of `s` that whitespace has closed, and the word in progress.
pub open spec fn word_pieces(s: Seq<char>) -> (Seq<Seq<char>>, Seq<char>)
    decreases s.len(),
{
    if s.len() == 0 {
        (seq![], seq![])
    } else {
        let (done, cur) = word_pieces(s.drop_last());
        if is_space(s.last()) {
            if cur.len() > 0 {
                (done.push(cur), seq![])
            } else {
                (done, seq![])
            }
        } else {
            (done, cur.push(s.last()))
        }
    }
}

/// The whitespace-separated words of `s`, as `str::split_whitespace`
/// yields them.
pub open spec fn words(s: Seq<char>) -> Seq<Seq<char>> {
    let (done, cur) = word_pieces(s);
    if cur.len() == 0 {
        done
    } else {
        done.push(cur)
    }
}

/// The first index at or after `from` where `c` stands, or `s.len()`.
pub open spec fn index_of(s: Seq<char>, c: char, from: int) -> int
    decreases s.len() - from,
{
    if from >= s.len() {
        s.len() as int
    } else if s[from] == c {
        from
    } else {
        index_of(s, c, from + 1)
    }
}

/// What follows the last `c` in `s`; all of `s` where there is none.
pub open spec fn after_last(s: Seq<char>, c: char) -> Seq<char>
    decreases s.len(),
{
    if s.len() == 0 {
        s
    } else if s.last() == c {
        seq![]
    } else {
        after_last(s.drop_last(), c).push(s.last())
    }
}

/// The words joined with one space between each two.
pub open spec fn join_spaced(ws: Seq<Seq<char>>) -> Seq<char>
    decreases ws.len(),
{
    if ws.len() == 0 {
        seq![]
    } else if ws.len() == 1 {
        ws[0]
    } else {
        join_spaced(ws.drop_last()) + seq![' '] + ws.last()
    }
}

pub open spec fn strings_view(v: Seq<String>) -> Seq<Seq<char>> {
    v.map_values(|s: String| s@)
}

pub open spec fn opt_view(o: Option<String>) -> Option<Seq<char>> {
    match o {
        Some(s) => Some(s@),
        None => None,
    }
}

/// A copy of an optional string.
pub fn clone_opt(o: &Option<String>) -> (r: Option<String>)
    ensures
        opt_view(r) == opt_view(*o),
{
    match o {
        Some(s) => Some(s.clone()),
        None => None,
    }
}

/// A name for `String::to_lowercase`: the result depends on the characters
/// alone.
pub uninterp spec fn lower_of(s: Seq<char>) -> Seq<char>;

/// A name for `String::from_utf8_lossy`: the text that the bytes decode to,
/// with each invalid sequence replaced by U+FFFD.
pub uninterp spec fn lossy_text(b: Seq<u8>) -> Seq<char>;

/// Relies on `str::chars`: the characters of the string, in order.
#[verifier::external_body]
pub(crate) fn chars_of(s: &str) -> (r: Vec<char>)
    ensures
        r@ == s@,
{
    s.chars().collect()
}

/// Relies on `String::push`: appends one character.
#[verifier::external_body]
pub(crate) fn push_char(s: &mut String, c: char)
    ensures
        final(s)@ == old(s)@.push(c),
{
    s.push(c)
}

/// Relies on `str::to_lowercase`: the lowercase form of every character.
#[verifier::external_body]
pub(crate) fn lowercase(s: &str) -> (r: String)
    ensures
        r@ == lower_of(s@),
        s@.len() == 0 ==> r@.len() == 0,
{
    s.to_lowercase()
}

/// Relies on `String::from_utf8_lossy`: decodes the bytes as UTF-8, invalid
/// sequences replaced.
#[verifier::external_body]
pub(crate) fn decode_lossy(b: &[u8]) -> (r: String)
    ensures
        r@ == lossy_text(b@),
{
    String::from_utf8_lossy(b).into_owned()
}

/// The characters `cs[from..to]` as a string.
pub fn string_of(cs: &Vec<char>, from: usize, to: usize) -> (r: String)
    requires
        from <= to <= cs@.len(),
    ensures
        r@ == cs@.subrange(from as int, to as int),
{
    let mut r = String::new();
    let mut i = from;
    while i < to
        invariant
            from <= i <= to <= cs@.len(),
            r@ == cs@.subrange(from as int, i as int),
        decreases to - i,
    {
        push_char(&mut r, cs[i]);
        assert(cs@.subrange(from as int, i + 1) == cs@.subrange(from as int, i as int).push(
            cs@[i as int],
        ));
        i += 1;
    }
    r
}

/// `cs[from..to]` with leading and trailing whitespace removed.
pub fn trimmed(cs: &Vec<char>, from: usize, to: usize) -> (r: String)
    requires
        from <= to <= cs@.len(),
    ensures
        r@ == trim(cs@.subrange(from as int, to as int)),
{
    let mut a = from;
    while a < to && is_space_char(cs[a])
        invariant
            from <= a <= to <= cs@.len(),
            trim_start(cs@.subrange(from as int, to as int)) == trim_start(
                cs@.subrange(a as int, to as int),
            ),
        decreases to - a,
    {
        assert(cs@.subrange(a as int, to as int).drop_first() == cs@.subrange(
            a + 1,
            to as int,
        ));
        a += 1;
    }
    assert(trim_start(cs@.subrange(a as int, to as int)) == cs@.subrange(a as int, to as int));
    let mut b = to;
    while b > a && is_space_char(cs[b - 1])
        invariant
            from <= a <= b <= to <= cs@.len(),
            trim_end(cs@.subrange(a as int, to as int)) == trim_end(
                cs@.subrange(a as int, b as int),
            ),
        decreases b - a,
    {
        assert(cs@.subrange(a as int, b as int).drop_last() == cs@.subrange(a as int, b - 1));
        b -= 1;
    }
    string_of(cs, a, b)
}

/// The lines of `s`.
pub fn lines_of(s: &str) -> (r: Vec<String>)
    ensures
        strings_view(r@) == lines(s@),
{
    let cs = chars_of(s);
    let n = cs.len();
    let mut out: Vec<String> = Vec::new();
    let mut start: usize = 0;
    let mut i: usize = 0;
    while i < n
        invariant
            n == cs@.len(),
            cs@ == s@,
            start <= i <= n,
            line_pieces(cs@.subrange(0, i as int)) == (
                strings_view(out@),
                cs@.subrange(start as int, i as int),
            ),
        decreases n - i,
    {
        let ghost prev = cs@.subrange(0, i as int);
        assert(cs@.subrange(0, i + 1).drop_last() == prev);
        if cs[i] == '\n' {
            let end = if i > start && cs[i - 1] == '\r' {
                i - 1
            } else {
                i
            };
            let line = string_of(&cs, start, end);
            assert(line@ == strip_cr(cs@.subrange(start as int, i as int))) by {
                if i > start && cs@[i - 1] == '\r' {
                    assert(cs@.subrange(start as int, i as int).drop_last() == cs@.subrange(
                        start as int,
                        i - 1,
                    ));
                }
            }
            out.push(line);
            assert(strings_view(out@) == strings_view(out@.drop_last()).push(line@));
            start = i + 1;
        } else {
            assert(cs@.subrange(start as int, i + 1) == cs@.subrange(start as int, i as int).push(
                cs@[i as int],
            ));
        }
        i += 1;
    }
    assert(cs@.subrange(0, n as int) == s@);
    if start < n {
        let last = string_of(&cs, start, n);
        out.push(last);
        assert(strings_view(out@) == strings_view(out@.drop_last()).push(last@));
    }
    out
}

/// The whitespace-separated words of `cs`.
pub fn words_of(cs: &Vec<char>) -> (r: Vec<String>)
    ensures
        strings_view(r@) == words(cs@),
{
    let n = cs.len();
    let mut out: Vec<String> = Vec::new();
    let mut start: usize = 0;
    let mut i: usize = 0;
    while i < n
        invariant
            n == cs@.len(),
            start <= i <= n,
            word_pieces(cs@.subrange(0, i as int)) == (
                strings_view(out@),
                cs@.subrange(start as int, i as int),
            ),
        decreases n - i,
    {
        assert(cs@.subrange(0, i + 1).drop_last() == cs@.subrange(0, i as int));
        if is_space_char(cs[i]) {
            if i > start {
                let w = string_of(cs, start, i);
                out.push(w);
                assert(strings_view(out@) == strings_view(out@.drop_last()).push(w@));
            }
            start = i + 1;
        } else {
            assert(cs@.subrange(start as int, i + 1) == cs@.subrange(start as int, i as int).push(
                cs@[i as int],
            ));
        }
        i += 1;
    }
    assert(cs@.subrange(0, n as int) == cs@);
    if start < n {
        let w = string_of(cs, start, n);
        out.push(w);
        assert(strings_view(out@) == strings_view(out@.drop_last()).push(w@));
    }
    out
}

/// The first index of `c` in `cs`, or its length.
pub fn find_char(cs: &Vec<char>, c: char) -> (r: usize)
    ensures
        r == index_of(cs@, c, 0),
{
    let mut i: usize = 0;
    while i < cs.len() && cs[i] != c
        invariant
            i <= cs@.len(),
            index_of(cs@, c, 0) == index_of(cs@, c, i as int),
        decreases cs@.len() - i,
    {
        i += 1;
    }
    i
}

/// What follows the last `c` in `s`.
pub fn after_last_char(s: &str, c: char) -> (r: String)
    ensures
        r@ == after_last(s@, c),
{
    let cs = chars_of(s);
    let mut start: usize = 0;
    let mut i: usize = 0;
    while i < cs.len()
        invariant
            start <= i <= cs@.len(),
            after_last(cs@.subrange(0, i as int), c) == cs@.subrange(start as int, i as int),
        decreases cs@.len() - i,
    {
        assert(cs@.subrange(0, i + 1).drop_last() == cs@.subrange(0, i as int));
        if cs[i] == c {
            start = i + 1;
        } else {
            assert(cs@.subrange(start as int, i + 1) == cs@.subrange(start as int, i as int).push(
                cs@[i as int],
            ));
        }
        i += 1;
    }
    assert(cs@.subrange(0, cs@.len() as int) == s@);
    string_of(&cs, start, cs.len())
}

/// The strings `ws[from..]` joined with single spaces.
pub fn join_spaced_from(ws: &Vec<String>, from: usize) -> (r: String)
    requires
        from <= ws@.len(),
    ensures
        r@ == join_spaced(strings_view(ws@).subrange(from as int, ws@.len() as int)),
{
    let mut r = String::new();
    let mut i = from;
    while i < ws.len()
        invariant
            from <= i <= ws@.len(),
            r@ == join_spaced(strings_view(ws@).subrange(from as int, i as int)),
        decreases ws@.len() - i,
    {
        let ghost part = strings_view(ws@).subrange(from as int, i + 1);
        assert(part.drop_last() == strings_view(ws@).subrange(from as int, i as int));
        if i > from {
            r.append(" ");
            r.append(ws[i].as_str());
            assert(seq![' '] == " "@) by {
                reveal_strlit(" ");
            }
        } else {
            r = ws[i].clone();
        }
        i += 1;
    }
    r
}

/// The pieces of `s` between occurrences of `c`, and the piece in progress.
pub open spec fn split_pieces(s: Seq<char>, c: char) -> (Seq<Seq<char>>, Seq<char>)
    decreases s.len(),
{
    if s.len() == 0 {
        (seq![], seq![])
    } else {
        let (done, cur) = split_pieces(s.drop_last(), c);
        if s.last() == c {
            (done.push(cur), seq![])
        } else {
            (done, cur.push(s.last()))
        }
    }
}

/// `s` split at every `c`, empty pieces kept, as `str::split` yields it.
pub open spec fn split_on(s: Seq<char>, c: char) -> Seq<Seq<char>> {
    let (done, cur) = split_pieces(s, c);
    done.push(cur)
}

pub open spec fn has_prefix(s: Seq<char>, p: Seq<char>) -> bool {
    p.len() <= s.len() && s.subrange(0, p.len() as int) == p
}

pub open spec fn has_suffix(s: Seq<char>, p: Seq<char>) -> bool {
    p.len() <= s.len() && s.subrange(s.len() - p.len(), s.len() as int) == p
}

/// Whether `s` begins with `p`.
pub fn starts_with(s: &str, p: &str) -> (r: bool)
    ensures
        r == has_prefix(s@, p@),
{
    let cs = chars_of(s);
    let ps = chars_of(p);
    if ps.len() > cs.len() {
        return false;
    }
    let mut i: usize = 0;
    while i < ps.len()
        invariant
            cs@ == s@,
            ps@ == p@,
            ps@.len() <= cs@.len(),
            i <= ps@.len(),
            cs@.subrange(0, i as int) == ps@.subrange(0, i as int),
        decreases ps@.len() - i,
    {
        if cs[i] != ps[i] {
            assert(cs@.subrange(0, ps@.len() as int)[i as int] != ps@[i as int]);
            assert(cs@.subrange(0, ps@.len() as int) != ps@);
            assert(!has_prefix(s@, p@));
            return false;
        }
        assert(cs@.subrange(0, i + 1) == cs@.subrange(0, i as int).push(cs@[i as int]));
        assert(ps@.subrange(0, i + 1) == ps@.subrange(0, i as int).push(ps@[i as int]));
        i += 1;
    }
    assert(ps@.subrange(0, ps@.len() as int) == ps@);
    true
}

/// Whether `s` ends with `p`.
pub fn ends_with(s: &str, p: &str) -> (r: bool)
    ensures
        r == has_suffix(s@, p@),
{
    let cs = chars_of(s);
    let ps = chars_of(p);
    if ps.len() > cs.len() {
        return false;
    }
    let n = cs.len();
    let off = n - ps.len();
    let mut i: usize = 0;
    while i < ps.len()
        invariant
            cs@ == s@,
            ps@ == p@,
            n == cs@.len(),
            off + ps@.len() == n,
            i <= ps@.len(),
            cs@.subrange(off as int, off + i) == ps@.subrange(0, i as int),
        decreases ps@.len() - i,
    {
        let k: usize = off + i;
        if cs[k] != ps[i] {
            assert(cs@.subrange(off as int, cs@.len() as int)[i as int] != ps@[i as int]);
            assert(cs@.subrange(off as int, cs@.len() as int) != ps@);
            assert(!has_suffix(s@, p@));
            return false;
        }
        assert(cs@.subrange(off as int, off + i + 1) == cs@.subrange(off as int, off + i).push(
            cs@[off + i],
        ));
        assert(ps@.subrange(0, i + 1) == ps@.subrange(0, i as int).push(ps@[i as int]));
        i += 1;
    }
    assert(ps@.subrange(0, ps@.len() as int) == ps@);
    true
}

/// `s` split at every `c`.
pub fn split_char(s: &str, c: char) -> (r: Vec<String>)
    ensures
        strings_view(r@) == split_on(s@, c),
{
    let cs = chars_of(s);
    let n = cs.len();
    let mut out: Vec<String> = Vec::new();
    let mut start: usize = 0;
    let mut i: usize = 0;
    while i < n
        invariant
            n == cs@.len(),
            start <= i <= n,
            split_pieces(cs@.subrange(0, i as int), c) == (
                strings_view(out@),
                cs@.subrange(start as int, i as int),
            ),
        decreases n - i,
    {
        assert(cs@.subrange(0, i + 1).drop_last() == cs@.subrange(0, i as int));
        if cs[i] == c {
            let piece = string_of(&cs, start, i);
            out.push(piece);
            assert(strings_view(out@) == strings_view(out@.drop_last()).push(piece@));
            start = i + 1;
        } else {
            assert(cs@.subrange(start as int, i + 1) == cs@.subrange(start as int, i as int).push(
                cs@[i as int],
            ));
        }
        i += 1;
    }
    assert(cs@.subrange(0, n as int) == s@);
    let last = string_of(&cs, start, n);
    out.push(last);
    assert(strings_view(out@) == strings_view(out@.drop_last()).push(last@));
    out
}

/// `a` followed by `b`.
pub fn concat(a: &str, b: &str) -> (r: String)
    ensures
        r@ == a@ + b@,
{
    let mut r = a.to_string();
    r.append(b);
    r
}

/// Whether `p` occurs in `s`.
pub open spec fn has_infix(s: Seq<char>, p: Seq<char>) -> bool {
    exists|i: int| 0 <= i && i + p.len() <= s.len() && #[trigger] s.subrange(i, i + p.len()) == p
}

/// Whether `p` occurs in `s`.
pub fn contains_str(s: &str, p: &str) -> (r: bool)
    ensures
        r == has_infix(s@, p@),
{
    let cs = chars_of(s);
    let ps = chars_of(p);
    let n = cs.len();
    let m = ps.len();
    if m > n {
        assert(!has_infix(s@, p@));
        return false;
    }
    let mut i: usize = 0;
    while i <= n - m
        invariant
            cs@ == s@,
            ps@ == p@,
            n == cs@.len(),
            m == ps@.len(),
            m <= n,
            i <= n - m + 1,
            forall|j: int| 0 <= j < i ==> #[trigger] cs@.subrange(j, j + m) != ps@,
        decreases n - i,
    {
        let mut k: usize = 0;
        while k < m && cs[i + k] == ps[k]
            invariant
                i + m <= n,
                n == cs@.len(),
                m == ps@.len(),
                k <= m,
                cs@.subrange(i as int, i + k) == ps@.subrange(0, k as int),
            decreases m - k,
        {
            assert(cs@.subrange(i as int, i + k + 1) == cs@.subrange(i as int, i + k).push(
                cs@[i + k],
            ));
            assert(ps@.subrange(0, k + 1) == ps@.subrange(0, k as int).push(ps@[k as int]));
            k += 1;
        }
        if k == m {
            assert(ps@.subrange(0, m as int) == ps@);
            assert(cs@.subrange(i as int, i + m) == ps@);
            return true;
        }
        assert(cs@.subrange(i as int, i + m)[k as int] != ps@[k as int]);
        i += 1;
    }
    assert forall|j: int| 0 <= j && j + p@.len() <= s@.len() implies #[trigger] s@.subrange(
        j,
        j + p@.len(),
    ) != p@ by {
        assert(j < i);
    }
    false
}

} // verus!
