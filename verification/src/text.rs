//! Character-level text utilities with exact specifications: whitespace
//! trimming, line and word splitting, substring tests, decimal formatting and
//! parsing, and lexicographic ordering of strings.

use vstd::prelude::*;
use vstd::string::*;

verus! {

// ---------------------------------------------------------------------------
// Building strings
// ---------------------------------------------------------------------------

/// Appends one character to a string (`String::push`).
#[verifier::external_body]
pub(crate) fn push_char(s: &mut String, c: char)
    ensures
        final(s)@ == old(s)@.push(c),
{
    s.push(c);
}

/// An owned copy of a string slice.
pub fn owned(s: &str) -> (r: String)
    ensures
        r@ == s@,
{
    s.to_owned()
}

/// `a` followed by `b`.
pub fn cat(a: &str, b: &str) -> (r: String)
    ensures
        r@ == a@ + b@,
{
    let mut r = a.to_owned();
    r.append(b);
    r
}

/// `a`, `b` and `c` one after the other.
pub fn cat3(a: &str, b: &str, c: &str) -> (r: String)
    ensures
        r@ == a@ + b@ + c@,
{
    let mut r = a.to_owned();
    r.append(b);
    r.append(c);
    r
}

/// The characters of a string slice, in order.
pub fn chars_of(s: &str) -> (v: Vec<char>)
    ensures
        v@ == s@,
{
    let mut v: Vec<char> = Vec::new();
    for c in it: s.chars()
        invariant
            v@ == it.seq().take(it.index()),
            it.seq() == s@,
    {
        v.push(c);
    }
    v
}

/// Builds a string from the characters `v[from..to]`.
pub fn string_of_range(v: &Vec<char>, from: usize, to: usize) -> (s: String)
    requires
        from <= to <= v.len(),
    ensures
        s@ == v@.subrange(from as int, to as int),
{
    let mut s = String::new();
    let mut i: usize = from;
    while i < to
        invariant
            from <= i <= to <= v.len(),
            s@ == v@.subrange(from as int, i as int),
        decreases to - i,
    {
        push_char(&mut s, v[i]);
        assert(v@.subrange(from as int, i + 1) == v@.subrange(from as int, i as int).push(v@[i as int]));
        i += 1;
    }
    s
}

/// Builds a string from a sequence of characters.
pub fn string_of(v: &Vec<char>) -> (s: String)
    ensures
        s@ == v@,
{
    let s = string_of_range(v, 0, v.len());
    assert(v@.subrange(0, v.len() as int) == v@);
    s
}

/// The views of a sequence of strings.
pub open spec fn views(v: Seq<String>) -> Seq<Seq<char>> {
    v.map_values(|s: String| s@)
}

// ---------------------------------------------------------------------------
// Unicode white space
// ---------------------------------------------------------------------------

/// The characters with the Unicode `White_Space` property, which is what
/// `char::is_whitespace`, `str::trim` and `str::split_whitespace` go by.
pub open spec fn is_white(c: char) -> bool {
    let u = c as u32;
    (0x09 <= u <= 0x0D) || u == 0x20 || u == 0x85 || u == 0xA0 || u == 0x1680
        || (0x2000 <= u <= 0x200A) || u == 0x2028 || u == 0x2029 || u == 0x202F
        || u == 0x205F || u == 0x3000
}

/// Whether `c` has the Unicode `White_Space` property.
pub fn white(c: char) -> (b: bool)
    ensures
        b == is_white(c),
{
    let u = c as u32;
    (0x09 <= u && u <= 0x0D) || u == 0x20 || u == 0x85 || u == 0xA0 || u == 0x1680
        || (0x2000 <= u && u <= 0x200A) || u == 0x2028 || u == 0x2029 || u == 0x202F
        || u == 0x205F || u == 0x3000
}

/// `s` without its leading white space.
pub open spec fn trim_start(s: Seq<char>) -> Seq<char>
    decreases s.len(),
{
    if s.len() > 0 && is_white(s[0]) {
        trim_start(s.drop_first())
    } else {
        s
    }
}

/// `s` without its trailing white space.
pub open spec fn trim_end(s: Seq<char>) -> Seq<char>
    decreases s.len(),
{
    if s.len() > 0 && is_white(s.last()) {
        trim_end(s.drop_last())
    } else {
        s
    }
}

/// `s` without leading and trailing white space (`str::trim`).
pub open spec fn trimmed(s: Seq<char>) -> Seq<char> {
    trim_end(trim_start(s))
}

/// Every character of `s` is white space (so `s.trim()` is empty).
pub open spec fn blank(s: Seq<char>) -> bool {
    forall|i: int| 0 <= i < s.len() ==> is_white(#[trigger] s[i])
}

proof fn lemma_trim_start_skip(s: Seq<char>, i: int)
    requires
        0 <= i <= s.len(),
        forall|j: int| 0 <= j < i ==> is_white(#[trigger] s[j]),
    ensures
        trim_start(s) == trim_start(s.skip(i)),
    decreases i,
{
    if i > 0 {
        assert(is_white(s[0]));
        assert(s.drop_first().skip(i - 1) == s.skip(i));
        assert forall|j: int| 0 <= j < i - 1 implies is_white(#[trigger] s.drop_first()[j]) by {
            assert(s.drop_first()[j] == s[j + 1]);
        }
        lemma_trim_start_skip(s.drop_first(), i - 1);
    } else {
        assert(s.skip(0) == s);
    }
}

proof fn lemma_trim_end_take(s: Seq<char>, i: int)
    requires
        0 <= i <= s.len(),
        forall|j: int| i <= j < s.len() ==> is_white(#[trigger] s[j]),
    ensures
        trim_end(s) == trim_end(s.take(i)),
    decreases s.len() - i,
{
    if i < s.len() {
        assert(is_white(s[s.len() - 1]));
        assert(s.drop_last().take(i) == s.take(i));
        assert forall|j: int| i <= j < s.drop_last().len() implies is_white(#[trigger] s.drop_last()[j]) by {
            assert(s.drop_last()[j] == s[j]);
        }
        lemma_trim_end_take(s.drop_last(), i);
    } else {
        assert(s.take(i) == s);
    }
}

/// `trimmed(s)` is empty exactly when `s` is blank.
pub proof fn lemma_blank_trimmed(s: Seq<char>)
    ensures
        blank(s) <==> trimmed(s).len() == 0,
    decreases s.len(),
{
    if s.len() > 0 {
        if is_white(s[0]) {
            lemma_blank_trimmed(s.drop_first());
            assert(trimmed(s) == trimmed(s.drop_first()));
            if blank(s.drop_first()) {
                assert forall|i: int| 0 <= i < s.len() implies is_white(#[trigger] s[i]) by {
                    if i > 0 {
                        assert(s[i] == s.drop_first()[i - 1]);
                    }
                }
            } else {
                let j = choose|j: int| 0 <= j < s.drop_first().len() && !is_white(#[trigger] s.drop_first()[j]);
                assert(s[j + 1] == s.drop_first()[j]);
            }
        } else {
            assert(trim_start(s) == s);
            lemma_trim_end_nonwhite(s);
        }
    }
}

proof fn lemma_trim_end_nonwhite(s: Seq<char>)
    requires
        s.len() > 0,
        !is_white(s[0]),
    ensures
        trim_end(s).len() > 0,
    decreases s.len(),
{
    if is_white(s.last()) {
        assert(s.len() > 1);
        assert(s.drop_last()[0] == s[0]);
        lemma_trim_end_nonwhite(s.drop_last());
    }
}

/// `s.trim()`: the string without leading and trailing white space.
pub fn trim(s: &str) -> (r: String)
    ensures
        r@ == trimmed(s@),
{
    let v = chars_of(s);
    let n = v.len();
    let mut a: usize = 0;
    while a < n && white(v[a])
        invariant
            a <= n == v@.len(),
            forall|j: int| 0 <= j < a ==> is_white(#[trigger] v@[j]),
        decreases n - a,
    {
        a += 1;
    }
    proof {
        lemma_trim_start_skip(v@, a as int);
        if a < n {
            assert(trim_start(v@.skip(a as int)) == v@.skip(a as int));
        } else {
            assert(v@.skip(a as int).len() == 0);
        }
    }
    let ghost t = v@.skip(a as int);
    assert(trim_start(v@) == t);
    let mut b: usize = n;
    while b > a && white(v[b - 1])
        invariant
            a <= b <= n == v@.len(),
            t == v@.skip(a as int),
            forall|j: int| b <= j < n ==> is_white(#[trigger] v@[j]),
        decreases b,
    {
        b -= 1;
    }
    proof {
        let k = (b - a) as int;
        assert forall|j: int| k <= j < t.len() implies is_white(#[trigger] t[j]) by {
            assert(t[j] == v@[a + j]);
        }
        lemma_trim_end_take(t, k);
        if k > 0 {
            assert(t.take(k).last() == v@[b - 1]);
        }
        assert(t.take(k) == v@.subrange(a as int, b as int));
    }
    string_of_range(&v, a, b)
}

/// Whether every character of `s` is white space (`s.trim().is_empty()`).
pub fn is_blank(s: &str) -> (b: bool)
    ensures
        b == blank(s@),
        b == (trimmed(s@).len() == 0),
{
    proof {
        lemma_blank_trimmed(s@);
    }
    let v = chars_of(s);
    let mut i: usize = 0;
    while i < v.len()
        invariant
            i <= v.len(),
            v@ == s@,
            forall|j: int| 0 <= j < i ==> is_white(#[trigger] v@[j]),
        decreases v.len() - i,
    {
        if !white(v[i]) {
            assert(!is_white(s@[i as int]));
            proof {
                lemma_blank_trimmed(s@);
            }
            return false;
        }
        i += 1;
    }
    proof {
        lemma_blank_trimmed(s@);
    }
    true
}

// ---------------------------------------------------------------------------
// Lines and words
// ---------------------------------------------------------------------------

/// The pieces of `s` between `'\n'` characters (always at least one).
pub open spec fn line_pieces(s: Seq<char>) -> Seq<Seq<char>>
    decreases s.len(),
{
    if s.len() == 0 {
        seq![Seq::<char>::empty()]
    } else {
        let p = line_pieces(s.drop_last());
        if s.last() == '\n' {
            p.push(Seq::<char>::empty())
        } else {
            p.update(p.len() - 1, p.last().push(s.last()))
        }
    }
}

/// A line without the `'\r'` of a `"\r\n"` ending.
pub open spec fn strip_cr(l: Seq<char>) -> Seq<char> {
    if l.len() > 0 && l.last() == '\r' {
        l.drop_last()
    } else {
        l
    }
}

/// The lines of `s` as `str::lines` gives them: split at `'\n'`, a `'\r'`
/// right before a `'\n'` removed, and no final empty line after a trailing
/// line ending.
pub open spec fn lines_of(s: Seq<char>) -> Seq<Seq<char>> {
    let p = line_pieces(s);
    p.take(p.len() - 1).map_values(|l: Seq<char>| strip_cr(l)) + if p.last().len() > 0 {
        seq![p.last()]
    } else {
        Seq::<Seq<char>>::empty()
    }
}

proof fn lemma_line_pieces_nonempty(s: Seq<char>)
    ensures
        line_pieces(s).len() >= 1,
    decreases s.len(),
{
    if s.len() > 0 {
        lemma_line_pieces_nonempty(s.drop_last());
    }
}

/// `s.lines()`, each line as an owned string.
pub fn lines(s: &str) -> (r: Vec<String>)
    ensures
        views(r@) == lines_of(s@),
{
    let v = chars_of(s);
    let n = v.len();
    let mut done: Vec<String> = Vec::new();
    let ghost mut raw: Seq<Seq<char>> = Seq::empty();
    let mut st: usize = 0;
    let mut i: usize = 0;
    assert(v@.take(0) == Seq::<char>::empty());
    assert(line_pieces(v@.take(0)) == raw.push(v@.subrange(0, 0)));
    while i < n
        invariant
            n == v@.len(),
            v@ == s@,
            st <= i <= n,
            line_pieces(v@.take(i as int)) == raw.push(v@.subrange(st as int, i as int)),
            views(done@) == raw.map_values(|l: Seq<char>| strip_cr(l)),
        decreases n - i,
    {
        let ghost prev = v@.take(i as int);
        assert(v@.take(i + 1).drop_last() == prev);
        if v[i] == '\n' {
            let piece = if i > st && v[i - 1] == '\r' {
                string_of_range(&v, st, i - 1)
            } else {
                string_of_range(&v, st, i)
            };
            proof {
                let l = v@.subrange(st as int, i as int);
                if i > st && v@[i - 1] == '\r' {
                    assert(l.drop_last() == v@.subrange(st as int, i - 1));
                }
                assert(piece@ == strip_cr(l));
            }
            let ghost before = done@;
            done.push(piece);
            proof {
                let l = v@.subrange(st as int, i as int);
                assert(views(done@) =~= views(before).push(piece@));
                assert(raw.push(l).map_values(|l: Seq<char>| strip_cr(l)) =~= raw.map_values(
                    |l: Seq<char>| strip_cr(l),
                ).push(strip_cr(l)));
                raw = raw.push(l);
                assert(v@.subrange(i + 1, i + 1) == Seq::<char>::empty());
            }
            st = i + 1;
        } else {
            proof {
                assert(v@.subrange(st as int, i + 1) == v@.subrange(st as int, i as int).push(v@[i as int]));
            }
        }
        i += 1;
    }
    assert(v@.take(n as int) == v@);
    let ghost p = line_pieces(v@);
    assert(p.take(p.len() - 1) == raw);
    if st < n {
        let last = string_of_range(&v, st, n);
        done.push(last);
        assert(views(done@) =~= raw.map_values(|l: Seq<char>| strip_cr(l)) + seq![p.last()]);
    } else {
        assert(views(done@) =~= raw.map_values(|l: Seq<char>| strip_cr(l)) + Seq::<Seq<char>>::empty());
    }
    done
}

/// The maximal runs of non-white-space characters of `s`, in order
/// (`str::split_whitespace`).
pub open spec fn words_of(s: Seq<char>) -> Seq<Seq<char>>
    decreases s.len(),
{
    if s.len() == 0 {
        Seq::<Seq<char>>::empty()
    } else {
        let w = words_of(s.drop_last());
        let c = s.last();
        if is_white(c) {
            w
        } else if s.len() >= 2 && !is_white(s[s.len() - 2]) {
            w.update(w.len() - 1, w.last().push(c))
        } else {
            w.push(seq![c])
        }
    }
}

/// `s.split_whitespace()`, each word as an owned string.
pub fn split_whitespace(s: &str) -> (r: Vec<String>)
    ensures
        views(r@) == words_of(s@),
{
    let v = chars_of(s);
    let n = v.len();
    let mut done: Vec<String> = Vec::new();
    let mut st: usize = 0;
    let mut i: usize = 0;
    assert(v@.take(0) == Seq::<char>::empty());
    while i < n
        invariant
            n == v@.len(),
            v@ == s@,
            st <= i <= n,
            i > 0 && !is_white(v@[i - 1]) ==> st < i && words_of(v@.take(i as int)) == views(
                done@,
            ).push(v@.subrange(st as int, i as int)),
            !(i > 0 && !is_white(v@[i - 1])) ==> words_of(v@.take(i as int)) == views(done@),
        decreases n - i,
    {
        let ghost prev = v@.take(i as int);
        assert(v@.take(i + 1).drop_last() == prev);
        assert(v@.take(i + 1).last() == v@[i as int]);
        if white(v[i]) {
            if i > 0 && !white(v[i - 1]) {
                let w = string_of_range(&v, st, i);
                let ghost before = done@;
                done.push(w);
                assert(views(done@) =~= views(before).push(w@));
            }
        } else {
            if i > 0 && !white(v[i - 1]) {
                assert(v@.take(i + 1)[i - 1] == v@[i - 1]);
                assert(v@.subrange(st as int, i + 1) == v@.subrange(st as int, i as int).push(v@[i as int]));
                assert(views(done@).push(v@.subrange(st as int, i as int)).update(
                    views(done@).len() as int,
                    v@.subrange(st as int, i + 1),
                ) =~= views(done@).push(v@.subrange(st as int, i + 1)));
            } else {
                if i > 0 {
                    assert(v@.take(i + 1)[i - 1] == v@[i - 1]);
                }
                st = i;
                assert(v@.subrange(i as int, i + 1) =~= seq![v@[i as int]]);
            }
        }
        i += 1;
    }
    assert(v@.take(n as int) == v@);
    if n > 0 && !white(v[n - 1]) {
        let w = string_of_range(&v, st, n);
        let ghost before = done@;
        done.push(w);
        assert(views(done@) =~= views(before).push(w@));
    }
    done
}

// ---------------------------------------------------------------------------
// Searching
// ---------------------------------------------------------------------------

/// `t` occurs in `s` as a contiguous piece.
pub open spec fn has_infix(s: Seq<char>, t: Seq<char>) -> bool {
    exists|i: int| 0 <= i && i + t.len() <= s.len() && #[trigger] s.subrange(i, i + t.len()) == t
}

/// `s` begins with `t`.
pub open spec fn has_prefix(s: Seq<char>, t: Seq<char>) -> bool {
    t.len() <= s.len() && s.take(t.len() as int) == t
}

/// `s` ends with `t`.
pub open spec fn has_suffix(s: Seq<char>, t: Seq<char>) -> bool {
    t.len() <= s.len() && s.skip(s.len() - t.len()) == t
}

fn matches_at(s: &Vec<char>, t: &Vec<char>, at: usize) -> (b: bool)
    requires
        at + t.len() <= s.len(),
    ensures
        b == (s@.subrange(at as int, at + t.len()) == t@),
{
    let mut j: usize = 0;
    while j < t.len()
        invariant
            j <= t.len(),
            at + t.len() <= s.len(),
            forall|k: int| 0 <= k < j ==> s@[at + k] == t@[k],
        decreases t.len() - j,
    {
        if s[at + j] != t[j] {
            assert(s@.subrange(at as int, at + t.len())[j as int] != t@[j as int]);
            return false;
        }
        j += 1;
    }
    assert(s@.subrange(at as int, at + t.len()) =~= t@);
    true
}

/// Whether `t` occurs in `s` (`str::contains` with a string pattern).
pub fn contains_str(s: &str, t: &str) -> (b: bool)
    ensures
        b == has_infix(s@, t@),
{
    let sv = chars_of(s);
    let tv = chars_of(t);
    if tv.len() > sv.len() {
        return false;
    }
    if tv.len() == 0 {
        assert(s@.subrange(0, 0 + t@.len() as int) =~= t@);
        return true;
    }
    let last = sv.len() - tv.len();
    let mut i: usize = 0;
    while i <= last
        invariant
            sv@ == s@,
            tv@ == t@,
            last == sv.len() - tv.len(),
            tv.len() > 0,
            i <= last + 1,
            forall|k: int| 0 <= k < i ==> #[trigger] sv@.subrange(k, k + tv.len()) != tv@,
        decreases last + 1 - i,
    {
        if matches_at(&sv, &tv, i) {
            assert(s@.subrange(i as int, i + t@.len() as int) == t@);
            return true;
        }
        i += 1;
    }
    false
}

/// Whether the character `c` occurs in `s`.
pub fn contains_char(s: &str, c: char) -> (b: bool)
    ensures
        b == s@.contains(c),
{
    let v = chars_of(s);
    let mut i: usize = 0;
    while i < v.len()
        invariant
            v@ == s@,
            i <= v.len(),
            forall|k: int| 0 <= k < i ==> v@[k] != c,
        decreases v.len() - i,
    {
        if v[i] == c {
            assert(s@[i as int] == c);
            return true;
        }
        i += 1;
    }
    false
}

/// Whether `s` begins with `t`.
pub fn starts_with(s: &str, t: &str) -> (b: bool)
    ensures
        b == has_prefix(s@, t@),
{
    let sv = chars_of(s);
    let tv = chars_of(t);
    if tv.len() > sv.len() {
        return false;
    }
    let r = matches_at(&sv, &tv, 0);
    assert(sv@.subrange(0, tv.len() as int) == sv@.take(tv.len() as int));
    r
}

/// Whether `s` ends with `t`.
pub fn ends_with(s: &str, t: &str) -> (b: bool)
    ensures
        b == has_suffix(s@, t@),
{
    let sv = chars_of(s);
    let tv = chars_of(t);
    if tv.len() > sv.len() {
        return false;
    }
    let at = sv.len() - tv.len();
    let r = matches_at(&sv, &tv, at);
    assert(sv@.subrange(at as int, at + tv.len()) == sv@.skip(at as int));
    r
}

/// `s` with every `from` replaced by `to`.
pub open spec fn replaced(s: Seq<char>, from: char, to: char) -> Seq<char> {
    s.map_values(|c: char| if c == from { to } else { c })
}

/// `s.replace(from, to)` for single characters.
pub fn replace_char(s: &str, from: char, to: char) -> (r: String)
    ensures
        r@ == replaced(s@, from, to),
{
    let v = chars_of(s);
    let mut out: Vec<char> = Vec::new();
    let mut i: usize = 0;
    while i < v.len()
        invariant
            v@ == s@,
            i <= v.len(),
            out@ == replaced(v@.take(i as int), from, to),
        decreases v.len() - i,
    {
        let c = if v[i] == from { to } else { v[i] };
        out.push(c);
        assert(replaced(v@.take(i + 1), from, to) =~= replaced(v@.take(i as int), from, to).push(c));
        i += 1;
    }
    assert(v@.take(v.len() as int) == v@);
    string_of(&out)
}

// ---------------------------------------------------------------------------
// Joining and comparing
// ---------------------------------------------------------------------------

/// The parts one after the other with `sep` between neighbours
/// (`[&str]::join`).
pub open spec fn join_with(parts: Seq<Seq<char>>, sep: Seq<char>) -> Seq<char>
    decreases parts.len(),
{
    if parts.len() == 0 {
        Seq::empty()
    } else if parts.len() == 1 {
        parts[0]
    } else {
        join_with(parts.drop_last(), sep) + sep + parts.last()
    }
}

/// `parts.join(sep)`.
pub fn join_strings(parts: &Vec<String>, sep: &str) -> (r: String)
    ensures
        r@ == join_with(views(parts@), sep@),
{
    let mut r = String::new();
    let mut i: usize = 0;
    assert(views(parts@).take(0) =~= Seq::<Seq<char>>::empty());
    while i < parts.len()
        invariant
            i <= parts.len(),
            r@ == join_with(views(parts@).take(i as int), sep@),
        decreases parts.len() - i,
    {
        let ghost pv = views(parts@);
        assert(pv.take(i + 1).drop_last() =~= pv.take(i as int));
        assert(pv.take(i + 1).last() == parts@[i as int]@);
        if i > 0 {
            r.append(sep);
        } else {
            assert(pv.take(1) =~= seq![parts@[0]@]);
        }
        r.append(parts[i].as_str());
        i += 1;
    }
    assert(views(parts@).take(parts.len() as int) =~= views(parts@));
    r
}

/// Whether two strings hold the same characters.
pub fn same_text(a: &str, b: &str) -> (r: bool)
    ensures
        r == (a@ == b@),
{
    proof {
        crate::order::lemma_lex_trichotomy(a@, b@);
    }
    !crate::order::less(a, b) && !crate::order::less(b, a)
}

// ---------------------------------------------------------------------------
// Unicode case and classes
// ---------------------------------------------------------------------------

/// What `str::to_lowercase` gives for `s` (the Unicode lower-case mapping).
pub uninterp spec fn lowercase_of(s: Seq<char>) -> Seq<char>;

/// Text made only of ASCII characters.
pub open spec fn is_ascii_text(s: Seq<char>) -> bool {
    forall|i: int| 0 <= i < s.len() ==> (#[trigger] s[i] as u32) < 128
}

/// The lower-case form of an ASCII character: `'A'` to `'Z'` become `'a'`
/// to `'z'`, every other character stays.
pub open spec fn ascii_lower(c: char) -> char {
    if 65 <= (c as u32) <= 90 {
        ((c as u32) + 32) as char
    } else {
        c
    }
}

/// `s.to_lowercase()`: the Unicode lower-case mapping, which on ASCII text
/// lower-cases the letters `'A'` to `'Z'` and keeps every other character.
#[verifier::external_body]
pub(crate) fn to_lowercase(s: &str) -> (r: String)
    ensures
        r@ == lowercase_of(s@),
        is_ascii_text(s@) ==> r@ == s@.map_values(|c: char| ascii_lower(c)),
{
    s.to_lowercase()
}

/// What `char::is_alphanumeric` says of `c` (Unicode `Alphabetic` or
/// `Numeric`).
pub uninterp spec fn alphanumeric_char(c: char) -> bool;

/// An ASCII letter or digit.
pub open spec fn ascii_alphanumeric(c: char) -> bool {
    (48 <= (c as u32) <= 57) || (65 <= (c as u32) <= 90) || (97 <= (c as u32) <= 122)
}

/// `c.is_alphanumeric()`: true for the characters that are `Alphabetic` or
/// `Numeric`; among ASCII characters, as documented, exactly the letters and
/// digits.
#[verifier::external_body]
pub(crate) fn is_alphanumeric(c: char) -> (b: bool)
    ensures
        b == alphanumeric_char(c),
        (c as u32) < 128 ==> (b <==> ascii_alphanumeric(c)),
{
    c.is_alphanumeric()
}

} // verus!
