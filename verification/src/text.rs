//! Character-level helpers shared by the parsers and the renderers.
//!
//! Text is modelled as `Seq<char>`, the view of `str` and `String`. The
//! specification functions here define trimming, splitting, joining and padding
//! on that model; the executable functions compute them on `Vec<char>` ranges
//! and on string slices.

use vstd::prelude::*;
use vstd::std_specs::iter::IteratorSpec;

verus! {

broadcast use vstd::string::group_string_axioms;

/// Whether `c` is white space in the sense of the Unicode `White_Space`
/// property, which is what trimming removes.
pub open spec fn is_space(c: char) -> bool {
    let u = c as u32;
    ||| 0x09 <= u <= 0x0D
    ||| u == 0x20
    ||| u == 0x85
    ||| u == 0xA0
    ||| u == 0x1680
    ||| 0x2000 <= u <= 0x200A
    ||| u == 0x2028
    ||| u == 0x2029
    ||| u == 0x202F
    ||| u == 0x205F
    ||| u == 0x3000
}

/// The ASCII lower-case form of `c`: `A`..`Z` map to `a`..`z`, every other
/// character to itself.
pub open spec fn lower(c: char) -> char {
    if 'A' <= c <= 'Z' {
        ((c as u8) + 32) as char
    } else {
        c
    }
}

/// `s` with every character replaced by its ASCII lower-case form.
pub open spec fn lower_all(s: Seq<char>) -> Seq<char> {
    Seq::new(s.len(), |i: int| lower(s[i]))
}

/// `s` without its leading white space.
pub open spec fn trim_start(s: Seq<char>) -> Seq<char>
    decreases s.len(),
{
    if s.len() > 0 && is_space(s[0]) {
        trim_start(s.drop_first())
    } else {
        s
    }
}

/// `s` without its trailing white space.
pub open spec fn trim_end(s: Seq<char>) -> Seq<char>
    decreases s.len(),
{
    if s.len() > 0 && is_space(s.last()) {
        trim_end(s.drop_last())
    } else {
        s
    }
}

/// `s` without leading and trailing white space.
pub open spec fn trim(s: Seq<char>) -> Seq<char> {
    trim_end(trim_start(s))
}

/// Whether `s` neither starts nor ends with white space.
pub open spec fn is_trimmed(s: Seq<char>) -> bool {
    s.len() > 0 ==> !is_space(s[0]) && !is_space(s.last())
}

/// Position of the first `c` in `s`, or `s.len()` when `s` holds none.
pub open spec fn index_of(s: Seq<char>, c: char) -> int
    decreases s.len(),
{
    if s.len() == 0 || s[0] == c {
        0
    } else {
        1 + index_of(s.drop_first(), c)
    }
}

/// The pieces of `s` between occurrences of `sep`, in order. There is always
/// at least one piece; adjacent separators give empty pieces.
pub open spec fn split(s: Seq<char>, sep: char) -> Seq<Seq<char>>
    decreases s.len(),
{
    let i = index_of(s, sep);
    if 0 <= i < s.len() {
        seq![s.take(i)] + split(s.skip(i + 1), sep)
    } else {
        seq![s]
    }
}

/// The pieces `parts` written one after another with `sep` between
/// neighbours.
pub open spec fn join(parts: Seq<Seq<char>>, sep: char) -> Seq<char>
    decreases parts.len(),
{
    if parts.len() == 0 {
        Seq::empty()
    } else if parts.len() == 1 {
        parts[0]
    } else {
        parts[0] + seq![sep] + join(parts.drop_first(), sep)
    }
}

/// Whether `c` occurs nowhere in `s`.
pub open spec fn lacks(s: Seq<char>, c: char) -> bool {
    forall|i: int| 0 <= i < s.len() ==> s[i] != c
}

/// Whether ASCII lower-casing leaves `s` as it is.
pub open spec fn is_lower(s: Seq<char>) -> bool {
    forall|i: int| 0 <= i < s.len() ==> lower(#[trigger] s[i]) == s[i]
}

/// `index_of` lies within `s` or at its end, points at a `c` where it lies
/// within, and has no `c` before it.
pub proof fn lemma_index_of_bounds(s: Seq<char>, c: char)
    ensures
        0 <= index_of(s, c) <= s.len(),
        index_of(s, c) < s.len() ==> s[index_of(s, c)] == c,
        lacks(s.take(index_of(s, c)), c),
    decreases s.len(),
{
    if s.len() > 0 && s[0] != c {
        let rest = s.drop_first();
        lemma_index_of_bounds(rest, c);
        let k = index_of(rest, c);
        let head = s.take(k + 1);
        assert forall|i: int| 0 <= i < head.len() implies head[i] != c by {
            if i > 0 {
                assert(rest.take(k)[i - 1] == s[i]);
            }
        }
    }
}

/// `index_of` is the one position that has `c` (or the end) with no `c`
/// before it.
pub proof fn lemma_index_of_is(s: Seq<char>, c: char, k: int)
    requires
        0 <= k <= s.len(),
        forall|j: int| 0 <= j < k ==> s[j] != c,
        k < s.len() ==> s[k] == c,
    ensures
        index_of(s, c) == k,
    decreases s.len(),
{
    if s.len() > 0 && s[0] != c {
        let rest = s.drop_first();
        assert forall|j: int| 0 <= j < k - 1 implies rest[j] != c by {}
        lemma_index_of_is(rest, c, k - 1);
    }
}

/// Whether `c` is white space.
pub fn is_whitespace(c: char) -> (r: bool)
    ensures
        r == is_space(c),
{
    let u: u32 = c as u32;
    (0x09 <= u && u <= 0x0D) || u == 0x20 || u == 0x85 || u == 0xA0 || u == 0x1680 || (0x2000 <= u
        && u <= 0x200A) || u == 0x2028 || u == 0x2029 || u == 0x202F || u == 0x205F || u == 0x3000
}

/// The ASCII lower-case form of `c`.
pub fn to_lower(c: char) -> (r: char)
    ensures
        r == lower(c),
{
    if 'A' <= c && c <= 'Z' {
        ((c as u8) + 32) as char
    } else {
        c
    }
}

/// The characters of `s`, in order.
pub fn chars_of(s: &str) -> (v: Vec<char>)
    ensures
        v@ == s@,
{
    let mut v: Vec<char> = Vec::new();
    for c in it: s.chars()
        invariant
            it.seq() == s@,
            v@ == s@.take(it.index() as int),
    {
        v.push(c);
    }
    v
}

/// The characters of `s` in ASCII lower case, in order.
pub fn lowered_chars(s: &str) -> (v: Vec<char>)
    ensures
        v@ == lower_all(s@),
{
    let mut v: Vec<char> = Vec::new();
    for c in it: s.chars()
        invariant
            it.seq() == s@,
            v@ == lower_all(s@.take(it.index() as int)),
    {
        v.push(to_lower(c));
        assert(v@ == lower_all(s@.take(it.index() + 1)));
    }
    v
}

/// Finds the first `c` in `v[start..end]`; gives `end` when there is none.
pub fn find_char(v: &Vec<char>, start: usize, end: usize, c: char) -> (r: usize)
    requires
        start <= end <= v.len(),
    ensures
        start <= r <= end,
        r - start == index_of(v@.subrange(start as int, end as int), c),
{
    let mut i: usize = start;
    while i < end && v[i] != c
        invariant
            start <= i <= end <= v.len(),
            forall|j: int| start <= j < i ==> v@[j] != c,
        decreases end - i,
    {
        i += 1;
    }
    proof {
        let s = v@.subrange(start as int, end as int);
        assert forall|j: int| 0 <= j < i - start implies s[j] != c by {}
        lemma_index_of_is(s, c, i - start);
    }
    i
}

/// Narrows `v[start..end]` to the part without leading and trailing white
/// space.
pub fn trim_bounds(v: &Vec<char>, start: usize, end: usize) -> (r: (usize, usize))
    requires
        start <= end <= v.len(),
    ensures
        start <= r.0 <= r.1 <= end,
        v@.subrange(r.0 as int, r.1 as int) == trim(v@.subrange(start as int, end as int)),
{
    let mut a: usize = start;
    while a < end && is_whitespace(v[a])
        invariant
            start <= a <= end <= v.len(),
            trim_start(v@.subrange(a as int, end as int)) == trim_start(
                v@.subrange(start as int, end as int),
            ),
        decreases end - a,
    {
        proof {
            let cur = v@.subrange(a as int, end as int);
            assert(cur.drop_first() == v@.subrange(a + 1, end as int));
        }
        a += 1;
    }
    let mut b: usize = end;
    while a < b && is_whitespace(v[b - 1])
        invariant
            a <= b <= end <= v.len(),
            trim_end(v@.subrange(a as int, b as int)) == trim_end(
                v@.subrange(a as int, end as int),
            ),
        decreases b - a,
    {
        proof {
            let cur = v@.subrange(a as int, b as int);
            assert(cur.drop_last() == v@.subrange(a as int, b - 1));
        }
        b -= 1;
    }
    (a, b)
}

/// Appends `c` to `s`: `String::push`, which vstd leaves unspecified. The
/// contract is its documented effect, one more character at the end.
#[verifier::external_body]
fn push_char(s: &mut String, c: char)
    ensures
        final(s)@ == old(s)@.push(c),
{
    s.push(c)
}

/// The text of `v[start..end]`.
pub fn text_of(v: &Vec<char>, start: usize, end: usize) -> (r: String)
    requires
        start <= end <= v.len(),
    ensures
        r@ == v@.subrange(start as int, end as int),
{
    let mut out = String::new();
    let mut i: usize = start;
    while i < end
        invariant
            start <= i <= end <= v.len(),
            out@ == v@.subrange(start as int, i as int),
        decreases end - i,
    {
        push_char(&mut out, v[i]);
        proof {
            assert(v@.subrange(start as int, i + 1) == v@.subrange(start as int, i as int).push(
                v@[i as int],
            ));
        }
        i += 1;
    }
    out
}

/// Whether `v[start..end]` spells `word`.
pub fn range_is(v: &Vec<char>, start: usize, end: usize, word: &str) -> (r: bool)
    requires
        start <= end <= v.len(),
    ensures
        r == (v@.subrange(start as int, end as int) == word@),
{
    let ghost part = v@.subrange(start as int, end as int);
    let mut i: usize = start;
    for c in it: word.chars()
        invariant
            it.seq() == word@,
            start <= end <= v.len(),
            i == start + it.index(),
            i <= end,
            part == v@.subrange(start as int, end as int),
            part.take(it.index() as int) == word@.take(it.index() as int),
    {
        if i >= end || v[i] != c {
            return false;
        }
        i += 1;
    }
    proof {
        assert(word@.take(word@.len() as int) == word@);
        if i == end {
            assert(part.take(part.len() as int) == part);
        }
    }
    i == end
}

/// A sequence that ASCII lower-casing leaves alone is its own lower-case form,
/// and lower-casing twice is lower-casing once.
pub proof fn lemma_lower_all(s: Seq<char>)
    ensures
        is_lower(lower_all(s)),
        is_lower(s) ==> lower_all(s) == s,
{
    assert forall|i: int| 0 <= i < s.len() implies lower(#[trigger] lower_all(s)[i]) == lower_all(
        s,
    )[i] by {}
}

/// Trimming at the front brings in no character that was not there, and
/// leaves no white space in front.
pub proof fn lemma_trim_start(s: Seq<char>, c: char)
    ensures
        lacks(s, c) ==> lacks(trim_start(s), c),
        trim_start(s).len() > 0 ==> !is_space(trim_start(s)[0]),
        trim_start(s).len() <= s.len(),
    decreases s.len(),
{
    if s.len() > 0 && is_space(s[0]) {
        let rest = s.drop_first();
        assert forall|i: int| 0 <= i < rest.len() implies rest[i] == s[i + 1] by {}
        if lacks(s, c) {
            assert forall|i: int| 0 <= i < rest.len() implies rest[i] != c by {}
        }
        lemma_trim_start(rest, c);
    }
}

/// Trimming at the end brings in no character that was not there, keeps
/// the first character, and leaves no white space at the end.
pub proof fn lemma_trim_end(s: Seq<char>, c: char)
    ensures
        lacks(s, c) ==> lacks(trim_end(s), c),
        trim_end(s).len() > 0 ==> !is_space(trim_end(s).last()) && trim_end(s)[0] == s[0],
        trim_end(s).len() <= s.len(),
    decreases s.len(),
{
    if s.len() > 0 && is_space(s.last()) {
        let rest = s.drop_last();
        if lacks(s, c) {
            assert forall|i: int| 0 <= i < rest.len() implies rest[i] != c by {}
        }
        lemma_trim_end(rest, c);
    }
}

/// Trimming brings in no character that was not there and gives a trimmed
/// sequence; a trimmed sequence is left as it is.
pub proof fn lemma_trim(s: Seq<char>, c: char)
    ensures
        lacks(s, c) ==> lacks(trim(s), c),
        is_trimmed(trim(s)),
        is_trimmed(s) ==> trim(s) == s,
{
    lemma_trim_start(s, c);
    lemma_trim_end(trim_start(s), c);
}

/// A split has at least one piece, and no piece holds the separator.
pub proof fn lemma_split_pieces(s: Seq<char>, sep: char)
    ensures
        split(s, sep).len() >= 1,
        forall|k: int| 0 <= k < split(s, sep).len() ==> lacks(#[trigger] split(s, sep)[k], sep),
    decreases s.len(),
{
    let i = index_of(s, sep);
    lemma_index_of_bounds(s, sep);
    if 0 <= i < s.len() {
        lemma_split_pieces(s.skip(i + 1), sep);
        let pieces = split(s, sep);
        assert forall|k: int| 0 <= k < pieces.len() implies lacks(#[trigger] pieces[k], sep) by {}
    } else {
        assert(s.take(s.len() as int) == s);
    }
}

/// Joining one more piece appends the separator and the piece.
pub proof fn lemma_join_push(parts: Seq<Seq<char>>, piece: Seq<char>, sep: char)
    requires
        parts.len() > 0,
    ensures
        join(parts.push(piece), sep) == join(parts, sep) + seq![sep] + piece,
    decreases parts.len(),
{
    let more = parts.push(piece);
    if parts.len() == 1 {
        assert(more.drop_first() == seq![piece]);
        assert(join(seq![piece], sep) == piece);
    } else {
        lemma_join_push(parts.drop_first(), piece, sep);
        assert(more.drop_first() == parts.drop_first().push(piece));
        assert(join(more, sep) == parts[0] + seq![sep] + (join(parts.drop_first(), sep) + seq![sep]
            + piece));
    }
}

/// Splitting undoes joining when no piece holds the separator.
pub proof fn lemma_split_join(parts: Seq<Seq<char>>, sep: char)
    requires
        parts.len() > 0,
        forall|k: int| 0 <= k < parts.len() ==> lacks(#[trigger] parts[k], sep),
    ensures
        split(join(parts, sep), sep) == parts,
    decreases parts.len(),
{
    let joined = join(parts, sep);
    if parts.len() == 1 {
        lemma_index_of_is(joined, sep, joined.len() as int);
    } else {
        let rest = parts.drop_first();
        assert forall|k: int| 0 <= k < rest.len() implies lacks(#[trigger] rest[k], sep) by {}
        lemma_split_join(rest, sep);
        let head = parts[0];
        lemma_index_of_is(joined, sep, head.len() as int);
        assert(joined.take(head.len() as int) == head);
        assert(joined.skip(head.len() as int + 1) == join(rest, sep));
    }
}

/// Number of decimal digits of `n`; 0 has one digit.
pub open spec fn digit_count(n: nat) -> nat
    decreases n,
{
    if n < 10 {
        1
    } else {
        1 + digit_count(n / 10)
    }
}

/// The character of the decimal digit `d`.
pub open spec fn digit_char(d: nat) -> char {
    ((48 + d) as u8) as char
}

/// `n` in decimal, without sign or leading zeros.
pub open spec fn decimal(n: nat) -> Seq<char>
    decreases n,
{
    if n < 10 {
        seq![digit_char(n)]
    } else {
        decimal(n / 10).push(digit_char(n % 10))
    }
}

/// `n` spaces.
pub open spec fn spaces(n: nat) -> Seq<char> {
    Seq::new(n, |i: int| ' ')
}

/// `s` followed by as many spaces as it takes to reach `width` characters;
/// `s` itself when it is that long already.
pub open spec fn pad_end(s: Seq<char>, width: nat) -> Seq<char> {
    if s.len() >= width {
        s
    } else {
        s + spaces((width - s.len()) as nat)
    }
}

/// The decimal form of a number has as many characters as the number has
/// digits.
pub proof fn lemma_decimal_len(n: nat)
    ensures
        decimal(n).len() == digit_count(n),
    decreases n,
{
    if n >= 10 {
        lemma_decimal_len(n / 10);
    }
}

/// Appends `n` spaces to `out`.
pub fn push_spaces(out: &mut String, n: usize)
    ensures
        final(out)@ == old(out)@ + spaces(n as nat),
{
    let mut i: usize = 0;
    while i < n
        invariant
            i <= n,
            out@ == old(out)@ + spaces(i as nat),
        decreases n - i,
    {
        push_char(out, ' ');
        i += 1;
    }
}

/// Appends `n` in decimal to `out`.
pub fn push_decimal(out: &mut String, n: u32)
    ensures
        final(out)@ == old(out)@ + decimal(n as nat),
    decreases n,
{
    if n >= 10 {
        push_decimal(out, n / 10);
    }
    let digit: u8 = (n % 10) as u8;
    let c: char = (48 + digit) as char;
    push_char(out, c);
}

/// Appends `s` to `out`, then spaces up to `width` characters in all.
pub fn push_padded(out: &mut String, s: &str, width: usize)
    ensures
        final(out)@ == old(out)@ + pad_end(s@, width as nat),
{
    out.append(s);
    let len = s.unicode_len();
    if len < width {
        push_spaces(out, width - len);
    }
}

/// The text that Rust's `Debug` formatting gives for a string: the string in
/// double quotes, with quotes, backslashes, control characters and other
/// unprintable characters written as escapes.
pub uninterp spec fn debug_quoted(s: Seq<char>) -> Seq<char>;

/// `s` as `Debug` formats it (`format!("{:?}", s)`). The escaping rules rest
/// on Unicode tables and are not written out here: the result is named, and
/// it is a function of the string alone.
#[verifier::external_body]
pub(crate) fn debug_quote(s: &str) -> (r: String)
    ensures
        r@ == debug_quoted(s@),
{
    format!("{:?}", s)
}

/// Whether `a` and `b` are the same text.
pub fn same_text(a: &str, b: &str) -> (r: bool)
    ensures
        r == (a@ == b@),
{
    let mut p = a.chars();
    let mut q = b.chars();
    let ghost mut i: int = 0;
    loop
        invariant
            p.obeys_prophetic_iter_laws(),
            q.obeys_prophetic_iter_laws(),
            p.decrease() is Some,
            0 <= i <= a@.len(),
            i <= b@.len(),
            p.remaining() == a@.skip(i),
            q.remaining() == b@.skip(i),
            a@.take(i) == b@.take(i),
        ensures
            i == a@.len(),
            i <= b@.len(),
            q.obeys_prophetic_iter_laws(),
            q.remaining() == b@.skip(i),
            a@.take(i) == b@.take(i),
        decreases p.decrease()->0,
    {
        match p.next() {
            None => {
                break;
            },
            Some(x) => {
                match q.next() {
                    None => {
                        return false;
                    },
                    Some(y) => {
                        if x != y {
                            return false;
                        }
                        proof {
                            i = i + 1;
                        }
                    },
                }
            },
        }
    }
    match q.next() {
        None => true,
        Some(_) => false,
    }
}

/// Whether `a` and `b` are the same text once both are put in ASCII lower
/// case.
pub fn same_text_ignoring_case(a: &str, b: &str) -> (r: bool)
    ensures
        r == (lower_all(a@) == lower_all(b@)),
{
    let x = lowered_chars(a);
    let y = lowered_chars(b);
    if x.len() != y.len() {
        return false;
    }
    let mut i: usize = 0;
    while i < x.len()
        invariant
            i <= x.len(),
            x.len() == y.len(),
            x@ == lower_all(a@),
            y@ == lower_all(b@),
            x@.take(i as int) == y@.take(i as int),
        decreases x.len() - i,
    {
        if x[i] != y[i] {
            return false;
        }
        i += 1;
    }
    proof {
        assert(x@.take(i as int) == x@);
        assert(y@.take(i as int) == y@);
    }
    true
}

/// What follows `prefix` in `s`; `None` when `s` does not start with
/// `prefix`.
pub fn after_prefix<'a>(s: &'a str, prefix: &str) -> (r: Option<&'a str>)
    ensures
        r is Some <==> prefix@.is_prefix_of(s@),
        r matches Some(rest) ==> rest@ == s@.skip(prefix@.len() as int),
{
    let mut p = prefix.chars();
    let mut q = s.chars();
    let mut count: usize = 0;
    let total = s.unicode_len();
    loop
        invariant
            p.obeys_prophetic_iter_laws(),
            q.obeys_prophetic_iter_laws(),
            p.decrease() is Some,
            count <= prefix@.len(),
            count <= s@.len(),
            total == s@.len(),
            p.remaining() == prefix@.skip(count as int),
            q.remaining() == s@.skip(count as int),
            s@.take(count as int) == prefix@.take(count as int),
        ensures
            count == prefix@.len(),
            count <= s@.len(),
            s@.take(count as int) == prefix@.take(count as int),
        decreases p.decrease()->0,
    {
        match p.next() {
            None => {
                break;
            },
            Some(x) => {
                match q.next() {
                    None => {
                        return None;
                    },
                    Some(y) => {
                        if x != y {
                            proof {
                                if prefix@.is_prefix_of(s@) {
                                    assert(s@.subrange(0, prefix@.len() as int)[count as int]
                                        == prefix@[count as int]);
                                }
                            }
                            return None;
                        }
                        count += 1;
                    },
                }
            },
        }
    }
    Some(s.substring_char(count, total))
}

/// `line` without the carriage return at its end, if it ends with one.
pub open spec fn without_cr(line: Seq<char>) -> Seq<char> {
    if line.len() > 0 && line.last() == '\r' {
        line.drop_last()
    } else {
        line
    }
}

/// The lines of `s`. A line ends with a line feed, or with a carriage return
/// and a line feed; neither belongs to the line. What follows the last line
/// feed is a line too, as it is, unless it is empty.
pub open spec fn lines_of(s: Seq<char>) -> Seq<Seq<char>>
    decreases s.len(),
{
    if s.len() == 0 {
        Seq::empty()
    } else {
        let i = index_of(s, '\n');
        if 0 <= i < s.len() {
            seq![without_cr(s.take(i))] + lines_of(s.skip(i + 1))
        } else {
            seq![s]
        }
    }
}

/// The lines of `s`, in order.
pub fn split_lines(s: &str) -> (r: Vec<String>)
    ensures
        r.deep_view() == lines_of(s@),
{
    let v = chars_of(s);
    let n = v.len();
    let mut out: Vec<String> = Vec::new();
    let mut start: usize = 0;
    proof {
        assert(v@.skip(0) == v@);
    }
    while start < n
        invariant
            start <= n,
            n == v.len(),
            v@ == s@,
            lines_of(s@) == out.deep_view() + lines_of(v@.skip(start as int)),
        decreases n - start,
    {
        let ghost rest = v@.skip(start as int);
        let ghost before = out.deep_view();
        let end = find_char(&v, start, n, '\n');
        proof {
            assert(rest.take(end - start) == v@.subrange(start as int, end as int));
        }
        if end == n {
            let line = text_of(&v, start, n);
            out.push(line);
            start = n;
        } else {
            let stop = if end > start && v[end - 1] == '\r' {
                end - 1
            } else {
                end
            };
            let line = text_of(&v, start, stop);
            out.push(line);
            proof {
                let whole = v@.subrange(start as int, end as int);
                assert(v@.subrange(start as int, stop as int) == without_cr(whole));
                assert(rest.skip(end - start + 1) == v@.skip(end + 1));
                assert(before + (seq![without_cr(whole)] + lines_of(v@.skip(end + 1)))
                    == before.push(without_cr(whole)) + lines_of(v@.skip(end + 1)));
            }
            start = end + 1;
        }
    }
    out
}

} // verus!
