//! Characters and strings: the small vocabulary that every other module
//! states its contracts in. A string is modelled by its sequence of
//! characters.
use vstd::prelude::*;
use vstd::string::*;
use vstd::utf8::*;

verus! {

// ── Models ───────────────────────────────────────────────────────────────

/// One character with an ASCII capital replaced by its small letter.
pub open spec fn lower_char(c: char) -> char {
    if 'A' <= c && c <= 'Z' {
        (c as u32 + 32) as char
    } else {
        c
    }
}

/// A text with every ASCII capital replaced by its small letter.
pub open spec fn lower(s: Seq<char>) -> Seq<char> {
    s.map_values(|c: char| lower_char(c))
}

/// A character with the Unicode `White_Space` property.
pub open spec fn is_space(c: char) -> bool {
    let n = c as u32;
    ||| 0x09 <= n <= 0x0d
    ||| n == 0x20
    ||| n == 0x85
    ||| n == 0xa0
    ||| n == 0x1680
    ||| 0x2000 <= n <= 0x200a
    ||| n == 0x2028
    ||| n == 0x2029
    ||| n == 0x202f
    ||| n == 0x205f
    ||| n == 0x3000
}

/// A text without the white space at its start.
pub open spec fn trim_start(s: Seq<char>) -> Seq<char>
    decreases s.len(),
{
    if s.len() > 0 && is_space(s.first()) {
        trim_start(s.drop_first())
    } else {
        s
    }
}

/// A text without the white space at its end.
pub open spec fn trim_end(s: Seq<char>) -> Seq<char>
    decreases s.len(),
{
    if s.len() > 0 && is_space(s.last()) {
        trim_end(s.drop_last())
    } else {
        s
    }
}

/// A text without the white space around it.
pub open spec fn trimmed(s: Seq<char>) -> Seq<char> {
    trim_end(trim_start(s))
}

/// `needle` stands in `s` from position `i` on.
pub open spec fn occurs_at<T>(s: Seq<T>, needle: Seq<T>, i: int) -> bool {
    &&& 0 <= i
    &&& i + needle.len() <= s.len()
    &&& s.subrange(i, i + needle.len()) == needle
}

/// `needle` stands somewhere in `s`.
pub open spec fn has_text<T>(s: Seq<T>, needle: Seq<T>) -> bool {
    exists|i: int| occurs_at(s, needle, i)
}

/// `s` begins with `p`.
pub open spec fn begins_with<T>(s: Seq<T>, p: Seq<T>) -> bool {
    occurs_at(s, p, 0)
}

/// `s` ends with `p`.
pub open spec fn finishes_with<T>(s: Seq<T>, p: Seq<T>) -> bool {
    occurs_at(s, p, s.len() - p.len())
}

/// The part of `s` before the first `mark`, or all of it.
pub open spec fn before(s: Seq<char>, mark: char) -> Seq<char>
    decreases s.len(),
{
    if s.len() == 0 || s.first() == mark {
        Seq::empty()
    } else {
        seq![s.first()] + before(s.drop_first(), mark)
    }
}

/// The position of the last `mark` in `s`, or -1.
pub open spec fn last_mark(s: Seq<char>, mark: char) -> int
    decreases s.len(),
{
    if s.len() == 0 {
        -1
    } else if s.last() == mark {
        s.len() - 1
    } else {
        last_mark(s.drop_last(), mark)
    }
}

/// The pieces of `s` between the occurrences of `mark`.
pub open spec fn pieces(s: Seq<char>, mark: char) -> Seq<Seq<char>>
    decreases s.len(),
{
    if s.len() == 0 {
        seq![Seq::empty()]
    } else {
        let rest = pieces(s.drop_last(), mark);
        if s.last() == mark {
            rest.push(Seq::empty())
        } else {
            rest.drop_last().push(rest.last().push(s.last()))
        }
    }
}

/// A character that parts the fields of a setting: white space or a colon.
pub open spec fn parts_fields(c: char) -> bool {
    is_space(c) || c == ':'
}

/// The fields of `s`: the longest rows of characters that part no fields.
pub open spec fn fields(s: Seq<char>) -> Seq<Seq<char>>
    decreases s.len(),
{
    if s.len() == 0 {
        Seq::empty()
    } else {
        let rest = fields(s.drop_last());
        if parts_fields(s.last()) {
            rest
        } else if s.len() > 1 && !parts_fields(s[s.len() - 2]) {
            rest.drop_last().push(rest.last().push(s.last()))
        } else {
            rest.push(seq![s.last()])
        }
    }
}

/// Every character of `s` is one of `0` to `9`.
pub open spec fn all_digits(s: Seq<char>) -> bool {
    forall|i: int| 0 <= i < s.len() ==> is_digit(#[trigger] s[i])
}

/// One of the characters `0` to `9`.
pub open spec fn is_digit(c: char) -> bool {
    '0' <= c && c <= '9'
}

/// The digit that stands for `d`, which is below ten.
pub open spec fn digit_char(d: nat) -> char {
    (0x30 + d) as char
}

/// The decimal notation of a number, without leading zeros.
pub open spec fn decimal(n: nat) -> Seq<char>
    decreases n,
{
    if n < 10 {
        seq![digit_char(n)]
    } else {
        decimal(n / 10).push(digit_char(n % 10))
    }
}

/// The number that a row of decimal digits denotes.
pub open spec fn number(s: Seq<char>) -> nat
    decreases s.len(),
{
    if s.len() == 0 {
        0
    } else {
        number(s.drop_last()) * 10 + (s.last() as u32 - 0x30) as nat
    }
}

/// A text without the plus sign that it may begin with.
pub open spec fn without_plus(s: Seq<char>) -> Seq<char> {
    if s.len() > 0 && s.first() == '+' {
        s.drop_first()
    } else {
        s
    }
}

/// A digit row with an optional plus sign in front of it, read as a port
/// number: nothing if there is no digit, a foreign character, or more than
/// sixteen bits.
pub open spec fn port_number(s: Seq<char>) -> Option<u16> {
    let digits = without_plus(s);
    if digits.len() > 0 && all_digits(digits) && number(digits) <= u16::MAX {
        Some(number(digits) as u16)
    } else {
        None
    }
}

/// The small hexadecimal digit that stands for `d`, which is below sixteen.
pub open spec fn hex_char(d: nat) -> char {
    if d < 10 {
        (0x30 + d) as char
    } else {
        (0x57 + d) as char
    }
}

/// The hexadecimal notation of a number, without leading zeros.
pub open spec fn hexadecimal(n: nat) -> Seq<char>
    decreases n,
{
    if n < 16 {
        seq![hex_char(n)]
    } else {
        hexadecimal(n / 16).push(hex_char(n % 16))
    }
}

/// A byte as two hexadecimal digits.
pub open spec fn hex_pair(b: u8) -> Seq<char> {
    seq![hex_char((b / 16) as nat), hex_char((b % 16) as nat)]
}

/// Texts one after the other, with `sep` between each two.
pub open spec fn joined(list: Seq<Seq<char>>, sep: Seq<char>) -> Seq<char>
    decreases list.len(),
{
    if list.len() == 0 {
        Seq::empty()
    } else if list.len() == 1 {
        list[0]
    } else {
        joined(list.drop_last(), sep) + sep + list.last()
    }
}

/// So many blanks.
pub open spec fn blanks(n: int) -> Seq<char> {
    Seq::new(
        if n > 0 {
            n as nat
        } else {
            0
        },
        |i: int| ' ',
    )
}

/// A text with blanks behind it up to a width.
pub open spec fn left_aligned(s: Seq<char>, width: nat) -> Seq<char> {
    s + blanks(width - s.len())
}

/// A text with blanks before it up to a width.
pub open spec fn right_aligned(s: Seq<char>, width: nat) -> Seq<char> {
    blanks(width - s.len()) + s
}

/// The texts that a list of strings holds.
pub open spec fn texts(list: Seq<String>) -> Seq<Seq<char>> {
    list.map_values(|s: String| s@)
}

/// The contents of an optional borrowed text.
pub open spec fn opt_str(o: Option<&str>) -> Option<Seq<char>> {
    match o {
        Some(s) => Some(s@),
        None => None,
    }
}

/// The text that an optional string holds.
pub open spec fn opt_text(o: Option<String>) -> Option<Seq<char>> {
    match o {
        Some(s) => Some(s@),
        None => None,
    }
}

/// A path below `base`: a separator goes between the two unless `base` is
/// empty or ends with one. `rel` is a relative path.
pub open spec fn path_below(base: Seq<char>, rel: Seq<char>) -> Seq<char> {
    if base.len() == 0 || base.last() == '/' {
        base + rel
    } else {
        base + seq!['/'] + rel
    }
}

// ── Trusted pieces of the standard library ───────────────────────────────

/// `String::push` appends one character.
pub assume_specification[ String::push ](s: &mut String, c: char)
    ensures
        final(s)@ == old(s)@.push(c),
;

/// `String::from_utf8`: the text that the bytes encode, or nothing where they
/// are not UTF-8.
#[verifier::external_body]
pub(crate) fn text_from_utf8(bytes: Vec<u8>) -> (r: Option<String>)
    ensures
        r is Some <==> valid_utf8(bytes@),
        r is Some ==> r->0@ == decode_utf8(bytes@),
{
    String::from_utf8(bytes).ok()
}

// ── Reading and building strings ─────────────────────────────────────────

/// The characters of a string.
pub fn chars_of(s: &str) -> (r: Vec<char>)
    ensures
        r@ == s@,
{
    let mut out: Vec<char> = Vec::new();
    for c in it: s.chars()
        invariant
            it.seq() == s@,
            out@ == s@.take(it.index()),
    {
        out.push(c);
    }
    assert(s@.take(s@.len() as int) == s@);
    out
}

/// The string that the characters from `from` up to `to` spell.
pub fn string_from(v: &Vec<char>, from: usize, to: usize) -> (r: String)
    requires
        from <= to <= v@.len(),
    ensures
        r@ == v@.subrange(from as int, to as int),
{
    let mut out = String::new();
    let mut i: usize = from;
    while i < to
        invariant
            from <= i <= to <= v@.len(),
            out@ == v@.subrange(from as int, i as int),
        decreases to - i,
    {
        out.push(v[i]);
        i = i + 1;
        assert(v@.subrange(from as int, i as int) == v@.subrange(from as int, i - 1).push(v@[i - 1]));
    }
    out
}

/// The string that a list of characters spells.
pub fn string_of(v: &Vec<char>) -> (r: String)
    ensures
        r@ == v@,
{
    let r = string_from(v, 0, v.len());
    assert(v@.subrange(0, v@.len() as int) == v@);
    r
}

/// Two texts one after the other.
pub fn concat2(a: &str, b: &str) -> (r: String)
    ensures
        r@ == a@ + b@,
{
    let mut out = a.to_owned();
    out.append(b);
    out
}

/// `needle` stands in `hay` from position `at` on.
pub fn matches_at(hay: &Vec<char>, needle: &Vec<char>, at: usize) -> (r: bool)
    ensures
        r == occurs_at(hay@, needle@, at as int),
{
    if needle.len() > hay.len() || at > hay.len() - needle.len() {
        return false;
    }
    let n: usize = hay.len();
    let mut i: usize = 0;
    while i < needle.len()
        invariant
            n == hay@.len(),
            at + needle@.len() <= n,
            i <= needle@.len(),
            forall|j: int| 0 <= j < i ==> hay@[at + j] == needle@[j],
        decreases needle@.len() - i,
    {
        if hay[at + i] != needle[i] {
            assert(hay@.subrange(at as int, at + needle@.len())[i as int] != needle@[i as int]);
            return false;
        }
        i = i + 1;
    }
    assert(hay@.subrange(at as int, at + needle@.len()) =~= needle@);
    true
}

/// `needle` stands somewhere in `hay`.
pub fn contains(hay: &Vec<char>, needle: &Vec<char>) -> (r: bool)
    ensures
        r == has_text(hay@, needle@),
{
    if needle.len() > hay.len() {
        return false;
    }
    let mut i: usize = 0;
    let last: usize = hay.len() - needle.len();
    while i <= last
        invariant
            last == hay@.len() - needle@.len(),
            i <= last + 1,
            last + 1 <= usize::MAX || i <= last,
            forall|j: int| 0 <= j < i ==> !occurs_at(hay@, needle@, j),
        decreases last + 1 - i,
    {
        if matches_at(hay, needle, i) {
            return true;
        }
        if i == last {
            return false;
        }
        i = i + 1;
    }
    false
}

/// Two texts are the same.
pub fn same(a: &str, b: &str) -> (r: bool)
    ensures
        r == (a@ == b@),
{
    a.to_owned() == b.to_owned()
}

/// Two lists of characters are the same.
pub fn same_chars(a: &Vec<char>, b: &Vec<char>) -> (r: bool)
    ensures
        r == (a@ == b@),
{
    let r = a.len() == b.len() && matches_at(a, b, 0);
    proof {
        if a@.len() == b@.len() {
            assert(a@.subrange(0, b@.len() as int) == a@);
        }
    }
    r
}

/// `s` begins with `p`.
pub fn starts_with(s: &str, p: &str) -> (r: bool)
    ensures
        r == begins_with(s@, p@),
{
    matches_at(&chars_of(s), &chars_of(p), 0)
}

/// `hay` ends with `p`.
pub fn ends_with(hay: &Vec<char>, p: &Vec<char>) -> (r: bool)
    ensures
        r == finishes_with(hay@, p@),
{
    p.len() <= hay.len() && matches_at(hay, p, hay.len() - p.len())
}

/// The small letter of an ASCII capital; any other character unchanged.
pub fn lower_of(c: char) -> (r: char)
    ensures
        r == lower_char(c),
{
    if 'A' <= c && c <= 'Z' {
        (c as u8 + 32) as char
    } else {
        c
    }
}

/// The text with every ASCII capital made small.
pub fn lower_chars(v: &Vec<char>) -> (r: Vec<char>)
    ensures
        r@ == lower(v@),
{
    let mut out: Vec<char> = Vec::new();
    let mut i: usize = 0;
    while i < v.len()
        invariant
            i <= v@.len(),
            out@ == lower(v@.take(i as int)),
        decreases v@.len() - i,
    {
        out.push(lower_of(v[i]));
        i = i + 1;
        assert(lower(v@.take(i as int)) =~= lower(v@.take(i - 1)).push(lower_char(v@[i - 1])));
    }
    assert(v@.take(v@.len() as int) == v@);
    out
}

/// Whether `c` is white space.
pub fn is_white(c: char) -> (r: bool)
    ensures
        r == is_space(c),
{
    let n: u32 = c as u32;
    (0x09 <= n && n <= 0x0d) || n == 0x20 || n == 0x85 || n == 0xa0 || n == 0x1680 || (0x2000 <= n
        && n <= 0x200a) || n == 0x2028 || n == 0x2029 || n == 0x202f || n == 0x205f || n == 0x3000
}

/// The text without the white space around it.
pub fn trim_chars(v: &Vec<char>) -> (r: Vec<char>)
    ensures
        r@ == trimmed(v@),
{
    let mut from: usize = 0;
    assert(v@.skip(0) == v@);
    while from < v.len() && is_white(v[from])
        invariant
            from <= v@.len(),
            trim_start(v@.skip(from as int)) == trim_start(v@),
        decreases v@.len() - from,
    {
        assert(v@.skip(from as int).drop_first() == v@.skip(from + 1));
        from = from + 1;
    }
    let ghost rest = v@.skip(from as int);
    assert(rest == trim_start(v@));
    let mut to: usize = v.len();
    assert(v@.subrange(from as int, to as int) == rest);
    while to > from && is_white(v[to - 1])
        invariant
            from <= to <= v@.len(),
            trim_end(v@.subrange(from as int, to as int)) == trim_end(rest),
        decreases to - from,
    {
        assert(v@.subrange(from as int, to as int).drop_last() == v@.subrange(from as int, to - 1));
        to = to - 1;
    }
    let ghost kept = v@.subrange(from as int, to as int);
    assert(trim_end(kept) == kept);
    copy_range(v, from, to)
}

/// The elements from `from` up to `to`.
pub fn copy_range<T: Copy>(v: &Vec<T>, from: usize, to: usize) -> (r: Vec<T>)
    requires
        from <= to <= v@.len(),
    ensures
        r@ == v@.subrange(from as int, to as int),
{
    let mut out: Vec<T> = Vec::new();
    let mut i: usize = from;
    while i < to
        invariant
            from <= i <= to <= v@.len(),
            out@ == v@.subrange(from as int, i as int),
        decreases to - i,
    {
        out.push(v[i]);
        i = i + 1;
        assert(v@.subrange(from as int, i as int) == v@.subrange(from as int, i - 1).push(v@[i - 1]));
    }
    out
}

/// The string without the white space around it.
pub fn trim(s: &str) -> (r: String)
    ensures
        r@ == trimmed(s@),
{
    string_of(&trim_chars(&chars_of(s)))
}

/// The part of the text before the first `mark`, or all of it.
pub fn before_mark(v: &Vec<char>, mark: char) -> (r: Vec<char>)
    ensures
        r@ == before(v@, mark),
{
    let mut i: usize = 0;
    assert(v@.skip(0) == v@);
    assert(v@.take(0) + before(v@, mark) == before(v@, mark));
    while i < v.len() && v[i] != mark
        invariant
            i <= v@.len(),
            v@.take(i as int) + before(v@.skip(i as int), mark) == before(v@, mark),
        decreases v@.len() - i,
    {
        assert(v@.skip(i as int).drop_first() == v@.skip(i + 1));
        assert(v@.take(i + 1) + before(v@.skip(i + 1), mark) =~= v@.take(i as int) + before(
            v@.skip(i as int),
            mark,
        ));
        i = i + 1;
    }
    assert(v@.take(i as int) + before(v@.skip(i as int), mark) =~= v@.take(i as int));
    assert(v@.take(i as int) == v@.subrange(0, i as int));
    copy_range(v, 0, i)
}

/// The position of the last `mark`, if there is one.
pub fn last_position(v: &Vec<char>, mark: char) -> (r: Option<usize>)
    ensures
        match r {
            Some(i) => i == last_mark(v@, mark) && i < v@.len() && v@[i as int] == mark,
            None => last_mark(v@, mark) == -1,
        },
{
    let mut i: usize = v.len();
    assert(v@.take(i as int) == v@);
    while i > 0
        invariant
            i <= v@.len(),
            last_mark(v@.take(i as int), mark) == last_mark(v@, mark),
        decreases i,
    {
        assert(v@.take(i as int).drop_last() == v@.take(i - 1));
        i = i - 1;
        if v[i] == mark {
            return Some(i);
        }
    }
    None
}

/// Where the last `mark` is: nothing after it is a `mark`.
pub proof fn lemma_last_mark(s: Seq<char>, mark: char)
    ensures
        -1 <= last_mark(s, mark) < s.len(),
        last_mark(s, mark) >= 0 ==> s[last_mark(s, mark)] == mark,
        forall|i: int| last_mark(s, mark) < i < s.len() ==> s[i] != mark,
    decreases s.len(),
{
    if s.len() > 0 && s.last() != mark {
        lemma_last_mark(s.drop_last(), mark);
        assert forall|i: int| last_mark(s, mark) < i < s.len() implies s[i] != mark by {
            if i < s.len() - 1 {
                assert(s.drop_last()[i] == s[i]);
            }
        }
    }
}

/// Putting a `mark` and a text without one at the end puts the last `mark`
/// there.
pub proof fn lemma_last_mark_of(head: Seq<char>, mark: char, tail: Seq<char>)
    requires
        forall|i: int| 0 <= i < tail.len() ==> tail[i] != mark,
    ensures
        last_mark(head + seq![mark] + tail, mark) == head.len(),
    decreases tail.len(),
{
    let s = head + seq![mark] + tail;
    if tail.len() > 0 {
        assert(s.drop_last() =~= head + seq![mark] + tail.drop_last());
        assert forall|i: int| 0 <= i < tail.drop_last().len() implies tail.drop_last()[i] != mark by {
            assert(tail.drop_last()[i] == tail[i]);
        }
        lemma_last_mark_of(head, mark, tail.drop_last());
    }
}

/// The pieces of the text between the occurrences of `mark`.
pub fn split_at_mark(v: &Vec<char>, mark: char) -> (r: Vec<Vec<char>>)
    ensures
        r@.map_values(|p: Vec<char>| p@) == pieces(v@, mark),
{
    let mut done: Vec<Vec<char>> = Vec::new();
    let mut cur: Vec<char> = Vec::new();
    let mut i: usize = 0;
    let ghost f = |p: Vec<char>| p@;
    assert(done@.map_values(f).push(cur@) =~= pieces(v@.take(0), mark));
    while i < v.len()
        invariant
            i <= v@.len(),
            f == (|p: Vec<char>| p@),
            done@.map_values(f).push(cur@) == pieces(v@.take(i as int), mark),
        decreases v@.len() - i,
    {
        let ghost old_done = done@.map_values(f);
        let ghost old_cur = cur@;
        assert(v@.take(i + 1).drop_last() == v@.take(i as int));
        assert(old_done.push(old_cur).drop_last() == old_done);
        if v[i] == mark {
            done.push(cur);
            cur = Vec::new();
            assert(done@.map_values(f) =~= old_done.push(old_cur));
        } else {
            cur.push(v[i]);
        }
        i = i + 1;
    }
    assert(v@.take(v@.len() as int) == v@);
    let ghost old_done = done@.map_values(f);
    let ghost old_cur = cur@;
    done.push(cur);
    assert(done@.map_values(f) =~= old_done.push(old_cur));
    done
}

/// The fields of the text.
pub fn split_fields(v: &Vec<char>) -> (r: Vec<Vec<char>>)
    ensures
        r@.map_values(|p: Vec<char>| p@) == fields(v@),
{
    let mut done: Vec<Vec<char>> = Vec::new();
    let mut cur: Vec<char> = Vec::new();
    let mut i: usize = 0;
    let ghost f = |p: Vec<char>| p@;
    assert(done@.map_values(f) =~= fields(v@.take(0)));
    while i < v.len()
        invariant
            i <= v@.len(),
            f == (|p: Vec<char>| p@),
            cur@.len() > 0 <==> i > 0 && !parts_fields(v@[i - 1]),
            (if cur@.len() > 0 {
                done@.map_values(f).push(cur@)
            } else {
                done@.map_values(f)
            }) == fields(v@.take(i as int)),
        decreases v@.len() - i,
    {
        let ghost old_done = done@.map_values(f);
        let ghost old_cur = cur@;
        let ghost next = v@.take(i + 1);
        assert(next.drop_last() == v@.take(i as int));
        assert(i > 0 ==> next[next.len() - 2] == v@[i - 1]);
        assert(old_done.push(old_cur).drop_last() == old_done);
        if is_white(v[i]) || v[i] == ':' {
            if cur.len() > 0 {
                done.push(cur);
                cur = Vec::new();
                assert(done@.map_values(f) =~= old_done.push(old_cur));
            }
        } else {
            cur.push(v[i]);
            assert(old_cur.len() == 0 ==> cur@ =~= seq![v@[i as int]]);
        }
        i = i + 1;
    }
    assert(v@.take(v@.len() as int) == v@);
    if cur.len() > 0 {
        let ghost old_done = done@.map_values(f);
        let ghost old_cur = cur@;
        done.push(cur);
        assert(done@.map_values(f) =~= old_done.push(old_cur));
    }
    done
}

/// The texts of a list one after the other, with `sep` between each two.
pub fn join(list: &Vec<String>, sep: &str) -> (r: String)
    ensures
        r@ == joined(texts(list@), sep@),
{
    let mut out = String::new();
    let mut i: usize = 0;
    while i < list.len()
        invariant
            i <= list@.len(),
            out@ == joined(texts(list@).take(i as int), sep@),
        decreases list@.len() - i,
    {
        let ghost t = texts(list@);
        assert(t.take(i + 1).drop_last() == t.take(i as int));
        if i > 0 {
            out.append(sep);
        }
        out.append(list[i].as_str());
        assert(out@ =~= joined(t.take(i + 1), sep@));
        i = i + 1;
    }
    assert(texts(list@).take(list@.len() as int) == texts(list@));
    out
}

fn push_blanks(out: &mut String, from: usize, to: usize)
    ensures
        final(out)@ == old(out)@ + blanks(to - from),
{
    let mut i: usize = from;
    assert(out@ =~= old(out)@ + blanks(0));
    while i < to
        invariant
            from <= i,
            i <= to || i == from,
            out@ == old(out)@ + blanks(i - from),
        decreases to - i,
    {
        out.push(' ');
        i = i + 1;
        assert(out@ =~= old(out)@ + blanks(i - from));
    }
    assert(blanks(i - from) =~= blanks(to - from));
}

/// The text with blanks behind it up to a width.
pub fn left_align(s: &str, width: usize) -> (r: String)
    ensures
        r@ == left_aligned(s@, width as nat),
{
    let mut out = s.to_owned();
    push_blanks(&mut out, s.unicode_len(), width);
    out
}

/// The text with blanks before it up to a width.
pub fn right_align(s: &str, width: usize) -> (r: String)
    ensures
        r@ == right_aligned(s@, width as nat),
{
    let mut out = String::new();
    push_blanks(&mut out, s.unicode_len(), width);
    out.append(s);
    assert(out@ =~= right_aligned(s@, width as nat));
    out
}

/// A copy of an optional string.
pub fn clone_text(o: &Option<String>) -> (r: Option<String>)
    ensures
        opt_text(r) == opt_text(*o),
{
    match o {
        Some(s) => Some(s.clone()),
        None => None,
    }
}

/// A copy of a list of strings.
pub fn clone_texts(list: &Vec<String>) -> (r: Vec<String>)
    ensures
        texts(r@) == texts(list@),
{
    let mut out: Vec<String> = Vec::new();
    let mut i: usize = 0;
    while i < list.len()
        invariant
            i <= list@.len(),
            texts(out@) == texts(list@).take(i as int),
        decreases list@.len() - i,
    {
        let ghost had = texts(out@);
        out.push(list[i].clone());
        assert(texts(out@) =~= had.push(list@[i as int]@));
        assert(texts(list@).take(i + 1) =~= texts(list@).take(i as int).push(list@[i as int]@));
        i = i + 1;
    }
    assert(texts(list@).take(list@.len() as int) == texts(list@));
    out
}

/// The path of `rel` below `base`.
pub fn join_path(base: &str, rel: &str) -> (r: String)
    ensures
        r@ == path_below(base@, rel@),
{
    let v = chars_of(base);
    let mut out = base.to_owned();
    if v.len() > 0 && v[v.len() - 1] != '/' {
        out.push('/');
    }
    out.append(rel);
    assert(base@ + seq!['/'] == base@.push('/'));
    out
}

// ── Numbers ──────────────────────────────────────────────────────────────

/// The decimal notation of a number.
pub fn decimal_of(n: u128) -> (r: String)
    ensures
        r@ == decimal(n as nat),
    decreases n,
{
    if n < 10 {
        let mut out = String::new();
        out.push((0x30 + n as u8) as char);
        assert(out@ =~= seq![digit_char(n as nat)]);
        out
    } else {
        let mut out = decimal_of(n / 10);
        out.push((0x30 + (n % 10) as u8) as char);
        out
    }
}

/// The hexadecimal digit for `d`.
pub fn hex_digit(d: u8) -> (r: char)
    requires
        d < 16,
    ensures
        r == hex_char(d as nat),
{
    if d < 10 {
        (0x30 + d) as char
    } else {
        (0x57 + d) as char
    }
}

/// The hexadecimal notation of a number.
pub fn hexadecimal_of(n: u16) -> (r: String)
    ensures
        r@ == hexadecimal(n as nat),
    decreases n,
{
    if n < 16 {
        let mut out = String::new();
        out.push(hex_digit(n as u8));
        assert(out@ =~= seq![hex_char(n as nat)]);
        out
    } else {
        let mut out = hexadecimal_of(n / 16);
        out.push(hex_digit((n % 16) as u8));
        out
    }
}

/// A byte as two hexadecimal digits.
pub fn hex_pair_of(b: u8) -> (r: String)
    ensures
        r@ == hex_pair(b),
{
    let mut out = String::new();
    out.push(hex_digit(b / 16));
    out.push(hex_digit(b % 16));
    assert(out@ =~= hex_pair(b));
    out
}

/// Reads a port number: decimal digits, with an optional plus sign.
pub fn parse_port(v: &Vec<char>) -> (r: Option<u16>)
    ensures
        r == port_number(v@),
{
    let start: usize = if v.len() > 0 && v[0] == '+' {
        1
    } else {
        0
    };
    let ghost digits = without_plus(v@);
    assert(digits == v@.skip(start as int));
    if start == v.len() {
        return None;
    }
    let mut value: u32 = 0;
    let mut i: usize = start;
    while i < v.len()
        invariant
            start <= i <= v@.len(),
            digits == without_plus(v@),
            digits == v@.skip(start as int),
            all_digits(digits.take(i - start)),
            value == number(digits.take(i - start)),
            value <= u16::MAX,
        decreases v@.len() - i,
    {
        let c = v[i];
        assert(digits[i - start] == c);
        if !('0' <= c && c <= '9') {
            assert(!is_digit(digits[i - start]));
            return None;
        }
        assert(digits.take(i + 1 - start).drop_last() == digits.take(i - start));
        value = value * 10 + (c as u32 - 0x30);
        i = i + 1;
        if value > u16::MAX as u32 {
            proof {
                lemma_number_grows(digits, i - start);
            }
            return None;
        }
    }
    assert(digits.take(v@.len() - start) == digits);
    Some(value as u16)
}

/// More digits denote no smaller number.
proof fn lemma_number_grows(s: Seq<char>, k: int)
    requires
        0 <= k <= s.len(),
    ensures
        number(s.take(k)) <= number(s) || !all_digits(s),
    decreases s.len() - k,
{
    if k < s.len() {
        lemma_number_grows(s, k + 1);
        assert(s.take(k + 1).drop_last() == s.take(k));
    } else {
        assert(s.take(k) == s);
    }
}

/// Decimal notation uses digits only, and at least one.
pub proof fn lemma_decimal_digits(n: nat)
    ensures
        decimal(n).len() > 0,
        all_digits(decimal(n)),
    decreases n,
{
    if n >= 10 {
        lemma_decimal_digits(n / 10);
    }
}

/// Reading the decimal notation of a number gives the number back.
pub proof fn lemma_decimal_number(n: nat)
    ensures
        number(decimal(n)) == n,
    decreases n,
{
    if n >= 10 {
        lemma_decimal_number(n / 10);
        assert(decimal(n).drop_last() == decimal(n / 10));
    } else {
        assert(decimal(n).drop_last() == Seq::<char>::empty());
        assert(number(Seq::<char>::empty()) == 0);
    }
}

/// A port number survives being written and read.
pub proof fn lemma_port_round_trip(p: u16)
    ensures
        port_number(decimal(p as nat)) == Some(p),
{
    lemma_decimal_digits(p as nat);
    lemma_decimal_number(p as nat);
    assert(is_digit(decimal(p as nat)[0]));
}

/// A text without a `mark` is its only piece.
pub proof fn lemma_one_piece(s: Seq<char>, mark: char)
    requires
        forall|i: int| 0 <= i < s.len() ==> s[i] != mark,
    ensures
        pieces(s, mark) == seq![s],
    decreases s.len(),
{
    if s.len() > 0 {
        lemma_one_piece(s.drop_last(), mark);
        assert(s.drop_last().push(s.last()) =~= s);
        assert(pieces(s, mark) =~= seq![s]);
    } else {
        assert(s =~= Seq::empty());
    }
}

/// Putting a `mark` and a text without one at the end adds that text to the
/// pieces.
pub proof fn lemma_more_pieces(head: Seq<char>, mark: char, tail: Seq<char>)
    requires
        forall|i: int| 0 <= i < tail.len() ==> tail[i] != mark,
    ensures
        pieces(head + seq![mark] + tail, mark) == pieces(head, mark).push(tail),
    decreases tail.len(),
{
    let s = head + seq![mark] + tail;
    if tail.len() == 0 {
        assert(s.drop_last() =~= head);
        assert(tail =~= Seq::empty());
    } else {
        assert(s.drop_last() =~= head + seq![mark] + tail.drop_last());
        lemma_more_pieces(head, mark, tail.drop_last());
        assert(s.last() == tail.last());
        assert(tail.drop_last().push(tail.last()) =~= tail);
        assert(pieces(s, mark) =~= pieces(head, mark).push(tail));
    }
}

/// A text without anything that parts fields is its only field.
pub proof fn lemma_one_field(s: Seq<char>)
    requires
        s.len() > 0,
        forall|i: int| 0 <= i < s.len() ==> !parts_fields(#[trigger] s[i]),
    ensures
        fields(s) == seq![s],
    decreases s.len(),
{
    reveal_with_fuel(fields, 2);
    if s.len() == 1 {
        assert(!parts_fields(s[0]));
        assert(s =~= seq![s.last()]);
        assert(fields(s) =~= seq![s]);
    } else {
        lemma_one_field(s.drop_last());
        assert(s.drop_last().push(s.last()) =~= s);
        assert(fields(s) =~= seq![s]);
    }
}

/// Putting what parts fields and a text without any such thing at the end
/// adds that text to the fields.
pub proof fn lemma_more_fields(head: Seq<char>, part: char, tail: Seq<char>)
    requires
        parts_fields(part),
        tail.len() > 0,
        forall|i: int| 0 <= i < tail.len() ==> !parts_fields(#[trigger] tail[i]),
    ensures
        fields(head + seq![part] + tail) == fields(head).push(tail),
    decreases tail.len(),
{
    let s = head + seq![part] + tail;
    assert(!parts_fields(tail[tail.len() - 1]));
    if tail.len() == 1 {
        reveal_with_fuel(fields, 2);
        assert(s.drop_last() =~= head.push(part));
        assert(head.push(part).drop_last() =~= head);
        assert(s[s.len() - 2] == part);
        assert(tail =~= seq![s.last()]);
    } else {
        assert(s.drop_last() =~= head + seq![part] + tail.drop_last());
        lemma_more_fields(head, part, tail.drop_last());
        assert(s[s.len() - 2] == tail[tail.len() - 2]);
        assert(tail.drop_last().push(tail.last()) =~= tail);
        assert(fields(s) =~= fields(head).push(tail));
    }
}

// ── Laws ─────────────────────────────────────────────────────────────────

/// A list of strings holds as many texts as strings, each in its place.
pub proof fn law_texts_are_the_strings(list: Seq<String>)
    ensures
        texts(list).len() == list.len(),
        forall|i: int| 0 <= i < list.len() ==> #[trigger] texts(list)[i] == list[i]@,
{
}

/// Making a text small changes its ASCII capitals only, each into the letter
/// 32 places behind it.
pub proof fn law_lower_changes_capitals_only(s: Seq<char>)
    ensures
        lower(s).len() == s.len(),
        forall|i: int|
            0 <= i < s.len() ==> if 65 <= s[i] as u32 <= 90 {
                #[trigger] lower(s)[i] as u32 == s[i] as u32 + 32
            } else {
                lower(s)[i] == s[i]
            },
{
}

/// Among the ASCII characters, the blank and the five from tab to carriage
/// return are white space, and no other.
pub proof fn law_ascii_white_space(c: char)
    requires
        (c as u32) < 128,
    ensures
        is_space(c) <==> c == ' ' || 9 <= c as u32 <= 13,
{
}

proof fn lemma_trim_start(s: Seq<char>) -> (a: int)
    ensures
        0 <= a <= s.len(),
        trim_start(s) == s.skip(a),
        forall|i: int| 0 <= i < a ==> is_space(#[trigger] s[i]),
        a < s.len() ==> !is_space(s[a]),
    decreases s.len(),
{
    if s.len() > 0 && is_space(s.first()) {
        let rest = s.drop_first();
        let b = lemma_trim_start(rest);
        assert(rest.skip(b) =~= s.skip(b + 1));
        assert forall|i: int| 0 <= i < b + 1 implies is_space(#[trigger] s[i]) by {
            if i > 0 {
                assert(rest[i - 1] == s[i]);
            }
        }
        assert(b < rest.len() ==> rest[b] == s[b + 1]);
        b + 1
    } else {
        assert(s.skip(0) =~= s);
        0
    }
}

proof fn lemma_trim_end(s: Seq<char>) -> (b: int)
    ensures
        0 <= b <= s.len(),
        trim_end(s) == s.take(b),
        forall|i: int| b <= i < s.len() ==> is_space(#[trigger] s[i]),
        b > 0 ==> !is_space(s[b - 1]),
    decreases s.len(),
{
    if s.len() > 0 && is_space(s.last()) {
        let rest = s.drop_last();
        let b = lemma_trim_end(rest);
        assert(rest.take(b) =~= s.take(b));
        assert forall|i: int| b <= i < s.len() implies is_space(#[trigger] s[i]) by {
            if i < rest.len() {
                assert(rest[i] == s[i]);
            }
        }
        assert(b > 0 ==> rest[b - 1] == s[b - 1]);
        b
    } else {
        assert(s.take(s.len() as int) =~= s);
        s.len() as int
    }
}

/// What stands between the first and the last character that is no white
/// space is kept as it is, and everything round it is white space.
pub proof fn law_trim_takes_white_space_off_both_ends(s: Seq<char>)
    ensures
        exists|a: int, b: int|
            0 <= a <= b <= s.len() && #[trigger] s.subrange(a, b) == trimmed(s) && (forall|i: int|
                0 <= i < a || b <= i < s.len() ==> is_space(#[trigger] s[i])) && (a < b
                ==> !is_space(s[a]) && !is_space(s[b - 1])),
        trimmed(s).len() == 0 <==> forall|i: int| 0 <= i < s.len() ==> is_space(#[trigger] s[i]),
{
    let a = lemma_trim_start(s);
    let rest = s.skip(a);
    let n = lemma_trim_end(rest);
    let b = a + n;
    assert(rest.take(n) =~= s.subrange(a, b));
    assert forall|i: int| 0 <= i < a || b <= i < s.len() implies is_space(#[trigger] s[i]) by {
        if i >= b {
            assert(rest[i - a] == s[i]);
        }
    }
    if a < b {
        assert(rest[0] == s[a]);
        assert(rest[n - 1] == s[b - 1]);
        assert(!is_space(s[a]));
    }
}

/// A text with nothing but white space round it is trimmed to itself, however
/// much of it there is.
pub proof fn law_trim_finds_the_text(before_it: Seq<char>, s: Seq<char>, after_it: Seq<char>)
    requires
        forall|i: int| 0 <= i < before_it.len() ==> is_space(#[trigger] before_it[i]),
        forall|i: int| 0 <= i < after_it.len() ==> is_space(#[trigger] after_it[i]),
        s.len() > 0,
        !is_space(s.first()),
        !is_space(s.last()),
    ensures
        trimmed(before_it + s + after_it) == s,
{
    let all = before_it + s + after_it;
    let a = lemma_trim_start(all);
    let n = before_it.len() as int;
    assert(all[n] == s.first());
    if a < n {
        assert(all[a] == before_it[a]);
    }
    if a > n {
        assert(is_space(all[n]));
    }
    let rest = all.skip(a);
    assert(rest =~= s + after_it);
    let b = lemma_trim_end(rest);
    let m = s.len() as int;
    assert(rest[m - 1] == s.last());
    if b < m {
        assert(is_space(rest[m - 1]));
    }
    if b > m {
        assert(rest[b - 1] == after_it[b - 1 - m]);
    }
    assert(rest.take(b) =~= s);
}

/// What stands before a mark is the beginning of the text up to its first
/// mark, or the whole text where it has none.
pub proof fn law_before_ends_at_the_first_mark(s: Seq<char>, mark: char)
    ensures
        before(s, mark).len() <= s.len(),
        before(s, mark) == s.take(before(s, mark).len() as int),
        forall|i: int| 0 <= i < before(s, mark).len() ==> #[trigger] s[i] != mark,
        before(s, mark).len() < s.len() ==> s[before(s, mark).len() as int] == mark,
    decreases s.len(),
{
    if s.len() == 0 || s.first() == mark {
        assert(s.take(0) =~= Seq::empty());
    } else {
        let rest = s.drop_first();
        law_before_ends_at_the_first_mark(rest, mark);
        let k = before(rest, mark).len() as int;
        assert(seq![s.first()] + rest.take(k) =~= s.take(k + 1));
        assert forall|i: int| 0 <= i < before(s, mark).len() implies #[trigger] s[i] != mark by {
            if i > 0 {
                assert(rest[i - 1] == s[i]);
            }
        }
        if k + 1 < s.len() {
            assert(rest[k] == s[k + 1]);
        }
    }
}

/// Splitting loses nothing: the pieces, with the mark put back between each
/// two, are the text again; and no piece holds the mark.
pub proof fn law_pieces_make_up_the_text(s: Seq<char>, mark: char)
    ensures
        pieces(s, mark).len() > 0,
        joined(pieces(s, mark), seq![mark]) == s,
        forall|i: int, j: int|
            0 <= i < pieces(s, mark).len() && 0 <= j < pieces(s, mark)[i].len()
                ==> #[trigger] pieces(s, mark)[i][j] != mark,
    decreases s.len(),
{
    let p = pieces(s, mark);
    if s.len() == 0 {
        assert(p.len() == 1);
        assert(joined(p, seq![mark]) =~= s);
    } else {
        let head = s.drop_last();
        law_pieces_make_up_the_text(head, mark);
        let rest = pieces(head, mark);
        assert(head.push(s.last()) =~= s);
        if s.last() == mark {
            assert(p.drop_last() =~= rest);
            assert(joined(p, seq![mark]) =~= joined(rest, seq![mark]) + seq![mark]
                + Seq::<char>::empty());
            assert(joined(p, seq![mark]) =~= s);
        } else {
            assert(p.drop_last() =~= rest.drop_last());
            assert(p.last() =~= rest.last().push(s.last()));
            if rest.len() == 1 {
                assert(joined(rest, seq![mark]) == rest[0]);
                assert(joined(p, seq![mark]) == p[0]);
                assert(p[0] =~= s);
            } else {
                assert(joined(p, seq![mark]) =~= joined(rest.drop_last(), seq![mark]) + seq![mark]
                    + rest.last().push(s.last()));
                assert(joined(p, seq![mark]) =~= s);
            }
        }
        assert forall|i: int, j: int| 0 <= i < p.len() && 0 <= j < p[i].len() implies
            #[trigger] p[i][j] != mark by {
            if s.last() == mark {
                assert(i < rest.len());
                assert(p[i] == rest[i]);
                assert(rest[i][j] != mark);
            } else if i < p.len() - 1 {
                assert(p[i] == rest[i]);
                assert(rest[i][j] != mark);
            } else {
                if j < rest.last().len() {
                    assert(p[i][j] == rest[rest.len() - 1][j]);
                    assert(rest[rest.len() - 1][j] != mark);
                }
            }
        }
    }
}

/// Texts that hold no mark and are put together with one between each two are
/// what splitting at the mark gives back.
pub proof fn law_joined_texts_are_split_again(list: Seq<Seq<char>>, mark: char)
    requires
        list.len() > 0,
        forall|i: int, j: int|
            0 <= i < list.len() && 0 <= j < list[i].len() ==> #[trigger] list[i][j] != mark,
    ensures
        pieces(joined(list, seq![mark]), mark) == list,
    decreases list.len(),
{
    let last = list.last();
    assert forall|j: int| 0 <= j < last.len() implies last[j] != mark by {
        assert(list[list.len() - 1][j] != mark);
    }
    if list.len() == 1 {
        lemma_one_piece(last, mark);
        assert(list =~= seq![last]);
    } else {
        let head = list.drop_last();
        assert forall|i: int, j: int| 0 <= i < head.len() && 0 <= j < head[i].len() implies
            #[trigger] head[i][j] != mark by {
            assert(list[i][j] != mark);
        }
        law_joined_texts_are_split_again(head, mark);
        lemma_more_pieces(joined(head, seq![mark]), mark, last);
        assert(head.push(last) =~= list);
    }
}

/// What parts fields at the end of a text adds no field, and neither does it
/// at the beginning of nothing.
pub proof fn law_trailing_parts_add_no_field(s: Seq<char>, part: char)
    requires
        part == ' ' || part == '\t' || part == ':',
    ensures
        fields(s.push(part)) == fields(s),
        fields(Seq::<char>::empty()).len() == 0,
        forall|c: char| #[trigger] parts_fields(c) <==> is_space(c) || c == ':',
{
    assert(s.push(part).drop_last() =~= s);
    assert(parts_fields(part));
}

/// Decimal notation has no leading zero but for zero itself, and no two
/// numbers share one.
pub proof fn law_decimal_notation(n: nat, m: nat)
    ensures
        decimal(n)[0] == '0' <==> n == 0,
        decimal(n) == decimal(m) <==> n == m,
        n < 10 ==> decimal(n).len() == 1 && decimal(n)[0] as u32 == 0x30 + n,
        decimal(10 * n + m % 10).len() == (if n == 0 {
            1
        } else {
            decimal(n).len() + 1
        }),
{
    lemma_leading_digit(n);
    lemma_decimal_number(n);
    lemma_decimal_number(m);
    assert((10 * n + m % 10) / 10 == n) by (nonlinear_arith);
}

proof fn lemma_leading_digit(n: nat)
    ensures
        decimal(n).len() > 0,
        decimal(n)[0] == '0' <==> n == 0,
    decreases n,
{
    if n >= 10 {
        lemma_leading_digit(n / 10);
        assert(decimal(n)[0] == decimal(n / 10)[0]);
    }
}

/// A port number is read exactly where every character is a digit, at least
/// one is there, and the value fits; a plus sign may stand before the digits.
pub proof fn law_port_numbers_are_digits(s: Seq<char>)
    ensures
        port_number(s) matches Some(p) ==> {
            &&& s.len() > 0
            &&& forall|i: int| 1 <= i < s.len() ==> '0' <= #[trigger] s[i] <= '9'
            &&& s[0] == '+' || '0' <= s[0] <= '9'
            &&& p == number(without_plus(s))
        },
        s.len() > 0 && (forall|i: int| 0 <= i < s.len() ==> '0' <= #[trigger] s[i] <= '9')
            && number(s) <= 65535 ==> port_number(s) == Some(number(s) as u16),
{
    let digits = without_plus(s);
    if port_number(s) is Some {
        assert forall|i: int| 1 <= i < s.len() implies '0' <= #[trigger] s[i] <= '9' by {
            if s.first() == '+' {
                assert(digits[i - 1] == s[i]);
                assert(is_digit(digits[i - 1]));
            } else {
                assert(is_digit(digits[i]));
            }
        }
        if s.first() != '+' {
            assert(is_digit(digits[0]));
        }
    }
    if s.len() > 0 && (forall|i: int| 0 <= i < s.len() ==> '0' <= #[trigger] s[i] <= '9') {
        assert('0' <= s[0] <= '9');
        assert(all_digits(s));
    }
}

/// A path below a directory begins with the directory and ends with the
/// relative path; a single slash parts the two, unless there is nothing to
/// part.
pub proof fn law_path_below(base: Seq<char>, rel: Seq<char>)
    ensures
        base.len() > 0 && base.last() != '/' ==> path_below(base, rel) == base.push('/') + rel,
        base.len() == 0 ==> path_below(base, rel) == rel,
        base.len() > 0 && base.last() == '/' ==> path_below(base, rel) == base + rel,
{
    assert(base.push('/') =~= base + seq!['/']);
    assert(base.len() == 0 ==> base + rel =~= rel);
}

/// Aligning a text fills it up to the width with blanks, and never cuts it.
pub proof fn law_alignment_keeps_the_text(s: Seq<char>, width: nat)
    ensures
        left_aligned(s, width).len() == (if s.len() < width {
            width
        } else {
            s.len()
        }),
        left_aligned(s, width).take(s.len() as int) == s,
        forall|i: int| s.len() <= i < left_aligned(s, width).len() ==> #[trigger] left_aligned(s, width)[i]
            == ' ',
        right_aligned(s, width).len() == left_aligned(s, width).len(),
        right_aligned(s, width).skip(right_aligned(s, width).len() - s.len()) == s,
        forall|i: int| 0 <= i < right_aligned(s, width).len() - s.len() ==> #[trigger] right_aligned(s, width)[i]
            == ' ',
{
    assert(left_aligned(s, width).take(s.len() as int) =~= s);
    assert(right_aligned(s, width).skip(right_aligned(s, width).len() - s.len()) =~= s);
}

/// A byte as two small hexadecimal digits: the digits are those that they
/// stand for, the high one first.
pub proof fn law_hex_pair(b: u8)
    ensures
        hex_pair(b).len() == 2,
        hex_pair(b)[0] as u32 == b / 16 + (if b / 16 < 10 {
            48int
        } else {
            87int
        }),
        hex_pair(b)[1] as u32 == b % 16 + (if b % 16 < 10 {
            48int
        } else {
            87int
        }),
{
}

/// Beyond ASCII, white space is the next line, the no-break space, the Ogham
/// space, the typographic spaces, the separators of lines and paragraphs, the
/// narrow no-break, the mathematical and the ideographic space.
pub proof fn law_wide_white_space(c: char)
    requires
        c as u32 >= 128,
    ensures
        is_space(c) <==> seq![
            0x85int,
            0xa0,
            0x1680,
            0x2000,
            0x2001,
            0x2002,
            0x2003,
            0x2004,
            0x2005,
            0x2006,
            0x2007,
            0x2008,
            0x2009,
            0x200a,
            0x2028,
            0x2029,
            0x202f,
            0x205f,
            0x3000,
        ].contains(c as int),
{
    let all = seq![
        0x85int,
        0xa0,
        0x1680,
        0x2000,
        0x2001,
        0x2002,
        0x2003,
        0x2004,
        0x2005,
        0x2006,
        0x2007,
        0x2008,
        0x2009,
        0x200a,
        0x2028,
        0x2029,
        0x202f,
        0x205f,
        0x3000,
    ];
    let n = c as int;
    assert(all[0] == 0x85 && all[1] == 0xa0 && all[2] == 0x1680);
    assert(0x2000 <= n <= 0x200a ==> all[n - 0x2000 + 3] == n);
    assert(all[14] == 0x2028 && all[15] == 0x2029 && all[16] == 0x202f && all[17] == 0x205f
        && all[18] == 0x3000);
}

/// Putting texts together: nothing from nothing, one text as it is, and each
/// further one behind what is there, with the separator between.
pub proof fn law_joining(list: Seq<Seq<char>>, one: Seq<char>, sep: Seq<char>)
    ensures
        joined(Seq::<Seq<char>>::empty(), sep).len() == 0,
        joined(seq![one], sep) == one,
        list.len() > 0 ==> joined(list.push(one), sep) == joined(list, sep) + sep + one,
{
    assert(list.push(one).drop_last() =~= list);
}

/// The value of a row of digits: each further digit makes it ten times as
/// large and adds itself, and a zero before them adds nothing.
pub proof fn law_value_of_digits(s: Seq<char>, d: char)
    requires
        '0' <= d <= '9',
    ensures
        number(Seq::<char>::empty()) == 0,
        number(s.push(d)) == 10 * number(s) + (d as u32 - 48),
        number(seq!['0'] + s) == number(s),
    decreases s.len(),
{
    assert(s.push(d).drop_last() =~= s);
    if s.len() > 0 {
        law_value_of_digits(s.drop_last(), d);
        assert((seq!['0'] + s).drop_last() =~= seq!['0'] + s.drop_last());
    } else {
        let z = seq!['0'] + s;
        assert(z.drop_last() =~= Seq::<char>::empty());
        assert(z.last() == '0');
        assert(number(Seq::<char>::empty()) == 0);
    }
}

/// What stands before a part keeps its fields, whatever follows the part.
pub proof fn law_fields_before_a_part(head: Seq<char>, part: char, tail: Seq<char>)
    requires
        parts_fields(part),
    ensures
        fields(head + seq![part] + tail).len() >= fields(head).len(),
        fields(head + seq![part] + tail).take(fields(head).len() as int) == fields(head),
    decreases tail.len(),
{
    let s = head + seq![part] + tail;
    let n = fields(head).len() as int;
    if tail.len() == 0 {
        assert(s =~= head.push(part));
        assert(s.drop_last() =~= head);
        assert(fields(s) == fields(head));
        assert(fields(head).take(n) =~= fields(head));
    } else {
        let less = tail.drop_last();
        law_fields_before_a_part(head, part, less);
        let r = head + seq![part] + less;
        assert(s.drop_last() =~= r);
        assert(s.last() == tail.last());
        if !parts_fields(s.last()) && s.len() > 1 && !parts_fields(s[s.len() - 2]) {
            assert(less.len() > 0);
            lemma_open_field(head, part, less);
            assert(fields(r).len() > n);
            assert(fields(s) =~= fields(r).drop_last().push(fields(r).last().push(s.last())));
            assert(fields(s).take(n) =~= fields(r).take(n));
        } else if parts_fields(s.last()) {
            assert(fields(s) == fields(r));
        } else {
            assert(fields(s) =~= fields(r).push(seq![s.last()]));
            assert(fields(s).take(n) =~= fields(r).take(n));
        }
    }
}

/// A field that is not ended yet is one more than those before the part.
proof fn lemma_open_field(head: Seq<char>, part: char, tail: Seq<char>)
    requires
        parts_fields(part),
        tail.len() > 0,
        !parts_fields(tail.last()),
    ensures
        fields(head + seq![part] + tail).len() > fields(head).len(),
    decreases tail.len(),
{
    let s = head + seq![part] + tail;
    let less = tail.drop_last();
    let r = head + seq![part] + less;
    assert(s.drop_last() =~= r);
    assert(s.last() == tail.last());
    law_fields_before_a_part(head, part, less);
    if less.len() > 0 && !parts_fields(less.last()) {
        lemma_open_field(head, part, less);
        assert(s[s.len() - 2] == less.last());
    } else {
        if less.len() > 0 {
            assert(s[s.len() - 2] == less.last());
        } else {
            assert(s[s.len() - 2] == part);
        }
        assert(fields(s) =~= fields(r).push(seq![s.last()]));
    }
}

/// A text holds another exactly if it is made of it and of something before
/// and behind it; it begins with it where nothing is before, and ends with it
/// where nothing is behind.
pub proof fn law_holding_a_text(s: Seq<char>, a: Seq<char>, n: Seq<char>, b: Seq<char>)
    ensures
        has_text(a + n + b, n),
        begins_with(n + b, n),
        finishes_with(a + n, n),
        has_text(s, n) ==> exists|i: int|
            0 <= i <= s.len() - n.len() && s == #[trigger] s.take(i) + n + s.skip(i + n.len()),
        begins_with(s, n) ==> s.len() >= n.len() && s.take(n.len() as int) == n,
        finishes_with(s, n) ==> s.len() >= n.len() && s.skip(s.len() - n.len()) == n,
{
    let i = a.len() as int;
    assert((a + n + b).subrange(i, i + n.len() as int) =~= n);
    assert(occurs_at(a + n + b, n, i));
    assert((n + b).subrange(0, n.len() as int) =~= n);
    assert((a + n).subrange(i, i + n.len() as int) =~= n);
    if has_text(s, n) {
        let k = choose|k: int| occurs_at(s, n, k);
        assert(s.take(k) + n + s.skip(k + n.len()) =~= s) by {
            assert(s.subrange(k, k + n.len()) == n);
        }
    }
    if begins_with(s, n) {
        assert(s.take(n.len() as int) =~= s.subrange(0, n.len() as int));
    }
    if finishes_with(s, n) {
        assert(s.skip(s.len() - n.len()) =~= s.subrange(s.len() - n.len(), s.len() as int));
    }
}

} // verus!
