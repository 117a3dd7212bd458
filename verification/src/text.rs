//! Text as sequences of characters: the scanning, trimming and splitting that the
//! configuration loader, the path rules and the messages are built from.
use vstd::prelude::*;
use vstd::string::*;

verus! {

/// A class of characters, for trimming and scanning.
#[derive(Clone, Copy, Debug, PartialEq, Eq)]
pub enum CharClass {
    /// White space, as Unicode defines it.
    Whitespace,
    /// The double quote.
    Quote,
    /// The decimal digits `0` to `9`.
    Digit,
    /// Every character but the given one.
    Not(char),
}

/// Whether `c` has the Unicode property White_Space.
pub open spec fn is_whitespace(c: char) -> bool {
    let u = c as u32;
    ||| 0x09 <= u <= 0x0D
    ||| u == 0x20
    ||| u == 0x85
    ||| u == 0xA0
    ||| u == 0x1680
    ||| 0x2000 <= u <= 0x200A
    ||| u == 0x2028
    ||| u == 0x2029
    ||| u == 0x202F
    ||| u == 0x205F
    ||| u == 0x3000
}

/// Whether `c` is one of the decimal digits `0` to `9`.
pub open spec fn is_digit(c: char) -> bool {
    '0' <= c <= '9'
}

/// Whether `c` belongs to `class`.
pub open spec fn in_class(c: char, class: CharClass) -> bool {
    match class {
        CharClass::Whitespace => is_whitespace(c),
        CharClass::Quote => c == '"',
        CharClass::Digit => is_digit(c),
        CharClass::Not(other) => c != other,
    }
}

/// How many characters at the start of `s` belong to `class`.
pub open spec fn prefix_len(s: Seq<char>, class: CharClass) -> nat
    decreases s.len(),
{
    if s.len() > 0 && in_class(s[0], class) {
        1 + prefix_len(s.drop_first(), class)
    } else {
        0
    }
}

/// How many characters at the end of `s` belong to `class`.
pub open spec fn suffix_len(s: Seq<char>, class: CharClass) -> nat
    decreases s.len(),
{
    if s.len() > 0 && in_class(s.last(), class) {
        1 + suffix_len(s.drop_last(), class)
    } else {
        0
    }
}

/// `s` without the characters of `class` at its start and at its end.
pub open spec fn trim_matches(s: Seq<char>, class: CharClass) -> Seq<char> {
    let rest = s.skip(prefix_len(s, class) as int);
    rest.take(rest.len() - suffix_len(rest, class))
}

/// `s` without the white space at its start and at its end.
pub open spec fn trim(s: Seq<char>) -> Seq<char> {
    trim_matches(s, CharClass::Whitespace)
}

/// The position of the first `c` in `s`, or the length of `s` where there is none.
pub open spec fn index_of(s: Seq<char>, c: char) -> nat {
    prefix_len(s, CharClass::Not(c))
}

/// What follows the last `/` of `path`: all of it where there is none.
pub open spec fn base_name(path: Seq<char>) -> Seq<char> {
    path.skip(path.len() - suffix_len(path, CharClass::Not('/')))
}

/// Whether `s` starts with `prefix`.
pub open spec fn starts_with(s: Seq<char>, prefix: Seq<char>) -> bool {
    prefix.len() <= s.len() && s.take(prefix.len() as int) == prefix
}

/// Whether `s` ends with `suffix`.
pub open spec fn ends_with(s: Seq<char>, suffix: Seq<char>) -> bool {
    suffix.len() <= s.len() && s.skip(s.len() - suffix.len()) == suffix
}

/// What follows `prefix` in `s`, where `s` starts with it.
pub open spec fn strip_prefix(s: Seq<char>, prefix: Seq<char>) -> Option<Seq<char>> {
    if starts_with(s, prefix) {
        Some(s.skip(prefix.len() as int))
    } else {
        None
    }
}

/// What stands before `suffix` in `s`, where `s` ends with it.
pub open spec fn strip_suffix(s: Seq<char>, suffix: Seq<char>) -> Option<Seq<char>> {
    if ends_with(s, suffix) {
        Some(s.take(s.len() - suffix.len()))
    } else {
        None
    }
}

/// The path of the directory `dir` with a `/` at its end: `dir` itself where it ends
/// in one.
pub open spec fn dir_prefix(dir: Seq<char>) -> Seq<char> {
    if dir.len() > 0 && dir.last() == '/' {
        dir
    } else {
        dir.push('/')
    }
}

/// The path of `path` below the directory `dir`: what follows `dir` and the `/` after
/// it. None where `path` does not lie below `dir`.
pub open spec fn path_below(dir: Seq<char>, path: Seq<char>) -> Option<Seq<char>> {
    strip_prefix(path, dir_prefix(dir))
}

/// The lines of `s`: the pieces between its line feeds. The piece after the last
/// line feed is a line only where it is not empty.
pub open spec fn split_lines(s: Seq<char>) -> Seq<Seq<char>>
    decreases s.len(),
{
    if s.len() == 0 {
        Seq::empty()
    } else {
        let k = index_of(s, '\n');
        if k >= s.len() {
            seq![s]
        } else {
            seq![s.take(k as int)] + split_lines(s.skip(k as int + 1))
        }
    }
}

/// The small letter of an ASCII capital; any other character as it is.
pub open spec fn ascii_lower(c: char) -> char {
    if 'A' <= c <= 'Z' {
        ((c as u32) + 32) as char
    } else {
        c
    }
}

/// `s` with its ASCII capitals turned into small letters.
pub open spec fn to_ascii_lower(s: Seq<char>) -> Seq<char> {
    s.map_values(|c: char| ascii_lower(c))
}

/// `a` comes before `b` in the order of the dictionary, characters compared by their
/// code points.
pub open spec fn text_lt(a: Seq<char>, b: Seq<char>) -> bool
    decreases a.len(),
{
    if b.len() == 0 {
        false
    } else if a.len() == 0 {
        true
    } else if a[0] != b[0] {
        a[0] < b[0]
    } else {
        text_lt(a.drop_first(), b.drop_first())
    }
}

/// What a list of texts holds.
pub open spec fn texts_view(v: Seq<Vec<char>>) -> Seq<Seq<char>> {
    v.map_values(|t: Vec<char>| t@)
}

/// What a text that may be missing holds.
pub open spec fn opt_view(v: Option<Vec<char>>) -> Option<Seq<char>> {
    match v {
        Some(t) => Some(t@),
        None => None,
    }
}

/// The first `k` characters of `s` belong to `class` and the next one, if any, does not:
/// then `k` is the length of that prefix.
pub proof fn lemma_prefix_len(s: Seq<char>, class: CharClass, k: int)
    requires
        0 <= k <= s.len(),
        forall|j: int| 0 <= j < k ==> in_class(#[trigger] s[j], class),
        k < s.len() ==> !in_class(s[k], class),
    ensures
        prefix_len(s, class) == k,
    decreases k,
{
    if k > 0 {
        let rest = s.drop_first();
        assert forall|j: int| 0 <= j < k - 1 implies in_class(#[trigger] rest[j], class) by {
            assert(rest[j] == s[j + 1]);
        }
        lemma_prefix_len(rest, class, k - 1);
    }
}

/// The last `k` characters of `s` belong to `class` and the one before them, if any,
/// does not: then `k` is the length of that suffix.
pub proof fn lemma_suffix_len(s: Seq<char>, class: CharClass, k: int)
    requires
        0 <= k <= s.len(),
        forall|j: int| s.len() - k <= j < s.len() ==> in_class(#[trigger] s[j], class),
        k < s.len() ==> !in_class(s[s.len() - k - 1], class),
    ensures
        suffix_len(s, class) == k,
    decreases k,
{
    if k > 0 {
        let rest = s.drop_last();
        assert forall|j: int| rest.len() - (k - 1) <= j < rest.len() implies in_class(
            #[trigger] rest[j],
            class,
        ) by {
            assert(rest[j] == s[j]);
        }
        lemma_suffix_len(rest, class, k - 1);
    }
}

/// A prefix of characters of `class` is no longer than the text, and is followed by
/// a character outside the class.
pub proof fn lemma_prefix_len_bounds(s: Seq<char>, class: CharClass)
    ensures
        prefix_len(s, class) <= s.len(),
        forall|j: int| 0 <= j < prefix_len(s, class) ==> in_class(#[trigger] s[j], class),
        prefix_len(s, class) < s.len() ==> !in_class(s[prefix_len(s, class) as int], class),
    decreases s.len(),
{
    if s.len() > 0 && in_class(s[0], class) {
        let rest = s.drop_first();
        lemma_prefix_len_bounds(rest, class);
        assert forall|j: int| 0 <= j < prefix_len(s, class) implies in_class(
            #[trigger] s[j],
            class,
        ) by {
            if j > 0 {
                assert(s[j] == rest[j - 1]);
            }
        }
        if prefix_len(s, class) < s.len() {
            assert(s[prefix_len(s, class) as int] == rest[prefix_len(rest, class) as int]);
        }
    }
}

/// A path lies below a directory where it starts with the directory's path and goes
/// on at the border of a name: the directory's path ends in `/`, or a `/` follows it
/// in the path, which is then left out.
pub proof fn lemma_path_below(dir: Seq<char>, path: Seq<char>)
    ensures
        path_below(dir, path) == match strip_prefix(path, dir) {
            Some(rest) => if dir.len() > 0 && dir.last() == '/' {
                Some(rest)
            } else if rest.len() > 0 && rest[0] == '/' {
                Some(rest.drop_first())
            } else {
                None
            },
            None => None,
        },
{
    if !(dir.len() > 0 && dir.last() == '/') {
        let with = dir.push('/');
        if starts_with(path, with) {
            assert(path.take(dir.len() as int) =~= with.take(dir.len() as int));
            assert(with.take(dir.len() as int) =~= dir);
            assert(path[dir.len() as int] == with[dir.len() as int]);
            assert(path.skip(with.len() as int) =~= path.skip(dir.len() as int).drop_first());
        } else if starts_with(path, dir) && path.len() > dir.len() && path[dir.len() as int]
            == '/' {
            assert(path.take(with.len() as int) =~= path.take(dir.len() as int).push('/'));
        }
    }
}

/// No text comes before itself.
pub proof fn lemma_text_lt_irreflexive(a: Seq<char>)
    ensures
        !text_lt(a, a),
    decreases a.len(),
{
    if a.len() > 0 {
        lemma_text_lt_irreflexive(a.drop_first());
    }
}

/// Of two different texts one comes before the other.
pub proof fn lemma_text_lt_total(a: Seq<char>, b: Seq<char>)
    ensures
        text_lt(a, b) || text_lt(b, a) || a == b,
        !(text_lt(a, b) && text_lt(b, a)),
    decreases a.len(),
{
    if a.len() == 0 || b.len() == 0 {
        if a.len() == 0 && b.len() == 0 {
            assert(a =~= b);
        }
    } else if a[0] == b[0] {
        lemma_text_lt_total(a.drop_first(), b.drop_first());
        if a.drop_first() == b.drop_first() {
            assert(a =~= seq![a[0]] + a.drop_first());
            assert(b =~= seq![b[0]] + b.drop_first());
        }
    }
}

/// The order of texts is transitive.
pub proof fn lemma_text_lt_transitive(a: Seq<char>, b: Seq<char>, c: Seq<char>)
    requires
        text_lt(a, b),
        text_lt(b, c),
    ensures
        text_lt(a, c),
    decreases a.len(),
{
    if a.len() > 0 && a[0] == b[0] && b[0] == c[0] {
        lemma_text_lt_transitive(a.drop_first(), b.drop_first(), c.drop_first());
    }
}

/// The characters of a text.
pub fn chars_of(s: &str) -> (v: Vec<char>)
    ensures
        v@ == s@,
{
    let mut v: Vec<char> = Vec::new();
    for c in it: s.chars()
        invariant
            v@ == it.seq().take(it.index() as int),
            it.seq() == s@,
    {
        v.push(c);
    }
    v
}

/// `String::push`: the character is appended to the text.
#[verifier::external_body]
fn push_char(text: &mut String, c: char)
    ensures
        final(text)@ == old(text)@.push(c),
{
    text.push(c);
}

/// The text made of the characters `v`.
pub fn string_of(v: &Vec<char>) -> (s: String)
    ensures
        s@ == v@,
{
    let mut s = String::new();
    let mut i: usize = 0;
    while i < v.len()
        invariant
            0 <= i <= v.len(),
            s@ == v@.take(i as int),
        decreases v.len() - i,
    {
        push_char(&mut s, v[i]);
        assert(v@.take(i + 1) == v@.take(i as int).push(v@[i as int]));
        i += 1;
    }
    s
}

/// Whether `c` is white space.
pub fn char_is_whitespace(c: char) -> (r: bool)
    ensures
        r == is_whitespace(c),
{
    let u: u32 = c as u32;
    (0x09 <= u && u <= 0x0D) || u == 0x20 || u == 0x85 || u == 0xA0 || u == 0x1680 || (0x2000 <= u
        && u <= 0x200A) || u == 0x2028 || u == 0x2029 || u == 0x202F || u == 0x205F || u == 0x3000
}

/// Whether `c` belongs to `class`.
pub fn char_in_class(c: char, class: CharClass) -> (r: bool)
    ensures
        r == in_class(c, class),
{
    match class {
        CharClass::Whitespace => char_is_whitespace(c),
        CharClass::Quote => c == '"',
        CharClass::Digit => '0' <= c && c <= '9',
        CharClass::Not(other) => c != other,
    }
}

/// The characters of `v` from position `from` up to, but without, position `to`.
pub fn subvec(v: &Vec<char>, from: usize, to: usize) -> (r: Vec<char>)
    requires
        from <= to <= v@.len(),
    ensures
        r@ == v@.subrange(from as int, to as int),
{
    let mut r: Vec<char> = Vec::new();
    let mut i: usize = from;
    while i < to
        invariant
            from <= i <= to <= v@.len(),
            r@ == v@.subrange(from as int, i as int),
        decreases to - i,
    {
        r.push(v[i]);
        assert(v@.subrange(from as int, i + 1) == v@.subrange(from as int, i as int).push(
            v@[i as int],
        ));
        i += 1;
    }
    r
}

/// The end of the run of characters of `class` that starts at position `from`.
pub fn skip_class(v: &Vec<char>, class: CharClass, from: usize) -> (k: usize)
    requires
        from <= v@.len(),
    ensures
        from <= k <= v@.len(),
        k == from + prefix_len(v@.skip(from as int), class),
{
    let mut k: usize = from;
    while k < v.len() && char_in_class(v[k], class)
        invariant
            from <= k <= v@.len(),
            forall|j: int| from <= j < k ==> in_class(#[trigger] v@[j], class),
        decreases v@.len() - k,
    {
        k += 1;
    }
    proof {
        lemma_prefix_len(v@.skip(from as int), class, k - from);
    }
    k
}

/// The start of the run of characters of `class` that ends at position `to`, looking
/// no further back than position `from`.
pub fn skip_class_back(v: &Vec<char>, class: CharClass, from: usize, to: usize) -> (k: usize)
    requires
        from <= to <= v@.len(),
    ensures
        from <= k <= to,
        k == to - suffix_len(v@.subrange(from as int, to as int), class),
{
    let mut k: usize = to;
    while k > from && char_in_class(v[k - 1], class)
        invariant
            from <= k <= to <= v@.len(),
            forall|j: int| k <= j < to ==> in_class(#[trigger] v@[j], class),
        decreases k,
    {
        k -= 1;
    }
    proof {
        let part = v@.subrange(from as int, to as int);
        assert forall|j: int| part.len() - (to - k) <= j < part.len() implies in_class(
            #[trigger] part[j],
            class,
        ) by {
            assert(part[j] == v@[from + j]);
        }
        lemma_suffix_len(part, class, to - k);
    }
    k
}

/// `v` without the characters of `class` at its start and at its end.
pub fn trim_matches_chars(v: &Vec<char>, class: CharClass) -> (r: Vec<char>)
    ensures
        r@ == trim_matches(v@, class),
{
    let start = skip_class(v, class, 0);
    let end = skip_class_back(v, class, start, v.len());
    proof {
        assert(v@.skip(0) == v@);
        assert(v@.skip(start as int) == v@.subrange(start as int, v@.len() as int));
    }
    subvec(v, start, end)
}

/// Whether two texts hold the same characters.
pub fn chars_eq(a: &Vec<char>, b: &Vec<char>) -> (r: bool)
    ensures
        r == (a@ == b@),
{
    if a.len() != b.len() {
        return false;
    }
    let mut i: usize = 0;
    while i < a.len()
        invariant
            0 <= i <= a@.len(),
            a@.len() == b@.len(),
            a@.take(i as int) == b@.take(i as int),
        decreases a@.len() - i,
    {
        if a[i] != b[i] {
            return false;
        }
        assert(a@.take(i + 1) == a@.take(i as int).push(a@[i as int]));
        assert(b@.take(i + 1) == b@.take(i as int).push(b@[i as int]));
        i += 1;
    }
    assert(a@ == a@.take(a@.len() as int));
    assert(b@ == b@.take(b@.len() as int));
    true
}

/// Whether the text `v` is the text `word`.
pub fn chars_are(v: &Vec<char>, word: &str) -> (r: bool)
    ensures
        r == (v@ == word@),
{
    let w = chars_of(word);
    chars_eq(v, &w)
}

/// Whether `v` starts with `prefix`.
pub fn chars_start_with(v: &Vec<char>, prefix: &Vec<char>) -> (r: bool)
    ensures
        r == starts_with(v@, prefix@),
{
    if prefix.len() > v.len() {
        return false;
    }
    let head = subvec(v, 0, prefix.len());
    chars_eq(&head, prefix)
}

/// Whether `v` ends with `suffix`.
pub fn chars_end_with(v: &Vec<char>, suffix: &Vec<char>) -> (r: bool)
    ensures
        r == ends_with(v@, suffix@),
{
    if suffix.len() > v.len() {
        return false;
    }
    let tail = subvec(v, v.len() - suffix.len(), v.len());
    chars_eq(&tail, suffix)
}

/// The path of the directory `dir` with a `/` at its end.
pub fn dir_with_slash(dir: &str) -> (r: String)
    ensures
        r@ == dir_prefix(dir@),
{
    let mut chars = chars_of(dir);
    if chars.len() == 0 || chars[chars.len() - 1] != '/' {
        chars.push('/');
    }
    string_of(&chars)
}

/// The path of `path` below the directory `dir`.
pub fn path_below_chars(dir: &str, path: &str) -> (r: Option<Vec<char>>)
    ensures
        opt_view(r) == path_below(dir@, path@),
{
    let prefix = dir_with_slash(dir);
    strip_prefix_chars(&chars_of(path), prefix.as_str())
}

/// What follows `prefix` in `v`, where `v` starts with it.
pub fn strip_prefix_chars(v: &Vec<char>, prefix: &str) -> (r: Option<Vec<char>>)
    ensures
        opt_view(r) == strip_prefix(v@, prefix@),
{
    let p = chars_of(prefix);
    if chars_start_with(v, &p) {
        Some(subvec(v, p.len(), v.len()))
    } else {
        None
    }
}

/// What stands before `suffix` in `v`, where `v` ends with it.
pub fn strip_suffix_chars(v: &Vec<char>, suffix: &str) -> (r: Option<Vec<char>>)
    ensures
        opt_view(r) == strip_suffix(v@, suffix@),
{
    let s = chars_of(suffix);
    if chars_end_with(v, &s) {
        Some(subvec(v, 0, v.len() - s.len()))
    } else {
        None
    }
}

/// The lines of the text `v`.
pub fn split_lines_chars(v: &Vec<char>) -> (lines: Vec<Vec<char>>)
    ensures
        texts_view(lines@) == split_lines(v@),
{
    let mut lines: Vec<Vec<char>> = Vec::new();
    let mut start: usize = 0;
    proof {
        assert(v@.skip(0) == v@);
        assert(texts_view(lines@) + split_lines(v@) == split_lines(v@));
    }
    while start < v.len()
        invariant
            0 <= start <= v@.len(),
            split_lines(v@) == texts_view(lines@) + split_lines(v@.skip(start as int)),
        decreases v@.len() - start,
    {
        let end = skip_class(v, CharClass::Not('\n'), start);
        let line = subvec(v, start, end);
        let ghost before = texts_view(lines@);
        let ghost rest = v@.skip(start as int);
        lines.push(line);
        proof {
            assert(texts_view(lines@) == before.push(line@));
            assert(rest.take(end - start) == line@);
            if end < v@.len() {
                assert(rest.skip(end - start + 1) == v@.skip(end + 1));
                assert(before + (seq![line@] + split_lines(v@.skip(end + 1))) == before.push(
                    line@,
                ) + split_lines(v@.skip(end + 1)));
            } else {
                assert(rest == line@);
                assert(split_lines(v@.skip(v@.len() as int)) == Seq::<Seq<char>>::empty());
                assert(before + seq![line@] == before.push(line@) + Seq::<Seq<char>>::empty());
            }
        }
        start = if end < v.len() {
            end + 1
        } else {
            end
        };
    }
    proof {
        assert(texts_view(lines@) + Seq::<Seq<char>>::empty() == texts_view(lines@));
    }
    lines
}

/// The small letter of an ASCII capital; any other character as it is.
pub fn char_to_ascii_lower(c: char) -> (r: char)
    ensures
        r == ascii_lower(c),
{
    if 'A' <= c && c <= 'Z' {
        match c {
            'A' => 'a',
            'B' => 'b',
            'C' => 'c',
            'D' => 'd',
            'E' => 'e',
            'F' => 'f',
            'G' => 'g',
            'H' => 'h',
            'I' => 'i',
            'J' => 'j',
            'K' => 'k',
            'L' => 'l',
            'M' => 'm',
            'N' => 'n',
            'O' => 'o',
            'P' => 'p',
            'Q' => 'q',
            'R' => 'r',
            'S' => 's',
            'T' => 't',
            'U' => 'u',
            'V' => 'v',
            'W' => 'w',
            'X' => 'x',
            'Y' => 'y',
            _ => 'z',
        }
    } else {
        c
    }
}

/// `v` with its ASCII capitals turned into small letters.
pub fn chars_to_ascii_lower(v: &Vec<char>) -> (r: Vec<char>)
    ensures
        r@ == to_ascii_lower(v@),
{
    let mut r: Vec<char> = Vec::new();
    let mut i: usize = 0;
    while i < v.len()
        invariant
            0 <= i <= v@.len(),
            r@ == to_ascii_lower(v@.take(i as int)),
        decreases v@.len() - i,
    {
        r.push(char_to_ascii_lower(v[i]));
        assert(v@.take(i + 1) == v@.take(i as int).push(v@[i as int]));
        i += 1;
    }
    assert(v@ == v@.take(v@.len() as int));
    r
}

/// Whether `a` comes before `b` in the order of the dictionary.
pub fn chars_lt(a: &Vec<char>, b: &Vec<char>) -> (r: bool)
    ensures
        r == text_lt(a@, b@),
{
    let mut i: usize = 0;
    assert(a@.skip(0) == a@ && b@.skip(0) == b@);
    while i < a.len() && i < b.len() && a[i] == b[i]
        invariant
            0 <= i <= a@.len(),
            i <= b@.len(),
            text_lt(a@, b@) == text_lt(a@.skip(i as int), b@.skip(i as int)),
        decreases a@.len() - i,
    {
        assert(a@.skip(i as int).drop_first() == a@.skip(i + 1));
        assert(b@.skip(i as int).drop_first() == b@.skip(i + 1));
        i += 1;
    }
    if i >= b.len() {
        false
    } else if i >= a.len() {
        true
    } else {
        a[i] < b[i]
    }
}

/// Whether the name `a` comes before the name `b`.
pub fn str_lt(a: &str, b: &str) -> (r: bool)
    ensures
        r == text_lt(a@, b@),
{
    let x = chars_of(a);
    let y = chars_of(b);
    chars_lt(&x, &y)
}

/// Whether two texts hold the same characters.
pub fn str_eq(a: &str, b: &str) -> (r: bool)
    ensures
        r == (a@ == b@),
{
    let x = chars_of(a);
    let y = chars_of(b);
    chars_eq(&x, &y)
}

} // verus!
