//! Text helpers: comparison, search, splitting, and assembly of strings.

use vstd::prelude::*;
use vstd::utf8::*;

verus! {

/// Appends one character to the end of a string (`String::push`).
pub assume_specification[ String::push ](s: &mut String, c: char)
    ensures
        final(s)@ == old(s)@.push(c),
;

/// The characters of a string, in order.
pub fn chars_of(s: &str) -> (v: Vec<char>)
    ensures
        v@ == s@,
{
    let mut v: Vec<char> = Vec::new();
    for c in it: s.chars()
        invariant
            v@ == it.seq().take(it.index()),
            it.seq() == s@,
    {
        v.push(c);
    }
    v
}

/// Whether two strings hold the same characters.
pub fn same(a: &str, b: &str) -> (r: bool)
    ensures
        r == (a@ == b@),
{
    let x = a.as_bytes();
    let y = b.as_bytes();
    proof {
        encode_utf8_decode_utf8(a@);
        encode_utf8_decode_utf8(b@);
    }
    if x.len() != y.len() {
        return false;
    }
    for i in 0..x.len()
        invariant
            x@ == encode_utf8(a@),
            y@ == encode_utf8(b@),
            x@.len() == y@.len(),
            forall|j: int| 0 <= j < i ==> x@[j] == y@[j],
    {
        if x[i] != y[i] {
            return false;
        }
    }
    assert(x@ =~= y@);
    true
}


// ---------------------------------------------------------------------------
// Assembly
// ---------------------------------------------------------------------------

/// The pieces of `list` one after the other, with `sep` between neighbours.
pub open spec fn joined(list: Seq<Seq<char>>, sep: Seq<char>) -> Seq<char>
    decreases list.len(),
{
    if list.len() == 0 {
        Seq::empty()
    } else if list.len() == 1 {
        list[0]
    } else {
        joined(list.drop_last(), sep) + sep + list.last()
    }
}

/// The characters of each string of a list.
pub open spec fn texts(list: Seq<String>) -> Seq<Seq<char>> {
    list.map_values(|s: String| s@)
}

/// Joins the strings of `list` with `sep` between neighbours.
pub fn join(list: &Vec<String>, sep: &str) -> (out: String)
    ensures
        out@ == joined(texts(list@), sep@),
{
    let mut out = String::new();
    for i in 0..list.len()
        invariant
            out@ == joined(texts(list@).take(i as int), sep@),
    {
        let ghost before = texts(list@).take(i as int);
        let ghost after = texts(list@).take(i + 1);
        proof {
            assert(after.drop_last() =~= before);
            assert(after.last() == list@[i as int]@);
        }
        if i > 0 {
            out.append(sep);
        }
        out.append(list[i].as_str());
    }
    proof {
        assert(texts(list@).take(list@.len() as int) =~= texts(list@));
    }
    out
}

/// The decimal digits of a number, most significant first.
pub open spec fn decimal_digits(n: nat) -> Seq<char>
    decreases n,
{
    if n < 10 {
        seq![digit(n)]
    } else {
        decimal_digits(n / 10).push(digit(n % 10))
    }
}

/// The character of a decimal digit.
pub open spec fn digit(d: nat) -> char {
    ('0' as u32 + d) as char
}

/// Where a text stands in a list, if it does.
pub fn find_text(list: &Vec<String>, wanted: &str) -> (out: Option<usize>)
    ensures
        match out {
            Some(i) => i < list@.len() && list@[i as int]@ == wanted@,
            None => forall|i: int| 0 <= i < list@.len() ==> (#[trigger] list@[i])@ != wanted@,
        },
{
    for i in 0..list.len()
        invariant
            forall|j: int| 0 <= j < i ==> (#[trigger] list@[j])@ != wanted@,
    {
        if same(list[i].as_str(), wanted) {
            return Some(i);
        }
    }
    None
}

/// Writes a number in decimal.
pub fn decimal(n: u64) -> (out: String)
    ensures
        out@ == decimal_digits(n as nat),
    decreases n,
{
    let last: u8 = (n % 10) as u8;
    let c = (48u8 + last) as char;
    if n < 10 {
        let mut out = String::new();
        out.push(c);
        proof {
            assert(out@ =~= decimal_digits(n as nat));
        }
        out
    } else {
        let mut out = decimal(n / 10);
        out.push(c);
        out
    }
}

// ---------------------------------------------------------------------------
// Search
// ---------------------------------------------------------------------------

/// Whether `needle` occurs in `s` at some position.
pub open spec fn occurs(s: Seq<char>, needle: Seq<char>) -> bool {
    exists|i: int| #[trigger] occurs_at(s, needle, i)
}

/// Whether `needle` occurs in `s` at position `i`.
pub open spec fn occurs_at(s: Seq<char>, needle: Seq<char>, i: int) -> bool {
    &&& 0 <= i
    &&& i + needle.len() <= s.len()
    &&& s.subrange(i, i + needle.len()) == needle
}

/// Whether `needle` occurs at position `at` of `hay`.
fn matches_at(hay: &Vec<char>, needle: &Vec<char>, at: usize) -> (r: bool)
    requires
        at <= hay.len(),
    ensures
        r == occurs_at(hay@, needle@, at as int),
{
    if needle.len() > hay.len() - at {
        return false;
    }
    for k in 0..needle.len()
        invariant
            at + needle.len() <= hay.len(),
            forall|j: int| 0 <= j < k ==> hay@[at + j] == needle@[j],
    {
        if hay[at + k] != needle[k] {
            proof {
                assert(hay@.subrange(at as int, at + needle@.len())[k as int] != needle@[k as int]);
            }
            return false;
        }
    }
    proof {
        assert(hay@.subrange(at as int, at + needle@.len()) =~= needle@);
    }
    true
}

/// Whether `needle` occurs in `s`.
pub fn contains(s: &str, needle: &str) -> (r: bool)
    ensures
        r == occurs(s@, needle@),
{
    let hay = chars_of(s);
    let pattern = chars_of(needle);
    let mut i: usize = 0;
    while i < hay.len()
        invariant
            hay@ == s@,
            pattern@ == needle@,
            i <= hay.len(),
            forall|j: int| 0 <= j < i ==> !occurs_at(s@, needle@, j),
        decreases hay.len() - i,
    {
        if matches_at(&hay, &pattern, i) {
            return true;
        }
        i += 1;
    }
    let r = matches_at(&hay, &pattern, i);
    proof {
        if !r {
            assert forall|j: int| !occurs_at(s@, needle@, j) by {
                if j > hay.len() {
                }
            }
        }
    }
    r
}

/// Whether the character occurs in `s`.
pub fn contains_char(s: &str, c: char) -> (r: bool)
    ensures
        r == s@.contains(c),
{
    let chars = chars_of(s);
    for i in 0..chars.len()
        invariant
            chars@ == s@,
            forall|j: int| 0 <= j < i ==> s@[j] != c,
    {
        if chars[i] == c {
            return true;
        }
    }
    false
}

/// `s` without the leading `prefix`, if it starts with it.
pub fn strip_prefix(s: &str, prefix: &str) -> (out: Option<String>)
    ensures
        out is Some <==> prefix@.is_prefix_of(s@),
        out matches Some(rest) ==> s@ == prefix@ + rest@,
{
    let hay = chars_of(s);
    let pattern = chars_of(prefix);
    if matches_at(&hay, &pattern, 0) {
        let rest = s.substring_char(pattern.len(), hay.len()).to_owned();
        proof {
            assert(s@.subrange(0, prefix@.len() as int) =~= prefix@);
            assert(s@ =~= prefix@ + rest@);
        }
        Some(rest)
    } else {
        proof {
            if prefix@.is_prefix_of(s@) {
                assert(s@.subrange(0, prefix@.len() as int) =~= prefix@);
                assert(occurs_at(s@, prefix@, 0));
            }
        }
        None
    }
}

// ---------------------------------------------------------------------------
// Splitting
// ---------------------------------------------------------------------------

/// The pieces of `s` between the occurrences of `sep`: always at least one.
pub open spec fn pieces(s: Seq<char>, sep: char) -> Seq<Seq<char>>
    decreases s.len(),
{
    if s.len() == 0 {
        seq![Seq::empty()]
    } else {
        let front = pieces(s.drop_last(), sep);
        if s.last() == sep {
            front.push(Seq::empty())
        } else {
            front.drop_last().push(front.last().push(s.last()))
        }
    }
}

/// There is always a piece.
pub proof fn lemma_pieces_nonempty(s: Seq<char>, sep: char)
    ensures
        pieces(s, sep).len() >= 1,
    decreases s.len(),
{
    if s.len() > 0 {
        lemma_pieces_nonempty(s.drop_last(), sep);
    }
}

/// A text without the separator is one piece.
pub proof fn lemma_pieces_whole(s: Seq<char>, sep: char)
    requires
        !s.contains(sep),
    ensures
        pieces(s, sep) == seq![s],
    decreases s.len(),
{
    if s.len() > 0 {
        let front = s.drop_last();
        assert(s.last() != sep) by {
            assert(s[s.len() - 1] == s.last());
        }
        assert forall|i: int| 0 <= i < front.len() implies front[i] != sep by {
            assert(s[i] == front[i]);
        }
        lemma_pieces_whole(front, sep);
        assert(front.push(s.last()) =~= s);
        assert(pieces(s, sep) =~= seq![s]);
    } else {
        assert(s =~= Seq::<char>::empty());
        assert(pieces(s, sep) =~= seq![s]);
    }
}

/// A separator followed by text free of it adds that text as one more piece.
pub proof fn lemma_pieces_extend(s: Seq<char>, sep: char, tail: Seq<char>)
    requires
        !tail.contains(sep),
    ensures
        pieces(s + seq![sep] + tail, sep) == pieces(s, sep).push(tail),
    decreases tail.len(),
{
    let whole = s + seq![sep] + tail;
    if tail.len() == 0 {
        assert(whole.drop_last() =~= s);
        assert(tail =~= Seq::<char>::empty());
        assert(pieces(whole, sep) =~= pieces(s, sep).push(tail));
    } else {
        let front = tail.drop_last();
        assert(tail.last() != sep) by {
            assert(tail[tail.len() - 1] == tail.last());
        }
        assert forall|i: int| 0 <= i < front.len() implies front[i] != sep by {
            assert(tail[i] == front[i]);
        }
        lemma_pieces_extend(s, sep, front);
        assert(whole.drop_last() =~= s + seq![sep] + front);
        assert(front.push(tail.last()) =~= tail);
        assert(pieces(whole, sep) =~= pieces(s, sep).push(tail));
    }
}

/// Joining the pieces with the separator gives the text back, and no piece
/// holds the separator.
pub proof fn lemma_pieces_join(s: Seq<char>, sep: char)
    ensures
        joined(pieces(s, sep), seq![sep]) == s,
        forall|i: int| 0 <= i < pieces(s, sep).len() ==> !(#[trigger] pieces(s, sep)[i]).contains(sep),
    decreases s.len(),
{
    lemma_pieces_nonempty(s, sep);
    if s.len() == 0 {
        assert(joined(pieces(s, sep), seq![sep]) =~= s);
    } else {
        let t = s.drop_last();
        let front = pieces(t, sep);
        lemma_pieces_join(t, sep);
        lemma_pieces_nonempty(t, sep);
        assert(t.push(s.last()) =~= s);
        if s.last() == sep {
            assert(pieces(s, sep).drop_last() =~= front);
            assert(joined(pieces(s, sep), seq![sep]) =~= s);
        } else {
            let all = pieces(s, sep);
            assert(all.drop_last() =~= front.drop_last());
            assert forall|i: int| 0 <= i < all.len() implies !(#[trigger] all[i]).contains(sep) by {
                if i == all.len() - 1 {
                    let piece = front.last();
                    assert(!front[front.len() - 1].contains(sep));
                    assert forall|k: int| 0 <= k < all[i].len() implies all[i][k] != sep by {
                        if k < piece.len() {
                            assert(piece.contains(piece[k]));
                        }
                    }
                } else {
                    assert(all[i] == front[i]);
                }
            }
            assert(joined(all, seq![sep]) =~= s);
        }
    }
}

/// Splits `s` at every occurrence of `sep`.
pub fn split(s: &str, sep: char) -> (out: Vec<String>)
    ensures
        texts(out@) == pieces(s@, sep),
        out@.len() >= 1,
{
    let chars = chars_of(s);
    let mut done: Vec<String> = Vec::new();
    let mut current = String::new();
    for i in 0..chars.len()
        invariant
            chars@ == s@,
            texts(done@).push(current@) == pieces(s@.take(i as int), sep),
    {
        let ghost before = s@.take(i as int);
        let ghost after = s@.take(i + 1);
        proof {
            assert(after.drop_last() =~= before);
            assert(after.last() == s@[i as int]);
            let front = pieces(before, sep);
            assert(front.drop_last() =~= texts(done@));
            assert(front.last() == current@);
        }
        if chars[i] == sep {
            let ghost old_done = texts(done@);
            let ghost piece = current@;
            done.push(current);
            current = String::new();
            proof {
                assert(texts(done@) =~= old_done.push(piece));
                assert(texts(done@).push(current@) =~= pieces(after, sep));
            }
        } else {
            current.push(chars[i]);
            proof {
                assert(texts(done@).push(current@) =~= pieces(after, sep));
            }
        }
    }
    let ghost old_done = texts(done@);
    let ghost piece = current@;
    done.push(current);
    proof {
        assert(s@.take(s@.len() as int) =~= s@);
        assert(texts(done@) =~= old_done.push(piece));
    }
    done
}

/// The position of the first `sep` in `s`, or the length of `s`.
pub open spec fn first_at(s: Seq<char>, sep: char) -> nat
    decreases s.len(),
{
    if s.len() == 0 || s[0] == sep {
        0
    } else {
        1 + first_at(s.drop_first(), sep)
    }
}

proof fn lemma_first_at(s: Seq<char>, sep: char, k: int)
    requires
        0 <= k <= s.len(),
        k < s.len() ==> s[k] == sep,
        forall|j: int| 0 <= j < k ==> s[j] != sep,
    ensures
        first_at(s, sep) == k,
    decreases s.len(),
{
    if k > 0 {
        let rest = s.drop_first();
        assert forall|j: int| 0 <= j < k - 1 implies rest[j] != sep by {
            assert(s[j + 1] == rest[j]);
        }
        lemma_first_at(rest, sep, k - 1);
    }
}

/// What stands before and after the first `sep` of `s`, if it has one.
pub fn split_once(s: &str, sep: char) -> (out: Option<(String, String)>)
    ensures
        out is Some <==> s@.contains(sep),
        out matches Some(halves) ==> halves.0@ == s@.take(first_at(s@, sep) as int) && halves.1@
            == s@.skip(first_at(s@, sep) as int + 1) && first_at(s@, sep) < s@.len(),
        out is None ==> first_at(s@, sep) == s@.len(),
{
    let chars = chars_of(s);
    for i in 0..chars.len()
        invariant
            chars@ == s@,
            forall|j: int| 0 <= j < i ==> s@[j] != sep,
    {
        if chars[i] == sep {
            let left = s.substring_char(0, i).to_owned();
            let right = s.substring_char(i + 1, chars.len()).to_owned();
            proof {
                assert(s@[i as int] == sep);
                lemma_first_at(s@, sep, i as int);
                assert(left@ =~= s@.take(i as int));
                assert(right@ =~= s@.skip(i + 1));
            }
            return Some((left, right));
        }
    }
    proof {
        lemma_first_at(s@, sep, s@.len() as int);
    }
    None
}

// ---------------------------------------------------------------------------
// Letter case and blanks
// ---------------------------------------------------------------------------

/// The lower-case form of an ASCII letter; any other character unchanged.
pub open spec fn lower(c: char) -> char {
    if 'A' <= c && c <= 'Z' {
        (c as u32 + 32) as char
    } else {
        c
    }
}

/// A text with its ASCII letters in lower case.
pub open spec fn lowered(s: Seq<char>) -> Seq<char> {
    s.map_values(|c: char| lower(c))
}

fn lower_char(c: char) -> (r: char)
    ensures
        r == lower(c),
{
    if 'A' <= c && c <= 'Z' {
        let b = c as u8;
        (b + 32) as char
    } else {
        c
    }
}

/// Puts the ASCII letters of `s` in lower case.
pub fn to_lower(s: &str) -> (out: String)
    ensures
        out@ == lowered(s@),
{
    let chars = chars_of(s);
    let mut out = String::new();
    for i in 0..chars.len()
        invariant
            chars@ == s@,
            out@ == lowered(s@).take(i as int),
    {
        out.push(lower_char(chars[i]));
    }
    proof {
        assert(lowered(s@).take(s@.len() as int) =~= lowered(s@));
    }
    out
}

/// Whether a character has the Unicode property `White_Space`.
pub open spec fn white(c: char) -> bool {
    let u = c as u32;
    ||| 0x9 <= u <= 0xd
    ||| u == 0x20
    ||| u == 0x85
    ||| u == 0xa0
    ||| u == 0x1680
    ||| 0x2000 <= u <= 0x200a
    ||| u == 0x2028
    ||| u == 0x2029
    ||| u == 0x202f
    ||| u == 0x205f
    ||| u == 0x3000
}

fn is_white(c: char) -> (r: bool)
    ensures
        r == white(c),
{
    let u = c as u32;
    (0x9 <= u && u <= 0xd) || u == 0x20 || u == 0x85 || u == 0xa0 || u == 0x1680 || (0x2000 <= u && u
        <= 0x200a) || u == 0x2028 || u == 0x2029 || u == 0x202f || u == 0x205f || u == 0x3000
}

/// Whether a text holds nothing but white space.
pub open spec fn blank(s: Seq<char>) -> bool {
    forall|i: int| 0 <= i < s.len() ==> white(#[trigger] s[i])
}

/// Whether `s` is empty or holds nothing but white space.
pub fn is_blank(s: &str) -> (r: bool)
    ensures
        r == blank(s@),
{
    let chars = chars_of(s);
    for i in 0..chars.len()
        invariant
            chars@ == s@,
            forall|j: int| 0 <= j < i ==> white(#[trigger] s@[j]),
    {
        if !is_white(chars[i]) {
            return false;
        }
    }
    true
}

/// `s` without the white space at its two ends.
pub open spec fn trimmed(s: Seq<char>) -> Seq<char>
    decreases s.len(),
{
    if s.len() > 0 && white(s.first()) {
        trimmed(s.drop_first())
    } else if s.len() > 0 && white(s.last()) {
        trimmed(s.drop_last())
    } else {
        s
    }
}

/// Takes the white space off both ends of `s`.
pub fn trim(s: &str) -> (out: String)
    ensures
        out@ == trimmed(s@),
{
    let chars = chars_of(s);
    let mut start: usize = 0;
    let mut end: usize = chars.len();
    proof {
        assert(s@.subrange(0, s@.len() as int) =~= s@);
    }
    while start < end && is_white(chars[start])
        invariant
            chars@ == s@,
            start <= end == chars.len(),
            trimmed(s@) == trimmed(s@.subrange(start as int, end as int)),
        decreases end - start,
    {
        proof {
            assert(s@.subrange(start as int, end as int).drop_first() =~= s@.subrange(
                start + 1,
                end as int,
            ));
        }
        start += 1;
    }
    while start < end && is_white(chars[end - 1])
        invariant
            chars@ == s@,
            start <= end <= chars.len(),
            start < end ==> !white(s@[start as int]),
            trimmed(s@) == trimmed(s@.subrange(start as int, end as int)),
        decreases end - start,
    {
        proof {
            assert(s@.subrange(start as int, end as int).drop_last() =~= s@.subrange(
                start as int,
                end - 1,
            ));
        }
        end -= 1;
    }
    s.substring_char(start, end).to_owned()
}

// ---------------------------------------------------------------------------
// Laws
// ---------------------------------------------------------------------------

/// The position of a separator is that of its first occurrence: it does not
/// occur before, and where the position is not the end, it stands there.
pub proof fn law_first_at(s: Seq<char>, sep: char)
    ensures
        first_at(s, sep) <= s.len(),
        !s.take(first_at(s, sep) as int).contains(sep),
        first_at(s, sep) < s.len() ==> s[first_at(s, sep) as int] == sep,
        first_at(s, sep) == s.len() <==> !s.contains(sep),
    decreases s.len(),
{
    if s.len() > 0 && s[0] != sep {
        let rest = s.drop_first();
        let k = first_at(s, sep) as int;
        law_first_at(rest, sep);
        assert forall|i: int| 0 <= i < k implies s[i] != sep by {
            if i > 0 {
                assert(rest.take(k - 1)[i - 1] == s[i]);
            }
        }
        if s.contains(sep) {
            let i = choose|i: int| 0 <= i < s.len() && s[i] == sep;
            assert(rest[i - 1] == sep);
        }
        if rest.contains(sep) {
            let i = choose|i: int| 0 <= i < rest.len() && rest[i] == sep;
            assert(s[i + 1] == sep);
        }
    } else if s.len() > 0 {
        assert(s.contains(s[0]));
    }
}

/// Splitting a joined list gives the list back, where no part of it holds the
/// separator.
pub proof fn law_split_of_joined(list: Seq<Seq<char>>, sep: char)
    requires
        list.len() > 0,
        forall|i: int| 0 <= i < list.len() ==> !(#[trigger] list[i]).contains(sep),
    ensures
        pieces(joined(list, seq![sep]), sep) == list,
    decreases list.len(),
{
    if list.len() == 1 {
        lemma_pieces_whole(list[0], sep);
        assert(list =~= seq![list[0]]);
    } else {
        let front = list.drop_last();
        assert forall|i: int| 0 <= i < front.len() implies !(#[trigger] front[i]).contains(sep) by {
            assert(front[i] == list[i]);
        }
        law_split_of_joined(front, sep);
        lemma_pieces_extend(joined(front, seq![sep]), sep, list.last());
        assert(front.push(list.last()) =~= list);
    }
}

/// A joined list grows by the separator and the next part.
pub proof fn law_joined(list: Seq<Seq<char>>, next: Seq<char>, sep: Seq<char>)
    ensures
        joined(seq![next], sep) == next,
        list.len() > 0 ==> joined(list.push(next), sep) == joined(list, sep) + sep + next,
{
    assert(list.push(next).drop_last() =~= list);
}

/// Lower case leaves no capital letter of ASCII, and changes nothing else.
pub proof fn law_lowered(s: Seq<char>, i: int)
    requires
        0 <= i < s.len(),
    ensures
        lowered(s).len() == s.len(),
        !('A' <= lowered(s)[i] && lowered(s)[i] <= 'Z'),
        'A' <= s[i] && s[i] <= 'Z' ==> lowered(s)[i] as u32 - 'a' as u32 == s[i] as u32 - 'A' as u32,
        !('A' <= s[i] && s[i] <= 'Z') ==> lowered(s)[i] == s[i],
        lowered(lowered(s)) == lowered(s),
{
    assert forall|k: int| 0 <= k < s.len() implies lower(lower(s[k])) == lower(s[k]) by {}
    assert(lowered(lowered(s)) =~= lowered(s));
}

/// Where the text that trimming leaves begins and ends.
proof fn lemma_trimmed(s: Seq<char>) -> (ends: (int, int))
    ensures
        0 <= ends.0 <= ends.1 <= s.len(),
        trimmed(s) == s.subrange(ends.0, ends.1),
        forall|k: int| 0 <= k < ends.0 || ends.1 <= k < s.len() ==> white(#[trigger] s[k]),
        ends.0 < ends.1 ==> !white(s[ends.0]) && !white(s[ends.1 - 1]),
    decreases s.len(),
{
    if s.len() > 0 && white(s.first()) {
        let rest = s.drop_first();
        let (i, j) = lemma_trimmed(rest);
        assert(s.subrange(i + 1, j + 1) =~= rest.subrange(i, j));
        assert forall|k: int| 0 <= k < i + 1 || j + 1 <= k < s.len() implies white(
            #[trigger] s[k],
        ) by {
            if k > 0 {
                assert(white(rest[k - 1]));
            }
        }
        (i + 1, j + 1)
    } else if s.len() > 0 && white(s.last()) {
        let rest = s.drop_last();
        let (i, j) = lemma_trimmed(rest);
        assert(s.subrange(i, j) =~= rest.subrange(i, j));
        assert forall|k: int| 0 <= k < i || j <= k < s.len() implies white(#[trigger] s[k]) by {
            if k < rest.len() {
                assert(white(rest[k]));
            }
        }
        (i, j)
    } else {
        assert(s.subrange(0, s.len() as int) =~= s);
        (0, s.len() as int)
    }
}

/// Trimming takes white space off the two ends, all that is there, and nothing
/// else.
pub proof fn law_trimmed(s: Seq<char>)
    ensures
        exists|i: int, j: int|
            0 <= i <= j <= s.len() && trimmed(s) == #[trigger] s.subrange(i, j) && blank(s.take(i))
                && blank(s.skip(j)),
        trimmed(s).len() > 0 ==> !white(trimmed(s).first()) && !white(trimmed(s).last()),
        trimmed(s).len() == 0 <==> blank(s),
{
    let (i, j) = lemma_trimmed(s);
    assert(trimmed(s) == s.subrange(i, j) && blank(s.take(i)) && blank(s.skip(j)));
    if i < j {
        assert(!white(s[i]));
    }
}

/// The number that decimal digits stand for.
pub open spec fn digits_value(s: Seq<char>) -> nat
    decreases s.len(),
{
    if s.len() == 0 {
        0
    } else {
        10 * digits_value(s.drop_last()) + (s.last() as nat - '0' as nat) as nat
    }
}

/// A number is written in digits that stand for it, without a needless zero in
/// front.
pub proof fn law_decimal_digits(n: nat)
    ensures
        digits_value(decimal_digits(n)) == n,
        decimal_digits(n).len() > 0,
        forall|i: int|
            0 <= i < decimal_digits(n).len() ==> '0' <= #[trigger] decimal_digits(n)[i]
                && decimal_digits(n)[i] <= '9',
        decimal_digits(n)[0] == '0' ==> n == 0,
    decreases n,
{
    let s = decimal_digits(n);
    if n < 10 {
        assert(s.drop_last() =~= Seq::empty());
        assert(digits_value(s.drop_last()) == 0);
        assert(s.last() == digit(n));
    } else {
        law_decimal_digits(n / 10);
        assert(s.drop_last() =~= decimal_digits(n / 10));
        assert(s.last() == digit(n % 10));
    }
}

/// White space is what Unicode calls so: these 25 characters and no others.
pub proof fn law_white_space(c: char)
    ensures
        white(c) <==> seq![
            0x9int, 0xa, 0xb, 0xc, 0xd, 0x20, 0x85, 0xa0, 0x1680, 0x2000, 0x2001, 0x2002, 0x2003,
            0x2004, 0x2005, 0x2006, 0x2007, 0x2008, 0x2009, 0x200a, 0x2028, 0x2029, 0x202f, 0x205f,
            0x3000,
        ].contains(c as int),
{
    let u = c as int;
    let all = seq![
        0x9int, 0xa, 0xb, 0xc, 0xd, 0x20, 0x85, 0xa0, 0x1680, 0x2000, 0x2001, 0x2002, 0x2003,
        0x2004, 0x2005, 0x2006, 0x2007, 0x2008, 0x2009, 0x200a, 0x2028, 0x2029, 0x202f, 0x205f,
        0x3000,
    ];
    if white(c) {
        let i = if u <= 0xd {
            u - 9
        } else if u == 0x20 {
            5
        } else if u == 0x85 {
            6
        } else if u == 0xa0 {
            7
        } else if u == 0x1680 {
            8
        } else if u <= 0x200a {
            9 + u - 0x2000
        } else if u == 0x2028 {
            20
        } else if u == 0x2029 {
            21
        } else if u == 0x202f {
            22
        } else if u == 0x205f {
            23
        } else {
            24
        };
        assert(all[i] == u);
    }
}

/// A text occurs in another one exactly if that is made up of the text with
/// something before and something behind it.
pub proof fn law_occurs(s: Seq<char>, before: Seq<char>, needle: Seq<char>, behind: Seq<char>)
    ensures
        occurs(before + needle + behind, needle),
        occurs(s, needle) ==> exists|i: int|
            0 <= i <= s.len() - needle.len() && s == #[trigger] s.take(i) + needle + s.skip(
                i + needle.len(),
            ),
{
    let whole = before + needle + behind;
    assert(whole.subrange(before.len() as int, (before.len() + needle.len()) as int) =~= needle);
    assert(occurs_at(whole, needle, before.len() as int));
    if occurs(s, needle) {
        let i = choose|i: int| occurs_at(s, needle, i);
        assert(s =~= s.take(i) + s.subrange(i, i + needle.len()) + s.skip(i + needle.len()));
        assert(s == s.take(i) + needle + s.skip(i + needle.len()));
    }
}

} // verus!
