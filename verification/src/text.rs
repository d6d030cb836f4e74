//! Text: white space, searching, splitting and comparing.
//!
//! A string is modelled by its sequence of characters.
use vstd::prelude::*;
use vstd::string::{StrSliceExecFns, StringExecFns};
use vstd::utf8::*;

verus! {

/// The position of the first `x` in `s`, or the length of `s` where there is none.
pub open spec fn find<T>(s: Seq<T>, x: T) -> int
    decreases s.len(),
{
    if s.len() == 0 || s[0] == x {
        0
    } else {
        1 + find(s.drop_first(), x)
    }
}

/// The pieces of `s` between the occurrences of `sep`: one more than there are separators.
pub open spec fn split<T>(s: Seq<T>, sep: T) -> Seq<Seq<T>>
    decreases s.len(),
{
    let k = find(s, sep);
    if 0 <= k < s.len() {
        seq![s.take(k)] + split(s.skip(k + 1), sep)
    } else {
        seq![s]
    }
}

/// Whether `needle` stands somewhere in `s`.
pub open spec fn has_piece<T>(s: Seq<T>, needle: Seq<T>) -> bool {
    exists|i: int| #[trigger] stands_at(s, needle, i)
}

/// Whether `needle` stands in `s` at position `i`.
pub open spec fn stands_at<T>(s: Seq<T>, needle: Seq<T>, i: int) -> bool {
    &&& 0 <= i
    &&& i + needle.len() <= s.len()
    &&& s.subrange(i, i + needle.len()) == needle
}

/// The characters with the Unicode property `White_Space`.
pub open spec fn white_space(c: char) -> bool {
    let u = c as u32;
    ||| 0x9 <= u <= 0xd
    ||| u == 0x20
    ||| u == 0x85
    ||| u == 0xa0
    ||| u == 0x1680
    ||| 0x2000 <= u <= 0x200a
    ||| u == 0x2028
    ||| u == 0x2029
    ||| u == 0x202f
    ||| u == 0x205f
    ||| u == 0x3000
}

/// `s` without the white space at its start.
pub open spec fn trim_start_of(s: Seq<char>) -> Seq<char>
    decreases s.len(),
{
    if s.len() > 0 && white_space(s[0]) {
        trim_start_of(s.drop_first())
    } else {
        s
    }
}

/// `s` without the white space at its end.
pub open spec fn trim_end_of(s: Seq<char>) -> Seq<char>
    decreases s.len(),
{
    if s.len() > 0 && white_space(s.last()) {
        trim_end_of(s.drop_last())
    } else {
        s
    }
}

/// `s` without the white space at its start and at its end.
pub open spec fn trimmed(s: Seq<char>) -> Seq<char> {
    trim_end_of(trim_start_of(s))
}

/// `c` in lower case where it is an ASCII letter, else `c`.
pub open spec fn lower(c: char) -> char {
    if 0x41 <= c as u32 <= 0x5a {
        (c as u32 + 32) as char
    } else {
        c
    }
}

/// `s` with every ASCII letter in lower case.
pub open spec fn lowered(s: Seq<char>) -> Seq<char> {
    s.map_values(|c: char| lower(c))
}

/// The position found is the first one of the item.
pub proof fn lemma_find<T>(s: Seq<T>, x: T)
    ensures
        0 <= find(s, x) <= s.len(),
        forall|j: int| 0 <= j < find(s, x) ==> s[j] != x,
        find(s, x) < s.len() ==> s[find(s, x)] == x,
    decreases s.len(),
{
    if s.len() != 0 && s[0] != x {
        lemma_find(s.drop_first(), x);
        assert forall|j: int| 0 <= j < find(s, x) implies s[j] != x by {
            if j > 0 {
                assert(s[j] == s.drop_first()[j - 1]);
            }
        }
    }
}

/// The first position of an item is the one found.
pub proof fn lemma_find_is<T>(s: Seq<T>, x: T, k: int)
    requires
        0 <= k <= s.len(),
        forall|j: int| 0 <= j < k ==> s[j] != x,
        k < s.len() ==> s[k] == x,
    ensures
        find(s, x) == k,
{
    lemma_find(s, x);
    let f = find(s, x);
    if f < k {
        assert(s[f] != x);
    }
    if k < f {
        assert(s[k] != x);
    }
}

/// `parts` with `sep` between them.
pub open spec fn join<T>(parts: Seq<Seq<T>>, sep: T) -> Seq<T>
    decreases parts.len(),
{
    if parts.len() == 0 {
        seq![]
    } else if parts.len() == 1 {
        parts[0]
    } else {
        parts[0] + seq![sep] + join(parts.drop_first(), sep)
    }
}

/// Joining the pieces of a sequence gives the sequence back; no piece holds the separator.
pub proof fn split_joins_back<T>(s: Seq<T>, sep: T)
    ensures
        join(split(s, sep), sep) == s,
        split(s, sep).len() > 0,
        forall|i: int|
            0 <= i < split(s, sep).len() ==> !(#[trigger] split(s, sep)[i]).contains(sep),
    decreases s.len(),
{
    lemma_find(s, sep);
    let k = find(s, sep);
    let parts = split(s, sep);
    if k < s.len() {
        let rest = s.skip(k + 1);
        split_joins_back(rest, sep);
        assert(parts.drop_first() =~= split(rest, sep));
        assert(s =~= s.take(k) + seq![sep] + rest);
        assert forall|i: int| 0 <= i < parts.len() implies !(#[trigger] parts[i]).contains(sep) by {
            if i == 0 {
                assert(parts[0] == s.take(k));
            } else {
                assert(parts[i] == split(rest, sep)[i - 1]);
            }
        }
    } else {
        assert(parts =~= seq![s]);
    }
}

/// Splitting pieces that were joined gives the pieces back, where none holds the separator.
pub proof fn join_splits_back<T>(parts: Seq<Seq<T>>, sep: T)
    requires
        parts.len() > 0,
        forall|i: int| 0 <= i < parts.len() ==> !(#[trigger] parts[i]).contains(sep),
    ensures
        split(join(parts, sep), sep) == parts,
    decreases parts.len(),
{
    let s = join(parts, sep);
    let head = parts[0];
    assert forall|j: int| 0 <= j < head.len() implies head[j] != sep by {
        assert(head.contains(head[j]));
    }
    if parts.len() == 1 {
        lemma_find_is(s, sep, s.len() as int);
        assert(split(s, sep) =~= parts);
    } else {
        let rest = parts.drop_first();
        assert forall|i: int| 0 <= i < rest.len() implies !(#[trigger] rest[i]).contains(sep) by {
            assert(rest[i] == parts[i + 1]);
        }
        join_splits_back(rest, sep);
        lemma_find_is(s, sep, head.len() as int);
        assert(s.take(head.len() as int) =~= head);
        assert(s.skip(head.len() as int + 1) =~= join(rest, sep));
        assert(split(s, sep) =~= parts);
    }
}

/// Trimming twice is trimming once.
pub proof fn lemma_trimmed_again(s: Seq<char>)
    ensures
        trimmed(trimmed(s)) == trimmed(s),
{
    let a = trim_start_of(s);
    lemma_trim_start(s);
    lemma_trim_end(a);
    let b = trim_end_of(a);
    if b.len() > 0 {
        assert(b[0] == a[0]);
    }
}

/// What is left begins with no white space.
proof fn lemma_trim_start(s: Seq<char>)
    ensures
        trim_start_of(s).len() > 0 ==> !white_space(trim_start_of(s)[0]),
    decreases s.len(),
{
    if s.len() > 0 && white_space(s[0]) {
        lemma_trim_start(s.drop_first());
    }
}

/// What is left is a start of the text, and ends with no white space.
proof fn lemma_trim_end(s: Seq<char>)
    ensures
        trim_end_of(s).len() > 0 ==> !white_space(trim_end_of(s).last()),
        trim_end_of(s).len() <= s.len(),
        trim_end_of(s) == s.take(trim_end_of(s).len() as int),
    decreases s.len(),
{
    if s.len() > 0 && white_space(s.last()) {
        lemma_trim_end(s.drop_last());
        let t = trim_end_of(s);
        assert(s.drop_last().take(t.len() as int) =~= s.take(t.len() as int));
    } else {
        assert(s.take(s.len() as int) =~= s);
    }
}

/// The characters of `s`.
pub fn chars_of(s: &str) -> (v: Vec<char>)
    ensures
        v@ == s@,
{
    let mut v: Vec<char> = Vec::new();
    for c in it: s.chars()
        invariant
            it.seq() == s@,
            v@ == s@.take(it.index()),
    {
        v.push(c);
        assert(s@.take(it.index() + 1) =~= s@.take(it.index()).push(c));
    }
    assert(s@.take(s@.len() as int) =~= s@);
    v
}

/// Whether `a` and `b` are the same text.
pub fn same_text(a: &str, b: &str) -> (r: bool)
    ensures
        r == (a@ == b@),
{
    let x = a.as_bytes();
    let y = b.as_bytes();
    let r = same_bytes(x, y);
    proof {
        encode_utf8_decode_utf8(a@);
        encode_utf8_decode_utf8(b@);
    }
    r
}

/// Whether `a` and `b` hold the same bytes.
pub fn same_bytes(a: &[u8], b: &[u8]) -> (r: bool)
    ensures
        r == (a@ == b@),
{
    if a.len() != b.len() {
        return false;
    }
    let mut i: usize = 0;
    while i < a.len()
        invariant
            i <= a.len(),
            a.len() == b.len(),
            forall|j: int| 0 <= j < i ==> a@[j] == b@[j],
        decreases a.len() - i,
    {
        if a[i] != b[i] {
            return false;
        }
        i = i + 1;
    }
    assert(a@ =~= b@);
    true
}

/// Whether `c` has the Unicode property `White_Space`.
pub fn is_white_space(c: char) -> (r: bool)
    ensures
        r == white_space(c),
{
    let u: u32 = c as u32;
    (0x9 <= u && u <= 0xd) || u == 0x20 || u == 0x85 || u == 0xa0 || u == 0x1680
        || (0x2000 <= u && u <= 0x200a) || u == 0x2028 || u == 0x2029 || u == 0x202f
        || u == 0x205f || u == 0x3000
}

/// The part of `s` between the white space at its start and at its end.
pub fn trim(s: &str) -> (r: String)
    ensures
        r@ == trimmed(s@),
{
    let v = chars_of(s);
    let n: usize = v.len();
    let mut i: usize = 0;
    assert(s@.skip(0) =~= s@);
    while i < n && is_white_space(v[i])
        invariant
            i <= n == v.len(),
            v@ == s@,
            trim_start_of(s@) == trim_start_of(s@.skip(i as int)),
        decreases n - i,
    {
        assert(s@.skip(i as int).drop_first() =~= s@.skip(i + 1));
        i = i + 1;
    }
    let mut j: usize = n;
    let ghost rest = s@.skip(i as int);
    assert(rest.take(rest.len() as int) =~= rest);
    while j > i && is_white_space(v[j - 1])
        invariant
            i <= j <= n == v.len(),
            v@ == s@,
            rest == s@.skip(i as int),
            trim_end_of(rest) == trim_end_of(rest.take(j - i)),
        decreases j,
    {
        assert(rest.take(j - i).drop_last() =~= rest.take(j - i - 1));
        j = j - 1;
    }
    assert(rest.take(j - i) =~= s@.subrange(i as int, j as int));
    s.substring_char(i, j).to_owned()
}

/// Whether `s` holds nothing but white space.
pub fn is_blank(s: &str) -> (r: bool)
    ensures
        r == (trimmed(s@).len() == 0),
{
    let t = trim(s);
    t.as_str().is_empty()
}

/// Whether `needle` stands somewhere in `s`.
pub fn contains_text(s: &str, needle: &str) -> (r: bool)
    ensures
        r == has_piece(s@, needle@),
{
    let v = chars_of(s);
    let w = chars_of(needle);
    let n: usize = v.len();
    let m: usize = w.len();
    if m > n {
        return false;
    }
    let mut i: usize = 0;
    while i <= n - m
        invariant
            i <= n - m + 1,
            n == v.len(),
            m == w.len(),
            m <= n,
            v@ == s@,
            w@ == needle@,
            forall|k: int| 0 <= k < i ==> !#[trigger] stands_at(s@, needle@, k),
        decreases n - m + 1 - i,
    {
        if matches_at(&v, &w, i) {
            assert(stands_at(s@, needle@, i as int));
            return true;
        }
        if i == n - m {
            assert(forall|k: int| !#[trigger] stands_at(s@, needle@, k));
            return false;
        }
        i = i + 1;
    }
    false
}

fn matches_at(v: &Vec<char>, w: &Vec<char>, i: usize) -> (r: bool)
    requires
        i + w@.len() <= v@.len(),
    ensures
        r == stands_at(v@, w@, i as int),
{
    let mut j: usize = 0;
    let n: usize = v.len();
    while j < w.len()
        invariant
            j <= w.len(),
            n == v@.len(),
            i + w@.len() <= n,
            forall|k: int| 0 <= k < j ==> v@[i + k] == w@[k],
        decreases w.len() - j,
    {
        if v[i + j] != w[j] {
            assert(v@.subrange(i as int, i + w@.len())[j as int] != w@[j as int]);
            return false;
        }
        j = j + 1;
    }
    assert(v@.subrange(i as int, i + w@.len()) =~= w@);
    true
}

/// Whether `a`, with its ASCII letters in lower case, is the text `b`.
pub fn is_in_lower_case(a: &str, b: &str) -> (r: bool)
    ensures
        r == (lowered(a@) == b@),
{
    let v = chars_of(a);
    let w = chars_of(b);
    if v.len() != w.len() {
        return false;
    }
    let mut i: usize = 0;
    while i < v.len()
        invariant
            i <= v.len(),
            v.len() == w.len(),
            v@ == a@,
            w@ == b@,
            forall|j: int| 0 <= j < i ==> lower(a@[j]) == b@[j],
        decreases v.len() - i,
    {
        let c: char = v[i];
        let u: u32 = c as u32;
        let l: char = if 0x41 <= u && u <= 0x5a {
            ((u as u8) + 32) as char
        } else {
            c
        };
        if l != w[i] {
            assert(lowered(a@)[i as int] != b@[i as int]);
            return false;
        }
        i = i + 1;
    }
    assert(lowered(a@) =~= b@);
    true
}

/// The pieces of `s` between the occurrences of `sep`.
pub fn split_chars(s: &[char], sep: char) -> (parts: Vec<Vec<char>>)
    ensures
        pieces(parts@) == split(s@, sep),
{
    let mut parts: Vec<Vec<char>> = Vec::new();
    let mut start: usize = 0;
    let mut i: usize = 0;
    let mut piece: Vec<char> = Vec::new();
    assert(s@.skip(0) =~= s@);
    assert(pieces(parts@) + split(s@.skip(0), sep) =~= split(s@, sep));
    while i < s.len()
        invariant
            start <= i <= s.len(),
            piece@ == s@.subrange(start as int, i as int),
            forall|j: int| start <= j < i ==> s@[j] != sep,
            pieces(parts@) + split(s@.skip(start as int), sep) == split(s@, sep),
        decreases s.len() - i,
    {
        let c: char = s[i];
        let ghost rest = s@.skip(start as int);
        if c == sep {
            proof {
                lemma_find_is(rest, sep, i - start);
                assert(rest.take(i - start) =~= piece@);
                assert(rest.skip(i - start + 1) =~= s@.skip(i + 1));
                assert(pieces(parts@.push(piece)) =~= pieces(parts@).push(piece@));
                assert(pieces(parts@) + (seq![piece@] + split(s@.skip(i + 1), sep)) =~= pieces(
                    parts@,
                ).push(piece@) + split(s@.skip(i + 1), sep));
            }
            parts.push(piece);
            piece = Vec::new();
            start = i + 1;
        } else {
            piece.push(c);
        }
        i = i + 1;
        assert(piece@ =~= s@.subrange(start as int, i as int));
    }
    let ghost rest = s@.skip(start as int);
    proof {
        lemma_find_is(rest, sep, rest.len() as int);
        assert(rest =~= piece@);
        assert(pieces(parts@.push(piece)) =~= pieces(parts@) + seq![piece@]);
    }
    parts.push(piece);
    parts
}

/// The contents of a list of strings.
pub open spec fn texts(list: Seq<String>) -> Seq<Seq<char>> {
    list.map_values(|s: String| s@)
}

/// The contents of a list of pieces.
pub open spec fn pieces<T>(parts: Seq<Vec<T>>) -> Seq<Seq<T>> {
    parts.map_values(|p: Vec<T>| p@)
}

/// The pieces of two texts with a separator between them are the pieces of the one, then those of
/// the other. A text without a separator is one piece.
pub proof fn split_at_a_separator<T>(a: Seq<T>, sep: T, b: Seq<T>)
    ensures
        split(a + seq![sep] + b, sep) == split(a, sep) + split(b, sep),
        !a.contains(sep) ==> split(a, sep) == seq![a],
    decreases a.len(),
{
    let s = a + seq![sep] + b;
    let k = find(a, sep);
    lemma_find(a, sep);
    if !a.contains(sep) {
        if k < a.len() {
            assert(a.contains(a[k]));
        }
    }
    if k < a.len() {
        assert(forall|j: int| 0 <= j < k ==> s[j] == a[j]);
        assert(s[k] == a[k]);
        lemma_find_is(s, sep, k);
        let rest = a.skip(k + 1);
        split_at_a_separator(rest, sep, b);
        assert(s.take(k) =~= a.take(k));
        assert(s.skip(k + 1) =~= rest + seq![sep] + b);
        assert(seq![a.take(k)] + (split(rest, sep) + split(b, sep)) =~= seq![a.take(k)] + split(
            rest,
            sep,
        ) + split(b, sep));
    } else {
        assert(forall|j: int| 0 <= j < a.len() ==> s[j] == a[j]);
        assert(s[a.len() as int] == sep);
        lemma_find_is(s, sep, a.len() as int);
        assert(s.take(a.len() as int) =~= a);
        assert(s.skip(a.len() as int + 1) =~= b);
    }
}

/// Trimming takes white space away at both ends and nothing else: what is left stands in the text,
/// what was before and behind it is white space, and it neither begins nor ends with any.
pub proof fn trimming_leaves_what_is_inside(s: Seq<char>)
    ensures
        exists|i: int, j: int|
            0 <= i <= j <= s.len() && #[trigger] s.subrange(i, j) == trimmed(s) && (forall|k: int|
                0 <= k < i || j <= k < s.len() ==> white_space(#[trigger] s[k])),
        trimmed(s).len() > 0 ==> !white_space(trimmed(s)[0]) && !white_space(trimmed(s).last()),
{
    let a = trim_start_of(s);
    lemma_trim_start(s);
    lemma_trim_end(a);
    lemma_trim_start_is_white(s);
    lemma_trim_end_is_white(a);
    let b = trim_end_of(a);
    let i = s.len() - a.len();
    let j = i + b.len();
    assert(s.subrange(i, j) =~= b);
    assert forall|k: int| 0 <= k < i || j <= k < s.len() implies white_space(#[trigger] s[k]) by {
        if k >= i {
            assert(s[k] == a[k - i]);
        }
    }
    if b.len() > 0 {
        assert(b[0] == a[0]);
    }
}

proof fn lemma_trim_start_is_white(s: Seq<char>)
    ensures
        trim_start_of(s).len() <= s.len(),
        trim_start_of(s) == s.skip(s.len() - trim_start_of(s).len()),
        forall|k: int| 0 <= k < s.len() - trim_start_of(s).len() ==> white_space(#[trigger] s[k]),
    decreases s.len(),
{
    if s.len() > 0 && white_space(s[0]) {
        let t = s.drop_first();
        lemma_trim_start_is_white(t);
        assert(t.skip(t.len() - trim_start_of(t).len()) =~= s.skip(
            s.len() - trim_start_of(s).len(),
        ));
        assert forall|k: int| 0 <= k < s.len() - trim_start_of(s).len() implies white_space(
            #[trigger] s[k],
        ) by {
            if k > 0 {
                assert(s[k] == t[k - 1]);
            }
        }
    } else {
        assert(s.skip(0) =~= s);
    }
}

proof fn lemma_trim_end_is_white(s: Seq<char>)
    ensures
        forall|k: int| trim_end_of(s).len() <= k < s.len() ==> white_space(#[trigger] s[k]),
    decreases s.len(),
{
    if s.len() > 0 && white_space(s.last()) {
        let t = s.drop_last();
        lemma_trim_end_is_white(t);
        assert forall|k: int| trim_end_of(s).len() <= k < s.len() implies white_space(
            #[trigger] s[k],
        ) by {
            if k < t.len() {
                assert(s[k] == t[k]);
            }
        }
    }
}

/// The white space characters, one by one.
pub proof fn white_space_is_the_unicode_property(c: char)
    ensures
        white_space(c) <==> {
            ||| c == '\t' || c == '\n' || c == '\u{b}' || c == '\u{c}' || c == '\r' || c == ' '
            ||| c == '\u{85}' || c == '\u{a0}' || c == '\u{1680}'
            ||| '\u{2000}' <= c <= '\u{200a}'
            ||| c == '\u{2028}' || c == '\u{2029}' || c == '\u{202f}' || c == '\u{205f}'
            ||| c == '\u{3000}'
        },
{
}

/// Lower case changes the letters from A to Z alone, and keeps their order.
pub proof fn lower_case_changes_ascii_letters_alone(c: char, s: Seq<char>)
    ensures
        'A' <= c <= 'Z' ==> lower(c) as u32 == c as u32 + ('a' as u32 - 'A' as u32),
        !('A' <= c <= 'Z') ==> lower(c) == c,
        lowered(s).len() == s.len(),
        forall|i: int| 0 <= i < s.len() ==> #[trigger] lowered(s)[i] == lower(s[i]),
{
    if 'A' <= c <= 'Z' {
        vstd::utf8::char_u32_cast((c as u32 + 32) as char, (c as u32 + 32) as u32);
    }
}

/// A text stands in another exactly where that one is it, with something before and behind it.
pub proof fn piece_has_something_around_it<T>(s: Seq<T>, needle: Seq<T>)
    ensures
        has_piece(s, needle) <==> exists|a: Seq<T>, b: Seq<T>| #[trigger] (a + needle + b) == s,
{
    if has_piece(s, needle) {
        let i = choose|i: int| #[trigger] stands_at(s, needle, i);
        assert(s.take(i) + needle + s.skip(i + needle.len()) =~= s);
    }
    if exists|a: Seq<T>, b: Seq<T>| #[trigger] (a + needle + b) == s {
        let (a, b) = choose|a: Seq<T>, b: Seq<T>| #[trigger] (a + needle + b) == s;
        assert(s.subrange(a.len() as int, a.len() as int + needle.len() as int) =~= needle);
        assert(stands_at(s, needle, a.len() as int));
    }
}

} // verus!
