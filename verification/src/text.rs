//! Character-level helpers on strings: the handful of text operations the
//! rest of the crate needs, each with an exact meaning over `Seq<char>`.

use vstd::prelude::*;

verus! {

/// `String::push` appends exactly one character to the end of the string.
pub assume_specification[ String::push ](s: &mut String, c: char)
    ensures
        final(s)@ == old(s)@.push(c),
;

/// The characters of `s`, in order.
pub fn chars_of(s: &str) -> (out: Vec<char>)
    ensures
        out@ == s@,
{
    let mut out: Vec<char> = Vec::new();
    for c in it: s.chars()
        invariant
            it.seq() == s@,
            out@ == it.seq().take(it.index() as int),
    {
        out.push(c);
        assert(it.seq().take(it.index() + 1) == it.seq().take(it.index() as int).push(c));
    }
    assert(s@.take(s@.len() as int) == s@);
    out
}

/// Appends the characters `v[from..to]` to `out`.
pub fn push_range(out: &mut String, v: &Vec<char>, from: usize, to: usize)
    requires
        from <= to <= v.len(),
    ensures
        final(out)@ == old(out)@ + v@.subrange(from as int, to as int),
{
    let mut i: usize = from;
    while i < to
        invariant
            from <= i <= to <= v.len(),
            out@ == old(out)@ + v@.subrange(from as int, i as int),
        decreases to - i,
    {
        out.push(v[i]);
        assert(v@.subrange(from as int, i + 1) == v@.subrange(from as int, i as int).push(
            v@[i as int],
        ));
        i += 1;
    }
}

/// The string made of the characters of `v`.
pub fn string_of(v: &Vec<char>) -> (out: String)
    ensures
        out@ == v@,
{
    let mut out = String::new();
    push_range(&mut out, v, 0, v.len());
    assert(v@.subrange(0, v@.len() as int) == v@);
    out
}

/// The characters `v[from..to]`.
pub fn slice_of(v: &Vec<char>, from: usize, to: usize) -> (out: Vec<char>)
    requires
        from <= to <= v.len(),
    ensures
        out@ == v@.subrange(from as int, to as int),
{
    let mut out: Vec<char> = Vec::new();
    let mut i: usize = from;
    while i < to
        invariant
            from <= i <= to <= v.len(),
            out@ == v@.subrange(from as int, i as int),
        decreases to - i,
    {
        out.push(v[i]);
        assert(v@.subrange(from as int, i + 1) == v@.subrange(from as int, i as int).push(
            v@[i as int],
        ));
        i += 1;
    }
    out
}

/// Appends the characters of `more` to `out`.
pub fn append_chars(out: &mut Vec<char>, more: &Vec<char>)
    ensures
        final(out)@ == old(out)@ + more@,
{
    let mut i: usize = 0;
    while i < more.len()
        invariant
            i <= more.len(),
            out@ == old(out)@ + more@.take(i as int),
        decreases more.len() - i,
    {
        out.push(more[i]);
        assert(more@.take(i + 1) == more@.take(i as int).push(more@[i as int]));
        i += 1;
    }
    assert(more@.take(more@.len() as int) == more@);
}

/// Whether two character vectors hold the same text.
pub fn same_chars(a: &Vec<char>, b: &Vec<char>) -> (same: bool)
    ensures
        same == (a@ == b@),
{
    if a.len() != b.len() {
        return false;
    }
    let mut i: usize = 0;
    while i < a.len()
        invariant
            i <= a.len(),
            a.len() == b.len(),
            forall|k: int| 0 <= k < i ==> a@[k] == b@[k],
        decreases a.len() - i,
    {
        if a[i] != b[i] {
            return false;
        }
        i += 1;
    }
    assert(a@ =~= b@);
    true
}

/// Whether `v` holds exactly the text of `lit`.
pub fn is_text(v: &Vec<char>, lit: &str) -> (same: bool)
    ensures
        same == (v@ == lit@),
{
    let other = chars_of(lit);
    same_chars(v, &other)
}

/// Whether `v[at..]` begins with `prefix`.
pub fn has_prefix_at(v: &Vec<char>, at: usize, prefix: &Vec<char>) -> (found: bool)
    requires
        at <= v.len(),
    ensures
        found == prefix@.is_prefix_of(v@.skip(at as int)),
{
    if prefix.len() > v.len() - at {
        return false;
    }
    let mut i: usize = 0;
    while i < prefix.len()
        invariant
            i <= prefix.len(),
            at <= v.len(),
            prefix.len() <= v.len() - at,
            forall|k: int| 0 <= k < i ==> prefix@[k] == v@[at + k],
        decreases prefix.len() - i,
    {
        if prefix[i] != v[at + i] {
            assert(v@.skip(at as int)[i as int] == v@[at + i]);
            return false;
        }
        i += 1;
    }
    assert(prefix@ =~= v@.skip(at as int).subrange(0, prefix@.len() as int));
    true
}

/// Whether `v` begins with `prefix`.
pub fn has_prefix(v: &Vec<char>, prefix: &Vec<char>) -> (found: bool)
    ensures
        found == prefix@.is_prefix_of(v@),
{
    assert(v@.skip(0) == v@);
    has_prefix_at(v, 0, prefix)
}

/// ASCII lower-casing of one character: `A`–`Z` map to `a`–`z`, everything
/// else is unchanged.
pub open spec fn lower_char(c: char) -> char {
    if 'A' <= c && c <= 'Z' {
        ((c as u8) + 32u8) as char
    } else {
        c
    }
}

/// ASCII lower-casing of a text, character by character.
pub open spec fn lower(s: Seq<char>) -> Seq<char> {
    Seq::new(s.len(), |i: int| lower_char(s[i]))
}

pub fn to_lower_char(c: char) -> (r: char)
    ensures
        r == lower_char(c),
{
    if 'A' <= c && c <= 'Z' {
        ((c as u8) + 32u8) as char
    } else {
        c
    }
}

/// ASCII lower-casing of `v`.
pub fn to_lower(v: &Vec<char>) -> (out: Vec<char>)
    ensures
        out@ == lower(v@),
{
    let mut out: Vec<char> = Vec::new();
    let mut i: usize = 0;
    while i < v.len()
        invariant
            i <= v.len(),
            out.len() == i,
            forall|k: int| 0 <= k < i ==> out@[k] == lower_char(v@[k]),
        decreases v.len() - i,
    {
        out.push(to_lower_char(v[i]));
        i += 1;
    }
    assert(out@ =~= lower(v@));
    out
}

/// The characters with the Unicode `White_Space` property.
pub open spec fn is_space(c: char) -> bool {
    let n = c as u32;
    (0x09 <= n <= 0x0D) || n == 0x20 || n == 0x85 || n == 0xA0 || n == 0x1680 || (0x2000 <= n
        <= 0x200A) || n == 0x2028 || n == 0x2029 || n == 0x202F || n == 0x205F || n == 0x3000
}

pub fn is_space_char(c: char) -> (r: bool)
    ensures
        r == is_space(c),
{
    let n: u32 = c as u32;
    (0x09 <= n && n <= 0x0D) || n == 0x20 || n == 0x85 || n == 0xA0 || n == 0x1680 || (0x2000 <= n
        && n <= 0x200A) || n == 0x2028 || n == 0x2029 || n == 0x202F || n == 0x205F || n == 0x3000
}

/// `s` without its leading white space.
pub open spec fn trim_start(s: Seq<char>) -> Seq<char>
    decreases s.len(),
{
    if s.len() > 0 && is_space(s[0]) {
        trim_start(s.drop_first())
    } else {
        s
    }
}

/// `s` without its trailing white space.
pub open spec fn trim_end(s: Seq<char>) -> Seq<char>
    decreases s.len(),
{
    if s.len() > 0 && is_space(s.last()) {
        trim_end(s.drop_last())
    } else {
        s
    }
}

/// `s` without leading and trailing white space.
pub open spec fn trim(s: Seq<char>) -> Seq<char> {
    trim_end(trim_start(s))
}

/// `v` without leading and trailing white space.
pub fn trimmed(v: &Vec<char>) -> (out: Vec<char>)
    ensures
        out@ == trim(v@),
{
    let mut from: usize = 0;
    assert(v@.skip(0) == v@);
    while from < v.len() && is_space_char(v[from])
        invariant
            from <= v.len(),
            trim_start(v@) == trim_start(v@.skip(from as int)),
        decreases v.len() - from,
    {
        assert(v@.skip(from as int).drop_first() == v@.skip(from + 1));
        from += 1;
    }
    let mut to: usize = v.len();
    assert(v@.subrange(from as int, to as int) == v@.skip(from as int));
    while to > from && is_space_char(v[to - 1])
        invariant
            from <= to <= v.len(),
            trim(v@) == trim_end(v@.subrange(from as int, to as int)),
        decreases to,
    {
        assert(v@.subrange(from as int, to as int).drop_last() == v@.subrange(
            from as int,
            to - 1,
        ));
        to -= 1;
    }
    slice_of(v, from, to)
}

/// `s` without any run of `c` at its end.
pub open spec fn without_trailing(s: Seq<char>, c: char) -> Seq<char>
    decreases s.len(),
{
    if s.len() > 0 && s.last() == c {
        without_trailing(s.drop_last(), c)
    } else {
        s
    }
}

/// `v` without any run of `c` at its end.
pub fn strip_trailing(v: &Vec<char>, c: char) -> (out: Vec<char>)
    ensures
        out@ == without_trailing(v@, c),
{
    let mut to: usize = v.len();
    assert(v@.take(to as int) == v@);
    while to > 0 && v[to - 1] == c
        invariant
            to <= v.len(),
            without_trailing(v@, c) == without_trailing(v@.take(to as int), c),
        decreases to,
    {
        assert(v@.take(to as int).drop_last() == v@.take(to - 1));
        to -= 1;
    }
    assert(v@.take(to as int) == v@.subrange(0, to as int));
    slice_of(v, 0, to)
}

/// The pieces of `s` between occurrences of `c`. There is always at least
/// one piece; a text without `c` is its own single piece, and two `c` in a
/// row have an empty piece between them.
pub open spec fn split(s: Seq<char>, c: char) -> Seq<Seq<char>>
    decreases s.len(),
{
    if s.len() == 0 {
        seq![Seq::<char>::empty()]
    } else {
        let before = split(s.drop_last(), c);
        if s.last() == c {
            before.push(Seq::<char>::empty())
        } else {
            before.drop_last().push(before.last().push(s.last()))
        }
    }
}

/// A split always has a first piece.
pub proof fn lemma_split_nonempty(s: Seq<char>, c: char)
    ensures
        split(s, c).len() >= 1,
    decreases s.len(),
{
    if s.len() > 0 {
        lemma_split_nonempty(s.drop_last(), c);
    }
}

/// A text in which `c` does not occur is the only piece of its split.
pub proof fn lemma_split_without(s: Seq<char>, c: char)
    requires
        !s.contains(c),
    ensures
        split(s, c) == seq![s],
    decreases s.len(),
{
    if s.len() > 0 {
        let init = s.drop_last();
        assert forall|i: int| 0 <= i < init.len() implies init[i] != c by {
            assert(s[i] == init[i]);
            assert(s.contains(s[i]));
        }
        assert(!init.contains(c));
        lemma_split_without(init, c);
        assert(s.contains(s.last()));
        assert(init.push(s.last()) == s);
        assert(seq![init].drop_last().push(init.push(s.last())) == seq![s]);
    } else {
        assert(s == Seq::<char>::empty());
    }
}

/// When `c` does not occur in `head`, the split of `head`, `c`, `tail` has
/// `head` as its first piece, whatever `tail` is.
pub proof fn lemma_split_first(head: Seq<char>, c: char, tail: Seq<char>)
    requires
        !head.contains(c),
    ensures
        split(head.push(c) + tail, c).len() >= 2,
        split(head.push(c) + tail, c)[0] == head,
    decreases tail.len(),
{
    let whole = head.push(c) + tail;
    if tail.len() == 0 {
        assert(whole.drop_last() == head);
        assert(whole.last() == c);
        lemma_split_without(head, c);
    } else {
        let shorter = head.push(c) + tail.drop_last();
        assert(whole.drop_last() == shorter);
        assert(whole.last() == tail.last());
        lemma_split_first(head, c, tail.drop_last());
    }
}

/// The pieces of `v` between occurrences of `c`.
pub fn split_on(v: &Vec<char>, c: char) -> (parts: Vec<Vec<char>>)
    ensures
        parts.len() >= 1,
        parts.len() == split(v@, c).len(),
        forall|k: int| 0 <= k < parts.len() ==> (#[trigger] parts@[k])@ == split(v@, c)[k],
{
    let mut parts: Vec<Vec<char>> = Vec::new();
    let mut piece: Vec<char> = Vec::new();
    let mut i: usize = 0;
    assert(v@.take(0) == Seq::<char>::empty());
    while i < v.len()
        invariant
            i <= v.len(),
            split(v@.take(i as int), c).len() == parts.len() + 1,
            forall|k: int|
                0 <= k < parts.len() ==> (#[trigger] parts@[k])@ == split(v@.take(i as int), c)[k],
            piece@ == split(v@.take(i as int), c).last(),
        decreases v.len() - i,
    {
        assert(v@.take(i + 1).drop_last() == v@.take(i as int));
        if v[i] == c {
            parts.push(piece);
            piece = Vec::new();
        } else {
            piece.push(v[i]);
        }
        i += 1;
    }
    assert(v@.take(v@.len() as int) == v@);
    parts.push(piece);
    parts
}

/// `s` with every `c` replaced by the text `with`.
pub open spec fn replace(s: Seq<char>, c: char, with: Seq<char>) -> Seq<char>
    decreases s.len(),
{
    if s.len() == 0 {
        Seq::<char>::empty()
    } else if s.last() == c {
        replace(s.drop_last(), c, with) + with
    } else {
        replace(s.drop_last(), c, with).push(s.last())
    }
}

/// `v` with every `c` replaced by the text `with`.
pub fn replaced(v: &Vec<char>, c: char, with: &Vec<char>) -> (out: Vec<char>)
    ensures
        out@ == replace(v@, c, with@),
{
    let mut out: Vec<char> = Vec::new();
    let mut i: usize = 0;
    assert(v@.take(0) == Seq::<char>::empty());
    while i < v.len()
        invariant
            i <= v.len(),
            out@ == replace(v@.take(i as int), c, with@),
        decreases v.len() - i,
    {
        assert(v@.take(i + 1).drop_last() == v@.take(i as int));
        if v[i] == c {
            append_chars(&mut out, with);
        } else {
            out.push(v[i]);
        }
        i += 1;
    }
    assert(v@.take(v@.len() as int) == v@);
    out
}

/// The texts of `parts` in order, with `sep` between each two neighbours.
pub open spec fn join(parts: Seq<Seq<char>>, sep: Seq<char>) -> Seq<char>
    decreases parts.len(),
{
    if parts.len() == 0 {
        Seq::<char>::empty()
    } else if parts.len() == 1 {
        parts[0]
    } else {
        join(parts.drop_last(), sep) + sep + parts.last()
    }
}

/// The texts behind a sequence of strings.
pub open spec fn texts(names: Seq<String>) -> Seq<Seq<char>> {
    Seq::new(names.len(), |i: int| names[i]@)
}

/// The texts of `parts[from..]` in order, with `sep` between each two
/// neighbours.
pub fn join_from(parts: &Vec<String>, from: usize, sep: &str) -> (out: Vec<char>)
    requires
        from <= parts.len(),
    ensures
        out@ == join(texts(parts@).skip(from as int), sep@),
{
    let ghost rest = texts(parts@).skip(from as int);
    let sep_chars = chars_of(sep);
    let mut out: Vec<char> = Vec::new();
    let mut k: usize = from;
    assert(rest.take(0) == Seq::<Seq<char>>::empty());
    while k < parts.len()
        invariant
            from <= k <= parts.len(),
            rest == texts(parts@).skip(from as int),
            sep_chars@ == sep@,
            out@ == join(rest.take(k - from), sep@),
        decreases parts.len() - k,
    {
        if k > from {
            append_chars(&mut out, &sep_chars);
        }
        let part = chars_of(parts[k].as_str());
        append_chars(&mut out, &part);
        proof {
            let upto = rest.take(k + 1 - from);
            assert(upto.drop_last() == rest.take(k - from));
            assert(upto.last() == part@);
            if k == from {
                assert(out@ == part@);
            }
        }
        k += 1;
    }
    assert(rest.take(rest.len() as int) == rest);
    out
}

} // verus!
