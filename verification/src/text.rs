//! Characters and character sequences: ASCII case folding and the bridge
//! between `str`, `String` and `Vec<char>`.

use vstd::prelude::*;

verus! {

/// `c` with an ASCII capital replaced by its small letter.
pub open spec fn lower_char(c: char) -> char {
    if 'A' <= c && c <= 'Z' {
        ((c as u8) + 32) as char
    } else {
        c
    }
}

/// `s` with every ASCII capital replaced by its small letter.
pub open spec fn lowercase(s: Seq<char>) -> Seq<char> {
    Seq::new(s.len(), |i: int| lower_char(s[i]))
}

/// Whether `s` holds no ASCII capital.
pub open spec fn is_lowercase(s: Seq<char>) -> bool {
    forall|i: int| 0 <= i < s.len() ==> !('A' <= #[trigger] s[i] && s[i] <= 'Z')
}

/// Folding twice is folding once.
pub proof fn lemma_lowercase_idempotent(s: Seq<char>)
    ensures
        is_lowercase(lowercase(s)),
        lowercase(lowercase(s)) == lowercase(s),
{
    assert(lowercase(lowercase(s)) =~= lowercase(s));
}

/// A sequence without capitals is its own folding.
pub proof fn lemma_lowercase_fixed(s: Seq<char>)
    requires
        is_lowercase(s),
    ensures
        lowercase(s) == s,
{
    assert(lowercase(s) =~= s);
}

/// Index of the first `c` in `s`, or -1 where `s` holds none.
pub open spec fn first_index_of(s: Seq<char>, c: char) -> int
    decreases s.len(),
{
    if s.len() == 0 {
        -1
    } else if s[0] == c {
        0
    } else {
        let rest = first_index_of(s.drop_first(), c);
        if rest < 0 {
            -1
        } else {
            rest + 1
        }
    }
}

/// What `first_index_of` finds: a place that holds `c`, with none before it.
pub proof fn lemma_first_index_of(s: Seq<char>, c: char)
    ensures
        -1 <= first_index_of(s, c) < s.len(),
        first_index_of(s, c) >= 0 ==> s[first_index_of(s, c)] == c,
        first_index_of(s, c) >= 0 ==> forall|j: int| 0 <= j < first_index_of(s, c) ==> s[j] != c,
        first_index_of(s, c) < 0 ==> forall|j: int| 0 <= j < s.len() ==> s[j] != c,
    decreases s.len(),
{
    if s.len() > 0 && s[0] != c {
        let rest = s.drop_first();
        lemma_first_index_of(rest, c);
        assert forall|j: int| 0 <= j < s.len() && (first_index_of(s, c) < 0 || j < first_index_of(
            s,
            c,
        )) implies s[j] != c by {
            if j > 0 {
                assert(rest[j - 1] == s[j]);
            }
        }
    }
}

/// Any place that holds `c` with none before it is the one `first_index_of` finds.
pub proof fn lemma_first_index_of_unique(s: Seq<char>, c: char, i: int)
    requires
        0 <= i < s.len(),
        s[i] == c,
        forall|j: int| 0 <= j < i ==> s[j] != c,
    ensures
        first_index_of(s, c) == i,
{
    lemma_first_index_of(s, c);
}

/// Index of the last `c` in `s`, or -1 where `s` holds none.
pub open spec fn last_index_of(s: Seq<char>, c: char) -> int
    decreases s.len(),
{
    if s.len() == 0 {
        -1
    } else if s.last() == c {
        s.len() - 1
    } else {
        last_index_of(s.drop_last(), c)
    }
}

/// What `last_index_of` finds: a place that holds `c`, with none after it.
pub proof fn lemma_last_index_of(s: Seq<char>, c: char)
    ensures
        -1 <= last_index_of(s, c) < s.len(),
        last_index_of(s, c) >= 0 ==> s[last_index_of(s, c)] == c,
        forall|j: int| last_index_of(s, c) < j < s.len() ==> s[j] != c,
    decreases s.len(),
{
    if s.len() > 0 && s.last() != c {
        lemma_last_index_of(s.drop_last(), c);
        assert forall|j: int| last_index_of(s, c) < j < s.len() implies s[j] != c by {
            if j < s.len() - 1 {
                assert(s.drop_last()[j] == s[j]);
            }
        }
    }
}

/// Any place that holds `c` with none after it is the one `last_index_of` finds.
pub proof fn lemma_last_index_of_unique(s: Seq<char>, c: char, i: int)
    requires
        -1 <= i < s.len(),
        i >= 0 ==> s[i] == c,
        forall|j: int| i < j < s.len() ==> s[j] != c,
    ensures
        last_index_of(s, c) == i,
{
    lemma_last_index_of(s, c);
}

/// The last `c` of a tail of `s` is the last `c` of `s`, where that lies in the tail.
pub proof fn lemma_last_index_of_tail(s: Seq<char>, c: char, from: int)
    requires
        0 <= from <= s.len(),
    ensures
        last_index_of(s.subrange(from, s.len() as int), c) == if last_index_of(s, c) >= from {
            last_index_of(s, c) - from
        } else {
            -1
        },
{
    lemma_last_index_of(s, c);
    let tail = s.subrange(from, s.len() as int);
    let whole = last_index_of(s, c);
    let at = if whole >= from {
        whole - from
    } else {
        -1
    };
    assert forall|j: int| at < j < tail.len() implies tail[j] != c by {
        assert(tail[j] == s[j + from]);
    }
    lemma_last_index_of_unique(tail, c, at);
}

/// Folds one character.
pub fn to_lower(c: char) -> (r: char)
    ensures
        r == lower_char(c),
{
    if 'A' <= c && c <= 'Z' {
        ((c as u8) + 32u8) as char
    } else {
        c
    }
}

/// The characters of `s`, in order.
pub fn chars_of(s: &str) -> (v: Vec<char>)
    ensures
        v@ == s@,
{
    let mut v: Vec<char> = Vec::new();
    for c in it: s.chars()
        invariant
            it.seq() == s@,
            v@ == s@.take(it.index() as int),
    {
        v.push(c);
    }
    v
}

/// `String::push`: the string grows by exactly the character given, at its end.
#[verifier::external_body]
pub(crate) fn push_char(out: &mut String, c: char)
    ensures
        final(out)@ == old(out)@.push(c),
{
    out.push(c);
}

/// Appends `chars[from..to]` to `out`.
pub(crate) fn push_range(out: &mut String, chars: &Vec<char>, from: usize, to: usize)
    requires
        from <= to <= chars.len(),
    ensures
        final(out)@ == old(out)@ + chars@.subrange(from as int, to as int),
{
    let mut i: usize = from;
    while i < to
        invariant
            from <= i <= to <= chars.len(),
            out@ == old(out)@ + chars@.subrange(from as int, i as int),
        decreases to - i,
    {
        push_char(out, chars[i]);
        i += 1;
    }
}

/// Appends `text` to `out`.
pub(crate) fn push_text(out: &mut String, text: &str)
    ensures
        final(out)@ == old(out)@ + text@,
{
    let chars = chars_of(text);
    push_range(out, &chars, 0, chars.len());
    assert(chars@.subrange(0, chars.len() as int) =~= text@);
}

/// The characters `chars[from..to]` as a string.
pub(crate) fn text_of(chars: &Vec<char>, from: usize, to: usize) -> (text: String)
    requires
        from <= to <= chars.len(),
    ensures
        text@ == chars@.subrange(from as int, to as int),
{
    let mut text = String::new();
    push_range(&mut text, chars, from, to);
    assert(text@ =~= chars@.subrange(from as int, to as int));
    text
}

/// Appends `chars[from..to]`, folded to lower case, to `out`.
pub(crate) fn push_range_lowercase(out: &mut String, chars: &Vec<char>, from: usize, to: usize)
    requires
        from <= to <= chars.len(),
    ensures
        final(out)@ == old(out)@ + lowercase(chars@.subrange(from as int, to as int)),
{
    let mut i: usize = from;
    while i < to
        invariant
            from <= i <= to <= chars.len(),
            out@ == old(out)@ + lowercase(chars@.subrange(from as int, i as int)),
        decreases to - i,
    {
        push_char(out, to_lower(chars[i]));
        i += 1;
    }
}

} // verus!
