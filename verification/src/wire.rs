//! The Nacos wire conventions shared by the HTTP listener and the gRPC
//! front end: records separated by `\x01`, fields within a record separated
//! by `\x02`, and a verified splitter for both.

use vstd::prelude::*;

verus! {

/// Separates the fields of one listener record.
pub const FIELD_SEP: char = '\u{2}';

/// Separates listener records from one another.
pub const RECORD_SEP: char = '\u{1}';

/// Splitting `s` at `sep`, with `acc` the part of the current field read so
/// far. Mirrors `str::split`: an input without the separator is one field,
/// and every separator ends a field, so `n` separators give `n + 1` fields.
pub open spec fn split_rec(s: Seq<char>, sep: char, acc: Seq<char>) -> Seq<Seq<char>>
    decreases s.len(),
{
    if s.len() == 0 {
        seq![acc]
    } else if s[0] == sep {
        seq![acc] + split_rec(s.skip(1), sep, Seq::empty())
    } else {
        split_rec(s.skip(1), sep, acc.push(s[0]))
    }
}

/// The fields of `s`, split at every occurrence of `sep`.
pub open spec fn split_at_sep(s: Seq<char>, sep: char) -> Seq<Seq<char>> {
    split_rec(s, sep, Seq::empty())
}

/// Whether `c` occurs in `s`.
pub open spec fn seq_has_char(s: Seq<char>, c: char) -> bool {
    exists|i: int| 0 <= i < s.len() && s[i] == c
}

proof fn lemma_split_rec_no_sep(s: Seq<char>, sep: char, acc: Seq<char>)
    requires
        !seq_has_char(s, sep),
    ensures
        split_rec(s, sep, acc) == seq![acc + s],
    decreases s.len(),
{
    if s.len() == 0 {
        assert(acc + s =~= acc);
    } else {
        assert(s[0] != sep);
        assert(!seq_has_char(s.skip(1), sep)) by {
            assert(forall|i: int|
                0 <= i < s.skip(1).len() ==> s.skip(1)[i] == s[i + 1] && s[i + 1] != sep);
        }
        lemma_split_rec_no_sep(s.skip(1), sep, acc.push(s[0]));
        assert(acc.push(s[0]) + s.skip(1) =~= acc + s);
    }
}

/// A string without the separator splits into that one field.
pub proof fn lemma_split_no_sep(s: Seq<char>, sep: char)
    requires
        !seq_has_char(s, sep),
    ensures
        split_at_sep(s, sep) == seq![s],
{
    lemma_split_rec_no_sep(s, sep, Seq::empty());
    assert(Seq::<char>::empty() + s =~= s);
}

proof fn lemma_split_rec_sep_concat(a: Seq<char>, b: Seq<char>, sep: char, acc: Seq<char>)
    requires
        !seq_has_char(a, sep),
    ensures
        split_rec(a + seq![sep] + b, sep, acc) == seq![acc + a] + split_rec(b, sep, Seq::empty()),
    decreases a.len(),
{
    let s = a + seq![sep] + b;
    if a.len() == 0 {
        assert(s[0] == sep);
        assert(s.skip(1) =~= b);
        assert(acc + a =~= acc);
    } else {
        assert(s[0] == a[0] && a[0] != sep);
        assert(!seq_has_char(a.skip(1), sep)) by {
            assert(forall|i: int|
                0 <= i < a.skip(1).len() ==> a.skip(1)[i] == a[i + 1] && a[i + 1] != sep);
        }
        lemma_split_rec_sep_concat(a.skip(1), b, sep, acc.push(a[0]));
        assert(s.skip(1) =~= a.skip(1) + seq![sep] + b);
        assert(acc.push(a[0]) + a.skip(1) =~= acc + a);
    }
}

/// Splitting `a \x_sep b` where `a` is free of the separator yields `a`
/// followed by the fields of `b`.
pub proof fn lemma_split_sep_concat(a: Seq<char>, b: Seq<char>, sep: char)
    requires
        !seq_has_char(a, sep),
    ensures
        split_at_sep(a + seq![sep] + b, sep) == seq![a] + split_at_sep(b, sep),
{
    lemma_split_rec_sep_concat(a, b, sep, Seq::empty());
    assert(Seq::<char>::empty() + a =~= a);
}

/// Whether two strings hold the same characters.
pub fn str_eq(a: &str, b: &str) -> (r: bool)
    ensures
        r == (a@ == b@),
{
    let x = a.to_owned();
    let y = b.to_owned();
    x == y
}

/// Splits `s` at every occurrence of `sep`, as `str::split` does.
pub fn split_char(s: &str, sep: char) -> (r: Vec<String>)
    ensures
        r@.map_values(|f: String| f@) == split_at_sep(s@, sep),
        r@.len() >= 1,
{
    let len = s.unicode_len();
    let mut r: Vec<String> = Vec::new();
    let mut start: usize = 0;
    let mut i: usize = 0;
    proof {
        assert(s@.skip(0) =~= s@);
        assert(s@.subrange(0, 0) =~= Seq::<char>::empty());
        assert(r@.map_values(|f: String| f@) =~= Seq::<Seq<char>>::empty());
    }
    while i < len
        invariant
            start <= i <= len,
            len == s@.len(),
            split_at_sep(s@, sep) == r@.map_values(|f: String| f@) + split_rec(
                s@.skip(i as int),
                sep,
                s@.subrange(start as int, i as int),
            ),
        decreases len - i,
    {
        let ghost pre = r@.map_values(|f: String| f@);
        let ghost acc = s@.subrange(start as int, i as int);
        assert(s@.skip(i as int)[0] == s@[i as int]);
        let c = s.get_char(i);
        if c == sep {
            let field = s.substring_char(start, i).to_owned();
            proof {
                assert(split_rec(s@.skip(i as int), sep, acc) == seq![acc] + split_rec(
                    s@.skip(i as int).skip(1),
                    sep,
                    Seq::empty(),
                ));
                assert(s@.skip(i as int).skip(1) =~= s@.skip(i + 1));
                assert(field@ == acc);
            }
            r.push(field);
            proof {
                assert(r@.map_values(|f: String| f@) =~= pre + seq![acc]);
                assert(pre + seq![acc] + split_rec(s@.skip(i + 1), sep, Seq::empty()) =~= pre
                    + (seq![acc] + split_rec(s@.skip(i + 1), sep, Seq::empty())));
                assert(s@.subrange(i + 1, i + 1) =~= Seq::<char>::empty());
            }
            start = i + 1;
        } else {
            proof {
                assert(split_rec(s@.skip(i as int), sep, acc) == split_rec(
                    s@.skip(i as int).skip(1),
                    sep,
                    acc.push(s@[i as int]),
                ));
                assert(s@.skip(i as int).skip(1) =~= s@.skip(i + 1));
                assert(acc.push(s@[i as int]) =~= s@.subrange(start as int, i + 1));
            }
        }
        i = i + 1;
    }
    let ghost pre = r@.map_values(|f: String| f@);
    let ghost acc = s@.subrange(start as int, len as int);
    assert(s@.skip(len as int) =~= Seq::<char>::empty());
    assert(split_rec(s@.skip(len as int), sep, acc) == seq![acc]);
    let field = s.substring_char(start, len).to_owned();
    r.push(field);
    assert(r@.map_values(|f: String| f@) =~= pre + seq![acc]);
    r
}

} // verus!
