//! Splitting texts at a separator character.

use vstd::prelude::*;
use vstd::string::*;

verus! {

/// The pieces of `s` between occurrences of `separator`, as `str::split` gives them: one more
/// piece than there are separators, each possibly empty.
pub open spec fn split_on(s: Seq<char>, separator: char) -> Seq<Seq<char>>
    decreases s.len(),
{
    if s.len() == 0 {
        seq![Seq::<char>::empty()]
    } else {
        let parts = split_on(s.drop_last(), separator);
        if s.last() == separator {
            parts.push(Seq::<char>::empty())
        } else {
            parts.update(parts.len() - 1, parts.last().push(s.last()))
        }
    }
}

/// There is always at least one piece.
pub proof fn lemma_split_on_nonempty(s: Seq<char>, separator: char)
    ensures
        split_on(s, separator).len() >= 1,
    decreases s.len(),
{
    if s.len() > 0 {
        lemma_split_on_nonempty(s.drop_last(), separator);
    }
}

/// A text without the separator is a single piece.
pub proof fn lemma_split_on_without_separator(s: Seq<char>, separator: char)
    requires
        !s.contains(separator),
    ensures
        split_on(s, separator) == seq![s],
    decreases s.len(),
{
    if s.len() == 0 {
        assert(s =~= Seq::<char>::empty());
    } else {
        let rest = s.drop_last();
        assert(!rest.contains(separator)) by {
            if rest.contains(separator) {
                let k = choose|k: int| 0 <= k < rest.len() && rest[k] == separator;
                assert(s[k] == separator);
            }
        }
        lemma_split_on_without_separator(rest, separator);
        assert(s.last() != separator) by {
            assert(s[s.len() - 1] == s.last());
        }
        assert(rest.push(s.last()) =~= s);
    }
}

/// Splitting two texts joined by the separator gives the pieces of the first, then those of the
/// second.
pub proof fn lemma_split_on_join(a: Seq<char>, b: Seq<char>, separator: char)
    ensures
        split_on(a + seq![separator] + b, separator) == split_on(a, separator) + split_on(b, separator),
    decreases b.len(),
{
    lemma_split_on_nonempty(a, separator);
    lemma_split_on_nonempty(b, separator);
    let joined = a + seq![separator] + b;
    if b.len() == 0 {
        assert(joined.drop_last() =~= a);
        assert(joined.last() == separator);
        assert(split_on(b, separator) =~= seq![Seq::<char>::empty()]);
        assert(split_on(a, separator).push(Seq::<char>::empty()) =~= split_on(a, separator) + seq![Seq::<char>::empty()]);
    } else {
        let b2 = b.drop_last();
        let c = b.last();
        lemma_split_on_join(a, b2, separator);
        lemma_split_on_nonempty(b2, separator);
        assert(joined.drop_last() =~= a + seq![separator] + b2);
        assert(joined.last() == c);
        let left = split_on(a, separator);
        let right = split_on(b2, separator);
        if c == separator {
            assert((left + right).push(Seq::<char>::empty()) =~= left + right.push(Seq::<char>::empty()));
        } else {
            let whole = left + right;
            assert(whole.last() == right.last());
            assert(whole.update(whole.len() - 1, whole.last().push(c)) =~= left + right.update(
                right.len() - 1,
                right.last().push(c),
            ));
        }
    }
}

/// The views of a sequence of strings.
pub open spec fn strings_view(strings: Seq<String>) -> Seq<Seq<char>> {
    strings.map_values(|s: String| s@)
}

/// Split `s` at every occurrence of `separator`.
pub fn split(s: &str, separator: char) -> (r: Vec<String>)
    ensures
        strings_view(r@) == split_on(s@, separator),
{
    let n = s.unicode_len();
    let mut parts: Vec<String> = Vec::new();
    let mut start: usize = 0;
    let mut i: usize = 0;
    proof {
        assert(s@.take(0) =~= Seq::<char>::empty());
        assert(split_on(s@.take(0), separator) =~= seq![Seq::<char>::empty()]);
        assert(strings_view(parts@).push(s@.subrange(0, 0)) =~= seq![Seq::<char>::empty()]);
    }
    while i < n
        invariant
            n == s@.len(),
            start <= i <= n,
            strings_view(parts@).push(s@.subrange(start as int, i as int)) == split_on(s@.take(i as int), separator),
        decreases n - i,
    {
        let c = s.get_char(i);
        proof {
            assert(s@.take(i + 1).drop_last() =~= s@.take(i as int));
            assert(s@.take(i + 1).last() == c);
            lemma_split_on_nonempty(s@.take(i as int), separator);
        }
        if c == separator {
            let piece = String::from_str(s.substring_char(start, i));
            let ghost before = strings_view(parts@);
            parts.push(piece);
            proof {
                assert(strings_view(parts@) =~= before.push(s@.subrange(start as int, i as int)));
                assert(s@.subrange(i + 1, i + 1) =~= Seq::<char>::empty());
            }
            start = i + 1;
        } else {
            proof {
                assert(s@.subrange(start as int, i + 1) =~= s@.subrange(start as int, i as int).push(c));
                assert(strings_view(parts@).push(s@.subrange(start as int, i + 1)) =~= split_on(s@.take(i + 1), separator));
            }
        }
        i += 1;
    }
    let last = String::from_str(s.substring_char(start, n));
    let ghost before = strings_view(parts@);
    parts.push(last);
    proof {
        assert(strings_view(parts@) =~= before.push(s@.subrange(start as int, n as int)));
        assert(s@.take(n as int) =~= s@);
    }
    parts
}

/// Whether `a` and `b` are the same text.
pub fn same_text(a: &str, b: &str) -> (r: bool)
    ensures
        r == (a@ == b@),
{
    let n = a.unicode_len();
    if n != b.unicode_len() {
        return false;
    }
    let mut i: usize = 0;
    while i < n
        invariant
            n == a@.len() == b@.len(),
            i <= n,
            forall|k: int| 0 <= k < i ==> a@[k] == b@[k],
        decreases n - i,
    {
        if a.get_char(i) != b.get_char(i) {
            return false;
        }
        i += 1;
    }
    proof {
        assert(a@ =~= b@);
    }
    true
}

/// The text `before`, then `middle`, then `after`.
pub fn surround(before: &str, middle: &str, after: &str) -> (r: String)
    ensures
        r@ == before@ + middle@ + after@,
{
    let mut r = before.to_owned();
    r.append(middle);
    r.append(after);
    r
}

} // verus!
