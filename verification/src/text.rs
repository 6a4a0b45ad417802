use vstd::prelude::*;
use vstd::std_specs::iter::IteratorSpec;

verus! {

broadcast use vstd::string::axiom_spec_iter;

/// The characters of `s`, in order.
pub fn str_chars(s: &str) -> (r: Vec<char>)
    ensures
        r@ == s@,
{
    let mut out: Vec<char> = Vec::new();
    for c in iter: s.chars()
        invariant
            out@ == iter.seq().take(iter.index() as int),
    {
        out.push(c);
    }
    out
}

/// ASCII whitespace as `char::is_ascii_whitespace` has it: space, tab, line
/// feed, form feed and carriage return.
pub open spec fn is_ascii_ws(c: char) -> bool {
    c == ' ' || c == '\t' || c == '\n' || c == '\x0C' || c == '\r'
}

pub fn ascii_ws(c: char) -> (r: bool)
    ensures
        r == is_ascii_ws(c),
{
    c == ' ' || c == '\t' || c == '\n' || c == '\x0C' || c == '\r'
}

/// The words of `s` after the pending word `cur`: maximal runs of characters
/// that are not ASCII whitespace.
pub open spec fn split_from(s: Seq<char>, cur: Seq<char>) -> Seq<Seq<char>>
    decreases s.len(),
{
    if s.len() == 0 {
        if cur.len() > 0 {
            seq![cur]
        } else {
            seq![]
        }
    } else if is_ascii_ws(s[0]) {
        (if cur.len() > 0 {
            seq![cur]
        } else {
            seq![]
        }) + split_from(s.drop_first(), seq![])
    } else {
        split_from(s.drop_first(), cur.push(s[0]))
    }
}

/// No word is empty.
pub proof fn lemma_split_from_nonempty(s: Seq<char>, cur: Seq<char>)
    ensures
        forall|i: int| 0 <= i < split_from(s, cur).len() ==> #[trigger] split_from(s, cur)[i].len() > 0,
    decreases s.len(),
{
    if s.len() == 0 {
        if cur.len() > 0 {
            assert(split_from(s, cur) == seq![cur]);
            assert(seq![cur][0] == cur);
        } else {
            assert(split_from(s, cur).len() == 0);
        }
    } else if is_ascii_ws(s[0]) {
        lemma_split_from_nonempty(s.drop_first(), seq![]);
        let head: Seq<Seq<char>> = if cur.len() > 0 { seq![cur] } else { seq![] };
        let rest = split_from(s.drop_first(), seq![]);
        assert(split_from(s, cur) == head + rest);
        assert forall|i: int| 0 <= i < split_from(s, cur).len() implies #[trigger] split_from(s, cur)[i].len() > 0 by {
            if i >= head.len() {
                assert(split_from(s, cur)[i] == rest[i - head.len()]);
            } else {
                assert(head[0] == cur);
            }
        }
    } else {
        lemma_split_from_nonempty(s.drop_first(), cur.push(s[0]));
        assert(split_from(s, cur) == split_from(s.drop_first(), cur.push(s[0])));
    }
}

pub proof fn lemma_words_nonempty(s: Seq<char>)
    ensures
        forall|i: int| 0 <= i < words(s).len() ==> #[trigger] words(s)[i].len() > 0,
{
    lemma_split_from_nonempty(s, seq![]);
}

/// The words of `s`, as `str::split_ascii_whitespace` yields them.
pub open spec fn words(s: Seq<char>) -> Seq<Seq<char>> {
    split_from(s, seq![])
}

/// The words of `s`: its maximal runs of non-whitespace characters, in order.
pub fn split_ascii_whitespace(s: &Vec<char>) -> (r: Vec<Vec<char>>)
    ensures
        r@.len() == words(s@).len(),
        forall|i: int| 0 <= i < r@.len() ==> #[trigger] r@[i]@ == words(s@)[i],
{
    let mut out: Vec<Vec<char>> = Vec::new();
    let mut cur: Vec<char> = Vec::new();
    let mut i: usize = 0;
    let ghost done: Seq<Seq<char>> = seq![];
    assert(s@.skip(0) =~= s@);
    assert(cur@ =~= seq![]);
    assert(done + split_from(s@.skip(0), cur@) =~= words(s@));
    while i < s.len()
        invariant
            0 <= i <= s.len(),
            out@.len() == done.len(),
            forall|k: int| 0 <= k < out@.len() ==> #[trigger] out@[k]@ == done[k],
            words(s@) == done + split_from(s@.skip(i as int), cur@),
        decreases s.len() - i,
    {
        let c = s[i];
        let ghost rest = s@.skip(i as int);
        assert(rest.drop_first() =~= s@.skip(i + 1));
        if ascii_ws(c) {
            if cur.len() > 0 {
                let ghost w = cur@;
                out.push(cur);
                proof {
                    done = done.push(w);
                    assert(words(s@) =~= done + split_from(s@.skip(i + 1), seq![]));
                }
                cur = Vec::new();
            } else {
                assert(cur@ =~= seq![]);
                assert(split_from(rest, cur@) == Seq::<Seq<char>>::empty() + split_from(rest.drop_first(), seq![]));
                assert(words(s@) =~= done + split_from(s@.skip(i + 1), cur@));
            }
        } else {
            cur.push(c);
        }
        i = i + 1;
    }
    if cur.len() > 0 {
        let ghost w = cur@;
        out.push(cur);
        proof {
            done = done.push(w);
        }
    }
    assert(words(s@) =~= done);
    out
}

} // verus!
