use vstd::prelude::*;

verus! {

/// The pieces of `s` between occurrences of `sep`, in order; there is always
/// at least one piece, and consecutive separators give empty pieces.
pub open spec fn split_spec(s: Seq<char>, sep: char) -> Seq<Seq<char>>
    decreases s.len(),
{
    if s.len() == 0 {
        seq![Seq::<char>::empty()]
    } else {
        let prev = split_spec(s.drop_last(), sep);
        if s.last() == sep {
            prev.push(Seq::<char>::empty())
        } else {
            prev.update(prev.len() - 1, prev.last().push(s.last()))
        }
    }
}

/// The character views of a vector of strings.
pub open spec fn views(v: Seq<String>) -> Seq<Seq<char>> {
    v.map_values(|p: String| p@)
}

pub proof fn lemma_split_nonempty(s: Seq<char>, sep: char)
    ensures
        split_spec(s, sep).len() >= 1,
    decreases s.len(),
{
    if s.len() > 0 {
        lemma_split_nonempty(s.drop_last(), sep);
    }
}

/// Text without the separator is one piece.
pub proof fn lemma_split_no_sep(s: Seq<char>, sep: char)
    requires
        !s.contains(sep),
    ensures
        split_spec(s, sep) == seq![s],
    decreases s.len(),
{
    if s.len() > 0 {
        let p = s.drop_last();
        assert(!p.contains(sep)) by {
            if p.contains(sep) {
                let i = choose|i: int| 0 <= i < p.len() && p[i] == sep;
                assert(s[i] == sep);
            }
        }
        lemma_split_no_sep(p, sep);
        assert(s[s.len() - 1] != sep);
        assert(p.push(s.last()) =~= s);
        assert(seq![p].update(0, p.push(s.last())) =~= seq![s]);
    } else {
        assert(s =~= Seq::<char>::empty());
    }
}

/// Joining two texts with the separator joins their pieces.
pub proof fn lemma_split_concat(x: Seq<char>, y: Seq<char>, sep: char)
    ensures
        split_spec(x + seq![sep] + y, sep) == split_spec(x, sep) + split_spec(y, sep),
    decreases y.len(),
{
    let z = x + seq![sep] + y;
    lemma_split_nonempty(x, sep);
    if y.len() == 0 {
        assert(z.drop_last() =~= x);
        assert(split_spec(x, sep).push(Seq::<char>::empty()) =~= split_spec(x, sep) + seq![
            Seq::<char>::empty(),
        ]);
    } else {
        let y1 = y.drop_last();
        lemma_split_concat(x, y1, sep);
        lemma_split_nonempty(y1, sep);
        assert(z.drop_last() =~= x + seq![sep] + y1);
        assert(z.last() == y.last());
        let a = split_spec(x, sep);
        let b = split_spec(y1, sep);
        if y.last() == sep {
            assert((a + b).push(Seq::<char>::empty()) =~= a + b.push(Seq::<char>::empty()));
        } else {
            assert((a + b).update((a + b).len() - 1, (a + b).last().push(y.last())) =~= a
                + b.update(b.len() - 1, b.last().push(y.last())));
        }
    }
}

/// Relies on `String::push`: appends one character.
#[verifier::external_body]
pub(crate) fn push_char(s: &mut String, c: char)
    ensures
        final(s)@ == old(s)@.push(c),
{
    s.push(c)
}

/// Splits `s` at every occurrence of `sep`.
pub fn split_on(s: &str, sep: char) -> (r: Vec<String>)
    ensures
        views(r@) == split_spec(s@, sep),
{
    let mut parts: Vec<String> = Vec::new();
    let mut cur = String::new();
    proof {
        broadcast use vstd::string::axiom_spec_iter;
        assert(s@.subrange(0, 0).len() == 0);
    }
    for c in it: s.chars()
        invariant
            it.seq() == s@,
            0 <= it.index() <= s@.len(),
            views(parts@).push(cur@) == split_spec(s@.subrange(0, it.index() as int), sep),
    {
        let ghost i = it.index() as int;
        let ghost pre = s@.subrange(0, i);
        let ghost nxt = s@.subrange(0, i + 1);
        proof {
            assert(nxt.drop_last() == pre);
            assert(nxt.last() == c);
        }
        let ghost old_parts = parts@;
        let ghost old_cur = cur@;
        if c == sep {
            let done = cur;
            parts.push(done);
            cur = String::new();
            proof {
                assert(views(parts@) =~= views(old_parts).push(old_cur));
            }
        } else {
            push_char(&mut cur, c);
            proof {
                assert(views(parts@).push(cur@) =~= views(old_parts).push(old_cur).update(
                    views(old_parts).len() as int,
                    old_cur.push(c),
                ));
            }
        }
    }
    proof {
        assert(s@.subrange(0, s@.len() as int) == s@);
    }
    parts.push(cur);
    proof {
        assert(views(parts@) =~= views(parts@.drop_last()).push(parts@.last()@));
    }
    parts
}

} // verus!
