//! The tag-list encoding used by storage: tags are kept in one text column,
//! joined with commas, and split on commas when read back. The encoding is
//! exact for non-empty tag lists whose tags contain no comma; that bound is
//! part of the round-trip law below.

use vstd::prelude::*;

verus! {

/// The views of a sequence of strings.
pub open spec fn strings_view(v: Seq<String>) -> Seq<Seq<char>> {
    Seq::new(v.len(), |i: int| v[i]@)
}

/// `t` contains no comma.
pub open spec fn no_comma(t: Seq<char>) -> bool {
    forall|i: int| 0 <= i < t.len() ==> t[i] != ','
}

/// The comma-joined form of a tag list: the tags in order, one comma
/// between neighbours, nothing else. An empty list joins to the empty text.
pub open spec fn join_tags(tags: Seq<Seq<char>>) -> Seq<char>
    decreases tags.len(),
{
    if tags.len() == 0 {
        Seq::empty()
    } else if tags.len() == 1 {
        tags[0]
    } else {
        tags[0] + seq![','] + join_tags(tags.drop_first())
    }
}

/// The comma-split form of a text: the maximal comma-free pieces between
/// commas, in order. Empty text splits to one empty tag, as splitting on a
/// delimiter always yields one piece more than there are delimiters.
pub open spec fn split_tags(s: Seq<char>) -> Seq<Seq<char>>
    decreases s.len(),
{
    if s.len() == 0 {
        seq![Seq::<char>::empty()]
    } else if s[0] == ',' {
        seq![Seq::<char>::empty()] + split_tags(s.drop_first())
    } else {
        let rest = split_tags(s.drop_first());
        seq![seq![s[0]] + rest[0]] + rest.drop_first()
    }
}

/// Splitting always yields at least one piece.
pub proof fn lemma_split_nonempty(s: Seq<char>)
    ensures
        split_tags(s).len() >= 1,
    decreases s.len(),
{
    if s.len() != 0 {
        lemma_split_nonempty(s.drop_first());
    }
}

/// A comma-free text splits to exactly itself.
pub proof fn lemma_split_no_comma(s: Seq<char>)
    requires
        no_comma(s),
    ensures
        split_tags(s) == seq![s],
    decreases s.len(),
{
    if s.len() == 0 {
        assert(s =~= Seq::<char>::empty());
        assert(split_tags(s) =~= seq![s]);
    } else {
        assert(s[0] != ',');
        assert(no_comma(s.drop_first()));
        lemma_split_no_comma(s.drop_first());
        assert(seq![s[0]] + s.drop_first() =~= s);
        assert(split_tags(s) =~= seq![s]);
    }
}

/// A comma-free prefix is absorbed into the first piece of the split.
pub proof fn lemma_split_prefix(t: Seq<char>, u: Seq<char>)
    requires
        no_comma(t),
    ensures
        split_tags(t + u) == seq![t + split_tags(u)[0]] + split_tags(u).drop_first(),
    decreases t.len(),
{
    lemma_split_nonempty(u);
    if t.len() == 0 {
        assert(t + u =~= u);
        assert(t + split_tags(u)[0] =~= split_tags(u)[0]);
        assert(seq![t + split_tags(u)[0]] + split_tags(u).drop_first() =~= split_tags(u));
    } else {
        let s = t + u;
        assert(s.len() > 0);
        assert(s[0] == t[0]);
        assert(s[0] != ',');
        assert(s.drop_first() =~= t.drop_first() + u);
        assert(no_comma(t.drop_first()));
        lemma_split_prefix(t.drop_first(), u);
        let rest = split_tags(s.drop_first());
        assert(rest == seq![t.drop_first() + split_tags(u)[0]] + split_tags(u).drop_first());
        assert(rest[0] == t.drop_first() + split_tags(u)[0]);
        assert(seq![s[0]] + rest[0] =~= t + split_tags(u)[0]);
        assert(rest.drop_first() =~= split_tags(u).drop_first());
        assert(split_tags(s) =~= seq![t + split_tags(u)[0]] + split_tags(u).drop_first());
    }
}

/// The round-trip law of the encoding: a non-empty tag list whose tags are
/// comma-free is recovered exactly, in order, by splitting its joined form.
pub proof fn lemma_join_then_split(tags: Seq<Seq<char>>)
    requires
        tags.len() >= 1,
        forall|i: int| 0 <= i < tags.len() ==> no_comma(#[trigger] tags[i]),
    ensures
        split_tags(join_tags(tags)) == tags,
    decreases tags.len(),
{
    if tags.len() == 1 {
        lemma_split_no_comma(tags[0]);
        assert(split_tags(join_tags(tags)) =~= tags);
    } else {
        let u = seq![','] + join_tags(tags.drop_first());
        assert(join_tags(tags) == tags[0] + u) by {
            assert(tags[0] + seq![','] + join_tags(tags.drop_first()) =~= tags[0] + u);
        }
        assert(u[0] == ',');
        assert(u.drop_first() =~= join_tags(tags.drop_first()));
        assert(split_tags(u) == seq![Seq::<char>::empty()] + split_tags(
            join_tags(tags.drop_first()),
        ));
        lemma_join_then_split(tags.drop_first());
        lemma_split_prefix(tags[0], u);
        assert(split_tags(u)[0] =~= Seq::<char>::empty());
        assert(tags[0] + split_tags(u)[0] =~= tags[0]);
        assert(split_tags(u).drop_first() =~= tags.drop_first());
        assert(split_tags(join_tags(tags)) =~= tags);
    }
}

/// Relies on std's `String::push`: appends the given character to the end
/// of the string.
#[verifier::external_body]
fn push_char(s: &mut String, c: char)
    ensures
        final(s)@ == old(s)@.push(c),
{
    s.push(c)
}

/// Joining one more tag onto a joined prefix appends a comma and the tag,
/// or is the tag itself when the prefix is empty.
proof fn lemma_join_snoc(p: Seq<Seq<char>>, x: Seq<char>)
    ensures
        p.len() == 0 ==> join_tags(p.push(x)) == x,
        p.len() > 0 ==> join_tags(p.push(x)) == join_tags(p) + seq![','] + x,
    decreases p.len(),
{
    if p.len() == 0 {
        assert(p.push(x)[0] == x);
    } else if p.len() == 1 {
        let q = p.push(x);
        assert(q.drop_first() =~= seq![x]);
        assert(join_tags(q.drop_first()) == x);
        assert(join_tags(q) == p[0] + seq![','] + x);
        assert(join_tags(p) == p[0]);
    } else {
        let q = p.push(x);
        assert(q.drop_first() =~= p.drop_first().push(x));
        lemma_join_snoc(p.drop_first(), x);
        assert(join_tags(q) == q[0] + seq![','] + (join_tags(p.drop_first()) + seq![','] + x));
        assert(q[0] + seq![','] + (join_tags(p.drop_first()) + seq![','] + x) =~= (p[0] + seq![
            ',',
        ] + join_tags(p.drop_first())) + seq![','] + x);
    }
}

/// Builds the comma-joined form of `tags`.
pub fn join_tags_exec(tags: &Vec<String>) -> (r: String)
    ensures
        r@ == join_tags(strings_view(tags@)),
{
    let mut r = String::new();
    let mut i: usize = 0;
    proof {
        assert(strings_view(tags@).take(0) =~= Seq::<Seq<char>>::empty());
    }
    while i < tags.len()
        invariant
            i <= tags.len(),
            r@ == join_tags(strings_view(tags@).take(i as int)),
        decreases tags.len() - i,
    {
        proof {
            lemma_join_snoc(strings_view(tags@).take(i as int), tags@[i as int]@);
            assert(strings_view(tags@).take(i as int).push(tags@[i as int]@) =~= strings_view(
                tags@,
            ).take(i as int + 1));
        }
        if i > 0 {
            push_char(&mut r, ',');
            proof {
                assert(join_tags(strings_view(tags@).take(i as int)).push(',') =~= join_tags(
                    strings_view(tags@).take(i as int),
                ) + seq![',']);
            }
        }
        r.append(tags[i].as_str());
        i = i + 1;
    }
    proof {
        assert(strings_view(tags@).take(tags@.len() as int) =~= strings_view(tags@));
    }
    r
}

/// Splits `s` on commas into its pieces.
pub fn split_tags_exec(s: &String) -> (r: Vec<String>)
    ensures
        strings_view(r@) == split_tags(s@),
{
    let len = s.as_str().unicode_len();
    let mut done: Vec<String> = Vec::new();
    let mut cur = String::new();
    let mut i: usize = 0;
    proof {
        assert(s@.skip(0) =~= s@);
        lemma_split_nonempty(s@);
        assert(strings_view(done@) =~= Seq::<Seq<char>>::empty());
        assert(strings_view(done@) + seq![cur@ + split_tags(s@.skip(0))[0]] + split_tags(
            s@.skip(0),
        ).drop_first() =~= split_tags(s@));
    }
    while i < len
        invariant
            i <= len,
            len == s@.len(),
            strings_view(done@) + seq![cur@ + split_tags(s@.skip(i as int))[0]] + split_tags(
                s@.skip(i as int),
            ).drop_first() =~= split_tags(s@),
        decreases len - i,
    {
        let ghost rest = s@.skip(i as int);
        proof {
            assert(rest.len() > 0);
            assert(rest[0] == s@[i as int]);
            assert(rest.drop_first() =~= s@.skip(i as int + 1));
            lemma_split_nonempty(rest.drop_first());
        }
        let c = s.as_str().get_char(i);
        if c == ',' {
            proof {
                assert(split_tags(rest) == seq![Seq::<char>::empty()] + split_tags(
                    rest.drop_first(),
                ));
                assert(cur@ + split_tags(rest)[0] =~= cur@);
            }
            let finished = cur;
            cur = String::new();
            done.push(finished);
            proof {
                let next = split_tags(s@.skip(i as int + 1));
                assert(strings_view(done@) =~= strings_view(done@.drop_last()) + seq![
                    finished@,
                ]);
                assert(split_tags(rest).drop_first() =~= next);
                assert(next =~= seq![next[0]] + next.drop_first());
                assert(strings_view(done@) + seq![cur@ + next[0]] + next.drop_first()
                    =~= split_tags(s@));
            }
        } else {
            proof {
                let rest2 = split_tags(rest.drop_first());
                assert(split_tags(rest) == seq![seq![rest[0]] + rest2[0]] + rest2.drop_first());
                assert(cur@.push(c) + rest2[0] =~= cur@ + split_tags(rest)[0]);
            }
            push_char(&mut cur, c);
        }
        i = i + 1;
    }
    proof {
        let rest = s@.skip(len as int);
        assert(rest =~= Seq::<char>::empty());
        assert(split_tags(rest) == seq![Seq::<char>::empty()]);
        assert(cur@ + split_tags(rest)[0] =~= cur@);
        assert(split_tags(rest).drop_first() =~= Seq::<Seq<char>>::empty());
        assert(strings_view(done@) + seq![cur@] =~= split_tags(s@));
    }
    done.push(cur);
    proof {
        assert(strings_view(done@) =~= strings_view(done@.drop_last()) + seq![
            done@.last()@,
        ]);
        assert(strings_view(done@) =~= split_tags(s@));
    }
    done
}

} // verus!
