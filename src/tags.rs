//! Tag lists are persisted as one comma-joined string and split again on read.
use vstd::prelude::*;

verus! {

/// The separator placed between two tags in the persisted form.
pub open spec fn separator() -> char {
    ','
}

/// The persisted form of a tag list: the tags joined by the separator.
/// An empty list gives the empty string.
pub open spec fn join_tags(tags: Seq<Seq<char>>) -> Seq<char>
    decreases tags.len(),
{
    if tags.len() == 0 {
        Seq::empty()
    } else if tags.len() == 1 {
        tags[0]
    } else {
        join_tags(tags.drop_last()).push(separator()) + tags.last()
    }
}

/// The tag list read back from its persisted form: the pieces between
/// separators, empty pieces included. The empty string gives one empty tag.
pub open spec fn split_tags(s: Seq<char>) -> Seq<Seq<char>>
    decreases s.len(),
{
    if s.len() == 0 {
        seq![Seq::empty()]
    } else {
        let parts = split_tags(s.drop_last());
        if s.last() == separator() {
            parts.push(Seq::empty())
        } else {
            parts.update(parts.len() - 1, parts.last().push(s.last()))
        }
    }
}

/// A tag that can be stored: it holds no separator.
pub open spec fn storable_tag(t: Seq<char>) -> bool {
    !t.contains(separator())
}

proof fn lemma_split_nonempty(s: Seq<char>)
    ensures
        split_tags(s).len() >= 1,
    decreases s.len(),
{
    if s.len() > 0 {
        lemma_split_nonempty(s.drop_last());
    }
}

proof fn lemma_split_storable(t: Seq<char>)
    requires
        storable_tag(t),
    ensures
        split_tags(t) == seq![t],
    decreases t.len(),
{
    if t.len() == 0 {
        assert(t =~= Seq::<char>::empty());
    } else {
        let init = t.drop_last();
        assert(storable_tag(init)) by {
            if init.contains(separator()) {
                let k = choose|k: int| 0 <= k < init.len() && init[k] == separator();
                assert(t[k] == separator());
            }
        }
        lemma_split_storable(init);
        assert(t.last() != separator()) by {
            assert(t[t.len() - 1] == t.last());
        }
        assert(init.push(t.last()) =~= t);
        assert(seq![init].update(0, init.push(t.last())) =~= seq![t]);
    }
}

proof fn lemma_split_concat(a: Seq<char>, b: Seq<char>)
    ensures
        split_tags(a.push(separator()) + b) == split_tags(a) + split_tags(b),
    decreases b.len(),
{
    let ab = a.push(separator()) + b;
    if b.len() == 0 {
        assert(ab =~= a.push(separator()));
        assert(ab.drop_last() =~= a);
        assert(split_tags(a).push(Seq::empty()) =~= split_tags(a) + seq![Seq::<char>::empty()]);
    } else {
        let b0 = b.drop_last();
        lemma_split_concat(a, b0);
        lemma_split_nonempty(b0);
        assert(ab.drop_last() =~= a.push(separator()) + b0);
        assert(ab.last() == b.last());
        let pa = split_tags(a);
        let pb = split_tags(b0);
        if b.last() == separator() {
            assert((pa + pb).push(Seq::empty()) =~= pa + pb.push(Seq::empty()));
        } else {
            let whole = pa + pb;
            assert(whole.update(whole.len() - 1, whole.last().push(b.last())) =~= pa + pb.update(
                pb.len() - 1,
                pb.last().push(b.last()),
            ));
        }
    }
}

/// Reading back a stored tag list gives the same list, when the list is not
/// empty and no tag holds the separator.
pub proof fn lemma_tags_round_trip(tags: Seq<Seq<char>>)
    requires
        tags.len() > 0,
        forall|i: int| 0 <= i < tags.len() ==> storable_tag(#[trigger] tags[i]),
    ensures
        split_tags(join_tags(tags)) == tags,
    decreases tags.len(),
{
    if tags.len() == 1 {
        lemma_split_storable(tags[0]);
        assert(seq![tags[0]] =~= tags);
    } else {
        let init = tags.drop_last();
        assert forall|i: int| 0 <= i < init.len() implies storable_tag(#[trigger] init[i]) by {
            assert(init[i] == tags[i]);
        }
        lemma_tags_round_trip(init);
        assert(storable_tag(tags.last())) by {
            assert(tags[tags.len() - 1] == tags.last());
        }
        lemma_split_storable(tags.last());
        lemma_split_concat(join_tags(init), tags.last());
        assert(init + seq![tags.last()] =~= tags);
    }
}

proof fn lemma_join_extend_last(parts: Seq<Seq<char>>, c: char)
    requires
        parts.len() >= 1,
    ensures
        join_tags(parts.update(parts.len() - 1, parts.last().push(c))) == join_tags(parts).push(c),
{
    let q = parts.update(parts.len() - 1, parts.last().push(c));
    if parts.len() > 1 {
        assert(q.drop_last() =~= parts.drop_last());
        assert(join_tags(parts.drop_last()).push(separator()) + parts.last().push(c) =~= (
        join_tags(parts.drop_last()).push(separator()) + parts.last()).push(c));
    }
}

/// Joining the pieces of a split string gives the string back.
pub proof fn lemma_split_then_join(s: Seq<char>)
    ensures
        join_tags(split_tags(s)) == s,
    decreases s.len(),
{
    if s.len() == 0 {
    } else {
        let init = s.drop_last();
        lemma_split_then_join(init);
        lemma_split_nonempty(init);
        let parts = split_tags(init);
        if s.last() == separator() {
            let q = parts.push(Seq::empty());
            assert(q.drop_last() =~= parts);
            assert(join_tags(parts).push(separator()) + Seq::<char>::empty() =~= s);
        } else {
            lemma_join_extend_last(parts, s.last());
            assert(init.push(s.last()) =~= s);
        }
    }
}

/// The views of a list of strings.
pub open spec fn strings_view(v: Seq<String>) -> Seq<Seq<char>> {
    v.map_values(|s: String| s@)
}

/// Joins `tags` with the separator.
pub fn join_tag_list(tags: &Vec<String>) -> (r: String)
    ensures
        r@ == join_tags(strings_view(tags@)),
{
    let mut out = String::new();
    let n = tags.len();
    if n == 0 {
        return out;
    }
    out.append(tags[0].as_str());
    let mut i: usize = 1;
    while i < n
        invariant
            1 <= i <= n,
            n == tags@.len(),
            out@ == join_tags(strings_view(tags@).take(i as int)),
        decreases n - i,
    {
        let ghost before = strings_view(tags@).take(i as int);
        let ghost after = strings_view(tags@).take(i as int + 1);
        proof {
            assert(after.drop_last() =~= before);
            reveal_strlit(",");
        }
        out.append(",");
        out.append(tags[i].as_str());
        assert(out@ =~= join_tags(after));
        i = i + 1;
    }
    assert(strings_view(tags@).take(n as int) =~= strings_view(tags@));
    out
}

/// Splits `s` at every separator, as `str::split` does.
pub fn split_tag_list(s: &str) -> (r: Vec<String>)
    ensures
        strings_view(r@) == split_tags(s@),
{
    let n = s.unicode_len();
    let mut out: Vec<String> = Vec::new();
    let mut start: usize = 0;
    let mut i: usize = 0;
    proof {
        assert(s@.take(0) =~= Seq::<char>::empty());
        assert(strings_view(out@).push(s@.subrange(0, 0)) =~= seq![Seq::<char>::empty()]);
    }
    while i < n
        invariant
            n == s@.len(),
            start <= i <= n,
            strings_view(out@).push(s@.subrange(start as int, i as int)) == split_tags(
                s@.take(i as int),
            ),
        decreases n - i,
    {
        let c = s.get_char(i);
        let ghost done = strings_view(out@);
        let ghost piece = s@.subrange(start as int, i as int);
        proof {
            assert(s@.take(i as int + 1).drop_last() =~= s@.take(i as int));
            assert(s@.take(i as int + 1).last() == c);
        }
        if c == ',' {
            let part = s.substring_char(start, i).to_owned();
            out.push(part);
            start = i + 1;
            proof {
                assert(strings_view(out@) =~= done.push(piece));
                assert(s@.subrange(start as int, i as int + 1) =~= Seq::<char>::empty());
            }
        } else {
            proof {
                assert(s@.subrange(start as int, i as int + 1) =~= piece.push(c));
            }
        }
        i = i + 1;
        proof {
            let pre = done.push(piece);
            assert(split_tags(s@.take(i as int)) == if c == ',' {
                pre.push(Seq::empty())
            } else {
                pre.update(pre.len() - 1, pre.last().push(c))
            });
            assert(strings_view(out@).push(s@.subrange(start as int, i as int)) =~= split_tags(
                s@.take(i as int),
            ));
        }
    }
    let last = s.substring_char(start, n).to_owned();
    out.push(last);
    proof {
        assert(s@.take(n as int) =~= s@);
        assert(strings_view(out@) =~= split_tags(s@));
    }
    out
}

} // verus!
