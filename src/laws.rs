//! Properties of the store that span several operations, proved over the
//! models that the operations' contracts are stated in.
use crate::models::{delete_answer, new_prompt, CreatePromptRequest, DeletePromptError};
use crate::records::{MetadataView, PromptView};
use crate::store::{in_category, select, StoreView};
use crate::tags::{lemma_tags_round_trip, storable_tag};
use vstd::prelude::*;

verus! {

/// A tag list that reads back as it was written: absent, or non-empty with
/// no tag holding a comma.
pub open spec fn storable_tags(tags: Option<Seq<Seq<char>>>) -> bool {
    match tags {
        Some(ts) => ts.len() > 0 && forall|i: int| 0 <= i < ts.len() ==> storable_tag(#[trigger] ts[i]),
        None => true,
    }
}

/// A prompt made from a create request is the first version of its lineage
/// and is not archived.
pub proof fn lemma_created_prompt_is_first_version(req: CreatePromptRequest, id: Seq<char>, now: i64)
    ensures
        new_prompt(req, id, now).version == 1,
        new_prompt(req, id, now).archived == Some(false),
{
}

/// A prompt made from a create request without a parent is the root of its
/// own lineage.
pub proof fn lemma_created_prompt_without_parent_is_root(
    req: CreatePromptRequest,
    id: Seq<char>,
    now: i64,
)
    requires
        req.parent is None,
    ensures
        new_prompt(req, id, now).parent == id,
{
}

proof fn lemma_inserted_index(s: StoreView, p: PromptView)
    requires
        !s.conflicts(p),
    ensures
        s.inserted(p).has_prompt(p.id),
        s.inserted(p).prompt_index(p.id) == s.prompts.len(),
{
    let t = s.inserted(p);
    let n = s.prompts.len() as int;
    assert(t.prompts[n].id == p.id);
    let k = t.prompt_index(p.id);
    if k < n {
        assert(s.prompts[k].id == p.id);
        assert(s.has_prompt(p.id));
    }
}

proof fn lemma_inserted_metadata(s: StoreView, p: PromptView)
    requires
        !s.conflicts(p),
        p.metadata is Some,
        p.metadata->Some_0.id == p.id,
    ensures
        s.inserted(p).metadata_for(p.id) == Some(p.metadata->Some_0.to_row().decode()),
{
    let t = s.inserted(p);
    let m = s.metadata.len() as int;
    assert(t.metadata[m].id == p.id);
    assert(t.has_metadata(p.id));
    let k = t.metadata_index(p.id);
    if k < m {
        assert(s.metadata[k].id == p.id);
        assert(s.has_metadata(p.id));
    }
}

/// Storing a prompt with metadata whose id is the prompt's, then fetching it
/// with metadata, gives the prompt back whole: name, description, category
/// and tags as stored. Fetching it without metadata gives it with none. The
/// tags must read back as written (see `storable_tags`).
pub proof fn lemma_metadata_round_trip(s: StoreView, p: PromptView)
    requires
        !s.conflicts(p),
        p.metadata is Some,
        p.metadata->Some_0.id == p.id,
        storable_tags(p.metadata->Some_0.tags),
    ensures
        s.inserted(p).fetch(p.id, true) == Some(p),
        s.inserted(p).fetch(p.id, false) == Some((PromptView { metadata: None, ..p })),
{
    let m = p.metadata->Some_0;
    lemma_inserted_index(s, p);
    lemma_inserted_metadata(s, p);
    match m.tags {
        Some(ts) => {
            lemma_tags_round_trip(ts);
        },
        None => {},
    }
    assert(m.to_row().decode() == m);
}

/// Storing a row that continues a lineage with a higher version than any of
/// its rows makes that row's content the lineage's latest, and leaves the
/// content of every stored prompt as it was.
pub proof fn lemma_new_version_is_latest(s: StoreView, p: PromptView, original: Seq<char>)
    requires
        s.wf(),
        !s.conflicts(p),
        forall|i: int|
            0 <= i < s.prompts.len() && (#[trigger] s.prompts[i]).parent == p.parent
                ==> s.prompts[i].version < p.version,
    ensures
        s.inserted(p).latest_content(p.parent) == Some(p.content),
        s.has_prompt(original) ==> s.inserted(p).content(original) == s.content(original),
{
    let t = s.inserted(p);
    let n = s.prompts.len() as int;
    assert(t.prompts[n] == p.row());
    assert(t.is_latest(p.parent, n));
    assert(t.has_lineage(p.parent));
    let c = choose|k: int| t.is_latest(p.parent, k);
    assert(t.is_latest(p.parent, c));
    if c < n {
        assert(t.prompts[n].version < t.prompts[c].version);
    }
    if s.has_prompt(original) {
        let i = s.prompt_index(original);
        assert(t.prompts[i] == s.prompts[i]);
        assert(t.has_prompt(original));
        let k = t.prompt_index(original);
        if k == n {
            assert(s.has_prompt(p.id));
        } else if k != i {
            if k < i {
                assert(s.prompts[k].id != s.prompts[i].id);
            } else {
                assert(s.prompts[i].id != s.prompts[k].id);
            }
        }
    }
}

/// Archiving an id that no prompt has is answered `NotFoundError` and leaves
/// the store as it was; archiving a stored one succeeds and keeps every row.
pub proof fn lemma_delete_outcome(s: StoreView, id: Seq<char>)
    requires
        s.wf(),
    ensures
        !s.has_prompt(id) ==> delete_answer(Ok(s.has_prompt(id))) == Some(
            DeletePromptError::NotFoundError,
        ),
        s.has_prompt(id) ==> delete_answer(Ok(s.has_prompt(id))) is None,
        s.has_prompt(id) ==> s.archived(id).prompts.len() == s.prompts.len(),
        s.has_prompt(id) ==> s.archived(id).metadata == s.metadata,
        s.has_prompt(id) ==> s.archived(id).has_prompt(id),
{
    if s.has_prompt(id) {
        let i = s.prompt_index(id);
        assert(s.archived(id).prompts[i].id == id);
    }
}

/// Archiving a stored prompt keeps it: a later fetch finds it, marked
/// archived, with every other field as before.
pub proof fn lemma_archive_is_visible(s: StoreView, id: Seq<char>, with_meta: bool)
    requires
        s.wf(),
        s.has_prompt(id),
    ensures
        (s.archived(id).fetch(id, with_meta) matches Some(q) && q == (PromptView {
            archived: Some(true),
            ..s.fetch(id, with_meta)->Some_0
        })),
{
    let t = s.archived(id);
    let i = s.prompt_index(id);
    assert(t.prompts[i].id == id);
    assert(t.has_prompt(id));
    let k = t.prompt_index(id);
    if k != i {
        assert(t.prompts[k] == s.prompts[k]);
        if k < i {
            assert(s.prompts[k].id != s.prompts[i].id);
        } else {
            assert(s.prompts[i].id != s.prompts[k].id);
        }
    }
    assert(t.metadata == s.metadata);
}

/// Overwriting the metadata of a stored prompt that has a metadata row at
/// time `now` makes a later fetch with metadata return exactly the new
/// fields, the row's id kept and the stamp `now`; fields the update leaves `None` read back as `None`. The tags must
/// read back as written (see `storable_tags`).
pub proof fn lemma_metadata_update_is_visible(
    s: StoreView,
    id: Seq<char>,
    m: MetadataView,
    now: i64,
)
    requires
        s.wf(),
        s.has_prompt(id),
        s.has_metadata(id),
        storable_tags(m.tags),
    ensures
        (s.metadata_updated(id, m, now).fetch(id, true) matches Some(q) && q.metadata == Some(
            (MetadataView { id, updated_at: now, ..m }),
        )),
{
    let t = s.metadata_updated(id, m, now);
    let i = s.metadata_index(id);
    assert(s.metadata[i].id == id);
    assert(t.metadata[i].id == id);
    assert(t.has_metadata(id));
    let k = t.metadata_index(id);
    if k != i {
        assert(t.metadata[k] == s.metadata[k]);
        if k < i {
            assert(s.metadata[k].id != s.metadata[i].id);
        } else {
            assert(s.metadata[i].id != s.metadata[k].id);
        }
    }
    match m.tags {
        Some(ts) => {
            lemma_tags_round_trip(ts);
        },
        None => {},
    }
    assert(t.prompts == s.prompts);
    assert(t.metadata[i].decode() == MetadataView { id, updated_at: now, ..m });
}

proof fn lemma_select_all(ps: Seq<PromptView>)
    ensures
        select(ps, None) == ps,
    decreases ps.len(),
{
    if ps.len() > 0 {
        lemma_select_all(ps.drop_last());
        assert(ps.drop_last().push(ps.last()) =~= ps);
    }
}

proof fn lemma_select_passes(ps: Seq<PromptView>, category: Option<Seq<char>>)
    ensures
        forall|i: int|
            0 <= i < select(ps, category).len() ==> in_category(
                #[trigger] select(ps, category)[i],
                category,
            ),
    decreases ps.len(),
{
    if ps.len() > 0 {
        let earlier = select(ps.drop_last(), category);
        lemma_select_passes(ps.drop_last(), category);
        assert forall|i: int|
            0 <= i < select(ps, category).len() implies in_category(
                #[trigger] select(ps, category)[i],
                category,
            ) by {
            if i < earlier.len() {
                assert(select(ps, category)[i] == earlier[i]);
            }
        }
    }
}

/// Without a filter, a page holds `limit` prompts, or all from `offset` on
/// when fewer are left; with a category filter, every prompt on the page has
/// metadata of that category (see `in_category`).
pub proof fn lemma_page(s: StoreView, category: Seq<char>, offset: int, limit: int)
    requires
        offset >= 0,
        limit > 0,
    ensures
        s.page(None, offset, limit).len() == if offset + limit <= s.prompts.len() {
            limit
        } else if offset <= s.prompts.len() {
            s.prompts.len() - offset
        } else {
            0
        },
        forall|i: int|
            0 <= i < s.page(Some(category), offset, limit).len() ==> in_category(
                #[trigger] s.page(Some(category), offset, limit)[i],
                Some(category),
            ),
{
    lemma_select_all(s.listed());
    let matching = select(s.listed(), Some(category));
    lemma_select_passes(s.listed(), Some(category));
    let pg = s.page(Some(category), offset, limit);
    assert forall|i: int| 0 <= i < pg.len() implies in_category(#[trigger] pg[i], Some(category)) by {
        let start = if offset < matching.len() {
            offset
        } else {
            matching.len() as int
        };
        assert(pg[i] == matching[start + i]);
        assert(in_category(matching[start + i], Some(category)));
    }
}

} // verus!
