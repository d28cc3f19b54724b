//! An in-memory prompt table: the rows of the `prompts` and `metadata`
//! tables, with the store operations stated over a model of both.
use crate::records::{
    CacheError, DbPrompt, DbPromptMetadata, MetadataRow, MetadataRowView,
    MetadataView, PromptRow, PromptRowView, PromptView,
};
use crate::tags::strings_view;
use vstd::prelude::*;

verus! {

/// The model of a store: the rows of both tables, in the order they were stored.
pub struct StoreView {
    pub prompts: Seq<PromptRowView>,
    pub metadata: Seq<MetadataRowView>,
}

/// Whether a prompt passes a category filter: with no filter every prompt
/// does; with one, only a prompt whose metadata holds that category.
pub open spec fn in_category(p: PromptView, category: Option<Seq<char>>) -> bool {
    match category {
        None => true,
        Some(c) => match p.metadata {
            Some(m) => m.category == Some(c),
            None => false,
        },
    }
}

/// The prompts of `ps` that pass the category filter, in order.
pub open spec fn select(ps: Seq<PromptView>, category: Option<Seq<char>>) -> Seq<PromptView>
    decreases ps.len(),
{
    if ps.len() == 0 {
        Seq::empty()
    } else {
        let earlier = select(ps.drop_last(), category);
        if in_category(ps.last(), category) {
            earlier.push(ps.last())
        } else {
            earlier
        }
    }
}

/// The categories named by metadata rows, each once, in order of first use.
pub open spec fn distinct_categories(rows: Seq<MetadataRowView>) -> Seq<Seq<char>>
    decreases rows.len(),
{
    if rows.len() == 0 {
        Seq::empty()
    } else {
        let seen = distinct_categories(rows.drop_last());
        match rows.last().category {
            Some(c) => if seen.contains(c) {
                seen
            } else {
                seen.push(c)
            },
            None => seen,
        }
    }
}

/// The models of a list of prompts.
pub open spec fn prompts_view(v: Seq<DbPrompt>) -> Seq<PromptView> {
    v.map_values(|p: DbPrompt| p@)
}

/// The model of an optional prompt.
pub open spec fn prompt_opt_view(p: Option<DbPrompt>) -> Option<PromptView> {
    match p {
        Some(p) => Some(p@),
        None => None,
    }
}

/// The model of optional metadata.
pub open spec fn metadata_opt_view(m: Option<DbPromptMetadata>) -> Option<MetadataView> {
    match m {
        Some(m) => Some(m@),
        None => None,
    }
}

impl StoreView {
    /// Ids are unique in each table.
    pub open spec fn wf(self) -> bool {
        &&& forall|i: int, j: int|
            0 <= i < j < self.prompts.len() ==> #[trigger] self.prompts[i].id
                != #[trigger] self.prompts[j].id
        &&& forall|i: int, j: int|
            0 <= i < j < self.metadata.len() ==> #[trigger] self.metadata[i].id
                != #[trigger] self.metadata[j].id
    }

    /// A prompt row has id `id`.
    pub open spec fn has_prompt(self, id: Seq<char>) -> bool {
        exists|i: int| 0 <= i < self.prompts.len() && #[trigger] self.prompts[i].id == id
    }

    /// The position of the prompt row with id `id`.
    pub open spec fn prompt_index(self, id: Seq<char>) -> int {
        choose|i: int| 0 <= i < self.prompts.len() && #[trigger] self.prompts[i].id == id
    }

    /// A metadata row has id `id`.
    pub open spec fn has_metadata(self, id: Seq<char>) -> bool {
        exists|i: int| 0 <= i < self.metadata.len() && #[trigger] self.metadata[i].id == id
    }

    /// The position of the metadata row with id `id`.
    pub open spec fn metadata_index(self, id: Seq<char>) -> int {
        choose|i: int| 0 <= i < self.metadata.len() && #[trigger] self.metadata[i].id == id
    }

    /// The metadata stored for `id`, read back.
    pub open spec fn metadata_for(self, id: Seq<char>) -> Option<MetadataView> {
        if self.has_metadata(id) {
            Some(self.metadata[self.metadata_index(id)].decode())
        } else {
            None
        }
    }

    /// The prompt with `id`, with its metadata when `with_meta` holds.
    pub open spec fn fetch(self, id: Seq<char>, with_meta: bool) -> Option<PromptView> {
        if self.has_prompt(id) {
            Some(
                self.prompts[self.prompt_index(id)].with_metadata(
                    if with_meta {
                        self.metadata_for(id)
                    } else {
                        None
                    },
                ),
            )
        } else {
            None
        }
    }

    /// The content of the prompt with `id`.
    pub open spec fn content(self, id: Seq<char>) -> Option<Seq<char>> {
        if self.has_prompt(id) {
            Some(self.prompts[self.prompt_index(id)].content)
        } else {
            None
        }
    }

    /// Some prompt row has parent `parent`.
    pub open spec fn has_lineage(self, parent: Seq<char>) -> bool {
        exists|i: int| 0 <= i < self.prompts.len() && #[trigger] self.prompts[i].parent == parent
    }

    /// Row `i` is the latest of the lineage rooted at `parent`: no row of the
    /// lineage has a higher version, and none stored after it has as high a one.
    pub open spec fn is_latest(self, parent: Seq<char>, i: int) -> bool {
        &&& 0 <= i < self.prompts.len()
        &&& self.prompts[i].parent == parent
        &&& forall|j: int|
            0 <= j < self.prompts.len() && (#[trigger] self.prompts[j]).parent == parent ==> {
                &&& self.prompts[j].version <= self.prompts[i].version
                &&& i < j ==> self.prompts[j].version < self.prompts[i].version
            }
    }

    /// The content of the latest version of the lineage rooted at `parent`.
    pub open spec fn latest_content(self, parent: Seq<char>) -> Option<Seq<char>> {
        if self.has_lineage(parent) {
            Some(self.prompts[choose|i: int| self.is_latest(parent, i)].content)
        } else {
            None
        }
    }

    /// Every prompt with the metadata stored for it, in order of storage.
    pub open spec fn listed(self) -> Seq<PromptView> {
        Seq::new(
            self.prompts.len(),
            |i: int| self.prompts[i].with_metadata(self.metadata_for(self.prompts[i].id)),
        )
    }

    /// The prompts passing the filter, from position `offset` on, at most `limit` of them.
    pub open spec fn page(self, category: Option<Seq<char>>, offset: int, limit: int) -> Seq<
        PromptView,
    > {
        let matching = select(self.listed(), category);
        let start = if offset < matching.len() {
            offset
        } else {
            matching.len() as int
        };
        let end = if offset + limit < matching.len() {
            offset + limit
        } else {
            matching.len() as int
        };
        matching.subrange(start, end)
    }

    /// The categories that the metadata rows name, each once.
    pub open spec fn categories(self) -> Seq<Seq<char>> {
        distinct_categories(self.metadata)
    }

    /// Storing `p` would repeat a prompt id or a metadata id.
    pub open spec fn conflicts(self, p: PromptView) -> bool {
        ||| self.has_prompt(p.id)
        ||| match p.metadata {
            Some(m) => self.has_metadata(m.id),
            None => false,
        }
    }

    /// The store with `p` and its metadata, if any, added.
    pub open spec fn inserted(self, p: PromptView) -> StoreView {
        StoreView {
            prompts: self.prompts.push(p.row()),
            metadata: match p.metadata {
                Some(m) => self.metadata.push(m.to_row()),
                None => self.metadata,
            },
        }
    }

    /// The store with the metadata row of `id` overwritten by the descriptive
    /// fields of `m` and stamped `now`; its id is kept, and the id and stamp
    /// that `m` carries play no part.
    pub open spec fn metadata_updated(self, id: Seq<char>, m: MetadataView, now: i64) -> StoreView {
        let i = self.metadata_index(id);
        StoreView {
            prompts: self.prompts,
            metadata: self.metadata.update(
                i,
                MetadataRowView { id: self.metadata[i].id, updated_at: now, ..m.to_row() },
            ),
        }
    }

    /// The store with the prompt `id` marked archived.
    pub open spec fn archived(self, id: Seq<char>) -> StoreView {
        let i = self.prompt_index(id);
        StoreView {
            prompts: self.prompts.update(
                i,
                PromptRowView { archived: Some(true), ..self.prompts[i] },
            ),
            metadata: self.metadata,
        }
    }
}

fn contains_string(v: &Vec<String>, s: &String) -> (r: bool)
    ensures
        r == strings_view(v@).contains(s@),
{
    let n = v.len();
    let mut i: usize = 0;
    while i < n
        invariant
            n == v@.len(),
            i <= n,
            forall|k: int| 0 <= k < i ==> v@[k]@ != s@,
        decreases n - i,
    {
        if v[i] == *s {
            assert(strings_view(v@)[i as int] == s@);
            return true;
        }
        i = i + 1;
    }
    proof {
        if strings_view(v@).contains(s@) {
            let k = choose|k: int| 0 <= k < strings_view(v@).len() && strings_view(v@)[k] == s@;
            assert(v@[k]@ == s@);
        }
    }
    false
}

/// The prompt and metadata tables, held in memory.
pub struct PromptStore {
    prompts: Vec<PromptRow>,
    metadata: Vec<MetadataRow>,
}

impl View for PromptStore {
    type V = StoreView;

    closed spec fn view(&self) -> StoreView {
        StoreView {
            prompts: self.prompts@.map_values(|r: PromptRow| r@),
            metadata: self.metadata@.map_values(|r: MetadataRow| r@),
        }
    }
}

impl PromptStore {
    /// Ids are unique in each table; every store that `new` and the
    /// operations below hand out is well formed.
    pub open spec fn wf(&self) -> bool {
        self@.wf()
    }

    /// An empty store.
    pub fn new() -> (r: PromptStore)
        ensures
            r@.prompts == Seq::<PromptRowView>::empty(),
            r@.metadata == Seq::<MetadataRowView>::empty(),
            r.wf(),
    {
        let r = PromptStore { prompts: Vec::new(), metadata: Vec::new() };
        assert(r@.prompts =~= Seq::<PromptRowView>::empty());
        assert(r@.metadata =~= Seq::<MetadataRowView>::empty());
        r
    }

    /// A store holding exactly the rows given, in their order; `UnhandledError`
    /// when an id repeats within either table.
    pub fn from_rows(prompts: Vec<PromptRow>, metadata: Vec<MetadataRow>) -> (r: Result<
        PromptStore,
        CacheError,
    >)
        ensures
            (StoreView {
                prompts: prompts@.map_values(|r: PromptRow| r@),
                metadata: metadata@.map_values(|r: MetadataRow| r@),
            }).wf() ==> (r matches Ok(st) && st.wf() && st@ == (StoreView {
                prompts: prompts@.map_values(|r: PromptRow| r@),
                metadata: metadata@.map_values(|r: MetadataRow| r@),
            })),
            !(StoreView {
                prompts: prompts@.map_values(|r: PromptRow| r@),
                metadata: metadata@.map_values(|r: MetadataRow| r@),
            }).wf() ==> r matches Err(CacheError::UnhandledError(_)),
    {
        let ghost pv = prompts@.map_values(|r: PromptRow| r@);
        let ghost mv = metadata@.map_values(|r: MetadataRow| r@);
        let n = prompts.len();
        let mut i: usize = 0;
        while i < n
            invariant
                n == pv.len(),
                pv == prompts@.map_values(|r: PromptRow| r@),
                i <= n,
                forall|a: int, b: int| 0 <= a < b < i ==> #[trigger] pv[a].id != #[trigger] pv[b].id,
            decreases n - i,
        {
            let mut j: usize = 0;
            while j < i
                invariant
                    n == pv.len(),
                    pv == prompts@.map_values(|r: PromptRow| r@),
                    j <= i < n,
                    forall|a: int| 0 <= a < j ==> pv[a].id != pv[i as int].id,
                decreases i - j,
            {
                if prompts[j].id == prompts[i].id {
                    assert(pv[j as int].id == pv[i as int].id);
                    return Err(
                        CacheError::UnhandledError(
                            String::from_str("UNIQUE constraint failed: prompts.id"),
                        ),
                    );
                }
                j = j + 1;
            }
            i = i + 1;
        }
        let m = metadata.len();
        let mut i: usize = 0;
        while i < m
            invariant
                m == mv.len(),
                mv == metadata@.map_values(|r: MetadataRow| r@),
                i <= m,
                forall|a: int, b: int| 0 <= a < b < n ==> #[trigger] pv[a].id != #[trigger] pv[b].id,
                n == pv.len(),
                forall|a: int, b: int| 0 <= a < b < i ==> #[trigger] mv[a].id != #[trigger] mv[b].id,
            decreases m - i,
        {
            let mut j: usize = 0;
            while j < i
                invariant
                    m == mv.len(),
                    mv == metadata@.map_values(|r: MetadataRow| r@),
                    j <= i < m,
                    forall|a: int| 0 <= a < j ==> mv[a].id != mv[i as int].id,
                decreases i - j,
            {
                if metadata[j].id == metadata[i].id {
                    assert(mv[j as int].id == mv[i as int].id);
                    return Err(
                        CacheError::UnhandledError(
                            String::from_str("UNIQUE constraint failed: metadata.id"),
                        ),
                    );
                }
                j = j + 1;
            }
            i = i + 1;
        }
        let st = PromptStore { prompts, metadata };
        assert(st@.prompts == pv);
        assert(st@.metadata == mv);
        Ok(st)
    }

    fn prompt_position(&self, id: &String) -> (r: Option<usize>)
        requires
            self.wf(),
        ensures
            match r {
                Some(i) => {
                    &&& self@.has_prompt(id@)
                    &&& i as int == self@.prompt_index(id@)
                    &&& i < self@.prompts.len()
                },
                None => !self@.has_prompt(id@),
            },
    {
        let n = self.prompts.len();
        let mut i: usize = 0;
        while i < n
            invariant
                n == self@.prompts.len(),
                i <= n,
                self@.wf(),
                forall|k: int| 0 <= k < i ==> self@.prompts[k].id != id@,
            decreases n - i,
        {
            if self.prompts[i].id == *id {
                proof {
                    assert(self@.prompts[i as int].id == id@);
                    assert(self@.has_prompt(id@));
                    let k = self@.prompt_index(id@);
                    assert(self@.prompts[k].id == id@);
                    if k != i {
                        if k < i {
                            assert(self@.prompts[k].id != self@.prompts[i as int].id);
                        } else {
                            assert(self@.prompts[i as int].id != self@.prompts[k].id);
                        }
                    }
                }
                return Some(i);
            }
            i = i + 1;
        }
        None
    }

    fn metadata_position(&self, id: &String) -> (r: Option<usize>)
        requires
            self.wf(),
        ensures
            match r {
                Some(i) => {
                    &&& self@.has_metadata(id@)
                    &&& i as int == self@.metadata_index(id@)
                    &&& i < self@.metadata.len()
                },
                None => !self@.has_metadata(id@),
            },
    {
        let n = self.metadata.len();
        let mut i: usize = 0;
        while i < n
            invariant
                n == self@.metadata.len(),
                i <= n,
                self@.wf(),
                forall|k: int| 0 <= k < i ==> self@.metadata[k].id != id@,
            decreases n - i,
        {
            if self.metadata[i].id == *id {
                proof {
                    assert(self@.metadata[i as int].id == id@);
                    assert(self@.has_metadata(id@));
                    let k = self@.metadata_index(id@);
                    assert(self@.metadata[k].id == id@);
                    if k != i {
                        if k < i {
                            assert(self@.metadata[k].id != self@.metadata[i as int].id);
                        } else {
                            assert(self@.metadata[i as int].id != self@.metadata[k].id);
                        }
                    }
                }
                return Some(i);
            }
            i = i + 1;
        }
        None
    }

    fn metadata_of(&self, id: &String) -> (r: Option<DbPromptMetadata>)
        requires
            self.wf(),
        ensures
            metadata_opt_view(r) == self@.metadata_for(id@),
    {
        match self.metadata_position(id) {
            Some(i) => Some(self.metadata[i].decode()),
            None => None,
        }
    }

    /// The prompt with `id`, with its metadata when `metadata` is `Some(true)`;
    /// `None` when no prompt has that id.
    pub fn get_prompt(&self, id: &str, metadata: Option<bool>) -> (r: Option<DbPrompt>)
        requires
            self.wf(),
        ensures
            prompt_opt_view(r) == self@.fetch(id@, metadata == Some(true)),
    {
        let key = id.to_owned();
        match self.prompt_position(&key) {
            Some(i) => {
                let with_meta = match metadata {
                    Some(m) => m,
                    None => false,
                };
                let m = if with_meta {
                    self.metadata_of(&key)
                } else {
                    None
                };
                Some(self.prompts[i].with_metadata(m))
            },
            None => None,
        }
    }

    /// The content of the prompt with `id`, or `NotFound`.
    pub fn get_prompt_content(&self, id: &str) -> (r: Result<String, CacheError>)
        requires
            self.wf(),
        ensures
            match self@.content(id@) {
                Some(c) => r matches Ok(s) && s@ == c,
                None => r matches Err(CacheError::NotFound),
            },
    {
        let key = id.to_owned();
        match self.prompt_position(&key) {
            Some(i) => Ok(self.prompts[i].content.clone()),
            None => Err(CacheError::NotFound),
        }
    }

    /// The content of the latest version of the lineage whose root is `id`:
    /// the row with that parent and the highest version, the last stored
    /// among equals; `NotFound` when the lineage has no rows.
    pub fn get_prompt_content_latest_version(&self, id: &str) -> (r: Result<String, CacheError>)
        requires
            self.wf(),
        ensures
            match self@.latest_content(id@) {
                Some(c) => r matches Ok(s) && s@ == c,
                None => r matches Err(CacheError::NotFound),
            },
    {
        let key = id.to_owned();
        let n = self.prompts.len();
        let mut best: Option<usize> = None;
        let mut i: usize = 0;
        while i < n
            invariant
                n == self@.prompts.len(),
                i <= n,
                match best {
                    Some(b) => {
                        &&& b < i
                        &&& self@.prompts[b as int].parent == key@
                        &&& forall|j: int|
                            0 <= j < i && (#[trigger] self@.prompts[j]).parent == key@ ==> {
                                &&& self@.prompts[j].version <= self@.prompts[b as int].version
                                &&& b < j ==> self@.prompts[j].version
                                    < self@.prompts[b as int].version
                            }
                    },
                    None => forall|j: int| 0 <= j < i ==> (#[trigger] self@.prompts[j]).parent != key@,
                },
            decreases n - i,
        {
            if self.prompts[i].parent == key {
                let better = match best {
                    Some(b) => self.prompts[b].version <= self.prompts[i].version,
                    None => true,
                };
                if better {
                    best = Some(i);
                }
            }
            i = i + 1;
        }
        match best {
            Some(b) => {
                proof {
                    assert(self@.is_latest(id@, b as int));
                    assert(self@.has_lineage(id@));
                    let c = choose|k: int| self@.is_latest(id@, k);
                    assert(self@.is_latest(id@, c));
                    if c < b {
                        assert(self@.prompts[b as int].version < self@.prompts[c].version);
                    } else if b < c {
                        assert(self@.prompts[c].version < self@.prompts[b as int].version);
                    }
                }
                Ok(self.prompts[b].content.clone())
            },
            None => {
                assert(!self@.has_lineage(id@));
                Err(CacheError::NotFound)
            },
        }
    }

    /// Marks the prompt with `id` archived; whether there was one. No row is removed.
    pub fn delete_prompt(&mut self, id: &str) -> (r: bool)
        requires
            old(self).wf(),
        ensures
            final(self).wf(),
            r == old(self)@.has_prompt(id@),
            final(self)@ == (if r {
                old(self)@.archived(id@)
            } else {
                old(self)@
            }),
    {
        let key = id.to_owned();
        match self.prompt_position(&key) {
            Some(i) => {
                let ghost before = self@;
                let mut row = self.prompts[i].copy();
                row.archived = Some(true);
                self.prompts.set(i, row);
                proof {
                    assert(self@.prompts =~= before.archived(id@).prompts);
                    assert(self@.metadata =~= before.metadata);
                    assert forall|a: int, b: int|
                        0 <= a < b < self@.prompts.len() implies #[trigger] self@.prompts[a].id
                        != #[trigger] self@.prompts[b].id by {
                        assert(self@.prompts[a].id == before.prompts[a].id);
                        assert(self@.prompts[b].id == before.prompts[b].id);
                    }
                }
                true
            },
            None => false,
        }
    }

    /// Stores `prompt` and, when it carries metadata, its metadata row, and
    /// hands the prompt back. A repeated prompt id or metadata id is refused
    /// with `UnhandledError`, and then nothing is stored.
    pub fn insert_prompt(&mut self, prompt: DbPrompt) -> (r: Result<DbPrompt, CacheError>)
        requires
            old(self).wf(),
        ensures
            final(self).wf(),
            old(self)@.conflicts(prompt@) ==> {
                &&& r matches Err(CacheError::UnhandledError(_))
                &&& final(self)@ == old(self)@
            },
            !old(self)@.conflicts(prompt@) ==> {
                &&& r == Ok::<DbPrompt, CacheError>(prompt)
                &&& final(self)@ == old(self)@.inserted(prompt@)
            },
    {
        if self.prompt_position(&prompt.id).is_some() {
            return Err(
                CacheError::UnhandledError(
                    String::from_str("UNIQUE constraint failed: prompts.id"),
                ),
            );
        }
        let meta_row = match &prompt.metadata {
            Some(m) => {
                if self.metadata_position(&m.id).is_some() {
                    return Err(
                        CacheError::UnhandledError(
                            String::from_str("UNIQUE constraint failed: metadata.id"),
                        ),
                    );
                }
                Some(m.to_row())
            },
            None => None,
        };
        let ghost before = self@;
        self.prompts.push(prompt.row());
        match meta_row {
            Some(row) => {
                self.metadata.push(row);
            },
            None => {},
        }
        proof {
            let after = before.inserted(prompt@);
            assert(self@.prompts =~= after.prompts);
            assert(self@.metadata =~= after.metadata);
            let n = before.prompts.len() as int;
            assert forall|a: int, b: int|
                0 <= a < b < self@.prompts.len() implies #[trigger] self@.prompts[a].id
                != #[trigger] self@.prompts[b].id by {
                if b == n {
                    assert(before.prompts[a].id == self@.prompts[a].id);
                    if before.prompts[a].id == prompt@.id {
                        assert(before.has_prompt(prompt@.id));
                    }
                }
            }
            let m = before.metadata.len() as int;
            assert forall|a: int, b: int|
                0 <= a < b < self@.metadata.len() implies #[trigger] self@.metadata[a].id
                != #[trigger] self@.metadata[b].id by {
                if b == m {
                    let md = prompt@.metadata->Some_0;
                    assert(before.metadata[a].id == self@.metadata[a].id);
                    if before.metadata[a].id == md.id {
                        assert(before.has_metadata(md.id));
                    }
                }
            }
        }
        Ok(prompt)
    }

    /// Overwrites name, description, category and tags of the metadata row of
    /// `id` with those of `metadata`, stamps it `now`, and hands back the id.
    /// Fields that `metadata` leaves `None` become `None`; its id and stamp are
    /// ignored. `NotFound` when `id` has no metadata row: no row is ever
    /// created here.
    pub fn update_prompt_metadata(
        &mut self,
        id: &str,
        metadata: DbPromptMetadata,
        now: i64,
    ) -> (r: Result<
        String,
        CacheError,
    >)
        requires
            old(self).wf(),
        ensures
            final(self).wf(),
            !old(self)@.has_metadata(id@) ==> {
                &&& r matches Err(CacheError::NotFound)
                &&& final(self)@ == old(self)@
            },
            old(self)@.has_metadata(id@) ==> {
                &&& r matches Ok(s) && s@ == id@
                &&& final(self)@ == old(self)@.metadata_updated(id@, metadata@, now)
                &&& final(self)@.metadata[old(self)@.metadata_index(id@)].updated_at == now
                &&& final(self)@.metadata[old(self)@.metadata_index(id@)].id == id@
            },
    {
        let key = id.to_owned();
        match self.metadata_position(&key) {
            Some(i) => {
                let ghost before = self@;
                let row = MetadataRow {
                    id: self.metadata[i].id.clone(),
                    name: metadata.name,
                    description: metadata.description,
                    category: metadata.category,
                    tags: match &metadata.tags {
                        Some(tags) => Some(crate::tags::join_tag_list(tags)),
                        None => None,
                    },
                    updated_at: now,
                };
                self.metadata.set(i, row);
                proof {
                    assert(self@.metadata =~= before.metadata_updated(id@, metadata@, now).metadata);
                    assert(self@.prompts =~= before.prompts);
                    assert forall|a: int, b: int|
                        0 <= a < b < self@.metadata.len() implies #[trigger] self@.metadata[a].id
                        != #[trigger] self@.metadata[b].id by {
                        assert(self@.metadata[a].id == before.metadata[a].id);
                        assert(self@.metadata[b].id == before.metadata[b].id);
                    }
                }
                Ok(key)
            },
            None => Err(CacheError::NotFound),
        }
    }

    /// The categories named by metadata rows, each once, in order of first use.
    pub fn get_prompt_categories(&self) -> (r: Vec<String>)
        requires
            self.wf(),
        ensures
            strings_view(r@) == self@.categories(),
    {
        let n = self.metadata.len();
        let mut out: Vec<String> = Vec::new();
        let mut i: usize = 0;
        proof {
            assert(self@.metadata.take(0) =~= Seq::<MetadataRowView>::empty());
            assert(strings_view(out@) =~= Seq::<Seq<char>>::empty());
        }
        while i < n
            invariant
                n == self@.metadata.len(),
                i <= n,
                strings_view(out@) == distinct_categories(self@.metadata.take(i as int)),
            decreases n - i,
        {
            let ghost seen = strings_view(out@);
            proof {
                assert(self@.metadata.take(i + 1).drop_last() =~= self@.metadata.take(i as int));
                assert(self@.metadata.take(i + 1).last() == self@.metadata[i as int]);
            }
            match &self.metadata[i].category {
                Some(c) => {
                    if !contains_string(&out, c) {
                        out.push(c.clone());
                        assert(strings_view(out@) =~= seen.push(c@));
                    }
                },
                None => {},
            }
            i = i + 1;
        }
        assert(self@.metadata.take(n as int) =~= self@.metadata);
        out
    }

    /// A page of prompts, each with its metadata when it has a row: those
    /// passing the category filter, in order of storage, from position
    /// `offset` on, at most `limit`. `InvalidRequest` when `limit` is 0.
    pub fn get_prompts(&self, category: Option<String>, offset: u32, limit: u32) -> (r: Result<
        Vec<DbPrompt>,
        CacheError,
    >)
        requires
            self.wf(),
        ensures
            limit == 0 ==> r matches Err(CacheError::InvalidRequest(_)),
            limit > 0 ==> (r matches Ok(v) && prompts_view(v@) == self@.page(
                category.deep_view(),
                offset as int,
                limit as int,
            )),
    {
        if limit == 0 {
            return Err(CacheError::InvalidRequest(String::from_str("Invalid limit value")));
        }
        let ghost cat = category.deep_view();
        let ghost all = self@.listed();
        let n = self.prompts.len();
        let start = offset as usize;
        let mut seen: usize = 0;
        let mut out: Vec<DbPrompt> = Vec::new();
        let mut i: usize = 0;
        proof {
            assert(all.take(0) =~= Seq::<PromptView>::empty());
            assert(prompts_view(out@) =~= Seq::<PromptView>::empty());
        }
        while i < n
            invariant
                n == self@.prompts.len(),
                self.wf(),
                all == self@.listed(),
                cat == category.deep_view(),
                start == offset,
                i <= n,
                limit > 0,
                seen == select(all.take(i as int), cat).len(),
                seen <= i,
                prompts_view(out@) == select(all.take(i as int), cat).subrange(
                    if start <= seen { start as int } else { seen as int },
                    if start + limit <= seen { start + limit } else { seen as int },
                ),
            decreases n - i,
        {
            let ghost earlier = select(all.take(i as int), cat);
            proof {
                assert(all.take(i + 1).drop_last() =~= all.take(i as int));
                assert(all.take(i + 1).last() == all[i as int]);
            }
            let row = &self.prompts[i];
            let m = self.metadata_of(&row.id);
            let passes = match &category {
                None => true,
                Some(c) => match &m {
                    Some(md) => match &md.category {
                        Some(mc) => *mc == *c,
                        None => false,
                    },
                    None => false,
                },
            };
            proof {
                assert(all[i as int] == self@.prompts[i as int].with_metadata(metadata_opt_view(m)));
                assert(passes == in_category(all[i as int], cat));
                if passes {
                    assert(select(all.take(i + 1), cat) == earlier.push(all[i as int]));
                } else {
                    assert(select(all.take(i + 1), cat) == earlier);
                }
            }
            if passes {
                if start <= seen && seen - start < limit as usize {
                    let p = row.with_metadata(m);
                    let ghost old_out = prompts_view(out@);
                    assert(old_out == earlier.subrange(start as int, seen as int));
                    assert(p@ == all[i as int]);
                    out.push(p);
                    proof {
                        let now = earlier.push(all[i as int]);
                        assert(prompts_view(out@) =~= old_out.push(p@));
                        assert(prompts_view(out@) =~= now.subrange(start as int, seen + 1));
                    }
                } else {
                    proof {
                        let now = earlier.push(all[i as int]);
                        if start <= seen {
                            assert(now.subrange(start as int, start + limit) =~= earlier.subrange(
                                start as int,
                                start + limit,
                            ));
                        } else {
                            assert(now.subrange(seen + 1, seen + 1) =~= earlier.subrange(
                                seen as int,
                                seen as int,
                            ));
                        }
                    }
                }
                seen = seen + 1;
            }
            i = i + 1;
        }
        assert(all.take(n as int) =~= all);
        Ok(out)
    }
}

} // verus!
