//! Prompt and metadata records, in the shape callers see and in the shape of
//! the `prompts` and `metadata` table rows.
use crate::tags::{join_tag_list, join_tags, split_tag_list, split_tags, strings_view};
use vstd::prelude::*;

verus! {

/// A failure of a store operation.
#[derive(Debug)]
pub enum CacheError {
    /// No row matches.
    NotFound,
    /// Any other storage failure, with a message for diagnostics.
    UnhandledError(String),
    /// Malformed paging parameters.
    InvalidRequest(String),
    /// The connection pool could not hand out a connection.
    PoolError(String),
}

/// Descriptive attributes of one prompt, with the tags as a list.
#[derive(Clone, Debug)]
pub struct DbPromptMetadata {
    /// The id of the prompt described.
    pub id: String,
    pub name: Option<String>,
    pub description: Option<String>,
    pub category: Option<String>,
    pub tags: Option<Vec<String>>,
    pub updated_at: i64,
}

/// One revision of a prompt, with its metadata where that was asked for.
#[derive(Clone, Debug)]
pub struct DbPrompt {
    pub id: String,
    pub version: i32,
    pub content: String,
    /// The root of the lineage; a prompt with no parent of its own is its own root.
    pub parent: String,
    pub branched: Option<bool>,
    pub archived: Option<bool>,
    pub created_at: i64,
    pub metadata: Option<DbPromptMetadata>,
}

/// A row of the `prompts` table.
#[derive(Clone, Debug)]
pub struct PromptRow {
    pub id: String,
    pub version: i32,
    pub content: String,
    pub parent: String,
    pub branched: Option<bool>,
    pub archived: Option<bool>,
    pub created_at: i64,
}

/// A row of the `metadata` table: the tags are held in their joined form.
#[derive(Clone, Debug)]
pub struct MetadataRow {
    pub id: String,
    pub name: Option<String>,
    pub description: Option<String>,
    pub category: Option<String>,
    pub tags: Option<String>,
    pub updated_at: i64,
}

/// The model of `DbPromptMetadata`: text as character sequences.
pub struct MetadataView {
    pub id: Seq<char>,
    pub name: Option<Seq<char>>,
    pub description: Option<Seq<char>>,
    pub category: Option<Seq<char>>,
    pub tags: Option<Seq<Seq<char>>>,
    pub updated_at: i64,
}

/// The model of `DbPrompt`.
pub struct PromptView {
    pub id: Seq<char>,
    pub version: i32,
    pub content: Seq<char>,
    pub parent: Seq<char>,
    pub branched: Option<bool>,
    pub archived: Option<bool>,
    pub created_at: i64,
    pub metadata: Option<MetadataView>,
}

/// The model of a `prompts` row.
pub struct PromptRowView {
    pub id: Seq<char>,
    pub version: i32,
    pub content: Seq<char>,
    pub parent: Seq<char>,
    pub branched: Option<bool>,
    pub archived: Option<bool>,
    pub created_at: i64,
}

/// The model of a `metadata` row.
pub struct MetadataRowView {
    pub id: Seq<char>,
    pub name: Option<Seq<char>>,
    pub description: Option<Seq<char>>,
    pub category: Option<Seq<char>>,
    pub tags: Option<Seq<char>>,
    pub updated_at: i64,
}

/// The model of an optional tag list.
pub open spec fn tags_view(t: Option<Vec<String>>) -> Option<Seq<Seq<char>>> {
    match t {
        Some(v) => Some(strings_view(v@)),
        None => None,
    }
}

/// The stored form of an optional tag list.
pub open spec fn encode_tags(t: Option<Seq<Seq<char>>>) -> Option<Seq<char>> {
    match t {
        Some(ts) => Some(join_tags(ts)),
        None => None,
    }
}

/// The tag list read back from its stored form.
pub open spec fn decode_tags(t: Option<Seq<char>>) -> Option<Seq<Seq<char>>> {
    match t {
        Some(s) => Some(split_tags(s)),
        None => None,
    }
}

impl View for DbPromptMetadata {
    type V = MetadataView;

    open spec fn view(&self) -> MetadataView {
        MetadataView {
            id: self.id@,
            name: self.name.deep_view(),
            description: self.description.deep_view(),
            category: self.category.deep_view(),
            tags: tags_view(self.tags),
            updated_at: self.updated_at,
        }
    }
}

impl View for DbPrompt {
    type V = PromptView;

    open spec fn view(&self) -> PromptView {
        PromptView {
            id: self.id@,
            version: self.version,
            content: self.content@,
            parent: self.parent@,
            branched: self.branched,
            archived: self.archived,
            created_at: self.created_at,
            metadata: match self.metadata {
                Some(m) => Some(m@),
                None => None,
            },
        }
    }
}

impl View for PromptRow {
    type V = PromptRowView;

    open spec fn view(&self) -> PromptRowView {
        PromptRowView {
            id: self.id@,
            version: self.version,
            content: self.content@,
            parent: self.parent@,
            branched: self.branched,
            archived: self.archived,
            created_at: self.created_at,
        }
    }
}

impl View for MetadataRow {
    type V = MetadataRowView;

    open spec fn view(&self) -> MetadataRowView {
        MetadataRowView {
            id: self.id@,
            name: self.name.deep_view(),
            description: self.description.deep_view(),
            category: self.category.deep_view(),
            tags: self.tags.deep_view(),
            updated_at: self.updated_at,
        }
    }
}

impl MetadataView {
    /// The row stored for this metadata.
    pub open spec fn to_row(self) -> MetadataRowView {
        MetadataRowView {
            id: self.id,
            name: self.name,
            description: self.description,
            category: self.category,
            tags: encode_tags(self.tags),
            updated_at: self.updated_at,
        }
    }
}

impl MetadataRowView {
    /// The metadata read back from this row.
    pub open spec fn decode(self) -> MetadataView {
        MetadataView {
            id: self.id,
            name: self.name,
            description: self.description,
            category: self.category,
            tags: decode_tags(self.tags),
            updated_at: self.updated_at,
        }
    }
}

impl PromptView {
    /// The `prompts` row stored for this prompt.
    pub open spec fn row(self) -> PromptRowView {
        PromptRowView {
            id: self.id,
            version: self.version,
            content: self.content,
            parent: self.parent,
            branched: self.branched,
            archived: self.archived,
            created_at: self.created_at,
        }
    }
}

impl PromptRowView {
    /// The prompt read back from this row, with the metadata given.
    pub open spec fn with_metadata(self, m: Option<MetadataView>) -> PromptView {
        PromptView {
            id: self.id,
            version: self.version,
            content: self.content,
            parent: self.parent,
            branched: self.branched,
            archived: self.archived,
            created_at: self.created_at,
            metadata: m,
        }
    }
}

pub(crate) fn copy_string_opt(o: &Option<String>) -> (r: Option<String>)
    ensures
        r == *o,
{
    match o {
        Some(s) => Some(s.clone()),
        None => None,
    }
}

impl DbPromptMetadata {
    /// The tags in their stored form: joined by commas.
    pub fn tags_to_string(&self) -> (r: Option<String>)
        ensures
            r.deep_view() == encode_tags(self@.tags),
    {
        match &self.tags {
            Some(tags) => Some(join_tag_list(tags)),
            None => None,
        }
    }

    /// The `metadata` row stored for this metadata.
    pub fn to_row(&self) -> (r: MetadataRow)
        ensures
            r@ == self@.to_row(),
    {
        MetadataRow {
            id: self.id.clone(),
            name: copy_string_opt(&self.name),
            description: copy_string_opt(&self.description),
            category: copy_string_opt(&self.category),
            tags: self.tags_to_string(),
            updated_at: self.updated_at,
        }
    }
}

impl MetadataRow {
    /// The metadata read back from this row: the tags split at the commas.
    pub fn decode(&self) -> (r: DbPromptMetadata)
        ensures
            r@ == self@.decode(),
    {
        let tags = match &self.tags {
            Some(s) => Some(split_tag_list(s.as_str())),
            None => None,
        };
        DbPromptMetadata {
            id: self.id.clone(),
            name: copy_string_opt(&self.name),
            description: copy_string_opt(&self.description),
            category: copy_string_opt(&self.category),
            tags,
            updated_at: self.updated_at,
        }
    }
}

impl PromptRow {
    /// A copy of this row.
    pub fn copy(&self) -> (r: PromptRow)
        ensures
            r@ == self@,
    {
        PromptRow {
            id: self.id.clone(),
            version: self.version,
            content: self.content.clone(),
            parent: self.parent.clone(),
            branched: self.branched,
            archived: self.archived,
            created_at: self.created_at,
        }
    }

    /// The prompt read back from this row, with the metadata given.
    pub fn with_metadata(&self, metadata: Option<DbPromptMetadata>) -> (r: DbPrompt)
        ensures
            r@ == self@.with_metadata(
                match metadata {
                    Some(m) => Some(m@),
                    None => None,
                },
            ),
    {
        DbPrompt {
            id: self.id.clone(),
            version: self.version,
            content: self.content.clone(),
            parent: self.parent.clone(),
            branched: self.branched,
            archived: self.archived,
            created_at: self.created_at,
            metadata,
        }
    }
}

impl DbPrompt {
    /// The `prompts` row stored for this prompt.
    pub fn row(&self) -> (r: PromptRow)
        ensures
            r@ == self@.row(),
    {
        PromptRow {
            id: self.id.clone(),
            version: self.version,
            content: self.content.clone(),
            parent: self.parent.clone(),
            branched: self.branched,
            archived: self.archived,
            created_at: self.created_at,
        }
    }
}

} // verus!
