//! The request and response shapes of the HTTP interface, their mapping to and
//! from records, and the error kinds each endpoint reports.
use crate::generate::{fresh_id, now_timestamp};
use crate::records::{tags_view, CacheError, DbPrompt, DbPromptMetadata, MetadataView, PromptView};
use vstd::prelude::*;

verus! {

/// A request to create a prompt, or a new version of one when `parent` is given.
#[derive(Debug)]
pub struct CreatePromptRequest {
    pub content: String,
    pub name: Option<String>,
    pub description: Option<String>,
    pub category: Option<String>,
    pub tags: Option<Vec<String>>,
    /// The lineage to continue or branch from; `None` starts a new lineage.
    pub parent: Option<String>,
    pub branched: Option<bool>,
}

/// A request to overwrite the metadata of a prompt.
#[derive(Debug)]
pub struct UpdateMetadataRequest {
    pub id: String,
    pub name: Option<String>,
    pub description: Option<String>,
    pub category: Option<String>,
    pub tags: Option<Vec<String>>,
}

/// A prompt as the interface returns it.
#[derive(Debug)]
pub struct Prompt {
    pub id: String,
    pub content: String,
    pub version: i32,
    pub parent: String,
    pub branched: Option<bool>,
    pub archived: Option<bool>,
    pub created_at: i64,
    pub metadata: Option<PromptMetadata>,
}

/// The metadata of a prompt as the interface returns it.
#[derive(Debug)]
pub struct PromptMetadata {
    pub name: Option<String>,
    pub description: Option<String>,
    pub category: Option<String>,
    pub tags: Option<Vec<String>>,
}

/// Query parameters of a prompt listing.
#[derive(Debug)]
pub struct GetPromptsRequest {
    pub category: Option<String>,
    pub offset: Option<i32>,
    pub limit: Option<i32>,
}

/// Query parameters of a content fetch.
#[derive(Debug)]
pub struct GetPromptContentRequest {
    /// Fetch the latest version of the lineage rooted at the id.
    pub latest: Option<bool>,
}

impl GetPromptContentRequest {
    /// Whether the latest version of the lineage is asked for; it is only
    /// when `latest` is `Some(true)`.
    pub fn wants_latest(&self) -> (r: bool)
        ensures
            r == (self.latest == Some(true)),
    {
        match self.latest {
            Some(l) => l,
            None => false,
        }
    }
}

/// Query parameters of a prompt fetch.
#[derive(Debug)]
pub struct GetPromptRequest {
    /// Include the metadata in the response.
    pub metadata: Option<bool>,
}

/// Whether a create request carries any metadata field.
pub open spec fn asks_for_metadata(req: CreatePromptRequest) -> bool {
    req.name is Some || req.description is Some || req.category is Some || req.tags is Some
}

/// The prompt that a create request makes, given its new id and the time.
pub open spec fn new_prompt(req: CreatePromptRequest, id: Seq<char>, now: i64) -> PromptView {
    PromptView {
        id,
        version: 1,
        content: req.content@,
        parent: match req.parent {
            Some(p) => p@,
            None => id,
        },
        branched: req.branched,
        archived: Some(false),
        created_at: now,
        metadata: if asks_for_metadata(req) {
            Some(
                MetadataView {
                    id,
                    name: req.name.deep_view(),
                    description: req.description.deep_view(),
                    category: req.category.deep_view(),
                    tags: tags_view(req.tags),
                    updated_at: now,
                },
            )
        } else {
            None
        },
    }
}

/// The metadata that an update request writes, stamped with `now`.
pub open spec fn updated_metadata(req: UpdateMetadataRequest, now: i64) -> MetadataView {
    MetadataView {
        id: req.id@,
        name: req.name.deep_view(),
        description: req.description.deep_view(),
        category: req.category.deep_view(),
        tags: tags_view(req.tags),
        updated_at: now,
    }
}

impl DbPrompt {
    /// The first revision made from `req`, with the id and time given.
    pub fn from_request(req: CreatePromptRequest, id: String, now: i64) -> (r: DbPrompt)
        ensures
            r@ == new_prompt(req, id@, now),
    {
        let has_metadata = req.name.is_some() || req.description.is_some()
            || req.category.is_some() || req.tags.is_some();
        let metadata = if has_metadata {
            Some(
                DbPromptMetadata {
                    id: id.clone(),
                    name: req.name,
                    description: req.description,
                    category: req.category,
                    tags: req.tags,
                    updated_at: now,
                },
            )
        } else {
            None
        };
        let parent = match req.parent {
            Some(p) => p,
            None => id.clone(),
        };
        DbPrompt {
            id,
            version: 1,
            content: req.content,
            parent,
            branched: req.branched,
            archived: Some(false),
            created_at: now,
            metadata,
        }
    }

    /// The first revision made from `req`, with a fresh id and the current time.
    pub fn new_from_request(req: CreatePromptRequest) -> (r: DbPrompt)
        ensures
            r@ == new_prompt(req, r.id@, r.created_at),
            r.id@.len() == 36,
            r.created_at >= 0,
    {
        let id = fresh_id();
        let now = now_timestamp();
        DbPrompt::from_request(req, id, now)
    }
}

impl From<CreatePromptRequest> for DbPrompt {
    /// The first revision made from `req`, with a fresh id and the current time.
    fn from(req: CreatePromptRequest) -> (r: DbPrompt)
        ensures
            r@ == new_prompt(req, r.id@, r.created_at),
            r.id@.len() == 36,
            r.created_at >= 0,
    {
        DbPrompt::new_from_request(req)
    }
}

impl vstd::std_specs::convert::FromSpecImpl<CreatePromptRequest> for DbPrompt {
    /// A new id and time are drawn on each call.
    open spec fn obeys_from_spec() -> bool {
        false
    }

    open spec fn from_spec(req: CreatePromptRequest) -> DbPrompt {
        arbitrary()
    }
}

impl DbPromptMetadata {
    /// The metadata that `req` writes, stamped with `now`.
    pub fn from_update_request(req: UpdateMetadataRequest, now: i64) -> (r: DbPromptMetadata)
        ensures
            r@ == updated_metadata(req, now),
    {
        DbPromptMetadata {
            id: req.id,
            name: req.name,
            description: req.description,
            category: req.category,
            tags: req.tags,
            updated_at: now,
        }
    }
}

impl From<UpdateMetadataRequest> for DbPromptMetadata {
    /// The metadata that `req` writes, stamped with the current time.
    fn from(req: UpdateMetadataRequest) -> (r: DbPromptMetadata)
        ensures
            r@ == updated_metadata(req, r.updated_at),
            r.updated_at >= 0,
    {
        DbPromptMetadata::from_update_request(req, now_timestamp())
    }
}

impl vstd::std_specs::convert::FromSpecImpl<UpdateMetadataRequest> for DbPromptMetadata {
    /// The stamp is the time of the call.
    open spec fn obeys_from_spec() -> bool {
        false
    }

    open spec fn from_spec(req: UpdateMetadataRequest) -> DbPromptMetadata {
        arbitrary()
    }
}

/// The response shape of stored metadata: its descriptive fields.
pub open spec fn response_metadata(m: DbPromptMetadata) -> PromptMetadata {
    PromptMetadata {
        name: m.name,
        description: m.description,
        category: m.category,
        tags: m.tags,
    }
}

/// The response shape of a stored prompt: every persisted field, and the
/// metadata exactly when the record carries it.
pub open spec fn response_prompt(p: DbPrompt) -> Prompt {
    Prompt {
        id: p.id,
        content: p.content,
        version: p.version,
        parent: p.parent,
        branched: p.branched,
        archived: p.archived,
        created_at: p.created_at,
        metadata: match p.metadata {
            Some(m) => Some(response_metadata(m)),
            None => None,
        },
    }
}

impl From<DbPromptMetadata> for PromptMetadata {
    fn from(m: DbPromptMetadata) -> (r: PromptMetadata) {
        PromptMetadata {
            name: m.name,
            description: m.description,
            category: m.category,
            tags: m.tags,
        }
    }
}

impl vstd::std_specs::convert::FromSpecImpl<DbPromptMetadata> for PromptMetadata {
    open spec fn obeys_from_spec() -> bool {
        true
    }

    open spec fn from_spec(m: DbPromptMetadata) -> PromptMetadata {
        response_metadata(m)
    }
}

impl From<DbPrompt> for Prompt {
    fn from(p: DbPrompt) -> (r: Prompt) {
        let metadata = match p.metadata {
            Some(m) => Some(PromptMetadata::from(m)),
            None => None,
        };
        Prompt {
            id: p.id,
            content: p.content,
            version: p.version,
            parent: p.parent,
            branched: p.branched,
            archived: p.archived,
            created_at: p.created_at,
            metadata,
        }
    }
}

impl vstd::std_specs::convert::FromSpecImpl<DbPrompt> for Prompt {
    open spec fn obeys_from_spec() -> bool {
        true
    }

    open spec fn from_spec(p: DbPrompt) -> Prompt {
        response_prompt(p)
    }
}

/// The paging that a listing request asks for: offset 0 and limit 10 where
/// none is given.
pub open spec fn requested_paging(req: GetPromptsRequest) -> (int, int) {
    (
        match req.offset {
            Some(o) => o as int,
            None => 0,
        },
        match req.limit {
            Some(l) => l as int,
            None => 10,
        },
    )
}

impl GetPromptsRequest {
    /// The offset and limit asked for, or `InvalidRequest` when the offset is
    /// negative or the limit is not positive.
    pub fn paging(&self) -> (r: Result<(u32, u32), CacheError>)
        ensures
            match r {
                Ok((offset, limit)) => {
                    &&& requested_paging(*self).0 >= 0
                    &&& requested_paging(*self).1 > 0
                    &&& offset as int == requested_paging(*self).0
                    &&& limit as int == requested_paging(*self).1
                },
                Err(e) => {
                    &&& e is InvalidRequest
                    &&& (requested_paging(*self).0 < 0 || requested_paging(*self).1 <= 0)
                },
            },
    {
        let offset: i32 = match self.offset {
            Some(o) => o,
            None => 0,
        };
        let limit: i32 = match self.limit {
            Some(l) => l,
            None => 10,
        };
        if offset < 0 || limit <= 0 {
            return Err(CacheError::InvalidRequest(String::from_str("Invalid paging values")));
        }
        Ok((offset as u32, limit as u32))
    }
}

/// Failure of a prompt or content fetch.
#[derive(Debug, PartialEq, Eq, Structural)]
pub enum GetPromptError {
    NotFound,
    InternalServerError,
}

impl GetPromptError {
    /// `NotFound` for a store `NotFound`; any other failure is internal.
    pub fn from_cache_error(e: &CacheError) -> (r: GetPromptError)
        ensures
            r == (if *e is NotFound {
                GetPromptError::NotFound
            } else {
                GetPromptError::InternalServerError
            }),
    {
        match e {
            CacheError::NotFound => GetPromptError::NotFound,
            _ => GetPromptError::InternalServerError,
        }
    }

    /// The HTTP status answered.
    pub fn status_code(&self) -> (r: u16)
        ensures
            r == (if *self is NotFound {
                404u16
            } else {
                500u16
            }),
    {
        match self {
            GetPromptError::NotFound => 404,
            GetPromptError::InternalServerError => 500,
        }
    }
}

/// Failure of an archive request.
#[derive(Debug, PartialEq, Eq, Structural)]
pub enum DeletePromptError {
    NotFoundError,
    InternalServerError,
}

/// The answer to an archive request, given what the store did: success when
/// a prompt was archived, `NotFoundError` when none had the id, and an
/// internal error when the store failed.
pub open spec fn delete_answer(outcome: Result<bool, CacheError>) -> Option<DeletePromptError> {
    match outcome {
        Ok(true) => None,
        Ok(false) => Some(DeletePromptError::NotFoundError),
        Err(_) => Some(DeletePromptError::InternalServerError),
    }
}

impl DeletePromptError {
    /// `NotFoundError` when nothing was archived; a store failure is internal.
    pub fn from_outcome(outcome: &Result<bool, CacheError>) -> (r: Option<DeletePromptError>)
        ensures
            r == delete_answer(*outcome),
    {
        match outcome {
            Ok(true) => None,
            Ok(false) => Some(DeletePromptError::NotFoundError),
            Err(_) => Some(DeletePromptError::InternalServerError),
        }
    }

    /// The HTTP status answered.
    pub fn status_code(&self) -> (r: u16)
        ensures
            r == (if *self is NotFoundError {
                404u16
            } else {
                500u16
            }),
    {
        match self {
            DeletePromptError::NotFoundError => 404,
            DeletePromptError::InternalServerError => 500,
        }
    }
}

/// Failure of a prompt listing.
#[derive(Debug, PartialEq, Eq, Structural)]
pub enum GetPromptsError {
    InvalidRequest,
    InternalServerError,
}

impl GetPromptsError {
    /// `InvalidRequest` for malformed paging; any other failure is internal.
    pub fn from_cache_error(e: &CacheError) -> (r: GetPromptsError)
        ensures
            r == (if *e is InvalidRequest {
                GetPromptsError::InvalidRequest
            } else {
                GetPromptsError::InternalServerError
            }),
    {
        match e {
            CacheError::InvalidRequest(_) => GetPromptsError::InvalidRequest,
            _ => GetPromptsError::InternalServerError,
        }
    }

    /// The HTTP status answered.
    pub fn status_code(&self) -> (r: u16)
        ensures
            r == (if *self is InvalidRequest {
                400u16
            } else {
                500u16
            }),
    {
        match self {
            GetPromptsError::InvalidRequest => 400,
            GetPromptsError::InternalServerError => 500,
        }
    }
}

/// Failure of a create request.
#[derive(Debug, PartialEq, Eq, Structural)]
pub enum CreatePromptError {
    InvalidRequestBody,
    InternalServerError,
}

impl CreatePromptError {
    /// The HTTP status answered.
    pub fn status_code(&self) -> (r: u16)
        ensures
            r == (if *self is InvalidRequestBody {
                400u16
            } else {
                500u16
            }),
    {
        match self {
            CreatePromptError::InvalidRequestBody => 400,
            CreatePromptError::InternalServerError => 500,
        }
    }
}

/// Failure of a prompt update.
#[derive(Debug, PartialEq, Eq, Structural)]
pub enum UpdatePromptError {
    NotFound,
    InternalServerError,
}

impl UpdatePromptError {
    /// The HTTP status answered.
    pub fn status_code(&self) -> (r: u16)
        ensures
            r == (if *self is NotFound {
                404u16
            } else {
                500u16
            }),
    {
        match self {
            UpdatePromptError::NotFound => 404,
            UpdatePromptError::InternalServerError => 500,
        }
    }
}

/// Failure of a metadata update.
#[derive(Debug, PartialEq, Eq, Structural)]
pub enum UpdateMetadataError {
    NotFound,
    InternalServerError,
}

impl UpdateMetadataError {
    /// `NotFound` for a store `NotFound`; any other failure is internal.
    pub fn from_cache_error(e: &CacheError) -> (r: UpdateMetadataError)
        ensures
            r == (if *e is NotFound {
                UpdateMetadataError::NotFound
            } else {
                UpdateMetadataError::InternalServerError
            }),
    {
        match e {
            CacheError::NotFound => UpdateMetadataError::NotFound,
            _ => UpdateMetadataError::InternalServerError,
        }
    }

    /// The HTTP status answered.
    pub fn status_code(&self) -> (r: u16)
        ensures
            r == (if *self is NotFound {
                404u16
            } else {
                500u16
            }),
    {
        match self {
            UpdateMetadataError::NotFound => 404,
            UpdateMetadataError::InternalServerError => 500,
        }
    }
}

} // verus!
