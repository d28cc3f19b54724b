use prompt_store::{
    join_tag_list, now_timestamp, split_tag_list, timestamp_from_secs, CacheError, CreatePromptError,
    CreatePromptRequest, DbPrompt, DbPromptMetadata, DeletePromptError, GetPromptContentRequest,
    GetPromptError, GetPromptsError, GetPromptsRequest, MetadataRow, Prompt, PromptMetadata,
    UpdateMetadataError, UpdateMetadataRequest, UpdatePromptError,
};

fn strings(v: &[&str]) -> Vec<String> {
    v.iter().map(|s| s.to_string()).collect()
}

fn request(parent: Option<&str>, name: Option<&str>) -> CreatePromptRequest {
    CreatePromptRequest {
        content: "body".to_string(),
        name: name.map(|n| n.to_string()),
        description: None,
        category: None,
        tags: None,
        parent: parent.map(|p| p.to_string()),
        branched: Some(true),
    }
}

#[test]
fn tags_join_with_commas() {
    assert_eq!(join_tag_list(&strings(&["a", "bc", "d"])), "a,bc,d");
    assert_eq!(join_tag_list(&strings(&["solo"])), "solo");
    assert_eq!(join_tag_list(&strings(&[])), "");
}

#[test]
fn tags_split_at_every_comma() {
    assert_eq!(split_tag_list("a,bc,d"), strings(&["a", "bc", "d"]));
    assert_eq!(split_tag_list(""), strings(&[""]));
    assert_eq!(split_tag_list("a,,b,"), strings(&["a", "", "b", ""]));
    assert_eq!(split_tag_list("ünï,çødé"), strings(&["ünï", "çødé"]));
}

#[test]
fn tag_with_comma_does_not_survive_the_round_trip() {
    let joined = join_tag_list(&strings(&["a,b", "c"]));
    assert_eq!(split_tag_list(&joined), strings(&["a", "b", "c"]));
}

#[test]
fn tags_to_string_encodes_the_list() {
    let m = DbPromptMetadata {
        id: "m".to_string(),
        name: None,
        description: None,
        category: None,
        tags: Some(strings(&["x", "y"])),
        updated_at: 0,
    };
    assert_eq!(m.tags_to_string(), Some("x,y".to_string()));
    let row = m.to_row();
    assert_eq!(row.tags, Some("x,y".to_string()));
    assert_eq!(row.decode().tags, Some(strings(&["x", "y"])));
    let none = DbPromptMetadata { tags: None, ..m };
    assert_eq!(none.tags_to_string(), None);
}

#[test]
fn metadata_row_decodes_tags() {
    let row = MetadataRow {
        id: "r".to_string(),
        name: Some("n".to_string()),
        description: None,
        category: Some("c".to_string()),
        tags: Some("p,q".to_string()),
        updated_at: 5,
    };
    let m = row.decode();
    assert_eq!(m.id, "r");
    assert_eq!(m.name, Some("n".to_string()));
    assert_eq!(m.category, Some("c".to_string()));
    assert_eq!(m.tags, Some(strings(&["p", "q"])));
    assert_eq!(m.updated_at, 5);
}

#[test]
fn request_without_parent_roots_its_own_lineage() {
    let p = DbPrompt::from_request(request(None, None), "id-1".to_string(), 42);
    assert_eq!(p.id, "id-1");
    assert_eq!(p.parent, "id-1");
    assert_eq!(p.version, 1);
    assert_eq!(p.archived, Some(false));
    assert_eq!(p.branched, Some(true));
    assert_eq!(p.created_at, 42);
    assert_eq!(p.content, "body");
    assert!(p.metadata.is_none());
}

#[test]
fn request_with_parent_and_name_carries_both() {
    let p = DbPrompt::from_request(request(Some("root"), Some("nm")), "id-2".to_string(), 7);
    assert_eq!(p.parent, "root");
    let m = p.metadata.unwrap();
    assert_eq!(m.id, "id-2");
    assert_eq!(m.name, Some("nm".to_string()));
    assert_eq!(m.description, None);
    assert_eq!(m.updated_at, 7);
}

#[test]
fn new_prompts_get_fresh_ids() {
    let a: DbPrompt = request(None, Some("n")).into();
    let b = DbPrompt::new_from_request(request(None, None));
    assert_eq!(a.id.len(), 36);
    assert_eq!(b.id.len(), 36);
    assert_ne!(a.id, b.id);
    assert_eq!(a.parent, a.id);
    assert_eq!(a.version, 1);
    assert_eq!(a.archived, Some(false));
    assert_eq!(a.metadata.as_ref().unwrap().id, a.id);
    assert!(a.created_at > 1_600_000_000);
}

#[test]
fn now_is_after_the_epoch() {
    let t = now_timestamp();
    assert!(t > 1_600_000_000);
}

#[test]
fn update_request_becomes_stamped_metadata() {
    let req = UpdateMetadataRequest {
        id: "u".to_string(),
        name: Some("n".to_string()),
        description: Some("d".to_string()),
        category: None,
        tags: Some(strings(&["t"])),
    };
    let m = DbPromptMetadata::from_update_request(req, 9);
    assert_eq!(m.id, "u");
    assert_eq!(m.name, Some("n".to_string()));
    assert_eq!(m.description, Some("d".to_string()));
    assert_eq!(m.category, None);
    assert_eq!(m.tags, Some(strings(&["t"])));
    assert_eq!(m.updated_at, 9);

    let stamped: DbPromptMetadata = UpdateMetadataRequest {
        id: "v".to_string(),
        name: None,
        description: None,
        category: None,
        tags: None,
    }
    .into();
    assert_eq!(stamped.id, "v");
    assert!(stamped.updated_at > 1_600_000_000);
}

#[test]
fn response_carries_fields_and_metadata() {
    let p = DbPrompt::from_request(request(Some("root"), Some("nm")), "id".to_string(), 3);
    let r = Prompt::from(p);
    assert_eq!(r.id, "id");
    assert_eq!(r.parent, "root");
    assert_eq!(r.version, 1);
    assert_eq!(r.created_at, 3);
    let m: PromptMetadata = r.metadata.unwrap();
    assert_eq!(m.name, Some("nm".to_string()));

    let bare = Prompt::from(DbPrompt::from_request(request(None, None), "b".to_string(), 1));
    assert!(bare.metadata.is_none());
}

#[test]
fn paging_defaults_and_rejections() {
    let req = |offset, limit| GetPromptsRequest { category: None, offset, limit };
    assert_eq!(req(None, None).paging().unwrap(), (0, 10));
    assert_eq!(req(Some(5), Some(2)).paging().unwrap(), (5, 2));
    assert!(matches!(req(Some(-1), None).paging(), Err(CacheError::InvalidRequest(_))));
    assert!(matches!(req(None, Some(0)).paging(), Err(CacheError::InvalidRequest(_))));
    assert!(matches!(req(None, Some(-3)).paging(), Err(CacheError::InvalidRequest(_))));
}

#[test]
fn content_request_wants_latest_only_when_true() {
    assert!(GetPromptContentRequest { latest: Some(true) }.wants_latest());
    assert!(!GetPromptContentRequest { latest: Some(false) }.wants_latest());
    assert!(!GetPromptContentRequest { latest: None }.wants_latest());
}

#[test]
fn endpoint_errors_map_to_status_codes() {
    assert_eq!(GetPromptError::NotFound.status_code(), 404);
    assert_eq!(GetPromptError::InternalServerError.status_code(), 500);
    assert_eq!(DeletePromptError::NotFoundError.status_code(), 404);
    assert_eq!(DeletePromptError::InternalServerError.status_code(), 500);
    assert_eq!(GetPromptsError::InvalidRequest.status_code(), 400);
    assert_eq!(GetPromptsError::InternalServerError.status_code(), 500);
    assert_eq!(CreatePromptError::InvalidRequestBody.status_code(), 400);
    assert_eq!(CreatePromptError::InternalServerError.status_code(), 500);
    assert_eq!(UpdatePromptError::NotFound.status_code(), 404);
    assert_eq!(UpdatePromptError::InternalServerError.status_code(), 500);
    assert_eq!(UpdateMetadataError::NotFound.status_code(), 404);
    assert_eq!(UpdateMetadataError::InternalServerError.status_code(), 500);
}

#[test]
fn store_errors_map_to_endpoint_errors() {
    let not_found = CacheError::NotFound;
    let invalid = CacheError::InvalidRequest("bad".to_string());
    let other = CacheError::UnhandledError("boom".to_string());
    let pool = CacheError::PoolError("busy".to_string());
    assert_eq!(GetPromptError::from_cache_error(&not_found), GetPromptError::NotFound);
    assert_eq!(GetPromptError::from_cache_error(&other), GetPromptError::InternalServerError);
    assert_eq!(GetPromptsError::from_cache_error(&invalid), GetPromptsError::InvalidRequest);
    assert_eq!(GetPromptsError::from_cache_error(&pool), GetPromptsError::InternalServerError);
    assert_eq!(UpdateMetadataError::from_cache_error(&not_found), UpdateMetadataError::NotFound);
    assert_eq!(
        UpdateMetadataError::from_cache_error(&invalid),
        UpdateMetadataError::InternalServerError
    );
    assert_eq!(DeletePromptError::from_outcome(&Ok(true)), None);
    assert_eq!(DeletePromptError::from_outcome(&Ok(false)), Some(DeletePromptError::NotFoundError));
    assert_eq!(
        DeletePromptError::from_outcome(&Err(other)),
        Some(DeletePromptError::InternalServerError)
    );
}

#[test]
fn clock_readings_become_timestamps() {
    assert_eq!(timestamp_from_secs(Some(1_700_000_123)), 1_700_000_123);
    assert_eq!(timestamp_from_secs(Some(0)), 0);
    assert_eq!(timestamp_from_secs(Some(i64::MAX as u64)), i64::MAX);
    assert_eq!(timestamp_from_secs(Some(u64::MAX)), i64::MAX);
    assert_eq!(timestamp_from_secs(None), 0);
}
