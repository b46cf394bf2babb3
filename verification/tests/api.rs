use news_service::api::{found_or_not_found, sitemap_month_range, widen_opt, GqlError, NewsFeedBuildMetadataGql};
use news_service::models::NewsFeedBuildMetadata;

#[test]
fn errors_have_messages_and_extensions() {
    assert_eq!(GqlError::NotFound.message(), "Could not find resource");
    assert_eq!(GqlError::ServerError(String::from("db down")).message(), "ServerError");
    assert_eq!(GqlError::ErrorWithoutExtensions.message(), "No Extensions");
    assert_eq!(GqlError::NotFound.extension(), Some((String::from("code"), String::from("NOT_FOUND"))));
    assert_eq!(
        GqlError::ServerError(String::from("db down")).extension(),
        Some((String::from("reason"), String::from("db down")))
    );
    assert_eq!(GqlError::ErrorWithoutExtensions.extension(), None);
}

#[test]
fn build_metadata_defaults_to_zero() {
    let full = NewsFeedBuildMetadataGql::from(NewsFeedBuildMetadata { updated_at: Some(5), total_count: Some(9) });
    assert_eq!(full, NewsFeedBuildMetadataGql { updated_at: 5, total_count: 9 });
    let empty = NewsFeedBuildMetadataGql::from(NewsFeedBuildMetadata { updated_at: None, total_count: None });
    assert_eq!(empty, NewsFeedBuildMetadataGql { updated_at: 0, total_count: 0 });
}

#[test]
fn sitemap_months() {
    assert_eq!(sitemap_month_range(1, 2022), ((1, 2022), (2, 2022)));
    assert_eq!(sitemap_month_range(12, 2022), ((12, 2022), (1, 2023)));
    assert_eq!(widen_opt(Some(-3)), Some(-3i64));
    assert_eq!(widen_opt(None), None);
}

#[test]
fn missing_rows_are_not_found() {
    assert_eq!(found_or_not_found(Some(vec![1, 2])).unwrap(), vec![1, 2]);
    assert!(matches!(found_or_not_found::<Vec<i32>>(None), Err(GqlError::NotFound)));
}
