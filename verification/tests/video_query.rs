use graybrowser::video_query::{
    build_video_filter, resolve_sort, video_list_sql, FilterParam, SortDirectionParam,
    SortFieldParam,
};

const TERM: &str = "(COALESCE(file_name,'') LIKE ? ESCAPE '\\' OR COALESCE(kana,'') LIKE ? ESCAPE '\\' OR COALESCE(roma,'') LIKE ? ESCAPE '\\')";
const TAG: &str = "EXISTS (SELECT 1 FROM video_tags vt WHERE vt.video_id = videos.id AND vt.tag_id = ?)";
const FOLDER: &str = "file_path LIKE ? ESCAPE '\\'";

fn text(p: &FilterParam) -> Option<&str> {
    match p {
        FilterParam::Text(s) => Some(s.as_str()),
        FilterParam::Integer(_) => None,
    }
}

fn integer(p: &FilterParam) -> Option<i64> {
    match p {
        FilterParam::Integer(n) => Some(*n),
        FilterParam::Text(_) => None,
    }
}

#[test]
fn an_omitted_sort_defaults_to_newest_first() {
    assert_eq!(resolve_sort(None, None), (SortFieldParam::CreatedAt, SortDirectionParam::Desc));
    assert_eq!(
        resolve_sort(Some(SortFieldParam::Rating), None),
        (SortFieldParam::Rating, SortDirectionParam::Desc)
    );
    assert_eq!(
        resolve_sort(None, Some(SortDirectionParam::Asc)),
        (SortFieldParam::CreatedAt, SortDirectionParam::Asc)
    );
    assert_eq!(
        resolve_sort(Some(SortFieldParam::FileName), Some(SortDirectionParam::Asc)),
        (SortFieldParam::FileName, SortDirectionParam::Asc)
    );
}

#[test]
fn browsing_everything_has_no_where_clause_and_no_parameters() {
    let f = build_video_filter(&vec![], &vec![], None);
    assert_eq!(f.where_sql, "");
    assert!(f.params.is_empty());
}

#[test]
fn every_term_tag_and_folder_is_anded_in_order() {
    let f = build_video_filter(
        &vec!["foo".to_string(), "50\\%".to_string()],
        &vec![7, 9],
        Some(r"C:\Videos\\"),
    );
    assert_eq!(
        f.where_sql,
        format!("WHERE {TERM} AND {TERM} AND {TAG} AND {TAG} AND {FOLDER}")
    );
    assert_eq!(f.params.len(), 9);
    for p in &f.params[0..3] {
        assert_eq!(text(p), Some("%foo%"));
    }
    for p in &f.params[3..6] {
        assert_eq!(text(p), Some("%50\\%%"));
    }
    assert_eq!(integer(&f.params[6]), Some(7));
    assert_eq!(integer(&f.params[7]), Some(9));
    assert_eq!(text(&f.params[8]), Some(r"C:\Videos\\%"));
}

#[test]
fn a_single_condition_has_no_and() {
    let f = build_video_filter(&vec![], &vec![3], None);
    assert_eq!(f.where_sql, format!("WHERE {TAG}"));
    assert_eq!(f.params.len(), 1);
    let f = build_video_filter(&vec![], &vec![], Some("D:\\"));
    assert_eq!(f.where_sql, format!("WHERE {FOLDER}"));
    assert_eq!(text(&f.params[0]), Some("D:\\%"));
}

#[test]
fn the_listing_statement_selects_full_rows_in_the_given_order() {
    assert_eq!(
        video_list_sql("", "created_at DESC"),
        "SELECT id, file_path, file_name, file_size, duration, quick_hash, full_hash, status, rating, created_at, mtime, thumbnail_ready FROM videos  ORDER BY created_at DESC"
    );
    assert_eq!(
        video_list_sql("WHERE x", "rating ASC"),
        "SELECT id, file_path, file_name, file_size, duration, quick_hash, full_hash, status, rating, created_at, mtime, thumbnail_ready FROM videos WHERE x ORDER BY rating ASC"
    );
}

#[test]
fn every_placeholder_has_exactly_one_bound_value() {
    let cases: Vec<(Vec<String>, Vec<i64>, Option<&str>)> = vec![
        (vec![], vec![], None),
        (vec!["a".to_string()], vec![], None),
        (vec![], vec![1, 2, 3], None),
        (vec!["a".to_string(), "b".to_string()], vec![4], Some("C:\\")),
    ];
    for (terms, tags, folder) in cases {
        let f = build_video_filter(&terms, &tags, folder);
        let placeholders = f.where_sql.matches('?').count();
        assert_eq!(placeholders, f.params.len());
        assert_eq!(f.params.len(), 3 * terms.len() + tags.len() + usize::from(folder.is_some()));
    }
}
