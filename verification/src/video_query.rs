//! The filtered video listing: which sort applies when the caller names
//! none, and the `WHERE` clause plus bound parameters that select the rows
//! matching every search term, every tag and, optionally, one folder.
//!
//! Search terms arrive already LIKE-escaped and the folder as its LIKE
//! prefix; the clauses below bind them with `ESCAPE '\'`.

use vstd::prelude::*;
use crate::text::{chars_of, string_of, append_str};

verus! {

/// The column a video listing is ordered by.
#[derive(Clone, Copy, Debug, PartialEq, Eq, Structural)]
pub enum SortFieldParam {
    FileName,
    CreatedAt,
    UpdatedDate,
    Rating,
}

/// The direction a video listing is ordered in.
#[derive(Clone, Copy, Debug, PartialEq, Eq, Structural)]
pub enum SortDirectionParam {
    Asc,
    Desc,
}

/// The sort a listing uses: the one asked for, and newest first
/// (`CreatedAt`, `Desc`) for whatever part of it was not given.
pub fn resolve_sort(field: Option<SortFieldParam>, direction: Option<SortDirectionParam>) -> (r: (
    SortFieldParam,
    SortDirectionParam,
))
    ensures
        r.0 == (match field {
            Some(f) => f,
            None => SortFieldParam::CreatedAt,
        }),
        r.1 == (match direction {
            Some(d) => d,
            None => SortDirectionParam::Desc,
        }),
{
    let f = match field {
        Some(f) => f,
        None => SortFieldParam::CreatedAt,
    };
    let d = match direction {
        Some(d) => d,
        None => SortDirectionParam::Desc,
    };
    (f, d)
}

/// A value bound to one `?` of the filter.
#[derive(Debug)]
pub enum FilterParam {
    Text(String),
    Integer(i64),
}

/// The model of a bound value.
pub enum ParamValue {
    Text(Seq<char>),
    Integer(i64),
}

impl View for FilterParam {
    type V = ParamValue;

    open spec fn view(&self) -> ParamValue {
        match self {
            FilterParam::Text(s) => ParamValue::Text(s@),
            FilterParam::Integer(n) => ParamValue::Integer(*n),
        }
    }
}

/// The clause one search term adds: the term occurs in the file name, the
/// kana reading or the romanized reading (a missing reading never matches).
pub open spec fn term_clause() -> Seq<char> {
    "(COALESCE(file_name,'') LIKE ? ESCAPE '\\' OR COALESCE(kana,'') LIKE ? ESCAPE '\\' OR COALESCE(roma,'') LIKE ? ESCAPE '\\')"@
}

/// The clause one tag adds: the video carries that tag.
pub open spec fn tag_clause() -> Seq<char> {
    "EXISTS (SELECT 1 FROM video_tags vt WHERE vt.video_id = videos.id AND vt.tag_id = ?)"@
}

/// The clause the folder filter adds: the path lies under the folder.
pub open spec fn folder_clause() -> Seq<char> {
    "file_path LIKE ? ESCAPE '\\'"@
}

/// The clauses of a filter, in order: one per search term, one per tag,
/// then the folder clause when a folder is given.
pub open spec fn filter_clauses(n_terms: nat, n_tags: nat, by_folder: bool) -> Seq<Seq<char>> {
    Seq::new(n_terms, |i: int| term_clause()) + Seq::new(n_tags, |i: int| tag_clause()) + if by_folder {
        seq![folder_clause()]
    } else {
        Seq::empty()
    }
}

/// `WHERE` followed by `clauses` joined with ` AND `; nothing at all when
/// there is no clause.
pub open spec fn where_text(clauses: Seq<Seq<char>>) -> Seq<char>
    decreases clauses.len(),
{
    if clauses.len() == 0 {
        Seq::empty()
    } else if clauses.len() == 1 {
        "WHERE "@ + clauses[0]
    } else {
        where_text(clauses.drop_last()) + " AND "@ + clauses.last()
    }
}

/// The LIKE pattern that matches a text containing `t`.
pub open spec fn contains_pattern(t: Seq<char>) -> Seq<char> {
    seq!['%'] + t + seq!['%']
}

/// The values the search-term clauses bind: each term's pattern three
/// times, for the three columns it is matched against.
pub open spec fn term_params(terms: Seq<Seq<char>>) -> Seq<ParamValue>
    decreases terms.len(),
{
    if terms.len() == 0 {
        Seq::empty()
    } else {
        let p = ParamValue::Text(contains_pattern(terms.last()));
        term_params(terms.drop_last()) + seq![p, p, p]
    }
}

/// The values the tag clauses bind, one tag id each.
pub open spec fn tag_params(tag_ids: Seq<i64>) -> Seq<ParamValue> {
    Seq::new(tag_ids.len(), |i: int| ParamValue::Integer(tag_ids[i]))
}

/// The value the folder clause binds: the folder's LIKE prefix followed
/// by `%`.
pub open spec fn folder_params(folder_prefix: Option<Seq<char>>) -> Seq<ParamValue> {
    match folder_prefix {
        Some(p) => seq![ParamValue::Text(p + seq!['%'])],
        None => Seq::empty(),
    }
}

/// All bound values of a filter, in the order of its `?` placeholders.
pub open spec fn filter_params(
    terms: Seq<Seq<char>>,
    tag_ids: Seq<i64>,
    folder_prefix: Option<Seq<char>>,
) -> Seq<ParamValue> {
    term_params(terms) + tag_params(tag_ids) + folder_params(folder_prefix)
}

/// The bound values, each by its model.
pub open spec fn params_view(params: Seq<FilterParam>) -> Seq<ParamValue> {
    params.map_values(|p: FilterParam| p@)
}

/// An optional text by its characters.
pub open spec fn opt_str_view(s: Option<&str>) -> Option<Seq<char>> {
    match s {
        Some(s) => Some(s@),
        None => None,
    }
}

/// The `WHERE` text of a video listing and the values it binds.
pub struct VideoFilter {
    pub where_sql: String,
    pub params: Vec<FilterParam>,
}

proof fn lemma_where_text_push(s: Seq<Seq<char>>, c: Seq<char>)
    ensures
        where_text(s.push(c)) == where_text(s) + (if s.len() == 0 {
            "WHERE "@
        } else {
            " AND "@
        }) + c,
{
    assert(s.push(c).drop_last() =~= s);
    if s.len() == 0 {
        assert(where_text(s) =~= Seq::<char>::empty());
        assert(where_text(s) + "WHERE "@ =~= "WHERE "@);
    }
}

/// Appends one clause to a `WHERE` text; `first` when it holds none yet.
fn append_clause(v: &mut Vec<char>, first: bool, clause: &str)
    ensures
        final(v)@ == old(v)@ + (if first {
            "WHERE "@
        } else {
            " AND "@
        }) + clause@,
{
    if first {
        append_str(v, "WHERE ");
    } else {
        append_str(v, " AND ");
    }
    append_str(v, clause);
}

/// Builds the filter of a video listing from the LIKE-escaped search terms,
/// the tag ids and the folder's LIKE prefix. Every condition must hold of
/// a listed row: all terms, all tags and the folder.
pub fn build_video_filter(
    escaped_terms: &Vec<String>,
    tag_ids: &Vec<i64>,
    folder_like_prefix: Option<&str>,
) -> (f: VideoFilter)
    ensures
        f.where_sql@ == where_text(
            filter_clauses(escaped_terms.len() as nat, tag_ids.len() as nat, folder_like_prefix is Some),
        ),
        params_view(f.params@) == filter_params(
            escaped_terms.deep_view(),
            tag_ids@,
            opt_str_view(folder_like_prefix),
        ),
{
    let ghost terms = escaped_terms.deep_view();
    let n_terms = escaped_terms.len();
    let n_tags = tag_ids.len();
    let mut v: Vec<char> = Vec::new();
    let mut params: Vec<FilterParam> = Vec::new();
    let mut first = true;
    let mut i: usize = 0;
    while i < n_terms
        invariant
            n_terms == escaped_terms.len(),
            terms == escaped_terms.deep_view(),
            i <= n_terms,
            first == (i == 0),
            v@ == where_text(filter_clauses(i as nat, 0, false)),
            params_view(params@) == term_params(terms.subrange(0, i as int)),
        decreases n_terms - i,
    {
        let ghost before = filter_clauses(i as nat, 0, false);
        proof {
            lemma_where_text_push(before, term_clause());
            assert(filter_clauses((i + 1) as nat, 0, false) =~= before.push(term_clause()));
            assert(before.len() == i);
        }
        append_clause(&mut v, first, "(COALESCE(file_name,'') LIKE ? ESCAPE '\\' OR COALESCE(kana,'') LIKE ? ESCAPE '\\' OR COALESCE(roma,'') LIKE ? ESCAPE '\\')");
        let mut pattern: Vec<char> = Vec::new();
        pattern.push('%');
        append_str(&mut pattern, escaped_terms[i].as_str());
        pattern.push('%');
        let ghost pv = ParamValue::Text(contains_pattern(terms[i as int]));
        assert(terms[i as int] == escaped_terms@[i as int]@);
        assert(pattern@ =~= contains_pattern(terms[i as int]));
        let ghost old_params = params@;
        params.push(FilterParam::Text(string_of(&pattern)));
        params.push(FilterParam::Text(string_of(&pattern)));
        params.push(FilterParam::Text(string_of(&pattern)));
        proof {
            let prefix = terms.subrange(0, i as int + 1);
            assert(prefix.drop_last() =~= terms.subrange(0, i as int));
            assert(prefix.last() == terms[i as int]);
            assert(params_view(params@) =~= params_view(old_params) + seq![pv, pv, pv]);
        }
        first = false;
        i = i + 1;
    }
    assert(terms.subrange(0, n_terms as int) =~= terms);
    let ghost term_part = params_view(params@);
    let mut j: usize = 0;
    while j < n_tags
        invariant
            n_tags == tag_ids.len(),
            first == (n_terms + j == 0),
            j <= n_tags,
            v@ == where_text(filter_clauses(n_terms as nat, j as nat, false)),
            params_view(params@) == term_part + tag_params(tag_ids@.subrange(0, j as int)),
        decreases n_tags - j,
    {
        let ghost before = filter_clauses(n_terms as nat, j as nat, false);
        proof {
            lemma_where_text_push(before, tag_clause());
            assert(filter_clauses(n_terms as nat, (j + 1) as nat, false) =~= before.push(tag_clause()));
            assert(before.len() == n_terms + j);
        }
        append_clause(&mut v, first, "EXISTS (SELECT 1 FROM video_tags vt WHERE vt.video_id = videos.id AND vt.tag_id = ?)");
        let ghost old_params = params@;
        params.push(FilterParam::Integer(tag_ids[j]));
        proof {
            assert(tag_params(tag_ids@.subrange(0, j as int + 1)) =~= tag_params(
                tag_ids@.subrange(0, j as int),
            ).push(ParamValue::Integer(tag_ids@[j as int])));
            assert(params_view(params@) =~= params_view(old_params).push(
                ParamValue::Integer(tag_ids@[j as int]),
            ));
        }
        first = false;
        j = j + 1;
    }
    assert(tag_ids@.subrange(0, n_tags as int) =~= tag_ids@);
    match folder_like_prefix {
        Some(prefix) => {
            let ghost before = filter_clauses(n_terms as nat, n_tags as nat, false);
            proof {
                lemma_where_text_push(before, folder_clause());
                assert(filter_clauses(n_terms as nat, n_tags as nat, true) =~= before.push(
                    folder_clause(),
                ));
                assert(before.len() == n_terms + n_tags);
            }
            append_clause(&mut v, first, "file_path LIKE ? ESCAPE '\\'");
            let mut pattern = chars_of(prefix);
            pattern.push('%');
            assert(pattern@ =~= prefix@ + seq!['%']);
            let ghost old_params = params@;
            params.push(FilterParam::Text(string_of(&pattern)));
            proof {
                assert(params_view(params@) =~= params_view(old_params).push(
                    ParamValue::Text(prefix@ + seq!['%']),
                ));
                assert(params_view(params@) =~= filter_params(
                    terms,
                    tag_ids@,
                    opt_str_view(folder_like_prefix),
                ));
            }
        },
        None => {
            assert(filter_clauses(n_terms as nat, n_tags as nat, false) =~= filter_clauses(
                n_terms as nat,
                n_tags as nat,
                false,
            ));
            assert(params_view(params@) =~= filter_params(
                terms,
                tag_ids@,
                opt_str_view(folder_like_prefix),
            ));
        },
    }
    VideoFilter { where_sql: string_of(&v), params }
}

/// The columns every full video row is read with, in `VideoRow` field
/// order.
pub open spec fn select_videos_prefix() -> Seq<char> {
    "SELECT id, file_path, file_name, file_size, duration, quick_hash, full_hash, status, rating, created_at, mtime, thumbnail_ready FROM videos "@
}

/// The listing statement: every full row that `where_sql` selects, in the
/// order `order_sql` gives.
pub fn video_list_sql(where_sql: &str, order_sql: &str) -> (r: String)
    ensures
        r@ == select_videos_prefix() + where_sql@ + " ORDER BY "@ + order_sql@,
{
    let mut v = chars_of("SELECT id, file_path, file_name, file_size, duration, quick_hash, full_hash, status, rating, created_at, mtime, thumbnail_ready FROM videos ");
    append_str(&mut v, where_sql);
    append_str(&mut v, " ORDER BY ");
    append_str(&mut v, order_sql);
    string_of(&v)
}

} // verus!
