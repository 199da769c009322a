//! Catalog rows as read from the database, and the lean transfer objects the
//! user interface receives for them. Every conversion carries each field
//! over unchanged.

use vstd::prelude::*;

verus! {

/// One full `videos` row.
pub struct VideoRow {
    pub id: String,
    pub file_path: String,
    pub file_name: String,
    pub file_size: i64,
    pub duration: Option<i64>,
    pub quick_hash: String,
    pub full_hash: Option<String>,
    pub status: String,
    pub rating: i64,
    pub created_at: String,
    /// Filesystem mtime (Unix seconds) as of the last scan that touched this
    /// row; `None` for rows written before mtime tracking existed.
    pub mtime: Option<i64>,
    /// Whether all of the video's thumbnail slot files were present the last
    /// time they were written.
    pub thumbnail_ready: bool,
}

/// The grid's view of a video: every `VideoRow` field but `mtime`.
pub struct VideoDto {
    pub id: String,
    pub file_path: String,
    pub file_name: String,
    pub file_size: i64,
    pub duration: Option<i64>,
    pub quick_hash: String,
    pub full_hash: Option<String>,
    pub status: String,
    pub rating: i64,
    pub created_at: String,
    pub thumbnail_ready: bool,
}

/// The transfer object of a row: every field but `mtime`, unchanged.
pub open spec fn video_dto_of(row: VideoRow) -> VideoDto {
    VideoDto {
        id: row.id,
        file_path: row.file_path,
        file_name: row.file_name,
        file_size: row.file_size,
        duration: row.duration,
        quick_hash: row.quick_hash,
        full_hash: row.full_hash,
        status: row.status,
        rating: row.rating,
        created_at: row.created_at,
        thumbnail_ready: row.thumbnail_ready,
    }
}

/// A row's transfer object carries every field but `mtime` over unchanged,
/// whatever the row's status: in particular an offline video keeps its
/// `thumbnail_ready` flag, so its cached thumbnails still show.
pub proof fn lemma_dto_carries_every_field(row: VideoRow)
    ensures
        video_dto_of(row).thumbnail_ready == row.thumbnail_ready,
        video_dto_of(row).status == row.status,
        video_dto_of(row).id == row.id,
        video_dto_of(row).file_path == row.file_path,
        video_dto_of(row).file_name == row.file_name,
        video_dto_of(row).file_size == row.file_size,
        video_dto_of(row).duration == row.duration,
        video_dto_of(row).quick_hash == row.quick_hash,
        video_dto_of(row).full_hash == row.full_hash,
        video_dto_of(row).rating == row.rating,
        video_dto_of(row).created_at == row.created_at,
{
}

impl VideoDto {
    /// Carries a row over field by field; `thumbnail_ready` comes from the
    /// row itself, never from the filesystem.
    pub fn from_row(row: VideoRow) -> (dto: VideoDto)
        ensures
            dto == video_dto_of(row),
            dto.thumbnail_ready == row.thumbnail_ready,
            dto.status == row.status,
            dto.id == row.id,
            dto.file_path == row.file_path,
            dto.file_name == row.file_name,
            dto.file_size == row.file_size,
            dto.duration == row.duration,
            dto.quick_hash == row.quick_hash,
            dto.full_hash == row.full_hash,
            dto.rating == row.rating,
            dto.created_at == row.created_at,
    {
        VideoDto {
            id: row.id,
            file_path: row.file_path,
            file_name: row.file_name,
            file_size: row.file_size,
            duration: row.duration,
            quick_hash: row.quick_hash,
            full_hash: row.full_hash,
            status: row.status,
            rating: row.rating,
            created_at: row.created_at,
            thumbnail_ready: row.thumbnail_ready,
        }
    }
}

/// One `skipped_files` row: a file left out of the catalog because its name
/// holds a machine-dependent character.
pub struct SkippedFileRow {
    pub id: i64,
    pub file_path: String,
    pub file_name: String,
    pub reason: String,
    pub detected_char: Option<String>,
    pub detected_at: String,
}

/// The transfer object of a skipped file.
pub struct SkippedFileDto {
    pub id: i64,
    pub file_path: String,
    pub file_name: String,
    pub reason: String,
    pub detected_char: Option<String>,
    pub detected_at: String,
}

impl From<SkippedFileRow> for SkippedFileDto {
    fn from(row: SkippedFileRow) -> (dto: SkippedFileDto) {
        SkippedFileDto {
            id: row.id,
            file_path: row.file_path,
            file_name: row.file_name,
            reason: row.reason,
            detected_char: row.detected_char,
            detected_at: row.detected_at,
        }
    }
}

impl vstd::std_specs::convert::FromSpecImpl<SkippedFileRow> for SkippedFileDto {
    open spec fn obeys_from_spec() -> bool {
        true
    }

    open spec fn from_spec(row: SkippedFileRow) -> SkippedFileDto {
        SkippedFileDto {
            id: row.id,
            file_path: row.file_path,
            file_name: row.file_name,
            reason: row.reason,
            detected_char: row.detected_char,
            detected_at: row.detected_at,
        }
    }
}

/// An online video whose thumbnail generation used up its automatic
/// attempts.
pub struct ExhaustedThumbnailRow {
    pub id: String,
    pub file_path: String,
    pub file_name: String,
    pub thumbnail_attempts: i64,
}

/// The transfer object of an exhausted thumbnail row.
pub struct ExhaustedThumbnailDto {
    pub id: String,
    pub file_path: String,
    pub file_name: String,
    pub thumbnail_attempts: i64,
}

impl From<ExhaustedThumbnailRow> for ExhaustedThumbnailDto {
    fn from(row: ExhaustedThumbnailRow) -> (dto: ExhaustedThumbnailDto) {
        ExhaustedThumbnailDto {
            id: row.id,
            file_path: row.file_path,
            file_name: row.file_name,
            thumbnail_attempts: row.thumbnail_attempts,
        }
    }
}

impl vstd::std_specs::convert::FromSpecImpl<ExhaustedThumbnailRow> for ExhaustedThumbnailDto {
    open spec fn obeys_from_spec() -> bool {
        true
    }

    open spec fn from_spec(row: ExhaustedThumbnailRow) -> ExhaustedThumbnailDto {
        ExhaustedThumbnailDto {
            id: row.id,
            file_path: row.file_path,
            file_name: row.file_name,
            thumbnail_attempts: row.thumbnail_attempts,
        }
    }
}

/// An online video whose metadata probing used up its automatic attempts.
pub struct ExhaustedMetadataRow {
    pub id: String,
    pub file_path: String,
    pub file_name: String,
    pub metadata_attempts: i64,
}

/// The transfer object of an exhausted metadata row.
pub struct ExhaustedMetadataDto {
    pub id: String,
    pub file_path: String,
    pub file_name: String,
    pub metadata_attempts: i64,
}

impl From<ExhaustedMetadataRow> for ExhaustedMetadataDto {
    fn from(row: ExhaustedMetadataRow) -> (dto: ExhaustedMetadataDto) {
        ExhaustedMetadataDto {
            id: row.id,
            file_path: row.file_path,
            file_name: row.file_name,
            metadata_attempts: row.metadata_attempts,
        }
    }
}

impl vstd::std_specs::convert::FromSpecImpl<ExhaustedMetadataRow> for ExhaustedMetadataDto {
    open spec fn obeys_from_spec() -> bool {
        true
    }

    open spec fn from_spec(row: ExhaustedMetadataRow) -> ExhaustedMetadataDto {
        ExhaustedMetadataDto {
            id: row.id,
            file_path: row.file_path,
            file_name: row.file_name,
            metadata_attempts: row.metadata_attempts,
        }
    }
}

/// Both halves of the generation-failure notification panel.
pub struct GenerationFailuresDto {
    pub thumbnail_failures: Vec<ExhaustedThumbnailDto>,
    pub metadata_failures: Vec<ExhaustedMetadataDto>,
}

/// Converts both exhausted lists, keeping their order.
pub fn generation_failures(
    thumbnail_rows: Vec<ExhaustedThumbnailRow>,
    metadata_rows: Vec<ExhaustedMetadataRow>,
) -> (r: GenerationFailuresDto)
    ensures
        r.thumbnail_failures.len() == thumbnail_rows.len(),
        r.metadata_failures.len() == metadata_rows.len(),
        forall|i: int|
            0 <= i < thumbnail_rows.len() ==> #[trigger] r.thumbnail_failures[i]
                == <ExhaustedThumbnailDto as vstd::std_specs::convert::FromSpec<
                ExhaustedThumbnailRow,
            >>::from_spec(thumbnail_rows[i]),
        forall|i: int|
            0 <= i < metadata_rows.len() ==> #[trigger] r.metadata_failures[i]
                == <ExhaustedMetadataDto as vstd::std_specs::convert::FromSpec<
                ExhaustedMetadataRow,
            >>::from_spec(metadata_rows[i]),
{
    let mut rows = thumbnail_rows;
    let ghost all = rows@;
    let mut taken: Vec<ExhaustedThumbnailDto> = Vec::new();
    while rows.len() > 0
        invariant
            taken.len() + rows.len() == all.len(),
            forall|i: int| 0 <= i < rows.len() ==> rows[i] == all[taken.len() + i],
            forall|i: int|
                0 <= i < taken.len() ==> #[trigger] taken[i]
                    == <ExhaustedThumbnailDto as vstd::std_specs::convert::FromSpec<
                    ExhaustedThumbnailRow,
                >>::from_spec(all[i]),
        decreases rows.len(),
    {
        let row = rows.remove(0);
        taken.push(ExhaustedThumbnailDto::from(row));
    }
    let mut mrows = metadata_rows;
    let ghost mall = mrows@;
    let mut mtaken: Vec<ExhaustedMetadataDto> = Vec::new();
    while mrows.len() > 0
        invariant
            mtaken.len() + mrows.len() == mall.len(),
            forall|i: int| 0 <= i < mrows.len() ==> mrows[i] == mall[mtaken.len() + i],
            forall|i: int|
                0 <= i < mtaken.len() ==> #[trigger] mtaken[i]
                    == <ExhaustedMetadataDto as vstd::std_specs::convert::FromSpec<
                    ExhaustedMetadataRow,
                >>::from_spec(mall[i]),
        decreases mrows.len(),
    {
        let row = mrows.remove(0);
        mtaken.push(ExhaustedMetadataDto::from(row));
    }
    GenerationFailuresDto { thumbnail_failures: taken, metadata_failures: mtaken }
}

/// One `tags` master row.
pub struct TagRow {
    pub id: i64,
    pub name: String,
}

/// The transfer object of a tag.
pub struct TagDto {
    pub id: i64,
    pub name: String,
}

impl From<TagRow> for TagDto {
    fn from(row: TagRow) -> (dto: TagDto) {
        TagDto { id: row.id, name: row.name }
    }
}

impl vstd::std_specs::convert::FromSpecImpl<TagRow> for TagDto {
    open spec fn obeys_from_spec() -> bool {
        true
    }

    open spec fn from_spec(row: TagRow) -> TagDto {
        TagDto { id: row.id, name: row.name }
    }
}

/// A recorded duplicate candidate pair: `video_id` (an offline row) and
/// `colliding_video_id` (an online row) whose content may coincide.
pub struct PathCollisionRow {
    pub id: i64,
    pub video_id: String,
    pub colliding_video_id: String,
    pub attempted_path: String,
    pub detected_at: String,
}

/// A video whose `file_path` a watch-folder rename rewrote.
pub struct RenamedVideo {
    pub video_id: String,
}

/// How many rows under a renamed watch folder were rewritten, and how many
/// were left untouched because the new path was already taken.
pub struct RenameWatchFolderOutcome {
    pub renamed_count: u32,
    pub collision_skipped_count: u32,
    pub renamed_videos: Vec<RenamedVideo>,
}

impl RenameWatchFolderOutcome {
    /// Nothing rewritten or skipped yet.
    pub fn new() -> (o: RenameWatchFolderOutcome)
        ensures
            o.renamed_count == 0,
            o.collision_skipped_count == 0,
            o.renamed_videos@.len() == 0,
    {
        RenameWatchFolderOutcome { renamed_count: 0, collision_skipped_count: 0, renamed_videos: Vec::new() }
    }

    /// Counts a row whose path was rewritten under the new folder and
    /// remembers it, so its thumbnails can follow.
    pub fn record_renamed(&mut self, video_id: String)
        ensures
            final(self).renamed_count == old(self).renamed_count.wrapping_add(1),
            final(self).collision_skipped_count == old(self).collision_skipped_count,
            final(self).renamed_videos@ == old(self).renamed_videos@.push(RenamedVideo { video_id }),
    {
        self.renamed_count = self.renamed_count.wrapping_add(1);
        self.renamed_videos.push(RenamedVideo { video_id });
    }

    /// Counts a row left untouched: its new path could not be formed or is
    /// already taken by another row.
    pub fn record_skipped(&mut self)
        ensures
            final(self).renamed_count == old(self).renamed_count,
            final(self).collision_skipped_count == old(self).collision_skipped_count.wrapping_add(1),
            final(self).renamed_videos@ == old(self).renamed_videos@,
    {
        self.collision_skipped_count = self.collision_skipped_count.wrapping_add(1);
    }
}

/// What a watch-folder rename reports back: the updated folder list plus
/// the rewrite counts.
pub struct RenameWatchFolderResult {
    pub folders: Vec<String>,
    pub renamed_count: u32,
    pub collision_skipped_count: u32,
}

/// Whether a `.wb` row created a new `videos` row (and how many tag
/// assignments it wrote) or found its path already registered.
#[derive(Debug, Clone, PartialEq, Eq, Structural)]
pub enum WbImportOutcome {
    Inserted { tags_assigned: usize },
    Skipped,
}

/// Whether ffmpeg and ffprobe were both found, with their version lines.
pub struct FfmpegStatusDto {
    pub available: bool,
    pub ffmpeg_version: Option<String>,
    pub ffprobe_version: Option<String>,
}

/// The status panel's view of an availability probe: available only when
/// both binaries reported a version; a failed probe reports nothing.
pub fn ffmpeg_status_from(probe: Result<(Option<String>, Option<String>), String>) -> (r:
    FfmpegStatusDto)
    ensures
        match probe {
            Ok((ffmpeg, ffprobe)) => r.available == (ffmpeg is Some && ffprobe is Some)
                && r.ffmpeg_version == ffmpeg && r.ffprobe_version == ffprobe,
            Err(_) => !r.available && r.ffmpeg_version is None && r.ffprobe_version is None,
        },
{
    match probe {
        Ok((ffmpeg_version, ffprobe_version)) => {
            let available = ffmpeg_version.is_some() && ffprobe_version.is_some();
            FfmpegStatusDto { available, ffmpeg_version, ffprobe_version }
        },
        Err(_) => FfmpegStatusDto { available: false, ffmpeg_version: None, ffprobe_version: None },
    }
}

} // verus!
