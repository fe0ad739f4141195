//! Typed shapes of the service's payloads. These are data-transfer values:
//! the library states nothing about them beyond their structure.

use vstd::prelude::*;

verus! {

/// Client configuration: page sizes and how many extra attempts a timed-out
/// request is given.
#[derive(Debug, Clone, PartialEq, Eq)]
pub struct Conifg {
    pub fav_count: u8,
    pub status_count: u8,
    pub retry_times: u8,
}

impl Default for Conifg {
    /// Twenty items per page and two retries.
    fn default() -> (r: Self)
        ensures
            r.fav_count == 20,
            r.status_count == 20,
            r.retry_times == 2,
    {
        Conifg { fav_count: 20, status_count: 20, retry_times: 2 }
    }
}

/// One rendition of a picture.
#[derive(Debug, Clone, PartialEq, Eq)]
pub struct PicInfoDetail {
    pub height: i32,
    pub width: i32,
    pub url: String,
}

/// The three standard renditions of a picture.
#[derive(Debug, Clone, PartialEq, Eq)]
pub struct PicInfoItemSimple {
    pub pic_big: PicInfoDetail,
    pub pic_middle: PicInfoDetail,
    pub pic_small: PicInfoDetail,
}

#[derive(Debug, Clone, PartialEq, Eq)]
pub enum Orientation {
    Vertical,
    Horizontal,
}

#[derive(Debug, Clone, PartialEq, Eq)]
pub enum PicInfoType {
    Pic,
    Gif,
    Livephoto,
}

/// Metadata of an embedded video.
#[derive(Debug, Clone, PartialEq, Eq)]
pub struct VideoInfo {
    pub author_mid: Option<String>,
    pub author_name: Option<String>,
    pub big_pic_info: Option<PicInfoItemSimple>,
    pub duration: i32,
    pub format: Option<String>,
    pub h265_mp4_hd: Option<String>,
    pub h265_mp4_ld: Option<String>,
    pub h5_url: String,
    pub hevc_mp4_720p: Option<String>,
    pub inch_4_mp4_hd: Option<String>,
    pub inch_5_5_mp4_hd: Option<String>,
    pub inch_5_mp4_hd: Option<String>,
    pub is_short_video: Option<i32>,
    pub kol_title: Option<String>,
    pub media_id: String,
    pub mp4_720p_mp4: Option<String>,
    pub mp4_hd_url: Option<String>,
    pub mp4_sd_url: Option<String>,
    pub name: Option<String>,
    pub next_title: Option<String>,
    pub online_users: Option<String>,
    pub online_users_number: Option<i32>,
    pub origin_total_bitrate: Option<i32>,
    pub prefetch_size: Option<i32>,
    pub stream_url: Option<String>,
    pub stream_url_hd: Option<String>,
    pub video_orientation: Option<Orientation>,
    pub video_publish_time: Option<i32>,
}

/// A rich card attached to a post.
#[derive(Debug, Clone, PartialEq, Eq)]
pub struct HugeInfo {
    pub author_id: String,
    pub content1: String,
    pub content2: String,
    pub media_info: VideoInfo,
    pub object_id: String,
    pub object_type: String,
    pub oid: String,
    pub page_id: String,
    pub page_pic: String,
    pub page_title: String,
    pub page_url: String,
    pub pic_info: PicInfoItemSimple,
    pub short_url: String,
    pub kind: String,
    pub type_icon: String,
    pub warn: String,
}

/// One rendition referenced from a link preview.
#[derive(Debug, Clone, PartialEq, Eq)]
pub struct DefDetail {
    pub height: i32,
    pub width: i32,
    pub url: String,
}

/// The renditions of a picture referenced from a link preview.
#[derive(Debug, Clone, PartialEq, Eq)]
pub struct PicInfosForStatus {
    pub bmiddle: DefDetail,
    pub large: DefDetail,
    pub thumbnail: DefDetail,
    pub woriginal: DefDetail,
}

/// An account as the service reports it.
#[derive(Debug, Clone, PartialEq, Eq)]
pub struct UserInternal {
    pub id: i64,
    pub screen_name: String,
    pub profile_image_url: String,
    pub avatar_large: String,
    pub avatar_hd: String,
    pub pc_new: i64,
    pub verified: bool,
    pub verified_type: i64,
    pub domain: String,
    pub weihao: String,
    pub verified_type_ext: Option<i64>,
    pub follow_me: bool,
    pub following: bool,
    pub mbrank: i64,
    pub mbtype: i64,
}

/// The expanded text of a long post.
#[derive(Debug, Clone, PartialEq, Eq)]
pub struct LongText {
    pub content: String,
}

#[derive(Debug, Clone, PartialEq, Eq)]
pub struct EditConfig {
    pub edited: bool,
}

/// The success shape of the show-status endpoint, as far as the long-text
/// expansion reads it.
#[derive(Debug, Clone, PartialEq, Eq)]
pub struct StatusesShow {
    pub edit_config: EditConfig,
    pub long_text: LongText,
}

} // verus!
