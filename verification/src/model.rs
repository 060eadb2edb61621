//! The archived export as plain data, and the options of one replay.

use vstd::prelude::*;

verus! {

/// The most embeds one outbound message may carry.
pub const MAX_EMBEDS: usize = 10;

/// The most uploaded files one outbound message may carry.
pub const MAX_ATTACHMENTS: usize = 10;

/// The pause after every send, in milliseconds.
pub const MESSAGE_DELAY_MS: u64 = 100;

/// How many image extensions there are.
pub const IMAGE_EXTENSION_COUNT: usize = 6;

/// The extensions that mark an image file, in the order in which an avatar
/// is looked for.
pub open spec fn image_extensions() -> Seq<Seq<char>> {
    seq!["jpg"@, "jpeg"@, "png"@, "webp"@, "gif"@, "avif"@]
}

/// The image extension of rank `i`.
pub fn image_extension(i: usize) -> (r: &'static str)
    requires
        i < IMAGE_EXTENSION_COUNT,
    ensures
        r@ == image_extensions()[i as int],
{
    if i == 0 {
        "jpg"
    } else if i == 1 {
        "jpeg"
    } else if i == 2 {
        "png"
    } else if i == 3 {
        "webp"
    } else if i == 4 {
        "gif"
    } else {
        "avif"
    }
}

/// A loosely typed value of the input document.
#[derive(Debug, PartialEq, Eq)]
pub enum JsonValue {
    Null,
    Bool(bool),
    Number(JsonNumber),
    Text(String),
    Array(Vec<JsonValue>),
    /// The members of an object, in order. Where a key stands twice, the
    /// first member counts.
    Object(Vec<(String, JsonValue)>),
}

/// A number of the input document. Only a non-negative whole number below
/// 2^64 keeps its value; nothing reads the others.
#[derive(Clone, Copy, Debug, PartialEq, Eq)]
pub enum JsonNumber {
    Unsigned(u64),
    Negative(i64),
    Fraction,
}

#[derive(Debug, PartialEq, Eq)]
pub struct GuildInfo {
    pub name: String,
}

#[derive(Debug, PartialEq, Eq)]
pub struct ChannelInfo {
    pub name: String,
    pub category: Option<String>,
}

#[derive(Debug, PartialEq, Eq)]
pub struct Author {
    pub id: u64,
    pub name: String,
    pub avatar_url: String,
    /// An accent colour as `#RRGGBB`.
    pub color: Option<String>,
}

#[derive(Debug, PartialEq, Eq)]
pub struct AttachmentInfo {
    pub url: String,
    pub file_name: String,
}

#[derive(Debug, PartialEq, Eq)]
pub struct Mention {
    pub id: u64,
    pub name: String,
    pub nickname: Option<String>,
}

#[derive(Debug, PartialEq, Eq)]
pub struct EmojiInfo {
    /// Present and non-empty for a custom emoji.
    pub id: Option<String>,
    pub name: String,
    /// The shortcode, without its colons.
    pub code: String,
    pub is_animated: bool,
    pub image_url: String,
}

#[derive(Debug, PartialEq, Eq)]
pub struct ReactionInfo {
    pub emoji: EmojiInfo,
    pub count: JsonValue,
    pub users: Vec<JsonValue>,
}

#[derive(Debug, PartialEq, Eq)]
pub struct MessageInfo {
    pub content: String,
    pub author: Author,
    pub timestamp: String,
    pub timestamp_edited: Option<String>,
    pub attachments: Vec<AttachmentInfo>,
    pub mentions: Vec<Mention>,
    pub inline_emojis: Vec<EmojiInfo>,
    pub reactions: Vec<ReactionInfo>,
}

#[derive(Debug, PartialEq, Eq)]
pub struct Export {
    pub guild: GuildInfo,
    pub channel: ChannelInfo,
    pub messages: Vec<MessageInfo>,
}

/// The options of one replay.
#[derive(Clone, Copy, Debug, PartialEq, Eq)]
pub struct ImportOptions {
    pub no_guild: bool,
    pub no_category: bool,
    pub no_channel: bool,
    pub no_timestamp: bool,
    pub no_mentions: bool,
    pub no_reactions: bool,
    pub no_embed: bool,
    pub button: bool,
    pub reaction_users: bool,
    pub outside: bool,
    pub disable_button: bool,
    pub accent_color: bool,
    pub current_avatar: bool,
    pub range_start: Option<usize>,
    pub range_end: Option<usize>,
    pub first: Option<usize>,
    pub last: Option<usize>,
}

impl ImportOptions {
    /// No flag set and no selection made.
    pub open spec fn blank() -> ImportOptions {
        ImportOptions {
            no_guild: false,
            no_category: false,
            no_channel: false,
            no_timestamp: false,
            no_mentions: false,
            no_reactions: false,
            no_embed: false,
            button: false,
            reaction_users: false,
            outside: false,
            disable_button: false,
            accent_color: false,
            current_avatar: false,
            range_start: None,
            range_end: None,
            first: None,
            last: None,
        }
    }
}

impl Default for ImportOptions {
    fn default() -> (r: ImportOptions)
        ensures
            r == ImportOptions::blank(),
    {
        ImportOptions {
            no_guild: false,
            no_category: false,
            no_channel: false,
            no_timestamp: false,
            no_mentions: false,
            no_reactions: false,
            no_embed: false,
            button: false,
            reaction_users: false,
            outside: false,
            disable_button: false,
            accent_color: false,
            current_avatar: false,
            range_start: None,
            range_end: None,
            first: None,
            last: None,
        }
    }
}

impl Default for EmojiInfo {
    fn default() -> (r: EmojiInfo)
        ensures
            r.id is None,
            r.name@.len() == 0,
            r.code@.len() == 0,
            !r.is_animated,
            r.image_url@.len() == 0,
    {
        EmojiInfo {
            id: None,
            name: String::new(),
            code: String::new(),
            is_animated: false,
            image_url: String::new(),
        }
    }
}

impl Default for ReactionInfo {
    fn default() -> (r: ReactionInfo)
        ensures
            r.emoji.id is None,
            r.emoji.name@.len() == 0,
            r.emoji.code@.len() == 0,
            !r.emoji.is_animated,
            r.count is Null,
            r.users@.len() == 0,
    {
        ReactionInfo { emoji: EmojiInfo::default(), count: JsonValue::Null, users: Vec::new() }
    }
}

/// Where the bytes of one attachment come from.
#[derive(Debug, PartialEq, Eq)]
pub enum MediaSource {
    /// A file of the media tree: its path, and the name to upload it under.
    Local(String, String),
    /// The address the export recorded.
    Remote(String),
}

/// A media source with its strings as text.
pub enum MediaSourceView {
    Local(Seq<char>, Seq<char>),
    Remote(Seq<char>),
}

impl View for MediaSource {
    type V = MediaSourceView;

    open spec fn view(&self) -> MediaSourceView {
        match *self {
            MediaSource::Local(path, name) => MediaSourceView::Local(path@, name@),
            MediaSource::Remote(url) => MediaSourceView::Remote(url@),
        }
    }
}

/// The views of a list.
pub open spec fn views<T: View>(list: Seq<T>) -> Seq<T::V> {
    Seq::new(list.len(), |i: int| list[i]@)
}

} // verus!
