//! The embed that carries the metadata of a message.

use crate::content::{
    color_of, footer_text, generate_footer, parse_color, profile_url, user_profile_url,
};
use crate::model::{Export, MessageInfo};
use crate::text::{chars_of, push_str, string_of};
use vstd::prelude::*;

verus! {

/// Who wrote a message, as an embed shows it.
#[derive(Debug, PartialEq, Eq)]
pub struct EmbedAuthor {
    pub name: String,
    /// The address behind the name.
    pub url: String,
    /// The address of the small picture beside the name.
    pub icon_url: String,
}

/// An embed: a framed block of an outbound message.
#[derive(Debug, PartialEq, Eq)]
pub struct Embed {
    pub author: Option<EmbedAuthor>,
    pub footer: Option<String>,
    /// A point in time, written as RFC 3339 allows.
    pub timestamp: Option<String>,
    pub color: Option<u32>,
    pub description: Option<String>,
    /// The address behind the embed. Embeds of one message with the same
    /// address are shown as one gallery.
    pub url: Option<String>,
    /// The address of the picture.
    pub image: Option<String>,
}

/// An embed author with its strings as text.
pub struct EmbedAuthorView {
    pub name: Seq<char>,
    pub url: Seq<char>,
    pub icon_url: Seq<char>,
}

/// An embed with its strings as text.
pub struct EmbedView {
    pub author: Option<EmbedAuthorView>,
    pub footer: Option<Seq<char>>,
    pub timestamp: Option<Seq<char>>,
    pub color: Option<u32>,
    pub description: Option<Seq<char>>,
    pub url: Option<Seq<char>>,
    pub image: Option<Seq<char>>,
}

impl View for EmbedAuthor {
    type V = EmbedAuthorView;

    open spec fn view(&self) -> EmbedAuthorView {
        EmbedAuthorView { name: self.name@, url: self.url@, icon_url: self.icon_url@ }
    }
}

/// The text of an optional string.
pub open spec fn text_of(o: Option<String>) -> Option<Seq<char>> {
    match o {
        Some(s) => Some(s@),
        None => None,
    }
}

impl View for Embed {
    type V = EmbedView;

    open spec fn view(&self) -> EmbedView {
        EmbedView {
            author: match self.author {
                Some(a) => Some(a@),
                None => None,
            },
            footer: text_of(self.footer),
            timestamp: text_of(self.timestamp),
            color: self.color,
            description: text_of(self.description),
            url: text_of(self.url),
            image: text_of(self.image),
        }
    }
}

/// The embed that says nothing.
pub open spec fn blank_embed() -> EmbedView {
    EmbedView {
        author: None,
        footer: None,
        timestamp: None,
        color: None,
        description: None,
        url: None,
        image: None,
    }
}

impl Embed {
    /// An embed that says nothing.
    pub fn new() -> (e: Embed)
        ensures
            e@ == blank_embed(),
    {
        Embed {
            author: None,
            footer: None,
            timestamp: None,
            color: None,
            description: None,
            url: None,
            image: None,
        }
    }

    /// A copy of this embed.
    pub fn copy(&self) -> (e: Embed)
        ensures
            e@ == self@,
    {
        Embed {
            author: match &self.author {
                Some(a) => Some(
                    EmbedAuthor {
                        name: a.name.clone(),
                        url: a.url.clone(),
                        icon_url: a.icon_url.clone(),
                    },
                ),
                None => None,
            },
            footer: copy_text(&self.footer),
            timestamp: copy_text(&self.timestamp),
            color: self.color,
            description: copy_text(&self.description),
            url: copy_text(&self.url),
            image: copy_text(&self.image),
        }
    }
}

/// A copy of an optional string.
pub fn copy_text(o: &Option<String>) -> (r: Option<String>)
    ensures
        r == *o,
{
    match o {
        Some(s) => Some(s.clone()),
        None => None,
    }
}

/// Whether `text` is a point in time as RFC 3339 writes one, in the
/// judgement of the platform library's parser.
pub uninterp spec fn timestamp_parses(text: Seq<char>) -> bool;

/// Asks `serenity::model::Timestamp::parse` whether it accepts `text`. The
/// answer depends on the text alone.
#[verifier::external_body]
fn timestamp_is_valid(text: &str) -> (ok: bool)
    ensures
        ok == timestamp_parses(text@),
{
    poise::serenity_prelude::Timestamp::parse(text).is_ok()
}

/// The time a message shows: that of its last edit where it has one.
pub open spec fn shown_timestamp(message: MessageInfo) -> Seq<char> {
    match message.timestamp_edited {
        Some(t) => t@,
        None => message.timestamp@,
    }
}

/// The picture beside the author's name: the current avatar where one is
/// given, else the uploaded avatar file, else the address the export
/// recorded.
pub open spec fn author_icon(
    message: MessageInfo,
    avatar_filename: Option<Seq<char>>,
    current_avatar_url: Option<Seq<char>>,
) -> Seq<char> {
    match current_avatar_url {
        Some(url) => url,
        None => match avatar_filename {
            Some(filename) => "attachment://"@ + filename,
            None => message.author.avatar_url@,
        },
    }
}

/// The accent colour of an embed: the one given, else the author's own
/// where it reads as a colour.
pub open spec fn accent_color(message: MessageInfo, accent_color_value: Option<u32>) -> Option<
    u32,
> {
    match accent_color_value {
        Some(c) => Some(c),
        None => match message.author.color {
            Some(hex) => color_of(hex@),
            None => None,
        },
    }
}

/// What stands on the metadata embed of a message.
pub struct EmbedRequest {
    /// The name of the uploaded avatar file.
    pub avatar_filename: Option<Seq<char>>,
    /// The address of the author's current avatar.
    pub current_avatar_url: Option<Seq<char>>,
    pub no_guild: bool,
    pub no_category: bool,
    pub no_channel: bool,
    pub no_timestamp: bool,
    /// A colour that overrides the author's own.
    pub accent_color_value: Option<u32>,
}

/// The metadata embed of a message: the author with profile address and
/// picture, the footer unless empty, the time unless hidden or unreadable,
/// and the accent colour. `timestamp_ok` says whether the time reads as one.
pub open spec fn embed_base(
    message: MessageInfo,
    export: Export,
    request: EmbedRequest,
    timestamp_ok: bool,
) -> EmbedView {
    let footer = footer_text(export, request.no_guild, request.no_category, request.no_channel);
    EmbedView {
        author: Some(
            EmbedAuthorView {
                name: message.author.name@,
                url: profile_url(message.author.id),
                icon_url: author_icon(message, request.avatar_filename, request.current_avatar_url),
            },
        ),
        footer: if footer.len() > 0 {
            Some(footer)
        } else {
            None
        },
        timestamp: if !request.no_timestamp && timestamp_ok {
            Some(shown_timestamp(message))
        } else {
            None
        },
        color: accent_color(message, request.accent_color_value),
        description: None,
        url: None,
        image: None,
    }
}

/// The request that the arguments of `create_embed_base` make.
pub open spec fn request_of(
    avatar_filename: Option<&String>,
    current_avatar_url: Option<&str>,
    no_guild: bool,
    no_category: bool,
    no_channel: bool,
    no_timestamp: bool,
    accent_color_value: Option<u32>,
) -> EmbedRequest {
    EmbedRequest {
        avatar_filename: match avatar_filename {
            Some(f) => Some(f@),
            None => None,
        },
        current_avatar_url: match current_avatar_url {
            Some(u) => Some(u@),
            None => None,
        },
        no_guild,
        no_category,
        no_channel,
        no_timestamp,
        accent_color_value,
    }
}

/// Builds the metadata embed of a message, told whether its time reads as
/// one.
pub fn build_embed_base(
    message: &MessageInfo,
    export: &Export,
    avatar_filename: Option<&String>,
    current_avatar_url: Option<&str>,
    no_guild: bool,
    no_category: bool,
    no_channel: bool,
    no_timestamp: bool,
    accent_color_value: Option<u32>,
    timestamp_ok: bool,
) -> (embed: Embed)
    ensures
        embed@ == embed_base(
            *message,
            *export,
            request_of(
                avatar_filename,
                current_avatar_url,
                no_guild,
                no_category,
                no_channel,
                no_timestamp,
                accent_color_value,
            ),
            timestamp_ok,
        ),
{
    let icon_url = match current_avatar_url {
        Some(url) => string_of(&chars_of(url)),
        None => match avatar_filename {
            Some(filename) => {
                let mut icon: Vec<char> = Vec::new();
                push_str(&mut icon, "attachment://");
                push_str(&mut icon, filename.as_str());
                assert(Seq::<char>::empty() + "attachment://"@ == "attachment://"@);
                string_of(&icon)
            },
            None => message.author.avatar_url.clone(),
        },
    };
    let author = EmbedAuthor {
        name: message.author.name.clone(),
        url: user_profile_url(message.author.id),
        icon_url,
    };
    let footer_text = generate_footer(export, no_guild, no_category, no_channel);
    let footer = if footer_text.as_str().unicode_len() > 0 {
        Some(footer_text)
    } else {
        None
    };
    let timestamp = if !no_timestamp && timestamp_ok {
        match &message.timestamp_edited {
            Some(t) => Some(t.clone()),
            None => Some(message.timestamp.clone()),
        }
    } else {
        None
    };
    let color = match accent_color_value {
        Some(c) => Some(c),
        None => match &message.author.color {
            Some(hex) => parse_color(hex.as_str()),
            None => None,
        },
    };
    Embed {
        author: Some(author),
        footer,
        timestamp,
        color,
        description: None,
        url: None,
        image: None,
    }
}

/// Builds the metadata embed of a message. The time is shown where the
/// platform library reads it as one.
pub fn create_embed_base(
    message: &MessageInfo,
    export: &Export,
    avatar_filename: Option<&String>,
    current_avatar_url: Option<&str>,
    no_guild: bool,
    no_category: bool,
    no_channel: bool,
    no_timestamp: bool,
    accent_color_value: Option<u32>,
) -> (embed: Embed)
    ensures
        embed@ == embed_base(
            *message,
            *export,
            request_of(
                avatar_filename,
                current_avatar_url,
                no_guild,
                no_category,
                no_channel,
                no_timestamp,
                accent_color_value,
            ),
            timestamp_parses(shown_timestamp(*message)),
        ),
{
    let timestamp_ok = if no_timestamp {
        false
    } else {
        match &message.timestamp_edited {
            Some(t) => timestamp_is_valid(t.as_str()),
            None => timestamp_is_valid(message.timestamp.as_str()),
        }
    };
    build_embed_base(
        message,
        export,
        avatar_filename,
        current_avatar_url,
        no_guild,
        no_category,
        no_channel,
        no_timestamp,
        accent_color_value,
        timestamp_ok,
    )
}

} // verus!
