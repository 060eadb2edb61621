//! The replay of one message, in three moves: find its media, compose its
//! outbound messages, and decide what follows once they are sent.

use crate::compose::{
    compose_detached, compose_images, compose_text, detached_batches, detached_text,
    image_batches, local_uploads, make_reaction_row, reaction_row, remote_addresses,
    text_batches, Outbound, OutboundView,
};
use crate::content::{
    lemma_mentions_keep_emptiness, profile_url, user_profile_url, with_mentions,
};
use crate::embed::{
    create_embed_base, embed_base, shown_timestamp, text_of, timestamp_parses, EmbedRequest,
    EmbedView,
};
use crate::media::{
    avatar_from, collect_sources, find_avatar, pair_text, sources_from, AttachmentFilter,
    FileIndex, SeenPaths,
};
use crate::model::{
    views, Export, ImportOptions, MediaSource, MediaSourceView, MessageInfo, ReactionInfo,
};
use crate::reactions::{
    create_reactions, format_reaction_users, native_reactions, users_listing, Button,
    ButtonView, NativeReaction, NativeReactionView,
};
use crate::text::{push_str, string_of};
use vstd::prelude::*;

verus! {

/// How a message is rendered.
#[derive(Clone, Copy, Debug, PartialEq, Eq)]
pub enum RenderMode {
    /// One embed with the text.
    Text,
    /// Galleries of image embeds.
    Images,
    /// The metadata apart from the attachments.
    Detached,
}

/// The mode for a message with `sources` media sources.
pub open spec fn mode_of(outside: bool, sources: nat) -> RenderMode {
    if outside {
        RenderMode::Detached
    } else if sources == 0 {
        RenderMode::Text
    } else {
        RenderMode::Images
    }
}

/// The attachments that take part in a replay: all of them in detached
/// mode, else the images.
pub open spec fn filter_of(outside: bool) -> AttachmentFilter {
    if outside {
        AttachmentFilter::All
    } else {
        AttachmentFilter::Images
    }
}

/// The stored avatar of the author of `message`: none where embeds are
/// switched off or there is no index.
pub open spec fn resolved_avatar(message: MessageInfo, index: Option<FileIndex>, no_embed: bool)
    -> Option<(Seq<char>, Seq<char>)> {
    if no_embed {
        None
    } else {
        match index {
            Some(ix) => avatar_from(ix, message.author.id, 0),
            None => None,
        }
    }
}

/// The media of one message, found in the index.
pub struct ResolvedMedia {
    /// The author's stored avatar: its path and its name.
    pub avatar: Option<(String, String)>,
    /// The sources of the attachments that take part.
    pub sources: Vec<MediaSource>,
}

/// Finds the media of a message and claims the local files it uses. The
/// avatar is not claimed: every message of an author shows it.
pub fn resolve_media(
    message: &MessageInfo,
    file_index: &Option<FileIndex>,
    seen_paths: &mut SeenPaths,
    no_embed: bool,
    outside: bool,
) -> (media: ResolvedMedia)
    ensures
        match media.avatar {
            Some(file) => resolved_avatar(*message, *file_index, no_embed) == Some(
                pair_text(file),
            ),
            None => resolved_avatar(*message, *file_index, no_embed) is None,
        },
        (views(media.sources@), final(seen_paths)@) == sources_from(
            message.attachments@,
            0,
            *file_index,
            old(seen_paths)@,
            filter_of(outside),
        ),
{
    let avatar = if no_embed {
        None
    } else {
        match file_index {
            Some(index) => find_avatar(message.author.id, index),
            None => None,
        }
    };
    let filter = if outside {
        AttachmentFilter::All
    } else {
        AttachmentFilter::Images
    };
    let sources = collect_sources(message, file_index, seen_paths, filter);
    ResolvedMedia { avatar, sources }
}

/// Which local files could be read.
#[derive(Debug, PartialEq, Eq)]
pub struct LoadReport {
    /// Whether the avatar could be read.
    pub avatar: bool,
    /// For each source, in order, whether it could be read. What is said of
    /// a remote source is not looked at; a source without a report counts as
    /// unreadable.
    pub sources: Vec<bool>,
}

/// The outbound messages that replay one message.
pub struct MessagePlan {
    pub mode: RenderMode,
    /// The messages to send, in order.
    pub batches: Vec<Outbound>,
}

/// The name of the avatar file, if one was found.
pub open spec fn avatar_name_of(avatar: Option<(String, String)>) -> Option<Seq<char>> {
    match avatar {
        Some(file) => Some(file.1@),
        None => None,
    }
}

/// The metadata embed of `message` under `options`.
pub open spec fn planned_embed(
    message: MessageInfo,
    export: Export,
    avatar: Option<(String, String)>,
    options: ImportOptions,
    timestamp_ok: bool,
) -> EmbedView {
    embed_base(
        message,
        export,
        EmbedRequest {
            avatar_filename: avatar_name_of(avatar),
            current_avatar_url: None,
            no_guild: options.no_guild,
            no_category: options.no_category,
            no_channel: options.no_channel,
            no_timestamp: options.no_timestamp,
            accent_color_value: None,
        },
        timestamp_ok,
    )
}

/// The outbound messages that replay `message`: detached where asked for;
/// else as text where no image takes part; else as galleries.
pub open spec fn planned_batches(
    message: MessageInfo,
    export: Export,
    avatar: Option<(String, String)>,
    sources: Seq<MediaSourceView>,
    avatar_loaded: bool,
    loaded: Seq<bool>,
    options: ImportOptions,
    timestamp_ok: bool,
) -> Seq<OutboundView> {
    let row = reaction_row(options.button, message.reactions@, options.disable_button);
    let content = with_mentions(message.content@, message.mentions@, options.no_mentions);
    let base = planned_embed(message, export, avatar, options, timestamp_ok);
    if options.outside {
        detached_batches(
            detached_text(content, remote_addresses(sources)),
            local_uploads(sources, loaded),
            if options.no_embed {
                None
            } else {
                Some(base)
            },
            avatar,
            avatar_loaded,
            row,
        )
    } else if sources.len() == 0 {
        text_batches(content, base, avatar, avatar_loaded, row)
    } else {
        image_batches(
            content,
            base,
            sources,
            loaded,
            avatar,
            avatar_loaded,
            profile_url(message.author.id),
            row,
        )
    }
}

/// Composes the outbound messages that replay one message.
pub fn compose_message(
    message: &MessageInfo,
    export: &Export,
    media: &ResolvedMedia,
    loads: &LoadReport,
    options: &ImportOptions,
) -> (plan: MessagePlan)
    ensures
        plan.mode == mode_of(options.outside, media.sources@.len()),
        views(plan.batches@) == planned_batches(
            *message,
            *export,
            media.avatar,
            views(media.sources@),
            loads.avatar,
            loads.sources@,
            *options,
            timestamp_parses(shown_timestamp(*message)),
        ),
{
    let avatar_name: Option<&String> = match &media.avatar {
        Some(file) => Some(&file.1),
        None => None,
    };
    if options.outside {
        let base_embed = if options.no_embed {
            None
        } else {
            Some(
                create_embed_base(
                    message,
                    export,
                    avatar_name,
                    None,
                    options.no_guild,
                    options.no_category,
                    options.no_channel,
                    options.no_timestamp,
                    None,
                ),
            )
        };
        let batches = compose_detached(
            message,
            base_embed,
            media.sources.as_slice(),
            loads.sources.as_slice(),
            &media.avatar,
            loads.avatar,
            options.no_mentions,
            options.button,
            message.reactions.as_slice(),
            options.disable_button,
        );
        return MessagePlan { mode: RenderMode::Detached, batches };
    }
    let base_embed = create_embed_base(
        message,
        export,
        avatar_name,
        None,
        options.no_guild,
        options.no_category,
        options.no_channel,
        options.no_timestamp,
        None,
    );
    if media.sources.len() == 0 {
        assert(views(media.sources@).len() == 0);
        let batches = compose_text(
            message,
            base_embed,
            &media.avatar,
            loads.avatar,
            options.no_mentions,
            options.button,
            message.reactions.as_slice(),
            options.disable_button,
        );
        MessagePlan { mode: RenderMode::Text, batches }
    } else {
        assert(views(media.sources@).len() > 0);
        let embed_url = user_profile_url(message.author.id);
        let batches = compose_images(
            message,
            &base_embed,
            media.sources.as_slice(),
            loads.sources.as_slice(),
            &media.avatar,
            loads.avatar,
            embed_url.as_str(),
            options.no_mentions,
            options.button,
            message.reactions.as_slice(),
            options.disable_button,
        );
        MessagePlan { mode: RenderMode::Images, batches }
    }
}

/// The notice that lists who reacted: none unless it is asked for and at
/// least one reaction has a user with an id.
pub open spec fn reaction_notice(reaction_users: bool, reactions: Seq<ReactionInfo>) -> Option<
    Seq<char>,
> {
    if !reaction_users || reactions.len() == 0 || users_listing(reactions).len() == 0 {
        None
    } else {
        Some("Reactions:\n"@ + users_listing(reactions))
    }
}

/// Writes the notice that lists who reacted.
pub fn show_reaction_users(reaction_users: bool, reactions: &[ReactionInfo]) -> (notice: Option<
    String,
>)
    ensures
        text_of(notice) == reaction_notice(reaction_users, reactions@),
{
    if !reaction_users || reactions.len() == 0 {
        return None;
    }
    let listing = format_reaction_users(reactions);
    if listing.as_str().unicode_len() == 0 {
        return None;
    }
    let mut out: Vec<char> = Vec::new();
    push_str(&mut out, "Reactions:\n");
    push_str(&mut out, listing.as_str());
    assert(Seq::<char>::empty() + "Reactions:\n"@ == "Reactions:\n"@);
    Some(string_of(&out))
}

/// Whether outbound message `i` went out. One without a report did not.
pub open spec fn was_sent(sent: Seq<bool>, i: int) -> bool {
    0 <= i < sent.len() && sent[i]
}

/// The last of the first `count` outbound messages that went out.
pub open spec fn last_sent(sent: Seq<bool>, count: int) -> Option<int>
    decreases count,
{
    if count <= 0 {
        None
    } else if was_sent(sent, count - 1) {
        Some(count - 1)
    } else {
        last_sent(sent, count - 1)
    }
}

/// What is done for a message after its outbound messages were sent.
#[derive(Debug, PartialEq, Eq)]
pub struct FollowUp {
    /// The position of the last outbound message that went out. All that
    /// follows refers to it.
    pub target: Option<usize>,
    /// The row of reaction buttons to put on the target by an edit; empty
    /// for no edit.
    pub edit_buttons: Vec<Button>,
    /// The notice that lists who reacted.
    pub listing: Option<String>,
    /// The native reactions to add to the target, in order.
    pub reactions: Vec<NativeReaction>,
}

/// A follow-up with its strings as text.
pub struct FollowUpView {
    pub target: Option<usize>,
    pub edit_buttons: Seq<ButtonView>,
    pub listing: Option<Seq<char>>,
    pub reactions: Seq<NativeReactionView>,
}

impl View for FollowUp {
    type V = FollowUpView;

    open spec fn view(&self) -> FollowUpView {
        FollowUpView {
            target: self.target,
            edit_buttons: views(self.edit_buttons@),
            listing: text_of(self.listing),
            reactions: views(self.reactions@),
        }
    }
}

/// What follows the sending of `batches`, of which `sent` says which went
/// out.
///
/// The target is the last outbound message that went out. In detached mode
/// the row of reaction buttons is put on the target by an edit, unless the
/// target carries it already. The listing of who reacted follows; as text
/// the message gets it only if it went out. Native reactions are added to
/// the target unless reactions are switched off or shown as buttons.
pub open spec fn follow_up_of(
    mode: RenderMode,
    batches: Seq<OutboundView>,
    sent: Seq<bool>,
    reactions: Seq<ReactionInfo>,
    options: ImportOptions,
) -> FollowUpView {
    let target = last_sent(sent, batches.len() as int);
    FollowUpView {
        target: match target {
            Some(t) => Some(t as usize),
            None => None,
        },
        edit_buttons: if mode is Detached && target is Some && batches[target->0].buttons.len()
            == 0 {
            reaction_row(options.button, reactions, options.disable_button)
        } else {
            Seq::empty()
        },
        listing: if mode is Text && target is None {
            None
        } else {
            reaction_notice(options.reaction_users, reactions)
        },
        reactions: if target is Some && !options.button && !options.no_reactions {
            native_reactions(reactions)
        } else {
            Seq::empty()
        },
    }
}

/// Finds the last outbound message that went out.
fn find_last_sent(sent: &[bool], count: usize) -> (r: Option<usize>)
    ensures
        match r {
            Some(t) => last_sent(sent@, count as int) == Some(t as int) && t < count,
            None => last_sent(sent@, count as int) is None,
        },
{
    let mut i: usize = count;
    while i > 0
        invariant
            i <= count,
            last_sent(sent@, i as int) == last_sent(sent@, count as int),
        decreases i,
    {
        if i - 1 < sent.len() && sent[i - 1] {
            return Some(i - 1);
        }
        i -= 1;
    }
    None
}

/// Decides what follows the sending of a message's outbound messages.
pub fn conclude_message(
    message: &MessageInfo,
    plan: &MessagePlan,
    sent: &[bool],
    options: &ImportOptions,
) -> (follow_up: FollowUp)
    ensures
        follow_up@ == follow_up_of(
            plan.mode,
            views(plan.batches@),
            sent@,
            message.reactions@,
            *options,
        ),
{
    let target = find_last_sent(sent, plan.batches.len());
    assert(views(plan.batches@).len() == plan.batches@.len());
    let detached = match plan.mode {
        RenderMode::Detached => true,
        _ => false,
    };
    let as_text = match plan.mode {
        RenderMode::Text => true,
        _ => false,
    };
    let needs_edit = match target {
        Some(t) => {
            assert(views(plan.batches@)[t as int] == plan.batches@[t as int]@);
            assert(views(plan.batches@[t as int].buttons@).len()
                == plan.batches@[t as int].buttons@.len());
            detached && plan.batches[t].buttons.len() == 0
        },
        None => false,
    };
    let edit_buttons: Vec<Button> = if needs_edit {
        make_reaction_row(options.button, message.reactions.as_slice(), options.disable_button)
    } else {
        let none: Vec<Button> = Vec::new();
        assert(views(none@) == Seq::<ButtonView>::empty());
        none
    };
    let listing = if as_text && target.is_none() {
        None
    } else {
        show_reaction_users(options.reaction_users, message.reactions.as_slice())
    };
    let reactions: Vec<NativeReaction> = if target.is_some() && !options.button
        && !options.no_reactions {
        create_reactions(message.reactions.as_slice())
    } else {
        let none: Vec<NativeReaction> = Vec::new();
        assert(views(none@) == Seq::<NativeReactionView>::empty());
        none
    };
    FollowUp { target, edit_buttons, listing, reactions }
}

/// A message without media, not detached, is replayed by no outbound
/// message where its text is empty and its author has no stored avatar, and
/// by exactly one in every other case.
pub proof fn law_text_mode_sends_at_most_once(
    message: MessageInfo,
    export: Export,
    avatar: Option<(String, String)>,
    avatar_loaded: bool,
    loaded: Seq<bool>,
    options: ImportOptions,
    timestamp_ok: bool,
)
    requires
        !options.outside,
    ensures
        planned_batches(
            message,
            export,
            avatar,
            Seq::empty(),
            avatar_loaded,
            loaded,
            options,
            timestamp_ok,
        ).len() == (if message.content@.len() == 0 && avatar is None {
            0nat
        } else {
            1nat
        }),
{
    lemma_mentions_keep_emptiness(message.content@, message.mentions@, 0);
}

} // verus!
