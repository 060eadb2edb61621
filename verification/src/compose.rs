//! The composer: turns one archived message into the outbound messages that
//! replay it, within the platform's limits on embeds and uploads.
//!
//! Whether a local file could be read is known only to the caller, who
//! reports it; a file that could not be read is left out and the rest of the
//! message is composed without it.

use crate::content::{replace_mentions, with_mentions};
use crate::embed::{blank_embed, text_of, Embed, EmbedView};
use crate::model::{
    views, MediaSource, MediaSourceView, MessageInfo, ReactionInfo, MAX_ATTACHMENTS, MAX_EMBEDS,
};
use crate::reactions::{buttons_of, create_buttons, Button, ButtonView};
use crate::text::{chars_of, join, join_strings, push_str, string_of, texts};
use vstd::prelude::*;

verus! {

/// A local file to upload with a message.
#[derive(Debug, PartialEq, Eq)]
pub struct Attachment {
    /// The file's path.
    pub path: String,
    /// The name to upload it under.
    pub filename: String,
}

/// An attachment with its strings as text.
pub struct AttachmentView {
    pub path: Seq<char>,
    pub filename: Seq<char>,
}

impl View for Attachment {
    type V = AttachmentView;

    open spec fn view(&self) -> AttachmentView {
        AttachmentView { path: self.path@, filename: self.filename@ }
    }
}

/// One step of the image pagination: the embeds and uploads of one outbound
/// message, and how many sources it used up.
#[derive(Debug, PartialEq, Eq)]
pub struct MessageBatch {
    pub attachments: Vec<Attachment>,
    pub embeds: Vec<Embed>,
    /// The number of sources looked at, the unreadable ones included.
    pub count: usize,
}

/// A batch with its strings as text.
pub struct MessageBatchView {
    pub attachments: Seq<AttachmentView>,
    pub embeds: Seq<EmbedView>,
    pub count: nat,
}

impl View for MessageBatch {
    type V = MessageBatchView;

    open spec fn view(&self) -> MessageBatchView {
        MessageBatchView {
            attachments: views(self.attachments@),
            embeds: views(self.embeds@),
            count: self.count as nat,
        }
    }
}

/// One outbound message.
#[derive(Debug, PartialEq, Eq)]
pub struct Outbound {
    /// Plain text above the embeds.
    pub content: Option<String>,
    pub embeds: Vec<Embed>,
    pub attachments: Vec<Attachment>,
    /// The row of reaction buttons; empty for no row.
    pub buttons: Vec<Button>,
}

/// An outbound message with its strings as text.
pub struct OutboundView {
    pub content: Option<Seq<char>>,
    pub embeds: Seq<EmbedView>,
    pub attachments: Seq<AttachmentView>,
    pub buttons: Seq<ButtonView>,
}

impl View for Outbound {
    type V = OutboundView;

    open spec fn view(&self) -> OutboundView {
        OutboundView {
            content: text_of(self.content),
            embeds: views(self.embeds@),
            attachments: views(self.attachments@),
            buttons: views(self.buttons@),
        }
    }
}

/// The row of reaction buttons of a message: one button for each reaction
/// where buttons are asked for, else none.
pub open spec fn reaction_row(button: bool, reactions: Seq<ReactionInfo>, disable_button: bool)
    -> Seq<ButtonView> {
    if button {
        buttons_of(reactions, disable_button)
    } else {
        Seq::empty()
    }
}

/// Makes the row of reaction buttons of a message.
pub fn make_reaction_row(button: bool, reactions: &[ReactionInfo], disable_button: bool) -> (row:
    Vec<Button>)
    ensures
        views(row@) == reaction_row(button, reactions@, disable_button),
{
    if button {
        create_buttons(reactions, disable_button)
    } else {
        let row: Vec<Button> = Vec::new();
        assert(views(row@) == Seq::<ButtonView>::empty());
        row
    }
}

/// Puts the row of reaction buttons on an outbound message. Where buttons
/// are not asked for, or the message has no reactions, the message stays as
/// it is.
pub fn with_reaction_buttons(
    reply: Outbound,
    button: bool,
    reactions: &[ReactionInfo],
    disable_button: bool,
) -> (r: Outbound)
    ensures
        r@ == (if button && reactions@.len() > 0 {
            OutboundView { buttons: buttons_of(reactions@, disable_button), ..reply@ }
        } else {
            reply@
        }),
{
    if button && reactions.len() > 0 {
        let buttons = create_buttons(reactions, disable_button);
        Outbound {
            content: reply.content,
            embeds: reply.embeds,
            attachments: reply.attachments,
            buttons,
        }
    } else {
        reply
    }
}

/// The upload of the author's avatar: there is one where a file was found
/// and could be read.
pub open spec fn avatar_upload(avatar: Option<(String, String)>, avatar_loaded: bool) -> Seq<
    AttachmentView,
> {
    match avatar {
        Some(file) => if avatar_loaded {
            seq![AttachmentView { path: file.0@, filename: file.1@ }]
        } else {
            Seq::empty()
        },
        None => Seq::empty(),
    }
}

/// Makes the upload of the author's avatar.
fn make_avatar_upload(avatar: &Option<(String, String)>, avatar_loaded: bool) -> (r: Vec<
    Attachment,
>)
    ensures
        views(r@) == avatar_upload(*avatar, avatar_loaded),
{
    let mut r: Vec<Attachment> = Vec::new();
    match avatar {
        Some(file) => {
            if avatar_loaded {
                r.push(Attachment { path: file.0.clone(), filename: file.1.clone() });
            }
        },
        None => {},
    }
    assert(views(r@) == avatar_upload(*avatar, avatar_loaded));
    r
}

/// Whether source `i` could be read. A source without a report could not.
pub open spec fn is_loaded(loaded: Seq<bool>, i: int) -> bool {
    0 <= i < loaded.len() && loaded[i]
}

/// What is the same for every embed of an image message.
pub struct Gallery {
    /// The metadata embed.
    pub base: EmbedView,
    /// The text of the message.
    pub content: Seq<char>,
    /// The address that all embeds share.
    pub embed_url: Seq<char>,
    /// Whether this is the first outbound message.
    pub is_first_batch: bool,
}

/// The embed that shows one image. The first embed of the first outbound
/// message is the metadata embed with the text as its description; every
/// other embed is bare.
pub open spec fn image_embed(gallery: Gallery, first_embed: bool, image: Seq<char>) -> EmbedView {
    let start = if first_embed && gallery.is_first_batch {
        if gallery.content.len() > 0 {
            EmbedView { description: Some(gallery.content), ..gallery.base }
        } else {
            gallery.base
        }
    } else {
        blank_embed()
    };
    EmbedView { url: Some(gallery.embed_url), image: Some(image), ..start }
}

/// The batch that grows from `attachments` and `embeds` by taking the images
/// from position `at` on, until an embed or an upload would pass its limit
/// or the images run out.
///
/// A remote image takes an embed. A local image takes an embed and an
/// upload. A local image that could not be read takes neither and is passed
/// over.
pub open spec fn fill_batch(
    images: Seq<MediaSourceView>,
    loaded: Seq<bool>,
    at: int,
    attachments: Seq<AttachmentView>,
    embeds: Seq<EmbedView>,
    gallery: Gallery,
) -> MessageBatchView
    decreases images.len() - at,
{
    if at < 0 || at >= images.len() || embeds.len() >= MAX_EMBEDS {
        MessageBatchView { attachments, embeds, count: at as nat }
    } else {
        match images[at] {
            MediaSourceView::Local(path, filename) => if attachments.len() >= MAX_ATTACHMENTS {
                MessageBatchView { attachments, embeds, count: at as nat }
            } else if !is_loaded(loaded, at) {
                fill_batch(images, loaded, at + 1, attachments, embeds, gallery)
            } else {
                fill_batch(
                    images,
                    loaded,
                    at + 1,
                    attachments.push(AttachmentView { path, filename }),
                    embeds.push(
                        image_embed(gallery, embeds.len() == 0, "attachment://"@ + filename),
                    ),
                    gallery,
                )
            },
            MediaSourceView::Remote(url) => fill_batch(
                images,
                loaded,
                at + 1,
                attachments,
                embeds.push(image_embed(gallery, embeds.len() == 0, url)),
                gallery,
            ),
        }
    }
}

/// The next outbound message of an image message: the avatar upload first
/// if this is the first one, then as many of `images` as the limits allow.
pub open spec fn batch_of(
    images: Seq<MediaSourceView>,
    loaded: Seq<bool>,
    avatar: Option<(String, String)>,
    avatar_loaded: bool,
    gallery: Gallery,
) -> MessageBatchView {
    fill_batch(
        images,
        loaded,
        0,
        if gallery.is_first_batch {
            avatar_upload(avatar, avatar_loaded)
        } else {
            Seq::empty()
        },
        Seq::empty(),
        gallery,
    )
}

/// A batch that can still grow uses up at least one more image, and no
/// batch passes a limit.
pub proof fn lemma_fill_batch(
    images: Seq<MediaSourceView>,
    loaded: Seq<bool>,
    at: int,
    attachments: Seq<AttachmentView>,
    embeds: Seq<EmbedView>,
    gallery: Gallery,
)
    requires
        0 <= at <= images.len(),
        attachments.len() <= MAX_ATTACHMENTS,
        embeds.len() <= MAX_EMBEDS,
    ensures
        ({
            let batch = fill_batch(images, loaded, at, attachments, embeds, gallery);
            &&& at <= batch.count <= images.len()
            &&& batch.attachments.len() <= MAX_ATTACHMENTS
            &&& batch.embeds.len() <= MAX_EMBEDS
            &&& attachments.len() <= batch.attachments.len()
            &&& embeds.len() <= batch.embeds.len()
            &&& at < images.len() && embeds.len() < MAX_EMBEDS && attachments.len()
                < MAX_ATTACHMENTS ==> batch.count > at
        }),
    decreases images.len() - at,
{
    if at < images.len() && embeds.len() < MAX_EMBEDS {
        match images[at] {
            MediaSourceView::Local(path, filename) => {
                if attachments.len() >= MAX_ATTACHMENTS {
                } else if !is_loaded(loaded, at) {
                    lemma_fill_batch(images, loaded, at + 1, attachments, embeds, gallery);
                } else {
                    lemma_fill_batch(
                        images,
                        loaded,
                        at + 1,
                        attachments.push(AttachmentView { path, filename }),
                        embeds.push(
                            image_embed(gallery, embeds.len() == 0, "attachment://"@ + filename),
                        ),
                        gallery,
                    );
                }
            },
            MediaSourceView::Remote(url) => {
                lemma_fill_batch(
                    images,
                    loaded,
                    at + 1,
                    attachments,
                    embeds.push(image_embed(gallery, embeds.len() == 0, url)),
                    gallery,
                );
            },
        }
    }
}

/// Composes the next outbound message of an image message.
///
/// `loaded` says of each image whether it could be read; it matters for the
/// local ones only. The batch holds at most ten embeds and ten uploads, and
/// uses up at least one image where there is any.
pub fn prepare_batch(
    images: &[MediaSource],
    loaded: &[bool],
    base_embed: &Embed,
    author_avatar_file: &Option<(String, String)>,
    avatar_loaded: bool,
    is_first_batch: bool,
    content: &str,
    embed_url: &str,
) -> (batch: MessageBatch)
    ensures
        batch@ == batch_of(
            views(images@),
            loaded@,
            *author_avatar_file,
            avatar_loaded,
            Gallery { base: base_embed@, content: content@, embed_url: embed_url@, is_first_batch },
        ),
        batch.embeds@.len() <= MAX_EMBEDS,
        batch.attachments@.len() <= MAX_ATTACHMENTS,
        batch.count <= images@.len(),
        images@.len() > 0 ==> batch.count > 0,
{
    let ghost gallery = Gallery {
        base: base_embed@,
        content: content@,
        embed_url: embed_url@,
        is_first_batch,
    };
    let mut attachments: Vec<Attachment> = if is_first_batch {
        make_avatar_upload(author_avatar_file, avatar_loaded)
    } else {
        Vec::new()
    };
    let mut embeds: Vec<Embed> = Vec::new();
    assert(views(embeds@) == Seq::<EmbedView>::empty());
    assert(!is_first_batch ==> views(attachments@) == Seq::<AttachmentView>::empty());
    let ghost whole = batch_of(
        views(images@),
        loaded@,
        *author_avatar_file,
        avatar_loaded,
        gallery,
    );
    assert(views(attachments@).len() <= 1);
    proof {
        lemma_fill_batch(views(images@), loaded@, 0, views(attachments@), views(embeds@), gallery);
    }
    let mut at: usize = 0;
    while at < images.len() && embeds.len() < MAX_EMBEDS
        invariant
            at <= images.len(),
            embeds.len() <= MAX_EMBEDS,
            attachments.len() <= MAX_ATTACHMENTS,
            gallery == (Gallery {
                base: base_embed@,
                content: content@,
                embed_url: embed_url@,
                is_first_batch,
            }),
            fill_batch(
                views(images@),
                loaded@,
                at as int,
                views(attachments@),
                views(embeds@),
                gallery,
            ) == whole,
        ensures
            at <= images.len(),
            embeds.len() <= MAX_EMBEDS,
            attachments.len() <= MAX_ATTACHMENTS,
            whole == (MessageBatchView {
                attachments: views(attachments@),
                embeds: views(embeds@),
                count: at as nat,
            }),
        decreases images.len() - at,
    {
        let ghost embeds_before = views(embeds@);
        let ghost attachments_before = views(attachments@);
        assert(views(images@)[at as int] == images@[at as int]@);
        assert(embeds_before.len() == embeds.len());
        assert(attachments_before.len() == attachments.len());
        let first_embed = embeds.len() == 0;
        match &images[at] {
            MediaSource::Local(path, filename) => {
                if attachments.len() >= MAX_ATTACHMENTS {
                    break ;
                }
                if at < loaded.len() && loaded[at] {
                    let mut image: Vec<char> = Vec::new();
                    push_str(&mut image, "attachment://");
                    push_str(&mut image, filename.as_str());
                    assert(Seq::<char>::empty() + "attachment://"@ == "attachment://"@);
                    let embed = make_image_embed(
                        base_embed,
                        content,
                        embed_url,
                        is_first_batch,
                        first_embed,
                        string_of(&image),
                    );
                    attachments.push(
                        Attachment { path: path.clone(), filename: filename.clone() },
                    );
                    embeds.push(embed);
                    assert(views(attachments@) == attachments_before.push(
                        AttachmentView { path: path@, filename: filename@ },
                    ));
                    assert(views(embeds@) == embeds_before.push(
                        image_embed(gallery, first_embed, "attachment://"@ + filename@),
                    ));
                }
            },
            MediaSource::Remote(url) => {
                let embed = make_image_embed(
                    base_embed,
                    content,
                    embed_url,
                    is_first_batch,
                    first_embed,
                    url.clone(),
                );
                embeds.push(embed);
                assert(views(embeds@) == embeds_before.push(
                    image_embed(gallery, first_embed, url@),
                ));
            },
        }
        at += 1;
    }
    MessageBatch { attachments, embeds, count: at }
}

/// Makes the embed that shows one image.
fn make_image_embed(
    base_embed: &Embed,
    content: &str,
    embed_url: &str,
    is_first_batch: bool,
    first_embed: bool,
    image: String,
) -> (embed: Embed)
    ensures
        embed@ == image_embed(
            Gallery { base: base_embed@, content: content@, embed_url: embed_url@, is_first_batch },
            first_embed,
            image@,
        ),
{
    let mut embed = if first_embed && is_first_batch {
        let mut e = base_embed.copy();
        if content.unicode_len() > 0 {
            e.description = Some(string_of(&chars_of(content)));
        }
        e
    } else {
        Embed::new()
    };
    embed.url = Some(string_of(&chars_of(embed_url)));
    embed.image = Some(image);
    embed
}

/// The outbound messages of a message without images: none where the text
/// is empty and the author has no stored avatar; else one, whose only embed
/// is the metadata embed with the text as its description.
pub open spec fn text_batches(
    content: Seq<char>,
    base: EmbedView,
    avatar: Option<(String, String)>,
    avatar_loaded: bool,
    row: Seq<ButtonView>,
) -> Seq<OutboundView> {
    if content.len() == 0 && avatar is None {
        Seq::empty()
    } else {
        seq![
            OutboundView {
                content: None,
                embeds: seq![EmbedView { description: Some(content), ..base }],
                attachments: avatar_upload(avatar, avatar_loaded),
                buttons: row,
            },
        ]
    }
}

/// Composes a message that has no images.
pub fn compose_text(
    message: &MessageInfo,
    base_embed: Embed,
    author_avatar_file: &Option<(String, String)>,
    avatar_loaded: bool,
    no_mentions: bool,
    button: bool,
    reactions: &[ReactionInfo],
    disable_button: bool,
) -> (batches: Vec<Outbound>)
    ensures
        views(batches@) == text_batches(
            with_mentions(message.content@, message.mentions@, no_mentions),
            base_embed@,
            *author_avatar_file,
            avatar_loaded,
            reaction_row(button, reactions@, disable_button),
        ),
{
    let mut batches: Vec<Outbound> = Vec::new();
    let content = replace_mentions(
        message.content.as_str(),
        message.mentions.as_slice(),
        no_mentions,
    );
    if content.as_str().unicode_len() == 0 && author_avatar_file.is_none() {
        assert(views(batches@) == Seq::<OutboundView>::empty());
        return batches;
    }
    let mut embed = base_embed;
    embed.description = Some(content);
    let mut embeds: Vec<Embed> = Vec::new();
    embeds.push(embed);
    assert(views(embeds@) == seq![
        EmbedView {
            description: Some(with_mentions(message.content@, message.mentions@, no_mentions)),
            ..base_embed@
        },
    ]);
    let reply = Outbound {
        content: None,
        embeds,
        attachments: make_avatar_upload(author_avatar_file, avatar_loaded),
        buttons: make_reaction_row(button, reactions, disable_button),
    };
    let ghost v = reply@;
    batches.push(reply);
    assert(views(batches@) == seq![v]);
    batches
}

/// The reports for the sources from position `at` on.
pub open spec fn reports_from(loaded: Seq<bool>, at: int) -> Seq<bool> {
    if 0 <= at <= loaded.len() {
        loaded.skip(at)
    } else {
        Seq::empty()
    }
}

/// The outbound messages for the images from position `at` on.
///
/// Each takes as many images as the limits allow. One without an embed,
/// because none of its images could be read, is not sent. The row of
/// reaction buttons goes on the one after which no image is left.
pub open spec fn image_batches_from(
    images: Seq<MediaSourceView>,
    loaded: Seq<bool>,
    at: int,
    avatar: Option<(String, String)>,
    avatar_loaded: bool,
    gallery: Gallery,
    row: Seq<ButtonView>,
) -> Seq<OutboundView>
    decreases
        (if at < images.len() {
            images.len() - at
        } else {
            0
        }),
{
    if at < 0 || at >= images.len() {
        Seq::empty()
    } else {
        let batch = batch_of(
            images.skip(at),
            reports_from(loaded, at),
            avatar,
            avatar_loaded,
            gallery,
        );
        let next = at + batch.count;
        let here = if batch.embeds.len() > 0 {
            seq![
                OutboundView {
                    content: None,
                    embeds: batch.embeds,
                    attachments: batch.attachments,
                    buttons: if next >= images.len() {
                        row
                    } else {
                        Seq::empty()
                    },
                },
            ]
        } else {
            Seq::empty()
        };
        if batch.count > 0 {
            here + image_batches_from(
                images,
                loaded,
                next,
                avatar,
                avatar_loaded,
                Gallery { is_first_batch: false, ..gallery },
                row,
            )
        } else {
            here
        }
    }
}

/// The outbound messages of a message with images.
pub open spec fn image_batches(
    content: Seq<char>,
    base: EmbedView,
    images: Seq<MediaSourceView>,
    loaded: Seq<bool>,
    avatar: Option<(String, String)>,
    avatar_loaded: bool,
    embed_url: Seq<char>,
    row: Seq<ButtonView>,
) -> Seq<OutboundView> {
    image_batches_from(
        images,
        loaded,
        0,
        avatar,
        avatar_loaded,
        Gallery { base, content, embed_url, is_first_batch: true },
        row,
    )
}

/// Composes a message with images, as many outbound messages as the limits
/// ask for.
///
/// Every outbound message holds at most ten embeds and ten uploads and at
/// least one embed; none but the last carries the row of reaction buttons.
pub fn compose_images(
    message: &MessageInfo,
    base_embed: &Embed,
    image_sources: &[MediaSource],
    loaded: &[bool],
    author_avatar_file: &Option<(String, String)>,
    avatar_loaded: bool,
    embed_url: &str,
    no_mentions: bool,
    button: bool,
    reactions: &[ReactionInfo],
    disable_button: bool,
) -> (batches: Vec<Outbound>)
    ensures
        views(batches@) == image_batches(
            with_mentions(message.content@, message.mentions@, no_mentions),
            base_embed@,
            views(image_sources@),
            loaded@,
            *author_avatar_file,
            avatar_loaded,
            embed_url@,
            reaction_row(button, reactions@, disable_button),
        ),
        forall|i: int|
            0 <= i < batches@.len() ==> 0 < (#[trigger] batches@[i]).embeds@.len() <= MAX_EMBEDS
                && batches@[i].attachments@.len() <= MAX_ATTACHMENTS,
        forall|i: int| 0 <= i < batches@.len() - 1 ==> (#[trigger] batches@[i]).buttons@.len() == 0,
{
    let content = replace_mentions(
        message.content.as_str(),
        message.mentions.as_slice(),
        no_mentions,
    );
    let ghost row = reaction_row(button, reactions@, disable_button);
    let ghost images = views(image_sources@);
    let ghost gallery = Gallery {
        base: base_embed@,
        content: content@,
        embed_url: embed_url@,
        is_first_batch: true,
    };
    let ghost whole = image_batches_from(
        images,
        loaded@,
        0,
        *author_avatar_file,
        avatar_loaded,
        gallery,
        row,
    );
    let mut batches: Vec<Outbound> = Vec::new();
    let mut at: usize = 0;
    let mut is_first_batch = true;
    assert(views(batches@) + whole == whole);
    while at < image_sources.len()
        invariant
            at <= image_sources.len(),
            images == views(image_sources@),
            row == reaction_row(button, reactions@, disable_button),
            gallery == (Gallery {
                base: base_embed@,
                content: content@,
                embed_url: embed_url@,
                is_first_batch: true,
            }),
            views(batches@) + image_batches_from(
                images,
                loaded@,
                at as int,
                *author_avatar_file,
                avatar_loaded,
                Gallery { is_first_batch, ..gallery },
                row,
            ) == whole,
            forall|i: int|
                0 <= i < batches@.len() ==> 0 < (#[trigger] batches@[i]).embeds@.len()
                    <= MAX_EMBEDS && batches@[i].attachments@.len() <= MAX_ATTACHMENTS,
            forall|i: int|
                0 <= i < batches@.len() - 1 ==> (#[trigger] batches@[i]).buttons@.len() == 0,
            at < image_sources.len() ==> forall|i: int|
                0 <= i < batches@.len() ==> (#[trigger] batches@[i]).buttons@.len() == 0,
        decreases image_sources.len() - at,
    {
        let ghost before = views(batches@);
        let ghost rest_now = image_batches_from(
            images,
            loaded@,
            at as int,
            *author_avatar_file,
            avatar_loaded,
            Gallery { is_first_batch, ..gallery },
            row,
        );
        let remaining = &image_sources[at..image_sources.len()];
        let reports = if at <= loaded.len() {
            &loaded[at..loaded.len()]
        } else {
            &loaded[0..0]
        };
        assert(views(remaining@) == images.skip(at as int));
        assert(reports@ == reports_from(loaded@, at as int));
        let batch = prepare_batch(
            remaining,
            reports,
            base_embed,
            author_avatar_file,
            avatar_loaded,
            is_first_batch,
            content.as_str(),
            embed_url,
        );
        let count = batch.count;
        let last = count >= image_sources.len() - at;
        let ghost batch_view = batch@;
        assert(batch_view.embeds.len() == batch.embeds@.len());
        if batch.embeds.len() > 0 {
            let buttons: Vec<Button> = if last {
                make_reaction_row(button, reactions, disable_button)
            } else {
                Vec::new()
            };
            assert(views(buttons@) == (if last {
                row
            } else {
                Seq::<ButtonView>::empty()
            }));
            assert(!last ==> buttons@.len() == 0) by {
                assert(views(buttons@).len() == buttons@.len());
            }
            let reply = Outbound {
                content: None,
                embeds: batch.embeds,
                attachments: batch.attachments,
                buttons,
            };
            let ghost v = reply@;
            batches.push(reply);
            assert(views(batches@) == before + seq![v]);
        } else {
            assert(before + Seq::<OutboundView>::empty() == before);
        }
        proof {
            let rest_next = image_batches_from(
                images,
                loaded@,
                at + count,
                *author_avatar_file,
                avatar_loaded,
                Gallery { is_first_batch: false, ..gallery },
                row,
            );
            let here = views(batches@).skip(before.len() as int);
            assert(views(batches@) == before + here);
            assert(rest_now == here + rest_next);
            assert(before + (here + rest_next) == before + here + rest_next);
        }
        at += count;
        is_first_batch = false;
    }
    assert(views(batches@) + Seq::<OutboundView>::empty() == views(batches@));
    batches
}

/// The local files among `sources` that could be read, as uploads, in
/// order.
pub open spec fn local_uploads(sources: Seq<MediaSourceView>, loaded: Seq<bool>) -> Seq<
    AttachmentView,
>
    decreases sources.len(),
{
    if sources.len() == 0 {
        Seq::empty()
    } else {
        let before = local_uploads(sources.drop_last(), loaded);
        match sources.last() {
            MediaSourceView::Local(path, filename) => if is_loaded(loaded, sources.len() - 1) {
                before.push(AttachmentView { path, filename })
            } else {
                before
            },
            MediaSourceView::Remote(_) => before,
        }
    }
}

/// The addresses of the remote ones among `sources`, in order.
pub open spec fn remote_addresses(sources: Seq<MediaSourceView>) -> Seq<Seq<char>>
    decreases sources.len(),
{
    if sources.len() == 0 {
        Seq::empty()
    } else {
        let before = remote_addresses(sources.drop_last());
        match sources.last() {
            MediaSourceView::Local(_, _) => before,
            MediaSourceView::Remote(url) => before.push(url),
        }
    }
}

/// The plain text of a detached message: the text of the message, then the
/// remote addresses, one to a line.
pub open spec fn detached_text(content: Seq<char>, remotes: Seq<Seq<char>>) -> Seq<char> {
    if remotes.len() == 0 {
        content
    } else if content.len() == 0 {
        join(remotes, "\n"@)
    } else {
        content + "\n"@ + join(remotes, "\n"@)
    }
}

/// Where the chunk of uploads that begins at `at` ends.
pub open spec fn chunk_end(len: int, at: int) -> int {
    if at + MAX_ATTACHMENTS < len {
        at + MAX_ATTACHMENTS
    } else {
        len
    }
}

/// The outbound messages that carry the uploads from position `at` on, ten
/// to a message. The first of them carries `text`, the last the row of
/// reaction buttons.
pub open spec fn upload_chunks(
    uploads: Seq<AttachmentView>,
    at: int,
    text: Option<Seq<char>>,
    row: Seq<ButtonView>,
) -> Seq<OutboundView>
    decreases uploads.len() - at,
{
    if at < 0 || at > uploads.len() {
        Seq::empty()
    } else {
        let end = chunk_end(uploads.len() as int, at);
        let here = OutboundView {
            content: text,
            embeds: Seq::empty(),
            attachments: uploads.subrange(at, end),
            buttons: if end >= uploads.len() {
                row
            } else {
                Seq::empty()
            },
        };
        if end >= uploads.len() {
            seq![here]
        } else {
            seq![here] + upload_chunks(uploads, end, None, row)
        }
    }
}

/// The outbound messages of a detached message.
///
/// First, where there is a metadata embed, a message with that embed and the
/// avatar. Then, unless there is neither text nor upload, the uploads in
/// chunks of ten, the text on the first.
pub open spec fn detached_batches(
    text: Seq<char>,
    uploads: Seq<AttachmentView>,
    base: Option<EmbedView>,
    avatar: Option<(String, String)>,
    avatar_loaded: bool,
    row: Seq<ButtonView>,
) -> Seq<OutboundView> {
    let metadata = match base {
        Some(embed) => seq![
            OutboundView {
                content: None,
                embeds: seq![embed],
                attachments: avatar_upload(avatar, avatar_loaded),
                buttons: Seq::empty(),
            },
        ],
        None => Seq::empty(),
    };
    if text.len() == 0 && uploads.len() == 0 {
        metadata
    } else {
        metadata + upload_chunks(
            uploads,
            0,
            if text.len() > 0 {
                Some(text)
            } else {
                None
            },
            row,
        )
    }
}

/// Parts the sources of a detached message into uploads and addresses.
fn part_sources(sources: &[MediaSource], loaded: &[bool]) -> (r: (Vec<Attachment>, Vec<String>))
    ensures
        views(r.0@) == local_uploads(views(sources@), loaded@),
        texts(r.1@) == remote_addresses(views(sources@)),
{
    let mut locals: Vec<Attachment> = Vec::new();
    let mut remotes: Vec<String> = Vec::new();
    let ghost all = views(sources@);
    let mut i: usize = 0;
    assert(all.take(0) == Seq::<MediaSourceView>::empty());
    assert(views(locals@) == Seq::<AttachmentView>::empty());
    assert(texts(remotes@) == Seq::<Seq<char>>::empty());
    while i < sources.len()
        invariant
            i <= sources.len(),
            all == views(sources@),
            views(locals@) == local_uploads(all.take(i as int), loaded@),
            texts(remotes@) == remote_addresses(all.take(i as int)),
        decreases sources.len() - i,
    {
        assert(all.take(i + 1).drop_last() == all.take(i as int));
        assert(all.take(i + 1).last() == sources@[i as int]@);
        let ghost locals_before = views(locals@);
        let ghost remotes_before = texts(remotes@);
        match &sources[i] {
            MediaSource::Local(path, filename) => {
                if i < loaded.len() && loaded[i] {
                    locals.push(Attachment { path: path.clone(), filename: filename.clone() });
                    assert(views(locals@) == locals_before.push(
                        AttachmentView { path: path@, filename: filename@ },
                    ));
                }
            },
            MediaSource::Remote(url) => {
                remotes.push(url.clone());
                assert(texts(remotes@) == remotes_before.push(url@));
            },
        }
        i += 1;
    }
    assert(all.take(sources.len() as int) == all);
    (locals, remotes)
}

/// Composes a detached message: the metadata apart from the attachments.
///
/// All attachments take part, images or not. The local ones that could be
/// read are uploaded, ten to a message; the addresses of the remote ones
/// follow the text. No message holds more than ten uploads, and none but
/// the last carries the row of reaction buttons.
pub fn compose_detached(
    message: &MessageInfo,
    base_embed: Option<Embed>,
    attachment_sources: &[MediaSource],
    loaded: &[bool],
    author_avatar_file: &Option<(String, String)>,
    avatar_loaded: bool,
    no_mentions: bool,
    button: bool,
    reactions: &[ReactionInfo],
    disable_button: bool,
) -> (batches: Vec<Outbound>)
    ensures
        views(batches@) == detached_batches(
            detached_text(
                with_mentions(message.content@, message.mentions@, no_mentions),
                remote_addresses(views(attachment_sources@)),
            ),
            local_uploads(views(attachment_sources@), loaded@),
            match base_embed {
                Some(e) => Some(e@),
                None => None,
            },
            *author_avatar_file,
            avatar_loaded,
            reaction_row(button, reactions@, disable_button),
        ),
        forall|i: int|
            0 <= i < batches@.len() ==> (#[trigger] batches@[i]).attachments@.len()
                <= MAX_ATTACHMENTS && batches@[i].embeds@.len() <= 1,
        forall|i: int| 0 <= i < batches@.len() - 1 ==> (#[trigger] batches@[i]).buttons@.len() == 0,
{
    let (locals, remotes) = part_sources(attachment_sources, loaded);
    let content = replace_mentions(
        message.content.as_str(),
        message.mentions.as_slice(),
        no_mentions,
    );
    assert(texts(remotes@).len() == remotes.len());
    let text: String = if remotes.len() == 0 {
        content
    } else if content.as_str().unicode_len() == 0 {
        join_strings(&remotes, "\n")
    } else {
        let mut t = chars_of(content.as_str());
        push_str(&mut t, "\n");
        push_str(&mut t, join_strings(&remotes, "\n").as_str());
        string_of(&t)
    };
    let ghost row = reaction_row(button, reactions@, disable_button);
    let ghost uploads = views(locals@);
    let mut batches: Vec<Outbound> = Vec::new();
    assert(views(batches@) == Seq::<OutboundView>::empty());
    match base_embed {
        Some(embed) => {
            let mut embeds: Vec<Embed> = Vec::new();
            embeds.push(embed);
            assert(views(embeds@) == seq![embed@]);
            let no_buttons: Vec<Button> = Vec::new();
            assert(views(no_buttons@) == Seq::<ButtonView>::empty());
            let reply = Outbound {
                content: None,
                embeds,
                attachments: make_avatar_upload(author_avatar_file, avatar_loaded),
                buttons: no_buttons,
            };
            assert(reply.attachments@.len() <= 1) by {
                assert(views(reply.attachments@).len() == reply.attachments@.len());
            }
            let ghost v = reply@;
            batches.push(reply);
            assert(views(batches@) == seq![v]);
        },
        None => {},
    }
    let ghost metadata = views(batches@);
    if text.as_str().unicode_len() == 0 && locals.len() == 0 {
        return batches;
    }
    let has_text = text.as_str().unicode_len() > 0;
    let mut pending: Option<String> = if has_text {
        Some(text)
    } else {
        None
    };
    let ghost chunks = upload_chunks(uploads, 0, text_of(pending), row);
    let mut at: usize = 0;
    assert(views(batches@) + chunks == metadata + chunks);
    loop
        invariant_except_break
            at <= locals.len(),
            uploads == views(locals@),
            row == reaction_row(button, reactions@, disable_button),
            views(batches@) + upload_chunks(uploads, at as int, text_of(pending), row) == metadata
                + chunks,
            forall|i: int|
                0 <= i < batches@.len() ==> (#[trigger] batches@[i]).attachments@.len()
                    <= MAX_ATTACHMENTS && batches@[i].embeds@.len() <= 1,
            forall|i: int| 0 <= i < batches@.len() ==> (#[trigger] batches@[i]).buttons@.len() == 0,
        ensures
            views(batches@) == metadata + chunks,
            forall|i: int|
                0 <= i < batches@.len() ==> (#[trigger] batches@[i]).attachments@.len()
                    <= MAX_ATTACHMENTS && batches@[i].embeds@.len() <= 1,
            forall|i: int|
                0 <= i < batches@.len() - 1 ==> (#[trigger] batches@[i]).buttons@.len() == 0,
        decreases locals.len() - at,
    {
        let ghost before = views(batches@);
        let ghost text_now = text_of(pending);
        let end: usize = if locals.len() - at > MAX_ATTACHMENTS {
            at + MAX_ATTACHMENTS
        } else {
            locals.len()
        };
        assert(end as int == chunk_end(uploads.len() as int, at as int));
        let last = end >= locals.len();
        let mut chunk: Vec<Attachment> = Vec::new();
        let mut k: usize = at;
        assert(views(chunk@) == uploads.subrange(at as int, k as int));
        while k < end
            invariant
                at <= k <= end <= locals.len(),
                uploads == views(locals@),
                views(chunk@) == uploads.subrange(at as int, k as int),
            decreases end - k,
        {
            let ghost chunk_before = views(chunk@);
            chunk.push(
                Attachment { path: locals[k].path.clone(), filename: locals[k].filename.clone() },
            );
            assert(views(chunk@) == chunk_before.push(locals@[k as int]@));
            k += 1;
        }
        assert(chunk@.len() <= MAX_ATTACHMENTS) by {
            assert(views(chunk@).len() == chunk@.len());
        }
        let buttons: Vec<Button> = if last {
            make_reaction_row(button, reactions, disable_button)
        } else {
            Vec::new()
        };
        assert(views(buttons@) == (if last {
            row
        } else {
            Seq::<ButtonView>::empty()
        }));
        assert(!last ==> buttons@.len() == 0) by {
            assert(views(buttons@).len() == buttons@.len());
        }
        let no_embeds: Vec<Embed> = Vec::new();
        assert(views(no_embeds@) == Seq::<EmbedView>::empty());
        let reply = Outbound { content: pending, embeds: no_embeds, attachments: chunk, buttons };
        let ghost v = reply@;
        batches.push(reply);
        assert(views(batches@) == before + seq![v]);
        pending = None;
        if last {
            assert(upload_chunks(uploads, at as int, text_now, row) == seq![v]);
            break ;
        }
        proof {
            let rest = upload_chunks(uploads, end as int, None, row);
            assert(upload_chunks(uploads, at as int, text_now, row) == seq![v] + rest);
            assert(before + (seq![v] + rest) == before + seq![v] + rest);
        }
        at = end;
    }
    batches
}

/// Every image is a local file that could be read.
pub open spec fn all_local_and_read(images: Seq<MediaSourceView>, loaded: Seq<bool>) -> bool {
    forall|i: int| 0 <= i < images.len() ==> (#[trigger] images[i]) is Local && is_loaded(loaded, i)
}

/// The smaller of two numbers.
pub open spec fn least(a: int, b: int) -> int {
    if a < b {
        a
    } else {
        b
    }
}

/// A batch of readable local images takes as many as its free slots allow.
proof fn lemma_fill_batch_of_locals(
    images: Seq<MediaSourceView>,
    loaded: Seq<bool>,
    at: int,
    attachments: Seq<AttachmentView>,
    embeds: Seq<EmbedView>,
    gallery: Gallery,
)
    requires
        0 <= at <= images.len(),
        all_local_and_read(images, loaded),
        attachments.len() == embeds.len(),
        embeds.len() <= MAX_EMBEDS,
    ensures
        ({
            let batch = fill_batch(images, loaded, at, attachments, embeds, gallery);
            let taken = least(MAX_EMBEDS - embeds.len(), images.len() - at);
            &&& batch.count == at + taken
            &&& batch.embeds.len() == embeds.len() + taken
            &&& batch.attachments.len() == embeds.len() + taken
        }),
    decreases images.len() - at,
{
    if at < images.len() && embeds.len() < MAX_EMBEDS {
        assert(images[at] is Local && is_loaded(loaded, at));
        match images[at] {
            MediaSourceView::Local(path, filename) => {
                lemma_fill_batch_of_locals(
                    images,
                    loaded,
                    at + 1,
                    attachments.push(AttachmentView { path, filename }),
                    embeds.push(
                        image_embed(gallery, embeds.len() == 0, "attachment://"@ + filename),
                    ),
                    gallery,
                );
            },
            MediaSourceView::Remote(_) => {},
        }
    }
}

/// Readable local images, with no avatar to upload, fill the outbound
/// messages ten by ten.
proof fn lemma_full_galleries_from(
    images: Seq<MediaSourceView>,
    loaded: Seq<bool>,
    at: int,
    avatar: Option<(String, String)>,
    avatar_loaded: bool,
    gallery: Gallery,
    row: Seq<ButtonView>,
)
    requires
        0 <= at <= images.len(),
        all_local_and_read(images, loaded),
        avatar is None || !avatar_loaded,
    ensures
        ({
            let batches = image_batches_from(
                images,
                loaded,
                at,
                avatar,
                avatar_loaded,
                gallery,
                row,
            );
            let left = images.len() - at;
            &&& batches.len() == (left + 9) / 10
            &&& forall|j: int|
                0 <= j < batches.len() ==> {
                    &&& (#[trigger] batches[j]).embeds.len() == least(10, left - 10 * j)
                    &&& batches[j].attachments.len() == least(10, left - 10 * j)
                    &&& batches[j].buttons == (if j == batches.len() - 1 {
                        row
                    } else {
                        Seq::empty()
                    })
                }
        }),
    decreases images.len() - at,
{
    if at < images.len() {
        let rest_images = images.skip(at);
        let reports = reports_from(loaded, at);
        assert(all_local_and_read(rest_images, reports)) by {
            assert forall|i: int| 0 <= i < rest_images.len() implies (#[trigger] rest_images[i])
                is Local && is_loaded(reports, i) by {
                assert(images[at + i] is Local && is_loaded(loaded, at + i));
            }
        }
        lemma_fill_batch_of_locals(
            rest_images,
            reports,
            0,
            Seq::empty(),
            Seq::empty(),
            gallery,
        );
        let batch = batch_of(rest_images, reports, avatar, avatar_loaded, gallery);
        let next = at + batch.count;
        let later = Gallery { is_first_batch: false, ..gallery };
        lemma_full_galleries_from(images, loaded, next, avatar, avatar_loaded, later, row);
        let rest = image_batches_from(images, loaded, next, avatar, avatar_loaded, later, row);
        let batches = image_batches_from(images, loaded, at, avatar, avatar_loaded, gallery, row);
        let left = images.len() - at;
        assert(batches.len() == 1 + rest.len());
        assert forall|j: int| 0 <= j < batches.len() implies {
            &&& (#[trigger] batches[j]).embeds.len() == least(10, left - 10 * j)
            &&& batches[j].attachments.len() == least(10, left - 10 * j)
            &&& batches[j].buttons == (if j == batches.len() - 1 {
                row
            } else {
                Seq::empty()
            })
        } by {
            if j > 0 {
                assert(batches[j] == rest[j - 1]);
            }
        }
    }
}

/// Readable local images, with no avatar to upload, fill the outbound
/// messages ten by ten: `n` images make `n / 10` messages, rounded up, each
/// with ten embeds and ten uploads but the last, which has the rest; and the
/// last alone carries the row of reaction buttons.
pub proof fn law_full_galleries(
    content: Seq<char>,
    base: EmbedView,
    images: Seq<MediaSourceView>,
    loaded: Seq<bool>,
    avatar: Option<(String, String)>,
    avatar_loaded: bool,
    embed_url: Seq<char>,
    row: Seq<ButtonView>,
)
    requires
        all_local_and_read(images, loaded),
        avatar is None || !avatar_loaded,
    ensures
        ({
            let batches = image_batches(
                content,
                base,
                images,
                loaded,
                avatar,
                avatar_loaded,
                embed_url,
                row,
            );
            &&& batches.len() == (images.len() + 9) / 10
            &&& forall|j: int|
                0 <= j < batches.len() ==> {
                    &&& (#[trigger] batches[j]).embeds.len() == least(10, images.len() - 10 * j)
                    &&& batches[j].attachments.len() == least(10, images.len() - 10 * j)
                    &&& batches[j].buttons == (if j == batches.len() - 1 {
                        row
                    } else {
                        Seq::empty()
                    })
                }
        }),
{
    lemma_full_galleries_from(
        images,
        loaded,
        0,
        avatar,
        avatar_loaded,
        Gallery { base, content, embed_url, is_first_batch: true },
        row,
    );
}

} // verus!
