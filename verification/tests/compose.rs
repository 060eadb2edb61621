use dimport::compose::{
    compose_detached, compose_images, compose_text, prepare_batch, with_reaction_buttons,
    Attachment, MessageBatch, Outbound,
};
use dimport::embed::{build_embed_base, create_embed_base, Embed, EmbedAuthor};
use dimport::model::{
    Author, ChannelInfo, EmojiInfo, Export, GuildInfo, JsonNumber, JsonValue, MediaSource,
    Mention, MessageInfo, ReactionInfo, MAX_ATTACHMENTS, MAX_EMBEDS, MESSAGE_DELAY_MS,
};
use dimport::reactions::{create_buttons, Button};

const URL: &str = "https://discord.com/users/42";

fn export() -> Export {
    Export {
        guild: GuildInfo { name: "Guild".to_string() },
        channel: ChannelInfo { name: "general".to_string(), category: Some("Chat".to_string()) },
        messages: Vec::new(),
    }
}

fn message(content: &str) -> MessageInfo {
    MessageInfo {
        content: content.to_string(),
        author: Author {
            id: 42,
            name: "alice".to_string(),
            avatar_url: "https://cdn/avatar.png".to_string(),
            color: Some("#7289DA".to_string()),
        },
        timestamp: "2016-04-30T11:18:25.796Z".to_string(),
        timestamp_edited: None,
        attachments: Vec::new(),
        mentions: vec![Mention { id: 7, name: "bob".to_string(), nickname: None }],
        inline_emojis: Vec::new(),
        reactions: Vec::new(),
    }
}

fn reactions(n: usize) -> Vec<ReactionInfo> {
    (0..n)
        .map(|i| ReactionInfo {
            emoji: EmojiInfo {
                id: None,
                name: format!("e{i}"),
                code: format!("c{i}"),
                is_animated: false,
                image_url: String::new(),
            },
            count: JsonValue::Number(JsonNumber::Unsigned(i as u64 + 1)),
            users: Vec::new(),
        })
        .collect()
}

fn base() -> Embed {
    Embed {
        author: Some(EmbedAuthor {
            name: "alice".to_string(),
            url: URL.to_string(),
            icon_url: "https://cdn/avatar.png".to_string(),
        }),
        footer: Some("Guild | Chat | general".to_string()),
        timestamp: Some("2016-04-30T11:18:25.796Z".to_string()),
        color: Some(0x7289DA),
        description: None,
        url: None,
        image: None,
    }
}

fn bare(image: &str) -> Embed {
    Embed {
        author: None,
        footer: None,
        timestamp: None,
        color: None,
        description: None,
        url: Some(URL.to_string()),
        image: Some(image.to_string()),
    }
}

fn first(description: Option<&str>, image: &str) -> Embed {
    Embed {
        description: description.map(|d| d.to_string()),
        url: Some(URL.to_string()),
        image: Some(image.to_string()),
        ..base()
    }
}

fn locals(n: usize) -> Vec<MediaSource> {
    (0..n).map(|i| MediaSource::Local(format!("m/{i}.png"), format!("{i}.png"))).collect()
}

fn remotes(n: usize) -> Vec<MediaSource> {
    (0..n).map(|i| MediaSource::Remote(format!("https://cdn/{i}.png"))).collect()
}

fn upload(i: usize) -> Attachment {
    Attachment { path: format!("m/{i}.png"), filename: format!("{i}.png") }
}

fn avatar() -> Option<(String, String)> {
    Some(("av/42.png".to_string(), "42.png".to_string()))
}

fn avatar_upload() -> Attachment {
    Attachment { path: "av/42.png".to_string(), filename: "42.png".to_string() }
}

fn images(
    m: &MessageInfo,
    sources: &[MediaSource],
    loaded: &[bool],
    avatar: &Option<(String, String)>,
    avatar_loaded: bool,
    button: bool,
    r: &[ReactionInfo],
) -> Vec<Outbound> {
    compose_images(m, &base(), sources, loaded, avatar, avatar_loaded, URL, false, button, r, false)
}

#[test]
fn the_limits_are_ten_and_ten() {
    assert_eq!(MAX_EMBEDS, 10);
    assert_eq!(MAX_ATTACHMENTS, 10);
    assert_eq!(MESSAGE_DELAY_MS, 100);
}

#[test]
fn the_base_embed_shows_author_footer_time_and_color() {
    let m = message("hello");
    let e = create_embed_base(&m, &export(), None, None, false, false, false, false, None);
    assert_eq!(e, base());
}

#[test]
fn a_time_that_does_not_parse_is_left_out() {
    for bad in ["not a time", "", "2016-04-30T11:18:25", "2016-04-30", "2016-13-30T11:18:25Z"] {
        let mut m = message("hello");
        m.timestamp = bad.to_string();
        let e = create_embed_base(&m, &export(), None, None, false, false, false, false, None);
        assert_eq!(e.timestamp, None, "{bad:?}");
    }
    for good in ["2016-04-30T11:18:25Z", "2016-04-30T11:18:25+00:00", "2016-04-30T11:18:25.796Z"] {
        let mut m = message("hello");
        m.timestamp = good.to_string();
        let e = create_embed_base(&m, &export(), None, None, false, false, false, false, None);
        assert_eq!(e.timestamp, Some(good.to_string()), "{good:?}");
    }
}

#[test]
fn the_time_of_the_last_edit_is_preferred() {
    let mut m = message("hello");
    m.timestamp_edited = Some("2020-01-02T03:04:05Z".to_string());
    let e = create_embed_base(&m, &export(), None, None, false, false, false, false, None);
    assert_eq!(e.timestamp, Some("2020-01-02T03:04:05Z".to_string()));
    m.timestamp_edited = Some("garbage".to_string());
    let e = create_embed_base(&m, &export(), None, None, false, false, false, false, None);
    assert_eq!(e.timestamp, None);
    let e = create_embed_base(&m, &export(), None, None, false, false, false, true, None);
    assert_eq!(e.timestamp, None);
    m.timestamp_edited = Some("2020-01-02T03:04:05Z".to_string());
    let e = create_embed_base(&m, &export(), None, None, false, false, false, true, None);
    assert_eq!(e.timestamp, None);
}

#[test]
fn the_embed_is_built_from_what_it_is_told_of_the_time() {
    let mut m = message("hello");
    m.timestamp = "whatever".to_string();
    let e = build_embed_base(&m, &export(), None, None, false, false, false, false, None, true);
    assert_eq!(e.timestamp, Some("whatever".to_string()));
    let e = build_embed_base(&m, &export(), None, None, false, false, false, false, None, false);
    assert_eq!(e.timestamp, None);
    let e = build_embed_base(&m, &export(), None, None, false, false, false, true, None, true);
    assert_eq!(e.timestamp, None);
}

#[test]
fn the_author_icon_prefers_current_then_uploaded_then_recorded() {
    let m = message("hello");
    let name = "42.png".to_string();
    let e = build_embed_base(
        &m,
        &export(),
        Some(&name),
        Some("https://now/avatar.png"),
        false,
        false,
        false,
        false,
        None,
        true,
    );
    assert_eq!(e.author.as_ref().unwrap().icon_url, "https://now/avatar.png");
    let e =
        build_embed_base(&m, &export(), Some(&name), None, false, false, false, false, None, true);
    assert_eq!(e.author.as_ref().unwrap().icon_url, "attachment://42.png");
    let e = build_embed_base(&m, &export(), None, None, false, false, false, false, None, true);
    assert_eq!(e.author.as_ref().unwrap().icon_url, "https://cdn/avatar.png");
    assert_eq!(e.author.as_ref().unwrap().url, URL);
    assert_eq!(e.author.as_ref().unwrap().name, "alice");
}

#[test]
fn the_color_prefers_the_override() {
    let mut m = message("hello");
    let e =
        build_embed_base(&m, &export(), None, None, false, false, false, false, Some(5), true);
    assert_eq!(e.color, Some(5));
    m.author.color = Some("nonsense".to_string());
    let e = build_embed_base(&m, &export(), None, None, false, false, false, false, None, true);
    assert_eq!(e.color, None);
    m.author.color = None;
    let e = build_embed_base(&m, &export(), None, None, false, false, false, false, None, true);
    assert_eq!(e.color, None);
}

#[test]
fn a_hidden_footer_is_left_out() {
    let m = message("hello");
    let e = build_embed_base(&m, &export(), None, None, true, true, true, false, None, true);
    assert_eq!(e.footer, None);
    let e = build_embed_base(&m, &export(), None, None, true, false, true, false, None, true);
    assert_eq!(e.footer, Some("Chat".to_string()));
}

#[test]
fn buttons_go_on_only_when_asked_for_and_present() {
    let plain = || Outbound {
        content: Some("x".to_string()),
        embeds: Vec::new(),
        attachments: Vec::new(),
        buttons: Vec::new(),
    };
    let r = reactions(2);
    assert_eq!(with_reaction_buttons(plain(), false, &r, false), plain());
    assert_eq!(with_reaction_buttons(plain(), true, &[], false), plain());
    let with = with_reaction_buttons(plain(), true, &r, true);
    assert_eq!(with.buttons, create_buttons(&r, true));
    assert_eq!(with.content, Some("x".to_string()));
}

#[test]
fn text_without_content_and_avatar_sends_nothing() {
    let m = message("");
    assert_eq!(
        compose_text(&m, base(), &None, false, false, true, &reactions(1), false),
        Vec::new()
    );
    assert_eq!(compose_text(&m, base(), &None, true, false, false, &[], false), Vec::new());
}

#[test]
fn text_with_content_sends_exactly_one_message() {
    let m = message("hello @bob");
    let batches = compose_text(&m, base(), &None, false, false, false, &[], false);
    assert_eq!(
        batches,
        vec![Outbound {
            content: None,
            embeds: vec![Embed { description: Some("hello <@7>".to_string()), ..base() }],
            attachments: Vec::new(),
            buttons: Vec::new(),
        }]
    );
    let kept = compose_text(&m, base(), &None, false, true, false, &[], false);
    assert_eq!(kept[0].embeds[0].description, Some("hello @bob".to_string()));
}

#[test]
fn text_with_only_an_avatar_sends_one_message() {
    let m = message("");
    let r = reactions(2);
    let batches = compose_text(&m, base(), &avatar(), true, false, true, &r, false);
    assert_eq!(
        batches,
        vec![Outbound {
            content: None,
            embeds: vec![Embed { description: Some(String::new()), ..base() }],
            attachments: vec![avatar_upload()],
            buttons: create_buttons(&r, false),
        }]
    );
    // An avatar that could not be read still counts as an avatar.
    let batches = compose_text(&m, base(), &avatar(), false, false, false, &r, false);
    assert_eq!(batches.len(), 1);
    assert_eq!(batches[0].attachments, Vec::new());
    assert_eq!(batches[0].buttons, Vec::<Button>::new());
}

#[test]
fn fifteen_local_images_make_batches_of_ten_and_five() {
    let m = message("look");
    let r = reactions(3);
    let batches = images(&m, &locals(15), &[true; 15], &None, false, true, &r);
    assert_eq!(batches.len(), 2);
    assert_eq!(batches[0].embeds.len(), 10);
    assert_eq!(batches[0].attachments.len(), 10);
    assert_eq!(batches[1].embeds.len(), 5);
    assert_eq!(batches[1].attachments.len(), 5);
    assert_eq!(batches[0].buttons, Vec::<Button>::new());
    assert_eq!(batches[1].buttons, create_buttons(&r, false));
    assert_eq!(batches[0].embeds[0], first(Some("look"), "attachment://0.png"));
    for i in 1..10 {
        assert_eq!(batches[0].embeds[i], bare(&format!("attachment://{i}.png")));
        assert_eq!(batches[0].attachments[i], upload(i));
    }
    for i in 0..5 {
        assert_eq!(batches[1].embeds[i], bare(&format!("attachment://{}.png", i + 10)));
        assert_eq!(batches[1].attachments[i], upload(i + 10));
    }
    assert!(batches.iter().all(|b| b.content.is_none()));
}

#[test]
fn ten_images_fit_one_batch_which_carries_the_buttons() {
    let m = message("");
    let r = reactions(1);
    let batches = images(&m, &locals(10), &[true; 10], &None, false, true, &r);
    assert_eq!(batches.len(), 1);
    assert_eq!(batches[0].embeds.len(), 10);
    assert_eq!(batches[0].buttons, create_buttons(&r, false));
    // Empty text leaves the description of the metadata embed unset.
    assert_eq!(batches[0].embeds[0], first(None, "attachment://0.png"));
    let none = images(&m, &locals(10), &[true; 10], &None, false, false, &r);
    assert_eq!(none[0].buttons, Vec::<Button>::new());
}

#[test]
fn the_avatar_takes_an_upload_slot_of_the_first_batch() {
    let m = message("look");
    let batches = images(&m, &locals(15), &[true; 15], &avatar(), true, false, &[]);
    assert_eq!(batches.len(), 2);
    assert_eq!(batches[0].attachments.len(), 10);
    assert_eq!(batches[0].attachments[0], avatar_upload());
    assert_eq!(batches[0].attachments[1], upload(0));
    assert_eq!(batches[0].embeds.len(), 9);
    assert_eq!(batches[1].attachments.len(), 6);
    assert_eq!(batches[1].attachments[0], upload(9));
    assert_eq!(batches[1].embeds.len(), 6);
    // An avatar that could not be read takes no slot.
    let batches = images(&m, &locals(15), &[true; 15], &avatar(), false, false, &[]);
    assert_eq!(batches[0].attachments.len(), 10);
    assert_eq!(batches[0].attachments[0], upload(0));
    assert_eq!(batches[0].embeds.len(), 10);
}

#[test]
fn remote_images_take_embeds_only() {
    let m = message("look");
    let batches = images(&m, &remotes(12), &[], &avatar(), true, false, &[]);
    assert_eq!(batches.len(), 2);
    assert_eq!(batches[0].embeds.len(), 10);
    assert_eq!(batches[0].attachments, vec![avatar_upload()]);
    assert_eq!(batches[0].embeds[0], first(Some("look"), "https://cdn/0.png"));
    assert_eq!(batches[0].embeds[9], bare("https://cdn/9.png"));
    assert_eq!(batches[1].embeds, vec![bare("https://cdn/10.png"), bare("https://cdn/11.png")]);
    assert_eq!(batches[1].attachments, Vec::new());
}

#[test]
fn mixed_images_stop_at_whichever_limit_comes_first() {
    let m = message("");
    // Nine remote images, then local ones: the embed limit ends the batch.
    let mut sources = remotes(9);
    sources.extend(locals(3));
    let batches = images(&m, &sources, &[true; 12], &None, false, false, &[]);
    assert_eq!(batches.len(), 2);
    assert_eq!((batches[0].embeds.len(), batches[0].attachments.len()), (10, 1));
    assert_eq!((batches[1].embeds.len(), batches[1].attachments.len()), (2, 2));
    // With the avatar, nine local images fill the uploads; a remote image still fits.
    let mut sources = locals(9);
    sources.extend(remotes(1));
    sources.extend(locals(1));
    let mut loaded = vec![true; 11];
    loaded[9] = false;
    let batches = images(&m, &sources, &loaded, &avatar(), true, false, &[]);
    assert_eq!(batches.len(), 2);
    assert_eq!((batches[0].embeds.len(), batches[0].attachments.len()), (10, 10));
    assert_eq!(batches[0].embeds[9], bare("https://cdn/0.png"));
    assert_eq!(batches[1].embeds, vec![bare("attachment://0.png")]);
    assert_eq!(batches[1].attachments, vec![upload(0)]);
}

#[test]
fn an_unreadable_image_is_skipped_and_nothing_is_sent_twice() {
    let m = message("look");
    let mut loaded = vec![true; 4];
    loaded[0] = false;
    loaded[2] = false;
    let batches = images(&m, &locals(4), &loaded, &None, false, false, &[]);
    assert_eq!(batches.len(), 1);
    assert_eq!(
        batches[0].embeds,
        vec![first(Some("look"), "attachment://1.png"), bare("attachment://3.png")]
    );
    assert_eq!(batches[0].attachments, vec![upload(1), upload(3)]);
}

#[test]
fn a_missing_report_counts_as_unreadable() {
    let m = message("look");
    let batches = images(&m, &locals(3), &[true], &None, false, false, &[]);
    assert_eq!(batches.len(), 1);
    assert_eq!(batches[0].attachments, vec![upload(0)]);
    assert_eq!(images(&m, &locals(3), &[], &None, false, true, &reactions(1)), Vec::new());
}

#[test]
fn unreadable_images_do_not_count_against_the_limits() {
    let m = message("");
    let mut loaded = vec![true; 14];
    for i in 0..4 {
        loaded[i * 2] = false;
    }
    let r = reactions(1);
    let batches = images(&m, &locals(14), &loaded, &None, false, true, &r);
    assert_eq!(batches.len(), 1);
    assert_eq!(batches[0].embeds.len(), 10);
    assert_eq!(batches[0].attachments.len(), 10);
    assert_eq!(batches[0].buttons, create_buttons(&r, false));
}

#[test]
fn a_batch_of_unreadable_images_is_not_sent() {
    let m = message("look");
    let r = reactions(1);
    // The last image cannot be read: the batch that would be last is empty and not sent.
    let mut loaded = vec![true; 11];
    loaded[10] = false;
    let batches = images(&m, &locals(11), &loaded, &None, false, true, &r);
    assert_eq!(batches.len(), 1);
    assert_eq!(batches[0].embeds.len(), 10);
    assert_eq!(batches[0].buttons, Vec::<Button>::new());
}

#[test]
fn prepare_batch_counts_the_sources_it_looked_at() {
    let b = prepare_batch(&locals(15), &[true; 15], &base(), &None, false, true, "t", URL);
    assert_eq!((b.count, b.embeds.len(), b.attachments.len()), (10, 10, 10));
    let b = prepare_batch(&locals(15), &[true; 15], &base(), &avatar(), true, true, "t", URL);
    assert_eq!((b.count, b.embeds.len(), b.attachments.len()), (9, 9, 10));
    let b = prepare_batch(&locals(15), &[true; 15], &base(), &avatar(), true, false, "t", URL);
    assert_eq!((b.count, b.embeds.len(), b.attachments.len()), (10, 10, 10));
    assert_eq!(b.embeds[0], bare("attachment://0.png"));
    let b = prepare_batch(&locals(3), &[false, true, false], &base(), &None, false, true, "t", URL);
    assert_eq!((b.count, b.embeds.len(), b.attachments.len()), (3, 1, 1));
    assert_eq!(b.embeds[0], first(Some("t"), "attachment://1.png"));
    let b = prepare_batch(&[], &[], &base(), &avatar(), true, true, "t", URL);
    assert_eq!(
        b,
        MessageBatch { attachments: vec![avatar_upload()], embeds: Vec::new(), count: 0 }
    );
}

#[test]
fn detached_sends_metadata_then_chunks_of_ten() {
    let m = message("hello @bob");
    let r = reactions(2);
    let mut sources = locals(12);
    sources.insert(3, MediaSource::Remote("https://cdn/x.bin".to_string()));
    sources.push(MediaSource::Remote("https://cdn/y.bin".to_string()));
    let loaded = vec![true; 14];
    let batches = compose_detached(
        &m,
        Some(base()),
        &sources,
        &loaded,
        &avatar(),
        true,
        false,
        true,
        &r,
        false,
    );
    assert_eq!(batches.len(), 3);
    assert_eq!(
        batches[0],
        Outbound {
            content: None,
            embeds: vec![base()],
            attachments: vec![avatar_upload()],
            buttons: Vec::new(),
        }
    );
    assert_eq!(
        batches[1],
        Outbound {
            content: Some("hello <@7>\nhttps://cdn/x.bin\nhttps://cdn/y.bin".to_string()),
            embeds: Vec::new(),
            attachments: (0..10).map(upload).collect(),
            buttons: Vec::new(),
        }
    );
    assert_eq!(
        batches[2],
        Outbound {
            content: None,
            embeds: Vec::new(),
            attachments: vec![upload(10), upload(11)],
            buttons: create_buttons(&r, false),
        }
    );
}

#[test]
fn detached_text_alone_and_uploads_alone() {
    let r = reactions(1);
    let m = message("only text");
    let batches = compose_detached(&m, None, &[], &[], &None, false, false, true, &r, true);
    assert_eq!(
        batches,
        vec![Outbound {
            content: Some("only text".to_string()),
            embeds: Vec::new(),
            attachments: Vec::new(),
            buttons: create_buttons(&r, true),
        }]
    );
    let m = message("");
    let batches =
        compose_detached(&m, None, &locals(2), &[true, true], &None, false, false, false, &r, false);
    assert_eq!(
        batches,
        vec![Outbound {
            content: None,
            embeds: Vec::new(),
            attachments: vec![upload(0), upload(1)],
            buttons: Vec::new(),
        }]
    );
    let batches = compose_detached(&m, None, &remotes(2), &[], &None, false, false, false, &r, false);
    assert_eq!(batches[0].content, Some("https://cdn/0.png\nhttps://cdn/1.png".to_string()));
    assert_eq!(batches.len(), 1);
}

#[test]
fn detached_with_nothing_to_say_sends_the_metadata_or_nothing() {
    let m = message("");
    let r = reactions(1);
    assert_eq!(
        compose_detached(&m, None, &[], &[], &None, false, false, true, &r, false),
        Vec::new()
    );
    let batches = compose_detached(&m, Some(base()), &[], &[], &None, false, false, true, &r, false);
    assert_eq!(batches.len(), 1);
    assert_eq!(batches[0].embeds, vec![base()]);
    assert_eq!(batches[0].buttons, Vec::<Button>::new());
    // Local files that cannot be read leave nothing to upload.
    let batches =
        compose_detached(&m, None, &locals(3), &[false; 3], &None, false, false, true, &r, false);
    assert_eq!(batches, Vec::new());
}

#[test]
fn detached_chunks_hold_at_most_ten_uploads() {
    let m = message("");
    for n in [1usize, 9, 10, 11, 20, 21, 35] {
        let batches = compose_detached(
            &m,
            None,
            &locals(n),
            &vec![true; n],
            &None,
            false,
            false,
            true,
            &reactions(1),
            false,
        );
        assert_eq!(batches.len(), (n + 9) / 10, "{n}");
        let sizes: Vec<usize> = batches.iter().map(|b| b.attachments.len()).collect();
        assert_eq!(sizes.iter().sum::<usize>(), n);
        assert!(sizes.iter().all(|s| *s <= 10 && *s > 0));
        assert!(sizes[..sizes.len() - 1].iter().all(|s| *s == 10));
        for (i, b) in batches.iter().enumerate() {
            assert_eq!(b.buttons.is_empty(), i + 1 < batches.len(), "{n} {i}");
        }
    }
}

#[test]
fn image_batches_hold_at_most_ten_of_each() {
    let m = message("x");
    for n in [1usize, 9, 10, 11, 19, 20, 21, 30, 31] {
        let batches = images(&m, &locals(n), &vec![true; n], &None, false, true, &reactions(1));
        assert_eq!(batches.len(), (n + 9) / 10, "{n}");
        for (i, b) in batches.iter().enumerate() {
            assert!(b.embeds.len() <= 10 && b.attachments.len() <= 10);
            assert_eq!(b.embeds.len(), if i + 1 < batches.len() { 10 } else { n - 10 * i });
            assert_eq!(b.buttons.is_empty(), i + 1 < batches.len(), "{n} {i}");
        }
    }
}
