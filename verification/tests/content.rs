use dimport::content::{
    format_emoji, generate_footer, parse_color, replace_emojis, replace_mentions,
    user_profile_url,
};
use dimport::model::{ChannelInfo, EmojiInfo, Export, GuildInfo, Mention};

fn mention(id: u64, name: &str, nickname: Option<&str>) -> Mention {
    Mention { id, name: name.to_string(), nickname: nickname.map(|n| n.to_string()) }
}

fn emoji(id: Option<&str>, name: &str, code: &str, animated: bool) -> EmojiInfo {
    EmojiInfo {
        id: id.map(|i| i.to_string()),
        name: name.to_string(),
        code: code.to_string(),
        is_animated: animated,
        image_url: String::new(),
    }
}

fn export(guild: &str, category: Option<&str>, channel: &str) -> Export {
    Export {
        guild: GuildInfo { name: guild.to_string() },
        channel: ChannelInfo {
            name: channel.to_string(),
            category: category.map(|c| c.to_string()),
        },
        messages: Vec::new(),
    }
}

#[test]
fn mentions_become_clickable() {
    let mentions = vec![mention(7, "alice", None), mention(8, "bob", Some("Bobby"))];
    assert_eq!(
        replace_mentions("hi @alice and @Bobby, not @bob", &mentions, false),
        "hi <@7> and <@8>, not @bob"
    );
}

#[test]
fn mentions_stay_when_linking_is_off() {
    let mentions = vec![mention(7, "alice", None)];
    assert_eq!(replace_mentions("hi @alice", &mentions, true), "hi @alice");
    assert_eq!(replace_mentions("hi @alice", &[], false), "hi @alice");
}

#[test]
fn mention_replacement_is_plain_substring_replacement() {
    let mentions = vec![mention(7, "al", None)];
    assert_eq!(replace_mentions("@alice mail@al.org @al", &mentions, false), "<@7>ice mail<@7>.org <@7>");
    // A later mention works on what an earlier one left.
    let chained = vec![mention(1, "a", None), mention(2, "1>", None)];
    assert_eq!(replace_mentions("@a", &chained, false), "<<@2>");
    let empty_name = vec![mention(5, "", None)];
    assert_eq!(replace_mentions("a@b", &empty_name, false), "a<@5>b");
}

#[test]
fn custom_emojis_are_replaced_by_their_reference() {
    let emojis = vec![
        emoji(Some("11"), "party", "party", false),
        emoji(Some("12"), "dance", "dance", true),
        emoji(None, "😀", "grinning", false),
        emoji(Some(""), "🙂", "slight_smile", false),
    ];
    assert_eq!(
        replace_emojis(":party: :dance: :grinning: :slight_smile: party", &emojis),
        "<:party:11> <a:dance:12> :grinning: :slight_smile: party"
    );
    assert_eq!(replace_emojis("", &emojis), "");
    assert_eq!(replace_emojis(":party:", &[]), ":party:");
}

#[test]
fn an_emoji_is_shown_by_reference_or_glyph() {
    assert_eq!(format_emoji(&emoji(Some("11"), "party", "p", false)), "<:party:11>");
    assert_eq!(format_emoji(&emoji(Some("11"), "party", "p", true)), "<a:party:11>");
    assert_eq!(format_emoji(&emoji(None, "😀", "grinning", true)), "😀");
    assert_eq!(format_emoji(&emoji(Some(""), "😀", "grinning", false)), "😀");
    assert_eq!(format_emoji(&EmojiInfo::default()), "");
}

#[test]
fn colors_are_hexadecimal_with_optional_hashes() {
    assert_eq!(parse_color("#7289DA"), Some(0x7289DA));
    assert_eq!(parse_color("7289da"), Some(0x7289DA));
    assert_eq!(parse_color("##ff"), Some(255));
    assert_eq!(parse_color("#000000"), Some(0));
    assert_eq!(parse_color("#FFFFFFFF"), Some(u32::MAX));
    assert_eq!(parse_color("#100000000"), None);
    assert_eq!(parse_color("#"), None);
    assert_eq!(parse_color(""), None);
    assert_eq!(parse_color("#ggg"), None);
    assert_eq!(parse_color("ff#"), None);
    assert_eq!(parse_color(" #ff"), None);
    assert_eq!(parse_color("#-1"), None);
    for s in ["#7289DA", "abc", "#", "", "#+ff", "##1", "xyz", "#12345678", "#123456789"] {
        assert_eq!(parse_color(s), u32::from_str_radix(s.trim_start_matches('#'), 16).ok());
    }
}

#[test]
fn the_footer_joins_the_shown_parts() {
    let e = export("Guild", Some("Category"), "channel");
    assert_eq!(generate_footer(&e, false, false, false), "Guild | Category | channel");
    assert_eq!(generate_footer(&e, true, false, false), "Category | channel");
    assert_eq!(generate_footer(&e, false, true, false), "Guild | channel");
    assert_eq!(generate_footer(&e, false, false, true), "Guild | Category");
    assert_eq!(generate_footer(&e, true, true, false), "channel");
    assert_eq!(generate_footer(&e, true, true, true), "");
}

#[test]
fn the_footer_drops_absent_and_empty_parts() {
    let e = export("Guild", None, "channel");
    assert_eq!(generate_footer(&e, false, false, false), "Guild | channel");
    let e = export("", Some(""), "channel");
    assert_eq!(generate_footer(&e, false, false, false), "channel");
    let e = export("Guild", Some("Category"), "");
    assert_eq!(generate_footer(&e, false, false, false), "Guild | Category");
    let e = export("", None, "");
    assert_eq!(generate_footer(&e, false, false, false), "");
}

#[test]
fn the_profile_address_holds_the_id() {
    assert_eq!(user_profile_url(175928847299117063), "https://discord.com/users/175928847299117063");
    assert_eq!(user_profile_url(0), "https://discord.com/users/0");
    assert_eq!(user_profile_url(u64::MAX), format!("https://discord.com/users/{}", u64::MAX));
}
