//! Rewriting of message text, and the small texts around a message: the
//! footer, the profile address, the accent colour.

use crate::model::{EmojiInfo, Export, Mention};
use crate::text::{
    chars_of, decimal, join, join_strings, lemma_replace_keeps_emptiness, parse_number,
    parse_unsigned, push_all, push_decimal, push_str, replace, replace_all, string_of,
    strip_leading, texts, without_leading,
};
use vstd::prelude::*;

verus! {

/// The name a mention is written with: the nickname where there is one.
pub open spec fn display_name(mention: Mention) -> Seq<char> {
    match mention.nickname {
        Some(nick) => nick@,
        None => mention.name@,
    }
}

/// How a mention stands in the archived text: `@` and the display name.
pub open spec fn mention_pattern(mention: Mention) -> Seq<char> {
    "@"@ + display_name(mention)
}

/// The clickable form of a mention: `<@id>`.
pub open spec fn mention_token(mention: Mention) -> Seq<char> {
    "<@"@ + decimal(mention.id as nat) + ">"@
}

/// `content` after the mentions from position `at` on were made clickable,
/// one after the other, each in the text that the one before left.
pub open spec fn mentions_from(content: Seq<char>, mentions: Seq<Mention>, at: int) -> Seq<char>
    decreases mentions.len() - at,
{
    if at < 0 || at >= mentions.len() {
        content
    } else {
        mentions_from(
            replace_all(content, mention_pattern(mentions[at]), mention_token(mentions[at])),
            mentions,
            at + 1,
        )
    }
}

/// `content` with its mentions made clickable, unless that is `disabled`.
/// Every occurrence of `@name` is replaced wherever it stands, also inside a
/// longer word.
pub open spec fn with_mentions(content: Seq<char>, mentions: Seq<Mention>, disabled: bool) -> Seq<
    char,
> {
    if disabled {
        content
    } else {
        mentions_from(content, mentions, 0)
    }
}

/// Makes the mentions of a text clickable.
pub fn replace_mentions(content: &str, mentions: &[Mention], no_mentions: bool) -> (r: String)
    ensures
        r@ == with_mentions(content@, mentions@, no_mentions),
{
    let mut text = chars_of(content);
    if no_mentions {
        return string_of(&text);
    }
    let mut at: usize = 0;
    while at < mentions.len()
        invariant
            at <= mentions.len(),
            mentions_from(text@, mentions@, at as int) == mentions_from(content@, mentions@, 0),
        decreases mentions.len() - at,
    {
        let mention = &mentions[at];
        let mut pattern: Vec<char> = Vec::new();
        push_str(&mut pattern, "@");
        match &mention.nickname {
            Some(nick) => push_str(&mut pattern, nick.as_str()),
            None => push_str(&mut pattern, mention.name.as_str()),
        }
        assert(pattern@ == mention_pattern(*mention)) by {
            assert(Seq::<char>::empty() + "@"@ == "@"@);
        }
        let mut token: Vec<char> = Vec::new();
        push_str(&mut token, "<@");
        push_decimal(&mut token, mention.id);
        push_str(&mut token, ">");
        assert(token@ == mention_token(*mention)) by {
            assert(Seq::<char>::empty() + "<@"@ == "<@"@);
        }
        text = replace(&text, &pattern, &token);
        at += 1;
    }
    string_of(&text)
}

/// Whether an emoji is a custom one: it has an id, and the id is not empty.
pub open spec fn is_custom(emoji: EmojiInfo) -> bool {
    emoji.id is Some && emoji.id->0@.len() > 0
}

/// The reference to a custom emoji: `<:name:id>`, or `<a:name:id>` for an
/// animated one.
pub open spec fn emoji_markup(emoji: EmojiInfo) -> Seq<char> {
    (if emoji.is_animated {
        "<a:"@
    } else {
        "<:"@
    }) + emoji.name@ + ":"@ + emoji.id->0@ + ">"@
}

/// How an emoji is shown: a custom one by its reference, any other by its
/// name, which is the glyph itself.
pub open spec fn emoji_text(emoji: EmojiInfo) -> Seq<char> {
    if is_custom(emoji) {
        emoji_markup(emoji)
    } else {
        emoji.name@
    }
}

/// How an emoji stands in the archived text: its shortcode between colons.
pub open spec fn emoji_pattern(emoji: EmojiInfo) -> Seq<char> {
    ":"@ + emoji.code@ + ":"@
}

/// `content` after the custom emojis from position `at` on were replaced by
/// their references, one after the other.
pub open spec fn emojis_from(content: Seq<char>, emojis: Seq<EmojiInfo>, at: int) -> Seq<char>
    decreases emojis.len() - at,
{
    if at < 0 || at >= emojis.len() {
        content
    } else if is_custom(emojis[at]) {
        emojis_from(
            replace_all(content, emoji_pattern(emojis[at]), emoji_markup(emojis[at])),
            emojis,
            at + 1,
        )
    } else {
        emojis_from(content, emojis, at + 1)
    }
}

/// Builds the reference to a custom emoji.
fn push_markup(out: &mut Vec<char>, emoji: &EmojiInfo, id: &String)
    requires
        emoji.id == Some(*id),
    ensures
        final(out)@ == old(out)@ + emoji_markup(*emoji),
{
    let ghost before = out@;
    let mut m: Vec<char> = Vec::new();
    if emoji.is_animated {
        push_str(&mut m, "<a:");
        assert(m@ == "<a:"@);
    } else {
        push_str(&mut m, "<:");
        assert(m@ == "<:"@);
    }
    push_str(&mut m, emoji.name.as_str());
    push_str(&mut m, ":");
    push_str(&mut m, id.as_str());
    push_str(&mut m, ">");
    push_all(out, &m);
}

/// Shows an emoji.
pub fn format_emoji(emoji: &EmojiInfo) -> (r: String)
    ensures
        r@ == emoji_text(*emoji),
{
    match &emoji.id {
        Some(id) => {
            if id.as_str().unicode_len() > 0 {
                let mut out: Vec<char> = Vec::new();
                push_markup(&mut out, emoji, id);
                assert(Seq::<char>::empty() + emoji_markup(*emoji) == emoji_markup(*emoji));
                return string_of(&out);
            }
        },
        None => {},
    }
    emoji.name.clone()
}

/// Replaces the shortcodes of custom emojis in a text by their references.
/// An emoji without an id is a glyph and stays as it is.
pub fn replace_emojis(content: &str, inline_emojis: &[EmojiInfo]) -> (r: String)
    ensures
        r@ == emojis_from(content@, inline_emojis@, 0),
{
    let mut text = chars_of(content);
    let mut at: usize = 0;
    while at < inline_emojis.len()
        invariant
            at <= inline_emojis.len(),
            emojis_from(text@, inline_emojis@, at as int) == emojis_from(
                content@,
                inline_emojis@,
                0,
            ),
        decreases inline_emojis.len() - at,
    {
        let emoji = &inline_emojis[at];
        match &emoji.id {
            Some(id) => {
                if id.as_str().unicode_len() > 0 {
                    let mut pattern: Vec<char> = Vec::new();
                    push_str(&mut pattern, ":");
                    push_str(&mut pattern, emoji.code.as_str());
                    push_str(&mut pattern, ":");
                    assert(pattern@ == emoji_pattern(*emoji)) by {
                        assert(Seq::<char>::empty() + ":"@ == ":"@);
                    }
                    let mut markup: Vec<char> = Vec::new();
                    push_markup(&mut markup, emoji, id);
                    assert(Seq::<char>::empty() + emoji_markup(*emoji) == emoji_markup(*emoji));
                    text = replace(&text, &pattern, &markup);
                }
            },
            None => {},
        }
        at += 1;
    }
    string_of(&text)
}

/// The colour that `hex` writes: any leading `#` dropped, then a hexadecimal
/// number that fits 32 bits. `None` for anything else.
pub open spec fn color_of(hex: Seq<char>) -> Option<u32> {
    match parse_unsigned(without_leading(hex, '#'), 16, u32::MAX as nat) {
        Some(v) => Some(v as u32),
        None => None,
    }
}

/// Reads an accent colour.
pub fn parse_color(hex: &str) -> (r: Option<u32>)
    ensures
        r == color_of(hex@),
{
    let digits = strip_leading(&chars_of(hex), '#');
    match parse_number(&digits, 16, u32::MAX as u64) {
        Some(v) => Some(v as u32),
        None => None,
    }
}

/// `text` as a footer part if it is `shown` and not empty.
pub open spec fn part_if(shown: bool, text: Seq<char>) -> Seq<Seq<char>> {
    if shown && text.len() > 0 {
        seq![text]
    } else {
        Seq::empty()
    }
}

/// The parts of a footer: guild, category and channel, each unless hidden,
/// absent or empty.
pub open spec fn footer_parts(export: Export, no_guild: bool, no_category: bool, no_channel: bool)
    -> Seq<Seq<char>> {
    part_if(!no_guild, export.guild.name@) + part_if(
        !no_category && export.channel.category is Some,
        export.channel.category->0@,
    ) + part_if(!no_channel, export.channel.name@)
}

/// The footer: its parts with ` | ` between them.
pub open spec fn footer_text(export: Export, no_guild: bool, no_category: bool, no_channel: bool)
    -> Seq<char> {
    join(footer_parts(export, no_guild, no_category, no_channel), " | "@)
}

/// Writes the footer of a message.
pub fn generate_footer(export: &Export, no_guild: bool, no_category: bool, no_channel: bool) -> (r:
    String)
    ensures
        r@ == footer_text(*export, no_guild, no_category, no_channel),
{
    let mut parts: Vec<String> = Vec::new();
    assert(texts(parts@) == Seq::<Seq<char>>::empty());
    if !no_guild && export.guild.name.as_str().unicode_len() > 0 {
        parts.push(export.guild.name.clone());
    }
    assert(texts(parts@) == part_if(!no_guild, export.guild.name@));
    let ghost first = texts(parts@);
    if !no_category {
        match &export.channel.category {
            Some(category) => {
                if category.as_str().unicode_len() > 0 {
                    parts.push(category.clone());
                }
            },
            None => {},
        }
    }
    assert(texts(parts@) == first + part_if(
        !no_category && export.channel.category is Some,
        export.channel.category->0@,
    ));
    let ghost second = texts(parts@);
    if !no_channel && export.channel.name.as_str().unicode_len() > 0 {
        parts.push(export.channel.name.clone());
    }
    assert(texts(parts@) == second + part_if(!no_channel, export.channel.name@));
    join_strings(&parts, " | ")
}

/// The address of a user's profile page.
pub open spec fn profile_url(user_id: u64) -> Seq<char> {
    "https://discord.com/users/"@ + decimal(user_id as nat)
}

/// Writes the address of a user's profile page.
pub fn user_profile_url(user_id: u64) -> (r: String)
    ensures
        r@ == profile_url(user_id),
{
    let mut out: Vec<char> = Vec::new();
    push_str(&mut out, "https://discord.com/users/");
    push_decimal(&mut out, user_id);
    assert(Seq::<char>::empty() + "https://discord.com/users/"@ == "https://discord.com/users/"@);
    string_of(&out)
}

/// Making mentions clickable leaves an empty text empty and any other text
/// not empty.
pub proof fn lemma_mentions_keep_emptiness(
    content: Seq<char>,
    mentions: Seq<Mention>,
    at: int,
)
    requires
        0 <= at,
    ensures
        (mentions_from(content, mentions, at).len() == 0) == (content.len() == 0),
    decreases mentions.len() - at,
{
    if at < mentions.len() {
        reveal_strlit("@");
        reveal_strlit("<@");
        let pattern = mention_pattern(mentions[at]);
        let token = mention_token(mentions[at]);
        lemma_replace_keeps_emptiness(content, pattern, token);
        lemma_mentions_keep_emptiness(replace_all(content, pattern, token), mentions, at + 1);
    }
}

} // verus!
