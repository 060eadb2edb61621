//! Reactions: the count shown, the native reaction or decorative button
//! that stands for one, and the listing of who reacted.

use crate::content::{emoji_text, format_emoji};
use crate::model::{views, EmojiInfo, JsonNumber, JsonValue, ReactionInfo};
use crate::text::{
    chars_of, decimal, join, join_strings, parse_number, parse_unsigned, push_decimal, push_str,
    string_of, text_is, texts,
};
use vstd::prelude::*;

verus! {

/// The count that a reaction shows: the recorded one where it is a whole
/// number from 0 to 2^64 - 1, and 1 for any other value.
pub open spec fn count_of(count: JsonValue) -> u64 {
    match count {
        JsonValue::Number(JsonNumber::Unsigned(n)) => n,
        _ => 1,
    }
}

/// The count that a reaction shows.
pub fn get_reaction_count(reaction: &ReactionInfo) -> (count: u64)
    ensures
        count == count_of(reaction.count),
{
    match &reaction.count {
        JsonValue::Number(JsonNumber::Unsigned(n)) => *n,
        _ => 1,
    }
}

/// The value of the first member named `key`, from position `at` on.
pub open spec fn member_from(members: Seq<(String, JsonValue)>, key: Seq<char>, at: int)
    -> Option<JsonValue>
    decreases members.len() - at,
{
    if at < 0 || at >= members.len() {
        None
    } else if members[at].0@ == key {
        Some(members[at].1)
    } else {
        member_from(members, key, at + 1)
    }
}

/// The id that a user record carries: the member `id` of an object, where
/// that is a string.
pub open spec fn user_id(user: JsonValue) -> Option<Seq<char>> {
    match user {
        JsonValue::Object(members) => match member_from(members@, "id"@, 0) {
            Some(JsonValue::Text(id)) => Some(id@),
            _ => None,
        },
        _ => None,
    }
}

/// Reads the id of a user record.
fn read_user_id(user: &JsonValue) -> (r: Option<&String>)
    ensures
        match r {
            Some(id) => user_id(*user) == Some(id@),
            None => user_id(*user) is None,
        },
{
    match user {
        JsonValue::Object(members) => {
            let mut at: usize = 0;
            while at < members.len()
                invariant
                    at <= members.len(),
                    *user == JsonValue::Object(*members),
                    member_from(members@, "id"@, at as int) == member_from(members@, "id"@, 0),
                decreases members.len() - at,
            {
                if text_is(&chars_of(members[at].0.as_str()), "id") {
                    return match &members[at].1 {
                        JsonValue::Text(id) => Some(id),
                        _ => None,
                    };
                }
                at += 1;
            }
            None
        },
        _ => None,
    }
}

/// The clickable mention of the user `id`.
pub open spec fn user_mention(id: Seq<char>) -> Seq<char> {
    "<@"@ + id + ">"@
}

/// The mentions of those among `users` that carry an id, in order.
pub open spec fn user_mentions(users: Seq<JsonValue>) -> Seq<Seq<char>>
    decreases users.len(),
{
    if users.len() == 0 {
        Seq::empty()
    } else {
        let before = user_mentions(users.drop_last());
        match user_id(users.last()) {
            Some(id) => before.push(user_mention(id)),
            None => before,
        }
    }
}

/// The line of the listing for one reaction: the emoji, ` : `, and the
/// mentions with `, ` between them. A reaction without a user that carries
/// an id has no line.
pub open spec fn reaction_line(reaction: ReactionInfo) -> Option<Seq<char>> {
    let mentions = user_mentions(reaction.users@);
    if mentions.len() == 0 {
        None
    } else {
        Some(emoji_text(reaction.emoji) + " : "@ + join(mentions, ", "@))
    }
}

/// The lines of the listing, in the order of the reactions.
pub open spec fn reaction_lines(reactions: Seq<ReactionInfo>) -> Seq<Seq<char>>
    decreases reactions.len(),
{
    if reactions.len() == 0 {
        Seq::empty()
    } else {
        let before = reaction_lines(reactions.drop_last());
        match reaction_line(reactions.last()) {
            Some(line) => before.push(line),
            None => before,
        }
    }
}

/// The listing of who reacted: one line for each reaction that has one.
pub open spec fn users_listing(reactions: Seq<ReactionInfo>) -> Seq<char> {
    join(reaction_lines(reactions), "\n"@)
}

/// Collects the mentions of the users of one reaction.
fn collect_mentions(users: &Vec<JsonValue>) -> (mentions: Vec<String>)
    ensures
        texts(mentions@) == user_mentions(users@),
{
    let mut mentions: Vec<String> = Vec::new();
    let mut i: usize = 0;
    assert(users@.take(0) == Seq::<JsonValue>::empty());
    assert(texts(mentions@) == Seq::<Seq<char>>::empty());
    while i < users.len()
        invariant
            i <= users.len(),
            texts(mentions@) == user_mentions(users@.take(i as int)),
        decreases users.len() - i,
    {
        assert(users@.take(i + 1).drop_last() == users@.take(i as int));
        assert(users@.take(i + 1).last() == users@[i as int]);
        match read_user_id(&users[i]) {
            Some(id) => {
                let ghost before = texts(mentions@);
                let mut m: Vec<char> = Vec::new();
                push_str(&mut m, "<@");
                push_str(&mut m, id.as_str());
                push_str(&mut m, ">");
                assert(m@ == user_mention(id@)) by {
                    assert(Seq::<char>::empty() + "<@"@ == "<@"@);
                }
                mentions.push(string_of(&m));
                assert(texts(mentions@) == before.push(user_mention(id@)));
            },
            None => {},
        }
        i += 1;
    }
    assert(users@.take(users.len() as int) == users@);
    mentions
}

/// Writes the listing of who reacted.
pub fn format_reaction_users(reactions: &[ReactionInfo]) -> (r: String)
    ensures
        r@ == users_listing(reactions@),
{
    let mut lines: Vec<String> = Vec::new();
    let mut i: usize = 0;
    assert(reactions@.take(0) == Seq::<ReactionInfo>::empty());
    assert(texts(lines@) == Seq::<Seq<char>>::empty());
    while i < reactions.len()
        invariant
            i <= reactions.len(),
            texts(lines@) == reaction_lines(reactions@.take(i as int)),
        decreases reactions.len() - i,
    {
        assert(reactions@.take(i + 1).drop_last() == reactions@.take(i as int));
        assert(reactions@.take(i + 1).last() == reactions@[i as int]);
        let mentions = collect_mentions(&reactions[i].users);
        assert(texts(mentions@).len() == mentions.len());
        if mentions.len() > 0 {
            let ghost before = texts(lines@);
            let mut line: Vec<char> = Vec::new();
            push_str(&mut line, format_emoji(&reactions[i].emoji).as_str());
            push_str(&mut line, " : ");
            push_str(&mut line, join_strings(&mentions, ", ").as_str());
            assert(Some(line@) == reaction_line(reactions@[i as int])) by {
                assert(Seq::<char>::empty() + emoji_text(reactions@[i as int].emoji) == emoji_text(
                    reactions@[i as int].emoji,
                ));
            }
            lines.push(string_of(&line));
            assert(texts(lines@) == before.push(line@));
        }
        i += 1;
    }
    assert(reactions@.take(reactions.len() as int) == reactions@);
    join_strings(&lines, "\n")
}

/// A reaction as the platform takes it.
#[derive(Debug, PartialEq, Eq)]
pub enum NativeReaction {
    /// A custom emoji.
    Custom { animated: bool, id: u64, name: String },
    /// A glyph.
    Unicode(String),
}

/// A native reaction with its strings as text.
pub enum NativeReactionView {
    Custom { animated: bool, id: u64, name: Seq<char> },
    Unicode(Seq<char>),
}

impl View for NativeReaction {
    type V = NativeReactionView;

    open spec fn view(&self) -> NativeReactionView {
        match *self {
            NativeReaction::Custom { animated, id, name } => NativeReactionView::Custom {
                animated,
                id,
                name: name@,
            },
            NativeReaction::Unicode(glyph) => NativeReactionView::Unicode(glyph@),
        }
    }
}

/// The native reaction for an emoji: a custom one where the id is a number
/// below 2^64, named as the emoji is shown; else the emoji as shown, taken
/// for a glyph.
pub open spec fn native_reaction(emoji: EmojiInfo) -> NativeReactionView {
    match emoji.id {
        Some(id) => match parse_unsigned(id@, 10, u64::MAX as nat) {
            Some(n) => NativeReactionView::Custom {
                animated: emoji.is_animated,
                id: n as u64,
                name: emoji_text(emoji),
            },
            None => NativeReactionView::Unicode(emoji_text(emoji)),
        },
        None => NativeReactionView::Unicode(emoji_text(emoji)),
    }
}

/// Turns an emoji into a native reaction.
pub fn emoji_to_reaction_type(emoji: &EmojiInfo) -> (r: NativeReaction)
    ensures
        r@ == native_reaction(*emoji),
{
    match &emoji.id {
        Some(id) => match parse_number(&chars_of(id.as_str()), 10, u64::MAX) {
            Some(n) => NativeReaction::Custom {
                animated: emoji.is_animated,
                id: n,
                name: format_emoji(emoji),
            },
            None => NativeReaction::Unicode(format_emoji(emoji)),
        },
        None => NativeReaction::Unicode(format_emoji(emoji)),
    }
}

/// The native reactions of a message, one for each reaction, in order.
pub open spec fn native_reactions(reactions: Seq<ReactionInfo>) -> Seq<NativeReactionView> {
    Seq::new(reactions.len(), |i: int| native_reaction(reactions[i].emoji))
}

/// Turns the reactions of a message into native reactions.
pub fn create_reactions(reactions: &[ReactionInfo]) -> (r: Vec<NativeReaction>)
    ensures
        views(r@) == native_reactions(reactions@),
{
    let mut r: Vec<NativeReaction> = Vec::new();
    let mut i: usize = 0;
    while i < reactions.len()
        invariant
            i <= reactions.len(),
            views(r@) == native_reactions(reactions@).take(i as int),
        decreases reactions.len() - i,
    {
        let ghost before = views(r@);
        r.push(emoji_to_reaction_type(&reactions[i].emoji));
        assert(views(r@) == before.push(native_reaction(reactions@[i as int].emoji)));
        i += 1;
    }
    r
}

/// What stands before the count on a button: characters without width, so
/// that two buttons with the same count still differ from a bare number.
pub open spec fn label_padding() -> Seq<char> {
    "\u{2060}\u{200A}\u{2060}\u{200A}\u{2060}\u{200A}\u{2060}\u{200A}\u{2060}\u{200A}\u{2060}"@
}

/// A button that shows a reaction and does nothing.
#[derive(Debug, PartialEq, Eq)]
pub struct Button {
    /// The id the platform knows the button by.
    pub custom_id: String,
    pub emoji: NativeReaction,
    pub label: String,
    /// Whether the button is greyed out.
    pub disabled: bool,
}

/// A button with its strings as text.
pub struct ButtonView {
    pub custom_id: Seq<char>,
    pub emoji: NativeReactionView,
    pub label: Seq<char>,
    pub disabled: bool,
}

impl View for Button {
    type V = ButtonView;

    open spec fn view(&self) -> ButtonView {
        ButtonView {
            custom_id: self.custom_id@,
            emoji: self.emoji@,
            label: self.label@,
            disabled: self.disabled,
        }
    }
}

/// The button for one reaction: labelled with the padding and the count.
pub open spec fn button_of(reaction: ReactionInfo, disabled: bool) -> ButtonView {
    ButtonView {
        custom_id: "dummy_reaction_"@ + reaction.emoji.code@,
        emoji: native_reaction(reaction.emoji),
        label: label_padding() + decimal(count_of(reaction.count) as nat),
        disabled,
    }
}

/// The buttons of a message, one for each reaction, in order.
pub open spec fn buttons_of(reactions: Seq<ReactionInfo>, disabled: bool) -> Seq<ButtonView> {
    Seq::new(reactions.len(), |i: int| button_of(reactions[i], disabled))
}

/// Makes the buttons that show the reactions of a message.
pub fn create_buttons(reactions: &[ReactionInfo], disable_button: bool) -> (r: Vec<Button>)
    ensures
        views(r@) == buttons_of(reactions@, disable_button),
{
    let mut r: Vec<Button> = Vec::new();
    let mut i: usize = 0;
    while i < reactions.len()
        invariant
            i <= reactions.len(),
            views(r@) == buttons_of(reactions@, disable_button).take(i as int),
        decreases reactions.len() - i,
    {
        let ghost before = views(r@);
        let reaction = &reactions[i];
        let mut custom_id: Vec<char> = Vec::new();
        push_str(&mut custom_id, "dummy_reaction_");
        push_str(&mut custom_id, reaction.emoji.code.as_str());
        let mut label: Vec<char> = Vec::new();
        push_str(
            &mut label,
            "\u{2060}\u{200A}\u{2060}\u{200A}\u{2060}\u{200A}\u{2060}\u{200A}\u{2060}\u{200A}\u{2060}",
        );
        push_decimal(&mut label, get_reaction_count(reaction));
        assert(Seq::<char>::empty() + "dummy_reaction_"@ == "dummy_reaction_"@);
        assert(Seq::<char>::empty() + label_padding() == label_padding());
        let button = Button {
            custom_id: string_of(&custom_id),
            emoji: emoji_to_reaction_type(&reaction.emoji),
            label: string_of(&label),
            disabled: disable_button,
        };
        assert(button@ == button_of(*reaction, disable_button));
        r.push(button);
        assert(views(r@) == before.push(button_of(*reaction, disable_button)));
        i += 1;
    }
    r
}

/// A count that is no whole number from 0 to 2^64 - 1, be it a string, an
/// object, a negative number or nothing at all, is shown as 1.
pub proof fn law_count_defaults_to_one(reaction: ReactionInfo, disabled: bool)
    requires
        !(reaction.count matches JsonValue::Number(JsonNumber::Unsigned(_))),
    ensures
        count_of(reaction.count) == 1,
        button_of(reaction, disabled).label == label_padding() + "1"@,
{
    reveal_strlit("1");
    assert(decimal(1) == "1"@);
}

} // verus!
