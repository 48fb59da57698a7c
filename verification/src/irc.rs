//! Chat lines of the Twitch IRC server.
//!
//! A chat line reads `@tags :user!user@user.tmi.twitch.tv PRIVMSG #channel :message`,
//! where the tags and the space after them may be missing.

use crate::text::{
    char_pos, chars_of, contains_word, find_char, find_word, has_word, is_word, joined,
    law_split_undoes_join, lemma_char_pos, lemma_char_pos_is, lemma_joined_free,
    lemma_word_pos, lemma_word_pos_is, pieces, replace, replaced, string_of, trim,
    trim_start_char, trimmed, without_leading, word_at, word_pos,
};
use vstd::prelude::*;
use vstd::slice::slice_subrange;

verus! {

/// A chat message read from a line of the server.
#[derive(Debug, Clone)]
pub struct ChatMessage {
    /// Username of the message sender.
    pub username: String,
    /// The message content.
    pub content: String,
    /// Display name, where the sender has one.
    pub display_name: Option<String>,
    /// User color in hex format (e.g., "#FF0000").
    pub color: Option<String>,
    /// Whether the user is a moderator.
    pub is_mod: bool,
    /// Whether the user is the broadcaster (channel owner).
    pub is_broadcaster: bool,
    /// Whether the user is a VIP.
    pub is_vip: bool,
    /// The message that this one replies to.
    pub reply_to: Option<ReplyInfo>,
}

/// The parent message of a reply.
#[derive(Debug, Clone)]
pub struct ReplyInfo {
    /// Display name of the user being replied to.
    pub parent_display_name: String,
    /// The message body being replied to.
    pub parent_msg_body: String,
}

/// What a [`ReplyInfo`] holds.
pub struct ReplyModel {
    pub parent_display_name: Seq<char>,
    pub parent_msg_body: Seq<char>,
}

/// What a [`ChatMessage`] holds.
pub struct ChatModel {
    pub username: Seq<char>,
    pub content: Seq<char>,
    pub display_name: Option<Seq<char>>,
    pub color: Option<Seq<char>>,
    pub is_mod: bool,
    pub is_broadcaster: bool,
    pub is_vip: bool,
    pub reply_to: Option<ReplyModel>,
}

impl DeepView for ReplyInfo {
    type V = ReplyModel;

    open spec fn deep_view(&self) -> ReplyModel {
        ReplyModel {
            parent_display_name: self.parent_display_name@,
            parent_msg_body: self.parent_msg_body@,
        }
    }
}

impl DeepView for ChatMessage {
    type V = ChatModel;

    open spec fn deep_view(&self) -> ChatModel {
        ChatModel {
            username: self.username@,
            content: self.content@,
            display_name: self.display_name.deep_view(),
            color: self.color.deep_view(),
            is_mod: self.is_mod,
            is_broadcaster: self.is_broadcaster,
            is_vip: self.is_vip,
            reply_to: self.reply_to.deep_view(),
        }
    }
}

/// What the tags of a chat line say.
struct Tags {
    display_name: Option<String>,
    color: Option<String>,
    is_mod: bool,
    is_broadcaster: bool,
    is_vip: bool,
    reply_name: Option<String>,
    reply_body: Option<String>,
}

/// What the tags of a chat line say, in the order in which they are read.
pub struct TagModel {
    pub display_name: Option<Seq<char>>,
    pub color: Option<Seq<char>>,
    pub is_mod: bool,
    pub is_broadcaster: bool,
    pub is_vip: bool,
    pub reply_name: Option<Seq<char>>,
    pub reply_body: Option<Seq<char>>,
}

impl Tags {
    spec fn model(self) -> TagModel {
        TagModel {
            display_name: self.display_name.deep_view(),
            color: self.color.deep_view(),
            is_mod: self.is_mod,
            is_broadcaster: self.is_broadcaster,
            is_vip: self.is_vip,
            reply_name: self.reply_name.deep_view(),
            reply_body: self.reply_body.deep_view(),
        }
    }
}

/// A reply body with its escapes undone: `\s` is a space, `\n` and `\r` are the
/// line ends, `\:` is a colon and `\\` a backslash, one kind after the other.
pub open spec fn unescaped(s: Seq<char>) -> Seq<char> {
    let spaces = replaced(s, "\\s"@, " "@);
    let feeds = replaced(spaces, "\\n"@, "\n"@);
    let breaks = replaced(feeds, "\\r"@, "\r"@);
    let colons = replaced(breaks, "\\:"@, ":"@);
    replaced(colons, "\\\\"@, "\\"@)
}

/// No tag read yet.
pub open spec fn no_tags() -> TagModel {
    TagModel {
        display_name: None,
        color: None,
        is_mod: false,
        is_broadcaster: false,
        is_vip: false,
        reply_name: None,
        reply_body: None,
    }
}

/// The effect of the tag `key=value`.
pub open spec fn tag_read(t: TagModel, key: Seq<char>, value: Seq<char>) -> TagModel {
    if key == "display-name"@ {
        if value.len() == 0 {
            t
        } else {
            TagModel { display_name: Some(value), ..t }
        }
    } else if key == "color"@ {
        if value.len() == 0 {
            t
        } else {
            TagModel { color: Some(value), ..t }
        }
    } else if key == "mod"@ {
        TagModel { is_mod: value == "1"@, ..t }
    } else if key == "badges"@ {
        TagModel {
            is_broadcaster: t.is_broadcaster || has_word(value, "broadcaster"@),
            is_vip: t.is_vip || has_word(value, "vip"@),
            is_mod: t.is_mod || has_word(value, "moderator"@),
            ..t
        }
    } else if key == "reply-parent-display-name"@ {
        if value.len() == 0 {
            t
        } else {
            TagModel { reply_name: Some(value), ..t }
        }
    } else if key == "reply-parent-msg-body"@ {
        if value.len() == 0 {
            t
        } else {
            TagModel { reply_body: Some(unescaped(value)), ..t }
        }
    } else {
        t
    }
}

/// The effect of one tag. A tag without `=` has none.
pub open spec fn tag_applied(t: TagModel, tag: Seq<char>) -> TagModel {
    match char_pos(tag, '=') {
        Some(i) => tag_read(t, tag.take(i), tag.skip(i + 1)),
        None => t,
    }
}

/// The effect of several tags, the first one first.
pub open spec fn tags_applied(t: TagModel, tags: Seq<Seq<char>>) -> TagModel
    decreases tags.len(),
{
    if tags.len() == 0 {
        t
    } else {
        tags_applied(tag_applied(t, tags[0]), tags.skip(1))
    }
}

/// The tags of a line: what stands before the first space, where the line
/// starts with `@` and has a space.
pub open spec fn tags_part(line: Seq<char>) -> Seq<char> {
    if line.len() > 0 && line[0] == '@' {
        match char_pos(line, ' ') {
            Some(i) => line.take(i),
            None => Seq::empty(),
        }
    } else {
        Seq::empty()
    }
}

/// The line after its tags.
pub open spec fn body_part(line: Seq<char>) -> Seq<char> {
    if line.len() > 0 && line[0] == '@' {
        match char_pos(line, ' ') {
            Some(i) => line.skip(i + 1),
            None => line,
        }
    } else {
        line
    }
}

/// What stands before the first `!`, without leading colons.
pub open spec fn sender_of(body: Seq<char>) -> Seq<char> {
    let prefix = match char_pos(body, '!') {
        Some(i) => body.take(i),
        None => body,
    };
    without_leading(prefix, ':')
}

/// What follows the first colon after the first `PRIVMSG`, without white space
/// at its ends.
pub open spec fn content_of(body: Seq<char>) -> Option<Seq<char>> {
    match word_pos(body, "PRIVMSG"@) {
        Some(i) => {
            let after = body.skip(i + 7);
            match char_pos(after, ':') {
                Some(j) => Some(trimmed(after.skip(j + 1))),
                None => None,
            }
        },
        None => None,
    }
}

/// The tags of a line, read.
pub open spec fn line_tags(line: Seq<char>) -> TagModel {
    tags_applied(no_tags(), pieces(without_leading(tags_part(line), '@'), ';'))
}

/// The chat message of a line; none where the line is no chat line.
pub open spec fn chat_of(line: Seq<char>) -> Option<ChatModel> {
    match content_of(body_part(line)) {
        Some(content) => {
            let t = line_tags(line);
            Some(
                ChatModel {
                    username: sender_of(body_part(line)),
                    content,
                    display_name: t.display_name,
                    color: t.color,
                    is_mod: t.is_mod,
                    is_broadcaster: t.is_broadcaster,
                    is_vip: t.is_vip,
                    reply_to: match (t.reply_name, t.reply_body) {
                        (Some(name), Some(body)) => Some(
                            ReplyModel { parent_display_name: name, parent_msg_body: body },
                        ),
                        _ => None,
                    },
                },
            )
        },
        None => None,
    }
}

/// A reply body with its escapes undone.
fn unescape(s: &[char]) -> (r: Vec<char>)
    ensures
        r@ == unescaped(s@),
{
    proof {
        reveal_strlit("\\s");
        reveal_strlit("\\n");
        reveal_strlit("\\r");
        reveal_strlit("\\:");
        reveal_strlit("\\\\");
    }
    let spaces = replace(s, chars_of("\\s").as_slice(), chars_of(" ").as_slice());
    let feeds = replace(spaces.as_slice(), chars_of("\\n").as_slice(), chars_of("\n").as_slice());
    let breaks = replace(feeds.as_slice(), chars_of("\\r").as_slice(), chars_of("\r").as_slice());
    let colons = replace(breaks.as_slice(), chars_of("\\:").as_slice(), chars_of(":").as_slice());
    replace(colons.as_slice(), chars_of("\\\\").as_slice(), chars_of("\\").as_slice())
}

/// The effect of the tag `key=value`.
fn read_tag(tags: Tags, key: &[char], value: &[char]) -> (r: Tags)
    ensures
        r.model() == tag_read(tags.model(), key@, value@),
{
    let mut t = tags;
    if is_word(key, "display-name") {
        if value.len() > 0 {
            t.display_name = Some(string_of(value));
        }
    } else if is_word(key, "color") {
        if value.len() > 0 {
            t.color = Some(string_of(value));
        }
    } else if is_word(key, "mod") {
        t.is_mod = is_word(value, "1");
    } else if is_word(key, "badges") {
        if contains_word(value, "broadcaster") {
            t.is_broadcaster = true;
        }
        if contains_word(value, "vip") {
            t.is_vip = true;
        }
        if contains_word(value, "moderator") {
            t.is_mod = true;
        }
    } else if is_word(key, "reply-parent-display-name") {
        if value.len() > 0 {
            t.reply_name = Some(string_of(value));
        }
    } else if is_word(key, "reply-parent-msg-body") {
        if value.len() > 0 {
            t.reply_body = Some(string_of(unescape(value).as_slice()));
        }
    }
    t
}

/// The effect of one tag.
fn apply_tag(tags: Tags, tag: &[char]) -> (r: Tags)
    ensures
        r.model() == tag_applied(tags.model(), tag@),
{
    match find_char(tag, '=') {
        Some(i) => {
            let key = slice_subrange(tag, 0, i);
            let value = slice_subrange(tag, i + 1, tag.len());
            read_tag(tags, key, value)
        },
        None => tags,
    }
}

/// The effect of all tags between the semicolons of `s`.
fn apply_tags(s: &[char]) -> (r: Tags)
    ensures
        r.model() == tags_applied(no_tags(), pieces(s@, ';')),
{
    let mut t = Tags {
        display_name: None,
        color: None,
        is_mod: false,
        is_broadcaster: false,
        is_vip: false,
        reply_name: None,
        reply_body: None,
    };
    let mut rest = s;
    assert(t.model() == no_tags());
    loop
        invariant
            tags_applied(t.model(), pieces(rest@, ';')) == tags_applied(
                no_tags(),
                pieces(s@, ';'),
            ),
        decreases rest@.len(),
    {
        let ghost parts = pieces(rest@, ';');
        match find_char(rest, ';') {
            Some(i) => {
                let tag = slice_subrange(rest, 0, i);
                let tail = slice_subrange(rest, i + 1, rest.len());
                assert(parts[0] == tag@);
                assert(parts.skip(1) =~= pieces(tail@, ';'));
                t = apply_tag(t, tag);
                rest = tail;
            },
            None => {
                assert(parts.skip(1) =~= Seq::<Seq<char>>::empty());
                assert(parts[0] == rest@);
                let r = apply_tag(t, rest);
                proof {
                    assert(tags_applied(r.model(), parts.skip(1)) == r.model());
                }
                return r;
            },
        }
    }
}

/// Reads a chat line. Lines that carry no chat message give `None`.
pub fn parse_privmsg(line: &str) -> (r: Option<ChatMessage>)
    ensures
        r.deep_view() == chat_of(line@),
{
    let chars = chars_of(line);
    let whole = chars.as_slice();
    let mut tags_str = slice_subrange(whole, 0, 0);
    let mut rest = whole;
    assert(tags_str@ =~= Seq::<char>::empty());
    if whole.len() > 0 && whole[0] == '@' {
        if let Some(i) = find_char(whole, ' ') {
            tags_str = slice_subrange(whole, 0, i);
            rest = slice_subrange(whole, i + 1, whole.len());
        }
    }
    assert(tags_str@ == tags_part(line@));
    assert(rest@ == body_part(line@));
    let prefix = match find_char(rest, '!') {
        Some(i) => slice_subrange(rest, 0, i),
        None => rest,
    };
    let username = trim_start_char(prefix, ':');
    let keyword = chars_of("PRIVMSG");
    proof {
        reveal_strlit("PRIVMSG");
    }
    match find_word(rest, keyword.as_slice()) {
        Some(start) => {
            let after = slice_subrange(rest, start + 7, rest.len());
            match find_char(after, ':') {
                Some(colon) => {
                    let content = trim(slice_subrange(after, colon + 1, after.len()));
                    let t = apply_tags(trim_start_char(tags_str, '@'));
                    let reply_to = match (t.reply_name, t.reply_body) {
                        (Some(name), Some(body)) => Some(
                            ReplyInfo { parent_display_name: name, parent_msg_body: body },
                        ),
                        _ => None,
                    };
                    Some(
                        ChatMessage {
                            username: string_of(username),
                            content: string_of(content),
                            display_name: t.display_name,
                            color: t.color,
                            is_mod: t.is_mod,
                            is_broadcaster: t.is_broadcaster,
                            is_vip: t.is_vip,
                            reply_to,
                        },
                    )
                },
                None => None,
            }
        },
        None => None,
    }
}

/// A character of a Twitch login name: a lower-case ASCII letter, a digit or
/// an underscore.
pub open spec fn login_char(c: char) -> bool {
    ('a' <= c && c <= 'z') || ('0' <= c && c <= '9') || c == '_'
}

/// A Twitch login name.
pub open spec fn login_name(s: Seq<char>) -> bool {
    forall|i: int| 0 <= i < s.len() ==> login_char(#[trigger] s[i])
}

/// The part of a chat line before its keyword.
pub open spec fn chat_source(user: Seq<char>) -> Seq<char> {
    ":"@ + user + "!"@ + user + "@"@ + user + ".tmi.twitch.tv "@
}

/// A chat line without tags, as the server sends it.
pub open spec fn chat_line(user: Seq<char>, channel: Seq<char>, message: Seq<char>) -> Seq<char> {
    chat_source(user) + "PRIVMSG"@ + (" #"@ + channel + " :"@ + message)
}

/// A chat line with tags, as the server sends it.
pub open spec fn tagged_line(tags: Seq<char>, line: Seq<char>) -> Seq<char> {
    "@"@ + tags + " "@ + line
}

proof fn lemma_source(user: Seq<char>)
    requires
        login_name(user),
    ensures
        forall|j: int|
            0 <= j < chat_source(user).len() ==> #[trigger] chat_source(user)[j] != 'P',
        chat_source(user).len() > user.len() + 1,
        chat_source(user)[0] == ':',
        chat_source(user)[user.len() as int + 1] == '!',
        forall|j: int| 0 <= j < user.len() ==> #[trigger] chat_source(user)[j + 1] == user[j],
{
    reveal_strlit(":");
    reveal_strlit("!");
    reveal_strlit("@");
    reveal_strlit(".tmi.twitch.tv ");
    let host = ".tmi.twitch.tv "@;
    let n = user.len() as int;
    let s = chat_source(user);
    assert(s.len() == 3 * n + 3 + host.len());
    assert forall|j: int| 0 <= j < host.len() implies host[j] != 'P' by {}
    assert forall|j: int| 0 <= j < s.len() implies #[trigger] s[j] != 'P' by {
        if j == 0 || j == n + 1 || j == 2 * n + 2 {
        } else if j <= n {
            assert(s[j] == user[j - 1]);
            assert(login_char(user[j - 1]));
        } else if j < 2 * n + 2 {
            assert(s[j] == user[j - n - 2]);
            assert(login_char(user[j - n - 2]));
        } else if j < 3 * n + 3 {
            assert(s[j] == user[j - 2 * n - 3]);
            assert(login_char(user[j - 2 * n - 3]));
        } else {
            assert(s[j] == host[j - 3 * n - 3]);
        }
    }
}

/// A chat line that the server composes without tags gives back its sender
/// and, without white space at the ends, its message.
pub proof fn law_chat_line_read_back(user: Seq<char>, channel: Seq<char>, message: Seq<char>)
    requires
        login_name(user),
        login_name(channel),
    ensures
        chat_of(chat_line(user, channel, message)) == Some(
            ChatModel {
                username: user,
                content: trimmed(message),
                display_name: None,
                color: None,
                is_mod: false,
                is_broadcaster: false,
                is_vip: false,
                reply_to: None,
            },
        ),
{
    let line = chat_line(user, channel, message);
    lemma_body_read_back(user, channel, message);
    lemma_source(user);
    assert(line[0] == chat_source(user)[0]);
    assert(body_part(line) == line);
    assert(tags_part(line) == Seq::<char>::empty());
    let tags = without_leading(Seq::<char>::empty(), '@');
    assert(tags == Seq::<char>::empty());
    assert(pieces(tags, ';') =~= seq![Seq::<char>::empty()]);
    reveal_with_fuel(tags_applied, 2);
    assert(pieces(tags, ';').skip(1) =~= Seq::<Seq<char>>::empty());
    assert(tag_applied(no_tags(), Seq::<char>::empty()) == no_tags());
}

proof fn lemma_body_read_back(user: Seq<char>, channel: Seq<char>, message: Seq<char>)
    requires
        login_name(user),
        login_name(channel),
    ensures
        sender_of(chat_line(user, channel, message)) == user,
        content_of(chat_line(user, channel, message)) == Some(trimmed(message)),
{
    lemma_sender_read_back(user, channel, message);
    lemma_keyword_place(user, channel, message);
    lemma_message_read_back(channel, message);
}

proof fn lemma_sender_read_back(user: Seq<char>, channel: Seq<char>, message: Seq<char>)
    requires
        login_name(user),
    ensures
        sender_of(chat_line(user, channel, message)) == user,
{
    let source = chat_source(user);
    let line = chat_line(user, channel, message);
    let n = user.len() as int;
    lemma_source(user);
    assert forall|j: int| 0 <= j < source.len() implies line[j] == source[j] by {}
    assert forall|j: int| 0 <= j < n + 1 implies line[j] != '!' by {
        if j > 0 {
            assert(source[(j - 1) + 1] == user[j - 1]);
            assert(login_char(user[j - 1]));
        }
    }
    lemma_char_pos_is(line, '!', n + 1);
    let prefix = line.take(n + 1);
    assert(prefix.skip(1) =~= user) by {
        assert forall|j: int| 0 <= j < n implies prefix.skip(1)[j] == user[j] by {
            assert(source[j + 1] == user[j]);
        }
    }
    assert(without_leading(user, ':') == user) by {
        if n > 0 {
            assert(login_char(user[0]));
        }
    }
    assert(without_leading(prefix, ':') == without_leading(prefix.skip(1), ':'));
}

/// What stands after the keyword of a chat line.
spec fn after_keyword(channel: Seq<char>, message: Seq<char>) -> Seq<char> {
    " #"@ + channel + " :"@ + message
}

proof fn lemma_keyword_place(user: Seq<char>, channel: Seq<char>, message: Seq<char>)
    requires
        login_name(user),
    ensures
        ({
            let line = chat_line(user, channel, message);
            &&& "PRIVMSG"@.len() == 7
            &&& word_pos(line, "PRIVMSG"@) == Some(chat_source(user).len() as int)
            &&& line.skip(chat_source(user).len() as int + 7) == after_keyword(channel, message)
        }),
{
    let source = chat_source(user);
    let line = chat_line(user, channel, message);
    let keyword = "PRIVMSG"@;
    let k = source.len() as int;
    reveal_strlit("PRIVMSG");
    lemma_source(user);
    assert forall|j: int| 0 <= j < k implies line[j] == source[j] by {}
    assert(line.subrange(k, k + 7) =~= keyword);
    assert(word_at(line, keyword, k));
    assert forall|j: int| 0 <= j < k implies !word_at(line, keyword, j) by {
        if word_at(line, keyword, j) {
            assert(line.subrange(j, j + 7)[0] == keyword[0]);
            assert(source[j] != 'P');
        }
    }
    lemma_word_pos_is(line, keyword, k);
    assert(line.skip(k + 7) =~= after_keyword(channel, message));
}

proof fn lemma_message_read_back(channel: Seq<char>, message: Seq<char>)
    requires
        login_name(channel),
    ensures
        char_pos(after_keyword(channel, message), ':') == Some(channel.len() as int + 3),
        after_keyword(channel, message).skip(channel.len() as int + 4) == message,
{
    reveal_strlit(" #");
    reveal_strlit(" :");
    let rest = after_keyword(channel, message);
    let c = channel.len() as int;
    assert forall|j: int| 0 <= j < c + 3 implies rest[j] != ':' by {
        if 2 <= j < c + 2 {
            assert(rest[j] == channel[j - 2]);
            assert(login_char(channel[j - 2]));
        }
    }
    assert(rest[c + 3] == ':');
    lemma_char_pos_is(rest, ':', c + 3);
    assert(rest.skip(c + 4) =~= message);
}

/// Tags before a line, free of spaces, change neither its sender nor its
/// message, and are read one by one from left to right.
pub proof fn law_tags_stand_apart(tags: Seq<char>, line: Seq<char>)
    requires
        !tags.contains(' '),
    ensures
        sender_of(body_part(tagged_line(tags, line))) == sender_of(line),
        content_of(body_part(tagged_line(tags, line))) == content_of(line),
        line_tags(tagged_line(tags, line)) == tags_applied(
            no_tags(),
            pieces(without_leading(tags, '@'), ';'),
        ),
        chat_of(tagged_line(tags, line)) is Some <==> content_of(line) is Some,
{
    reveal_strlit("@");
    reveal_strlit(" ");
    let whole = tagged_line(tags, line);
    let n = tags.len() as int;
    assert forall|j: int| 0 <= j < n + 1 implies whole[j] != ' ' by {
        if j > 0 {
            assert(whole[j] == tags[j - 1]);
        }
    }
    assert(whole[n + 1] == ' ');
    lemma_char_pos_is(whole, ' ', n + 1);
    assert(whole.skip(n + 2) =~= line);
    assert(whole.take(n + 1).skip(1) =~= tags);
    assert(without_leading(whole.take(n + 1), '@') == without_leading(tags, '@'));
}

/// A tag as the server sends it.
pub open spec fn tag_text(tag: (Seq<char>, Seq<char>)) -> Seq<char> {
    tag.0 + "="@ + tag.1
}

/// Tags as the server sends them, one after the other.
pub open spec fn tags_text(tags: Seq<(Seq<char>, Seq<char>)>) -> Seq<char> {
    joined(tags.map_values(|tag: (Seq<char>, Seq<char>)| tag_text(tag)), ';')
}

/// A tag that the server can send: key and value are free of the characters
/// that set them apart.
pub open spec fn sendable(tag: (Seq<char>, Seq<char>)) -> bool {
    &&& tag.0.len() > 0
    &&& tag.0[0] != '@'
    &&& !tag.0.contains('=')
    &&& !tag.0.contains(';')
    &&& !tag.0.contains(' ')
    &&& !tag.1.contains(';')
    &&& !tag.1.contains(' ')
}

/// The effect of several tags by key and value, the first one first.
pub open spec fn tags_read(t: TagModel, tags: Seq<(Seq<char>, Seq<char>)>) -> TagModel
    decreases tags.len(),
{
    if tags.len() == 0 {
        t
    } else {
        tags_read(tag_read(t, tags[0].0, tags[0].1), tags.skip(1))
    }
}

proof fn lemma_tag_applied(t: TagModel, tag: (Seq<char>, Seq<char>))
    requires
        sendable(tag),
    ensures
        tag_applied(t, tag_text(tag)) == tag_read(t, tag.0, tag.1),
        !tag_text(tag).contains(';'),
        !tag_text(tag).contains(' '),
        tag_text(tag).len() > 0,
        tag_text(tag)[0] != '@',
{
    reveal_strlit("=");
    let s = tag_text(tag);
    let n = tag.0.len() as int;
    assert(s[n] == '=');
    assert forall|j: int| 0 <= j < n implies s[j] == tag.0[j] && s[j] != '=' by {
        assert(tag.0[j] != '=');
    }
    lemma_char_pos_is(s, '=', n);
    assert(s.take(n) =~= tag.0);
    assert(s.skip(n + 1) =~= tag.1);
    assert forall|j: int| 0 <= j < s.len() implies s[j] != ';' && s[j] != ' ' by {
        if j < n {
            assert(s[j] == tag.0[j]);
        } else if j > n {
            assert(s[j] == tag.1[j - n - 1]);
        }
    }
}

proof fn lemma_tags_applied(t: TagModel, tags: Seq<(Seq<char>, Seq<char>)>)
    requires
        forall|i: int| 0 <= i < tags.len() ==> sendable(#[trigger] tags[i]),
    ensures
        tags_applied(t, tags.map_values(|tag: (Seq<char>, Seq<char>)| tag_text(tag))) == tags_read(
            t,
            tags,
        ),
    decreases tags.len(),
{
    let texts = tags.map_values(|tag: (Seq<char>, Seq<char>)| tag_text(tag));
    if tags.len() > 0 {
        lemma_tag_applied(t, tags[0]);
        assert forall|i: int| 0 <= i < tags.skip(1).len() implies sendable(
            #[trigger] tags.skip(1)[i],
        ) by {
            assert(tags.skip(1)[i] == tags[i + 1]);
        }
        lemma_tags_applied(tag_read(t, tags[0].0, tags[0].1), tags.skip(1));
        assert(texts.skip(1) =~= tags.skip(1).map_values(
            |tag: (Seq<char>, Seq<char>)| tag_text(tag),
        ));
    }
}

/// A chat line that the server composes with tags gives back its sender, its
/// message without white space at the ends, and what each of its tags says.
pub proof fn law_tagged_line_read_back(
    tags: Seq<(Seq<char>, Seq<char>)>,
    user: Seq<char>,
    channel: Seq<char>,
    message: Seq<char>,
)
    requires
        tags.len() > 0,
        forall|i: int| 0 <= i < tags.len() ==> sendable(#[trigger] tags[i]),
        login_name(user),
        login_name(channel),
    ensures
        ({
            let line = tagged_line(tags_text(tags), chat_line(user, channel, message));
            &&& line_tags(line) == tags_read(no_tags(), tags)
            &&& chat_of(line) matches Some(chat) && chat.username == user && chat.content
                == trimmed(message)
        }),
{
    let texts = tags.map_values(|tag: (Seq<char>, Seq<char>)| tag_text(tag));
    let all = tags_text(tags);
    assert forall|i: int| 0 <= i < texts.len() implies !(#[trigger] texts[i]).contains(';')
        && !texts[i].contains(' ') by {
        assert(sendable(tags[i]));
        lemma_tag_applied(no_tags(), tags[i]);
    }
    law_split_undoes_join(texts, ';');
    lemma_joined_free(texts, ';', ' ');
    lemma_tag_applied(no_tags(), tags[0]);
    assert(texts[0] == tag_text(tags[0]));
    assert(all[0] == texts[0][0]);
    assert(without_leading(all, '@') == all);
    lemma_tags_applied(no_tags(), tags);
    law_tags_stand_apart(all, chat_line(user, channel, message));
    lemma_body_read_back(user, channel, message);
}

/// A line without the keyword `PRIVMSG` is no chat line.
pub proof fn law_other_lines_are_no_chat(line: Seq<char>)
    requires
        !has_word(line, "PRIVMSG"@),
    ensures
        chat_of(line) is None,
{
    let body = body_part(line);
    let w = "PRIVMSG"@;
    lemma_word_pos(body, w);
    lemma_char_pos(line, ' ');
    if has_word(body, w) {
        let i = choose|i: int| word_at(body, w, i);
        let d = line.len() - body.len();
        assert(line.subrange(i + d, i + d + w.len()) =~= body.subrange(i, i + w.len()));
        assert(word_at(line, w, i + d));
    }
}

proof fn lemma_nothing_to_replace(s: Seq<char>, from: Seq<char>, to: Seq<char>)
    requires
        from.len() > 0,
        !s.contains(from[0]),
    ensures
        replaced(s, from, to) == s,
    decreases s.len(),
{
    if s.len() > 0 {
        assert(s[0] != from[0]);
        if word_at(s, from, 0) {
            assert(s.subrange(0, from.len() as int)[0] == s[0]);
        }
        assert forall|j: int| 0 <= j < s.skip(1).len() implies s.skip(1)[j] != from[0] by {
            assert(s[j + 1] != from[0]);
        }
        lemma_nothing_to_replace(s.skip(1), from, to);
        assert(seq![s[0]] + s.skip(1) =~= s);
    }
}

/// A reply body without a backslash is left as it is.
pub proof fn law_plain_bodies_are_kept(s: Seq<char>)
    requires
        !s.contains('\\'),
    ensures
        unescaped(s) == s,
{
    reveal_strlit("\\s");
    reveal_strlit("\\n");
    reveal_strlit("\\r");
    reveal_strlit("\\:");
    reveal_strlit("\\\\");
    lemma_nothing_to_replace(s, "\\s"@, " "@);
    lemma_nothing_to_replace(s, "\\n"@, "\n"@);
    lemma_nothing_to_replace(s, "\\r"@, "\r"@);
    lemma_nothing_to_replace(s, "\\:"@, ":"@);
    lemma_nothing_to_replace(s, "\\\\"@, "\\"@);
}

/// A character of a message as the server writes it in a tag: a space, a line
/// end, a colon and a backslash by a backslash and a letter or sign, anything
/// else as it is.
pub open spec fn escaped_char(c: char) -> Seq<char> {
    if c == ' ' {
        seq!['\\', 's']
    } else if c == '\n' {
        seq!['\\', 'n']
    } else if c == '\r' {
        seq!['\\', 'r']
    } else if c == ':' {
        seq!['\\', ':']
    } else if c == '\\' {
        seq!['\\', '\\']
    } else {
        seq![c]
    }
}

/// A message as the server writes it in a tag.
pub open spec fn escaped_body(s: Seq<char>) -> Seq<char>
    decreases s.len(),
{
    if s.len() == 0 {
        Seq::empty()
    } else {
        escaped_char(s[0]) + escaped_body(s.skip(1))
    }
}

/// The character whose escape is undone in the given round.
spec fn round_char(k: int) -> char {
    if k == 0 {
        ' '
    } else if k == 1 {
        '\n'
    } else if k == 2 {
        '\r'
    } else if k == 3 {
        ':'
    } else {
        '\\'
    }
}

/// The round in which the escape of a character is undone.
spec fn round_of(c: char) -> int {
    if c == ' ' {
        0
    } else if c == '\n' {
        1
    } else if c == '\r' {
        2
    } else if c == ':' {
        3
    } else {
        4
    }
}

/// A character before the given round.
spec fn char_before(c: char, k: int) -> Seq<char> {
    if round_of(c) < k {
        seq![c]
    } else {
        escaped_char(c)
    }
}

/// A message before the given round.
spec fn body_before(s: Seq<char>, k: int) -> Seq<char>
    decreases s.len(),
{
    if s.len() == 0 {
        Seq::empty()
    } else {
        char_before(s[0], k) + body_before(s.skip(1), k)
    }
}

/// No backslash before a letter with which it would read as an escape.
pub open spec fn no_lookalikes(s: Seq<char>) -> bool {
    forall|i: int|
        #![trigger s[i]]
        0 <= i < s.len() - 1 && s[i] == '\\' ==> s[i + 1] != 's' && s[i + 1] != 'n' && s[i + 1]
            != 'r'
}

proof fn lemma_round(s: Seq<char>, k: int)
    requires
        0 <= k < 5,
        no_lookalikes(s),
    ensures
        replaced(body_before(s, k), escaped_char(round_char(k)), seq![round_char(k)])
            == body_before(s, k + 1),
    decreases s.len(),
{
    let w = escaped_char(round_char(k));
    let x = seq![round_char(k)];
    let whole = body_before(s, k);
    if s.len() == 0 {
        assert(body_before(s, k + 1) =~= whole);
    } else {
        let c = s[0];
        let rest = s.skip(1);
        let tail = body_before(rest, k);
        assert(no_lookalikes(rest)) by {
            assert forall|i: int|
                #![trigger rest[i]]
                0 <= i < rest.len() - 1 && rest[i] == '\\' implies rest[i + 1] != 's' && rest[i + 1]
                != 'n' && rest[i + 1] != 'r' by {
                assert(rest[i] == s[i + 1]);
                assert(rest[i + 1] == s[i + 2]);
            }
        }
        lemma_round(rest, k);
        let head = char_before(c, k);
        if round_of(c) == k && (k < 4 || c == '\\') {
            assert(head == w);
            assert(whole.subrange(0, 2) =~= w);
            assert(word_at(whole, w, 0));
            assert(whole.skip(2) =~= tail);
        } else if head.len() == 1 {
            assert(head =~= seq![c]);
            assert(c != '\\');
            if word_at(whole, w, 0) {
                assert(whole.subrange(0, 2)[0] == whole[0]);
            }
            assert(whole.skip(1) =~= tail);
        } else {
            lemma_two_steps(s, k);
        }
    }
}

proof fn lemma_two_steps(s: Seq<char>, k: int)
    requires
        0 <= k < 4,
        no_lookalikes(s),
        s.len() > 0,
        round_of(s[0]) > k,
        char_before(s[0], k).len() == 2,
    ensures
        ({
            let w = escaped_char(round_char(k));
            let x = seq![round_char(k)];
            replaced(body_before(s, k), w, x) == char_before(s[0], k + 1) + replaced(
                body_before(s.skip(1), k),
                w,
                x,
            )
        }),
{
    let w = escaped_char(round_char(k));
    let x = seq![round_char(k)];
    let whole = body_before(s, k);
    let rest = s.skip(1);
    let tail = body_before(rest, k);
    let head = char_before(s[0], k);
    assert(whole[0] == head[0] && whole[1] == head[1]);
    if word_at(whole, w, 0) {
        assert(whole.subrange(0, 2)[1] == whole[1]);
    }
    let second = whole.skip(1);
    assert(second =~= seq![head[1]] + tail);
    if word_at(second, w, 0) {
        assert(second.subrange(0, 2)[0] == second[0]);
        assert(second.subrange(0, 2)[1] == second[1]);
        assert(head[1] == '\\');
        assert(s[0] == '\\');
        assert(tail.len() > 0);
        assert(rest.len() > 0);
        assert(second[1] == char_before(rest[0], k)[0]);
        assert(rest[0] == s[1]);
        assert(s[1] != 's' && s[1] != 'n' && s[1] != 'r');
    }
    assert(second.skip(1) =~= tail);
    let done = replaced(tail, w, x);
    assert(replaced(second, w, x) == seq![head[1]] + done);
    assert(replaced(whole, w, x) =~= seq![head[0]] + (seq![head[1]] + done));
    assert(seq![head[0]] + (seq![head[1]] + done) =~= head + done);
}

proof fn lemma_rounds_end(s: Seq<char>)
    ensures
        body_before(s, 0) == escaped_body(s),
        body_before(s, 5) == s,
    decreases s.len(),
{
    if s.len() > 0 {
        lemma_rounds_end(s.skip(1));
        assert(seq![s[0]] + s.skip(1) =~= s);
    } else {
        assert(body_before(s, 0) =~= escaped_body(s));
        assert(body_before(s, 5) =~= s);
    }
}

/// Unescaping undoes the server's escaping, wherever and however often an
/// escape stands in a message. Left out are messages in which a backslash stands
/// before one of the letters of the escapes.
pub proof fn law_unescaping_undoes_escaping(s: Seq<char>)
    requires
        no_lookalikes(s),
    ensures
        unescaped(escaped_body(s)) == s,
{
    reveal_strlit("\\s");
    reveal_strlit("\\n");
    reveal_strlit("\\r");
    reveal_strlit("\\:");
    reveal_strlit("\\\\");
    reveal_strlit(" ");
    reveal_strlit("\n");
    reveal_strlit("\r");
    reveal_strlit(":");
    reveal_strlit("\\");
    assert("\\s"@ =~= escaped_char(' ') && " "@ =~= seq![' ']);
    assert("\\n"@ =~= escaped_char('\n') && "\n"@ =~= seq!['\n']);
    assert("\\r"@ =~= escaped_char('\r') && "\r"@ =~= seq!['\r']);
    assert("\\:"@ =~= escaped_char(':') && ":"@ =~= seq![':']);
    assert("\\\\"@ =~= escaped_char('\\') && "\\"@ =~= seq!['\\']);
    lemma_rounds_end(s);
    lemma_round(s, 0);
    lemma_round(s, 1);
    lemma_round(s, 2);
    lemma_round(s, 3);
    lemma_round(s, 4);
}

/// The last value that is not empty among the tags with the given key.
pub open spec fn last_value(tags: Seq<(Seq<char>, Seq<char>)>, key: Seq<char>) -> Option<Seq<char>>
    decreases tags.len(),
{
    if tags.len() == 0 {
        None
    } else if tags.last().0 == key && tags.last().1.len() > 0 {
        Some(tags.last().1)
    } else {
        last_value(tags.drop_last(), key)
    }
}

/// One of the tags from a place on lists the given badge.
pub open spec fn lists_badge(
    tags: Seq<(Seq<char>, Seq<char>)>,
    from: int,
    badge: Seq<char>,
) -> bool {
    exists|i: int|
        from <= i < tags.len() && 0 <= i && (#[trigger] tags[i]).0 == "badges"@ && has_word(
            tags[i].1,
            badge,
        )
}

/// The tag at a place says whether the user is a moderator, and none after it
/// does so by itself.
pub open spec fn last_mod_tag(tags: Seq<(Seq<char>, Seq<char>)>, at: int) -> bool {
    &&& 0 <= at < tags.len()
    &&& tags[at].0 == "mod"@
    &&& forall|i: int| at < i < tags.len() ==> (#[trigger] tags[i]).0 != "mod"@
}

proof fn lemma_tags_read_last(t: TagModel, tags: Seq<(Seq<char>, Seq<char>)>)
    requires
        tags.len() > 0,
    ensures
        tags_read(t, tags) == tag_read(
            tags_read(t, tags.drop_last()),
            tags.last().0,
            tags.last().1,
        ),
    decreases tags.len(),
{
    if tags.len() == 1 {
        reveal_with_fuel(tags_read, 2);
        assert(tags.skip(1) =~= tags.drop_last());
    } else {
        let next = tag_read(t, tags[0].0, tags[0].1);
        lemma_tags_read_last(next, tags.skip(1));
        assert(tags.skip(1).drop_last() =~= tags.drop_last().skip(1));
        assert(tags.skip(1).last() == tags.last());
        assert(tags.drop_last()[0] == tags[0]);
    }
}

proof fn lemma_keys_differ()
    ensures
        "display-name"@ != "color"@,
        "display-name"@ != "mod"@,
        "display-name"@ != "badges"@,
        "display-name"@ != "reply-parent-display-name"@,
        "display-name"@ != "reply-parent-msg-body"@,
        "color"@ != "mod"@,
        "color"@ != "badges"@,
        "color"@ != "reply-parent-display-name"@,
        "color"@ != "reply-parent-msg-body"@,
        "mod"@ != "badges"@,
        "mod"@ != "reply-parent-display-name"@,
        "mod"@ != "reply-parent-msg-body"@,
        "badges"@ != "reply-parent-display-name"@,
        "badges"@ != "reply-parent-msg-body"@,
        "reply-parent-display-name"@ != "reply-parent-msg-body"@,
{
    reveal_strlit("display-name");
    reveal_strlit("color");
    reveal_strlit("mod");
    reveal_strlit("badges");
    reveal_strlit("reply-parent-display-name");
    reveal_strlit("reply-parent-msg-body");
    assert("display-name"@.len() == 12);
    assert("color"@.len() == 5);
    assert("mod"@.len() == 3);
    assert("badges"@.len() == 6);
    assert("reply-parent-display-name"@.len() == 25);
    assert("reply-parent-msg-body"@.len() == 21);
}

proof fn lemma_lists_badge_last(
    tags: Seq<(Seq<char>, Seq<char>)>,
    from: int,
    badge: Seq<char>,
)
    requires
        tags.len() > 0,
        from < tags.len(),
    ensures
        lists_badge(tags, from, badge) <==> lists_badge(tags.drop_last(), from, badge) || (
        tags.last().0 == "badges"@ && has_word(tags.last().1, badge)),
{
    let init = tags.drop_last();
    let n = tags.len() - 1;
    if lists_badge(init, from, badge) {
        let i = choose|i: int|
            from <= i < init.len() && 0 <= i && (#[trigger] init[i]).0 == "badges"@ && has_word(
                init[i].1,
                badge,
            );
        assert(tags[i] == init[i]);
    }
    if tags.last().0 == "badges"@ && has_word(tags.last().1, badge) {
        assert(tags[n] == tags.last());
    }
    if lists_badge(tags, from, badge) {
        let i = choose|i: int|
            from <= i < tags.len() && 0 <= i && (#[trigger] tags[i]).0 == "badges"@ && has_word(
                tags[i].1,
                badge,
            );
        if i < n {
            assert(init[i] == tags[i]);
        }
    }
}

/// Each tag has its say: the name, the color and the parent of a reply are the
/// last ones that are given, a badge counts wherever it is listed, and of what
/// the tags say about a moderator the last word counts.
pub proof fn law_tags_have_their_say(tags: Seq<(Seq<char>, Seq<char>)>)
    ensures
        ({
            let t = tags_read(no_tags(), tags);
            let body = last_value(tags, "reply-parent-msg-body"@);
            &&& t.display_name == last_value(tags, "display-name"@)
            &&& t.color == last_value(tags, "color"@)
            &&& t.reply_name == last_value(tags, "reply-parent-display-name"@)
            &&& t.reply_body == if body is Some {
                Some(unescaped(body->0))
            } else {
                None
            }
            &&& t.is_broadcaster <==> lists_badge(tags, 0, "broadcaster"@)
            &&& t.is_vip <==> lists_badge(tags, 0, "vip"@)
            &&& (forall|i: int| 0 <= i < tags.len() ==> (#[trigger] tags[i]).0 != "mod"@) ==> (
            t.is_mod <==> lists_badge(tags, 0, "moderator"@))
            &&& forall|at: int| #[trigger]
                last_mod_tag(tags, at) ==> (t.is_mod <==> tags[at].1 == seq!['1'] || lists_badge(
                    tags,
                    at,
                    "moderator"@,
                ))
        }),
    decreases tags.len(),
{
    lemma_keys_differ();
    reveal_strlit("1");
    assert("1"@ =~= seq!['1']);
    if tags.len() > 0 {
        let init = tags.drop_last();
        let n = tags.len() - 1;
        let last = tags.last();
        law_tags_have_their_say(init);
        lemma_tags_read_last(no_tags(), tags);
        lemma_lists_badge_last(tags, 0, "broadcaster"@);
        lemma_lists_badge_last(tags, 0, "vip"@);
        lemma_lists_badge_last(tags, 0, "moderator"@);
        let t = tags_read(no_tags(), tags);
        if forall|i: int| 0 <= i < tags.len() ==> (#[trigger] tags[i]).0 != "mod"@ {
            assert forall|i: int| 0 <= i < init.len() implies (#[trigger] init[i]).0 != "mod"@ by {
                assert(init[i] == tags[i]);
            }
            assert(tags[n].0 != "mod"@);
        }
        assert forall|at: int| #[trigger] last_mod_tag(tags, at) implies (t.is_mod <==> tags[at].1
            == seq!['1'] || lists_badge(tags, at, "moderator"@)) by {
            lemma_lists_badge_last(tags, at, "moderator"@);
            if at < n {
                assert(init[at] == tags[at]);
                assert(last_mod_tag(init, at)) by {
                    assert forall|i: int| at < i < init.len() implies (#[trigger] init[i]).0
                        != "mod"@ by {
                        assert(init[i] == tags[i]);
                    }
                }
                assert(tags[n].0 != "mod"@);
            } else {
                assert(tags[at] == last);
                assert(!lists_badge(init, at, "moderator"@));
            }
        }
    }
}

/// A chat line that the server composes with tags gives back what they say: the
/// name, the color, the ranks and, where both its author and its text are given,
/// the message that is answered.
pub proof fn law_chat_line_says_what_its_tags_say(
    tags: Seq<(Seq<char>, Seq<char>)>,
    user: Seq<char>,
    channel: Seq<char>,
    message: Seq<char>,
)
    requires
        tags.len() > 0,
        forall|i: int| 0 <= i < tags.len() ==> sendable(#[trigger] tags[i]),
        login_name(user),
        login_name(channel),
    ensures
        ({
            let line = tagged_line(tags_text(tags), chat_line(user, channel, message));
            let name = last_value(tags, "reply-parent-display-name"@);
            let body = last_value(tags, "reply-parent-msg-body"@);
            &&& chat_of(line) matches Some(chat)
            &&& chat.username == user
            &&& chat.content == trimmed(message)
            &&& chat.display_name == last_value(tags, "display-name"@)
            &&& chat.color == last_value(tags, "color"@)
            &&& chat.is_broadcaster <==> lists_badge(tags, 0, "broadcaster"@)
            &&& chat.is_vip <==> lists_badge(tags, 0, "vip"@)
            &&& (forall|i: int| 0 <= i < tags.len() ==> (#[trigger] tags[i]).0 != "mod"@) ==> (
            chat.is_mod <==> lists_badge(tags, 0, "moderator"@))
            &&& forall|at: int| #[trigger]
                last_mod_tag(tags, at) ==> (chat.is_mod <==> tags[at].1 == seq!['1']
                    || lists_badge(tags, at, "moderator"@))
            &&& chat.reply_to is Some <==> name is Some && body is Some
            &&& chat.reply_to matches Some(reply) ==> reply.parent_display_name == name->0
                && reply.parent_msg_body == unescaped(body->0)
        }),
{
    law_tagged_line_read_back(tags, user, channel, message);
    law_tags_have_their_say(tags);
}

/// A reply gives back the message that it answers as it was written.
pub proof fn law_reply_gives_back_its_parent(
    name: Seq<char>,
    body: Seq<char>,
    user: Seq<char>,
    channel: Seq<char>,
    message: Seq<char>,
)
    requires
        name.len() > 0,
        !name.contains(';'),
        !name.contains(' '),
        body.len() > 0,
        !body.contains(';'),
        no_lookalikes(body),
        login_name(user),
        login_name(channel),
    ensures
        ({
            let tags = seq![
                ("reply-parent-display-name"@, name),
                ("reply-parent-msg-body"@, escaped_body(body)),
            ];
            &&& chat_of(tagged_line(tags_text(tags), chat_line(user, channel, message))) matches Some(
                chat,
            )
            &&& chat.reply_to == Some(
                ReplyModel { parent_display_name: name, parent_msg_body: body },
            )
        }),
{
    let tags = seq![
        ("reply-parent-display-name"@, name),
        ("reply-parent-msg-body"@, escaped_body(body)),
    ];
    lemma_keys_differ();
    lemma_escaped_is_sendable(body);
    reveal_strlit("reply-parent-display-name");
    reveal_strlit("reply-parent-msg-body");
    assert(sendable(tags[0]));
    assert(sendable(tags[1]));
    law_chat_line_says_what_its_tags_say(tags, user, channel, message);
    law_unescaping_undoes_escaping(body);
    reveal_with_fuel(last_value, 3);
    assert(tags.drop_last() =~= seq![tags[0]]);
}

proof fn lemma_escaped_is_sendable(s: Seq<char>)
    requires
        !s.contains(';'),
    ensures
        !escaped_body(s).contains(';'),
        !escaped_body(s).contains(' '),
        escaped_body(s).len() >= s.len(),
    decreases s.len(),
{
    if s.len() > 0 {
        let rest = s.skip(1);
        assert forall|j: int| 0 <= j < rest.len() implies rest[j] != ';' by {
            assert(rest[j] == s[j + 1]);
        }
        lemma_escaped_is_sendable(rest);
        let head = escaped_char(s[0]);
        let all = escaped_body(s);
        assert(s[0] != ';');
        assert forall|j: int| 0 <= j < all.len() implies all[j] != ';' && all[j] != ' ' by {
            if j < head.len() {
                assert(all[j] == head[j]);
            } else {
                assert(all[j] == escaped_body(rest)[j - head.len()]);
            }
        }
    }
}

} // verus!
