//! Activities of the WASDFX feed.

use crate::effects::wasdfx::{
    activity_type, capital_of, icon_type, lemma_member_names_differ, title_case, title_piece,
    title_prefix,
};
use crate::effects::WasdfxEffect;
use crate::event::{text_option, EventView};
use crate::json::{number_of, pretty_text, JsonView};
use vstd::prelude::*;

verus! {

/// The event types that are told apart differ.
proof fn lemma_event_types_differ()
    ensures
        "game.achievement"@ != "player.joined"@,
        "game.achievement"@ != "player.left"@,
        "player.achievement"@ != "player.joined"@,
        "player.achievement"@ != "player.left"@,
        "player.joined"@ != "player.left"@,
        "game.milestone"@ != "game.achievement"@,
        "game.milestone"@ != "player.achievement"@,
        "game.milestone"@ != "player.joined"@,
        "game.milestone"@ != "player.left"@,
        "system.alert"@ != "game.achievement"@,
        "system.alert"@ != "player.achievement"@,
        "system.alert"@ != "player.joined"@,
        "system.alert"@ != "player.left"@,
        "system.alert"@ != "game.milestone"@,
{
    reveal_strlit("game.achievement");
    reveal_strlit("player.achievement");
    reveal_strlit("player.joined");
    reveal_strlit("player.left");
    reveal_strlit("game.milestone");
    reveal_strlit("system.alert");
    assert("game.achievement"@.len() == 16);
    assert("player.achievement"@.len() == 18);
    assert("player.joined"@.len() == 13);
    assert("player.left"@.len() == 11);
    assert("game.milestone"@.len() == 14);
    assert("system.alert"@.len() == 12);
}

/// An activity tells the message of the event's payload where the event type has no
/// text of its own, whatever else that type is. Without a message it tells the payload
/// written out.
pub proof fn lemma_message_is_told(effect: WasdfxEffect, event: EventView)
    requires
        event.event_type != "game.achievement"@,
        event.event_type != "player.achievement"@,
        event.event_type != "player.joined"@,
        event.event_type != "player.left"@,
    ensures
        match event.payload.text_at("message"@) {
            Some(message) => effect.activity(event).text_at("content"@) == Some(message),
            None => effect.activity(event).text_at("content"@) == Some(pretty_text(event.payload)),
        },
{
    lemma_member_names_differ();
}

/// What is told of a player's achievement: who and what, in title and content, each
/// with its words for an unknown one.
pub proof fn lemma_achievements_are_told(
    effect: WasdfxEffect,
    event: EventView,
    player: Seq<char>,
    achievement: Seq<char>,
)
    requires
        event.event_type == "game.achievement"@ || event.event_type == "player.achievement"@,
        event.payload.text_at("player"@) == Some(player) || (event.payload.text_at("player"@) is None
            && player == "Someone"@),
        event.payload.text_at("achievement"@) == Some(achievement) || (event.payload.text_at(
            "achievement"@,
        ) is None && achievement == "an achievement"@),
    ensures
        effect.activity(event).text_at("title"@) == Some(player + " unlocked an achievement!"@),
        effect.activity(event).text_at("content"@) == Some(
            "**"@ + player + "** unlocked **"@ + achievement + "**!"@,
        ),
{
    lemma_member_names_differ();
    lemma_event_types_differ();
}

/// What is told of a player who joins: who and where.
pub proof fn lemma_joins_are_told(
    effect: WasdfxEffect,
    event: EventView,
    player: Seq<char>,
    server: Seq<char>,
)
    requires
        event.event_type == "player.joined"@,
        event.payload.text_at("player"@) == Some(player) || (event.payload.text_at("player"@) is None
            && player == "A player"@),
        event.payload.text_at("server"@) == Some(server) || (event.payload.text_at("server"@) is None
            && server == "the server"@),
    ensures
        effect.activity(event).text_at("title"@) == Some(player + " joined the server"@),
        effect.activity(event).text_at("content"@) == Some(
            "**"@ + player + "** has joined **"@ + server + "**"@,
        ),
{
    lemma_member_names_differ();
    lemma_event_types_differ();
}

/// What is told of a player who leaves: who.
pub proof fn lemma_departures_are_told(effect: WasdfxEffect, event: EventView, player: Seq<char>)
    requires
        event.event_type == "player.left"@,
        event.payload.text_at("player"@) == Some(player) || (event.payload.text_at("player"@) is None
            && player == "A player"@),
    ensures
        effect.activity(event).text_at("title"@) == Some(player + " left the server"@),
        effect.activity(event).text_at("content"@) == Some(
            "**"@ + player + "** has left the server"@,
        ),
{
    lemma_member_names_differ();
    lemma_event_types_differ();
}

/// The activity type and the icon of every event type: those of achievements, joins,
/// departures, milestones and alerts, and a plain announcement for any other.
pub proof fn lemma_types_and_icons(event_type: Seq<char>)
    ensures
        event_type == "game.achievement"@ || event_type == "player.achievement"@ ==> activity_type(
            event_type,
        ) == "ACHIEVEMENT_UNLOCKED"@ && icon_type(event_type) == "achievement"@,
        event_type == "player.joined"@ ==> activity_type(event_type) == "PLAYER_JOINED"@
            && icon_type(event_type) == "success"@,
        event_type == "player.left"@ ==> activity_type(event_type) == "PLAYER_LEFT"@ && icon_type(
            event_type,
        ) == "info"@,
        event_type == "game.milestone"@ ==> activity_type(event_type) == "MILESTONE_REACHED"@
            && icon_type(event_type) == "achievement"@,
        event_type == "system.alert"@ ==> activity_type(event_type) == "SERVER_ANNOUNCEMENT"@
            && icon_type(event_type) == "warning"@,
        event_type != "game.achievement"@ && event_type != "player.achievement"@ && event_type
            != "player.joined"@ && event_type != "player.left"@ && event_type != "game.milestone"@
            && event_type != "system.alert"@ ==> activity_type(event_type)
            == "SERVER_ANNOUNCEMENT"@ && icon_type(event_type) == "info"@,
{
    lemma_event_types_differ();
}

/// Any other event type is a title of its own.
pub proof fn lemma_other_titles(effect: WasdfxEffect, event: EventView)
    requires
        event.event_type != "game.achievement"@,
        event.event_type != "player.achievement"@,
        event.event_type != "player.joined"@,
        event.event_type != "player.left"@,
    ensures
        effect.activity(event).text_at("title"@) == Some(title_case(event.event_type)),
{
    lemma_member_names_differ();
}

/// The title of a text without dots: its first character as a capital, and the rest as
/// it is.
pub proof fn lemma_title_of_a_word(word: Seq<char>)
    requires
        !word.contains('.'),
    ensures
        word.len() == 0 ==> title_case(word) == Seq::<char>::empty(),
        word.len() > 0 ==> title_case(word) == capital_of(word[0]) + word.drop_first(),
{
    if word.len() > 0 {
        lemma_word_prefix(word, word.len() as int);
        assert(word.subrange(1, word.len() as int) =~= word.drop_first());
    }
}

/// The first characters of a word as a title.
proof fn lemma_word_prefix(word: Seq<char>, n: int)
    requires
        !word.contains('.'),
        0 < n <= word.len(),
    ensures
        title_prefix(word, n) == capital_of(word[0]) + word.subrange(1, n),
    decreases n,
{
    assert(word.contains(word[n - 1]));
    reveal_with_fuel(title_prefix, 2);
    if n == 1 {
        assert(title_prefix(word, 1) =~= capital_of(word[0]));
        assert(word.subrange(1, 1) =~= Seq::<char>::empty());
        assert(capital_of(word[0]) + word.subrange(1, 1) =~= capital_of(word[0]));
    } else {
        lemma_word_prefix(word, n - 1);
        assert(word.contains(word[n - 2]));
        assert(word.subrange(1, n) =~= word.subrange(1, n - 1) + seq![word[n - 1]]);
        assert(title_prefix(word, n) =~= capital_of(word[0]) + word.subrange(1, n));
    }
}

/// The title of two parts with a dot between them is their titles with a space between
/// them.
pub proof fn lemma_title_of_parts(first: Seq<char>, second: Seq<char>)
    ensures
        title_case(first + seq!['.'] + second) == title_case(first) + seq![' '] + title_case(second),
{
    let whole = first + seq!['.'] + second;
    lemma_title_of_first(first, second, first.len() as int);
    lemma_title_of_second(first, second, second.len() as int);
    assert(whole.len() == first.len() + 1 + second.len());
}

/// What stands before a dot is a title by itself.
proof fn lemma_title_of_first(first: Seq<char>, second: Seq<char>, n: int)
    requires
        0 <= n <= first.len(),
    ensures
        title_prefix(first + seq!['.'] + second, n) == title_prefix(first, n),
    decreases n,
{
    let whole = first + seq!['.'] + second;
    if n > 0 {
        lemma_title_of_first(first, second, n - 1);
        assert(whole[n - 1] == first[n - 1]);
        assert(n > 1 ==> whole[n - 2] == first[n - 2]);
        assert(title_piece(whole, n - 1) == title_piece(first, n - 1));
    }
}

/// What stands behind a dot is a title by itself.
proof fn lemma_title_of_second(first: Seq<char>, second: Seq<char>, n: int)
    requires
        0 <= n <= second.len(),
    ensures
        title_prefix(first + seq!['.'] + second, first.len() + 1 + n) == title_case(first) + seq![
            ' ',
        ] + title_prefix(second, n),
    decreases n,
{
    let whole = first + seq!['.'] + second;
    let at = first.len() as int;
    lemma_title_of_first(first, second, at);
    if n == 0 {
        assert(whole[at] == '.');
        assert(title_prefix(whole, at + 1) == title_prefix(whole, at) + title_piece(whole, at));
        assert(title_prefix(second, 0) =~= Seq::<char>::empty());
        assert(title_prefix(whole, at + 1) =~= title_case(first) + seq![' '] + title_prefix(
            second,
            0,
        ));
    } else {
        lemma_title_of_second(first, second, n - 1);
        assert(whole[at + n] == second[n - 1]);
        if n > 1 {
            assert(whole[at + n - 1] == second[n - 2]);
        } else {
            assert(whole[at + n - 1] == '.');
        }
        assert(title_piece(whole, at + n) == title_piece(second, n - 1));
        assert(title_prefix(whole, at + 1 + n) =~= title_case(first) + seq![' '] + title_prefix(
            second,
            n,
        ));
    }
}

/// The capitals of the ASCII letters are ASCII letters; other ASCII characters are
/// their own capitals.
pub proof fn lemma_ascii_capitals(c: char)
    ensures
        'a' <= c <= 'z' ==> capital_of(c).len() == 1 && capital_of(c)[0] as int == c as int - 'a' as int
            + 'A' as int,
        (c as int) < 128 && !('a' <= c <= 'z') ==> capital_of(c) == seq![c],
{
}

/// The server of an activity: a text that the payload gives as `serverSlug` or, where
/// there is no such member, as `server_slug`; in any other case the configured one, or
/// null.
pub proof fn lemma_server_of_an_activity(effect: WasdfxEffect, event: EventView)
    ensures
        ({
            let slug = effect.activity(event).get("serverSlug"@);
            let configured = match text_option(effect.server_slug) {
                Some(text) => Some(JsonView::Text(text)),
                None => Some(JsonView::Null),
            };
            match event.payload.get("serverSlug"@) {
                Some(JsonView::Text(text)) => slug == Some(JsonView::Text(text)),
                Some(_) => slug == configured,
                None => match event.payload.get("server_slug"@) {
                    Some(JsonView::Text(text)) => slug == Some(JsonView::Text(text)),
                    _ => slug == configured,
                },
            }
        }),
{
    lemma_member_names_differ();
}

/// Every activity is of the game category and of no priority, and holds nothing but its
/// type, title, content, icon, server, category, priority and metadata.
pub proof fn lemma_members_of_an_activity(effect: WasdfxEffect, event: EventView, other: Seq<char>)
    ensures
        effect.activity(event).text_at("category"@) == Some("game"@),
        effect.activity(event).get("priority"@) == Some(JsonView::Number(number_of(0))),
        effect.activity(event).text_at("type"@) == Some(activity_type(event.event_type)),
        effect.activity(event).text_at("iconType"@) == Some(icon_type(event.event_type)),
        other != "type"@ && other != "title"@ && other != "content"@ && other != "iconType"@
            && other != "serverSlug"@ && other != "category"@ && other != "priority"@ && other
            != "metadata"@ ==> effect.activity(event).get(other) is None,
{
    lemma_member_names_differ();
}

} // verus!
