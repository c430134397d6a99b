//! What the bot does with a message or a button press: the decisions of its
//! update loop, apart from the I/O around them.

use vstd::prelude::*;

use crate::endpoint::AstraEndpoint;
use crate::text::{
    chars_of, eq_ci_bytes, lemma_split_scan_append_core, lemma_split_scan_sep, eq_ignore_ascii_case,
    find_char, first_index_of, first_ws_index, is_whitespace, is_ws, parse_int, parse_int_spec, split_char,
    split_spec, split_words, str_eq, substring, trim, trim_spec, words,
};
use crate::weburl::{parse_url, url_parses, url_serialization};

verus! {

/// A command that the bot answers.
#[derive(Debug, Clone, Copy, PartialEq, Eq, Structural)]
pub enum BotCommand {
    Download,
    Audio,
    Start,
    Stats,
    Check,
    Speedtest,
    SettingsId,
    Help,
    About,
}

/// The command that a command word names, among those the bot answers.
pub open spec fn command_of(name: Seq<char>) -> Option<BotCommand> {
    if name == "/dl"@ || name == "/l"@ {
        Some(BotCommand::Download)
    } else if name == "/mp"@ || name == "/audio"@ {
        Some(BotCommand::Audio)
    } else if name == "/start"@ {
        Some(BotCommand::Start)
    } else if name == "/stats"@ {
        Some(BotCommand::Stats)
    } else if name == "/check"@ {
        Some(BotCommand::Check)
    } else if name == "/speedtest"@ {
        Some(BotCommand::Speedtest)
    } else if name == "/settingsid"@ {
        Some(BotCommand::SettingsId)
    } else if name == "/help"@ {
        Some(BotCommand::Help)
    } else if name == "/about"@ {
        Some(BotCommand::About)
    } else {
        None
    }
}

fn command_named(name: &str) -> (r: Option<BotCommand>)
    ensures
        r == command_of(name@),
{
    if str_eq(name, "/dl") || str_eq(name, "/l") {
        Some(BotCommand::Download)
    } else if str_eq(name, "/mp") || str_eq(name, "/audio") {
        Some(BotCommand::Audio)
    } else if str_eq(name, "/start") {
        Some(BotCommand::Start)
    } else if str_eq(name, "/stats") {
        Some(BotCommand::Stats)
    } else if str_eq(name, "/check") {
        Some(BotCommand::Check)
    } else if str_eq(name, "/speedtest") {
        Some(BotCommand::Speedtest)
    } else if str_eq(name, "/settingsid") {
        Some(BotCommand::SettingsId)
    } else if str_eq(name, "/help") {
        Some(BotCommand::Help)
    } else if str_eq(name, "/about") {
        Some(BotCommand::About)
    } else {
        None
    }
}

/// The arguments of a command: the text after its first white-space
/// character, trimmed; empty when there is none.
pub open spec fn command_args(text: Seq<char>) -> Seq<char> {
    match first_ws_index(text) {
        Some(k) => trim_spec(text.skip(k + 1)),
        None => Seq::empty(),
    }
}

/// The first word of a text, empty when it has none.
pub open spec fn first_word(text: Seq<char>) -> Seq<char> {
    if words(text).len() > 0 {
        words(text)[0]
    } else {
        Seq::empty()
    }
}

/// The command word without its `@bot` suffix, and whether the suffix (when
/// present) names this bot, ignoring ASCII case.
pub open spec fn addressed(word: Seq<char>, bot: Seq<char>) -> (Seq<char>, bool) {
    if word.len() > 0 && word[0] == '/' && first_index_of(word, '@') is Some {
        let at = first_index_of(word, '@')->0;
        (
            word.take(at),
            eq_ci_bytes(vstd::utf8::encode_utf8(word.skip(at + 1)), vstd::utf8::encode_utf8(bot)),
        )
    } else {
        (word, true)
    }
}

/// A command message that this bot answers: a text that starts with `/`,
/// whose first word (less an `@bot` suffix that names this bot) is one of the
/// bot's commands; with its arguments.
pub open spec fn parse_command_spec(text: Seq<char>, bot: Seq<char>) -> Option<(BotCommand, Seq<char>)> {
    if !(text.len() > 0 && text[0] == '/') {
        None
    } else {
        let (name, for_me) = addressed(first_word(text), bot);
        if !for_me {
            None
        } else {
            match command_of(name) {
                Some(c) => Some((c, command_args(text))),
                None => None,
            }
        }
    }
}

fn args_of(text: &str) -> (r: String)
    ensures
        r@ == command_args(text@),
{
    let cs = chars_of(text);
    let mut i: usize = 0;
    while i < cs.len()
        invariant
            cs@ == text@,
            i <= cs@.len(),
            forall|j: int| 0 <= j < i ==> !is_ws(#[trigger] cs@[j]),
        decreases cs@.len() - i,
    {
        if is_whitespace(cs[i]) {
            proof {
                let k = choose|k: int| 0 <= k < text@.len() && is_ws(text@[k]) && forall|j: int| 0 <= j < k ==> !is_ws(#[trigger] text@[j]);
                if k < i {
                } else if k > i {
                    assert(!is_ws(text@[i as int]));
                }
            }
            let rest = substring(&cs, i + 1, cs.len());
            assert(cs@.subrange(i + 1, cs@.len() as int) =~= text@.skip(i + 1));
            return trim(rest.as_str());
        }
        i = i + 1;
    }
    String::new()
}

/// A command that the bot answers, with its arguments.
#[derive(Debug)]
pub struct ParsedCommand {
    pub command: BotCommand,
    pub args: String,
}

/// Reads a command message (see `parse_command_spec`); `None` for text that
/// the bot leaves unanswered.
pub fn parse_command(text: &str, bot_username: &str) -> (r: Option<ParsedCommand>)
    ensures
        match r {
            Some(p) => parse_command_spec(text@, bot_username@) == Some((p.command, p.args@)),
            None => parse_command_spec(text@, bot_username@) is None,
        },
{
    let cs = chars_of(text);
    if !(cs.len() > 0 && cs[0] == '/') {
        return None;
    }
    let ws = split_words(text);
    let first = if ws.len() > 0 {
        ws[0].clone()
    } else {
        String::new()
    };
    assert(first@ == first_word(text@));
    let fc = chars_of(first.as_str());
    let mut name = first.clone();
    let mut for_me = true;
    if fc.len() > 0 && fc[0] == '/' {
        if let Some(at) = find_char(&fc, '@') {
            name = substring(&fc, 0, at);
            let bot_part = substring(&fc, at + 1, fc.len());
            for_me = eq_ignore_ascii_case(bot_part.as_str(), bot_username);
            assert(fc@.subrange(0, at as int) =~= first@.take(at as int));
            assert(fc@.subrange(at + 1, fc@.len() as int) =~= first@.skip(at + 1));
        }
    }
    assert((name@, for_me) == addressed(first@, bot_username@));
    if !for_me {
        return None;
    }
    match command_named(name.as_str()) {
        Some(c) => Some(ParsedCommand { command: c, args: args_of(text) }),
        None => None,
    }
}

} // verus!

verus! {

/// What `/settingsid` asks for.
#[derive(Debug, PartialEq, Eq)]
pub enum TopicCommand {
    /// Show the current whitelist.
    Show,
    /// Remove every restriction.
    Clear,
    /// Allow exactly these topics.
    Allow(Vec<i32>),
    /// An argument is not an `i32`.
    Invalid,
}

/// The topic ids that the words of the arguments spell, when each is an `i32`.
pub open spec fn topic_ids_spec(ws: Seq<Seq<char>>) -> Option<Seq<i32>>
    decreases ws.len(),
{
    if ws.len() == 0 {
        Some(Seq::empty())
    } else {
        match (topic_ids_spec(ws.drop_last()), parse_int_spec(ws.last(), i32::MIN as int, i32::MAX as int)) {
            (Some(ids), Some(v)) => Some(ids.push(v as i32)),
            _ => None,
        }
    }
}

/// The view of a topic command.
pub open spec fn topic_command_view(t: TopicCommand) -> (int, Seq<i32>) {
    match t {
        TopicCommand::Show => (0, Seq::empty()),
        TopicCommand::Clear => (1, Seq::empty()),
        TopicCommand::Allow(v) => (2, v@),
        TopicCommand::Invalid => (3, Seq::empty()),
    }
}

/// `/settingsid` with no arguments shows the whitelist, with `clear` (in any
/// ASCII case) clears it, else sets it to the ids when all words are `i32`.
pub open spec fn topic_command_spec(args: Seq<char>) -> (int, Seq<i32>) {
    if args.len() == 0 {
        (0, Seq::empty())
    } else if eq_ci_bytes(vstd::utf8::encode_utf8(args), vstd::utf8::encode_utf8("clear"@)) {
        (1, Seq::empty())
    } else {
        match topic_ids_spec(words(args)) {
            Some(ids) => (2, ids),
            None => (3, Seq::empty()),
        }
    }
}

/// Reads the arguments of `/settingsid` (see `topic_command_spec`).
pub fn parse_topic_command(args: &str) -> (r: TopicCommand)
    ensures
        topic_command_view(r) == topic_command_spec(args@),
{
    if args.is_empty() {
        return TopicCommand::Show;
    }
    proof {
        vstd::utf8::encode_utf8_decode_utf8(args@);
    }
    if eq_ignore_ascii_case(args, "clear") {
        return TopicCommand::Clear;
    }
    let ws = split_words(args);
    let mut ids: Vec<i32> = Vec::new();
    let mut i: usize = 0;
    while i < ws.len()
        invariant
            ws.deep_view() == words(args@),
            args@.len() != 0,
            !eq_ci_bytes(vstd::utf8::encode_utf8(args@), vstd::utf8::encode_utf8("clear"@)),
            i <= ws@.len(),
            topic_ids_spec(ws.deep_view().take(i as int)) == Some(ids@),
        decreases ws@.len() - i,
    {
        assert(ws.deep_view().take(i + 1).drop_last() =~= ws.deep_view().take(i as int));
        assert(ws.deep_view().take(i + 1).last() == ws@[i as int]@);
        match parse_int(ws[i].as_str(), -2147483648, 2147483647) {
            Some(v) => {
                ids.push(v as i32);
            },
            None => {
                proof {
                    assert(topic_ids_spec(ws.deep_view().take(i + 1)) is None);
                    lemma_topic_ids_prefix_none(ws.deep_view(), i as int + 1);
                }
                return TopicCommand::Invalid;
            },
        }
        i = i + 1;
    }
    assert(ws.deep_view().take(ws@.len() as int) =~= ws.deep_view());
    TopicCommand::Allow(ids)
}

/// Once a word fails to parse, the whole list fails.
pub proof fn lemma_topic_ids_prefix_none(ws: Seq<Seq<char>>, k: int)
    requires
        0 <= k <= ws.len(),
        topic_ids_spec(ws.take(k)) is None,
    ensures
        topic_ids_spec(ws) is None,
    decreases ws.len() - k,
{
    if k < ws.len() {
        assert(ws.take(k + 1).drop_last() =~= ws.take(k));
        lemma_topic_ids_prefix_none(ws, k + 1);
    } else {
        assert(ws.take(k) =~= ws);
    }
}

/// What the bot does with a command.
#[derive(Debug, PartialEq, Eq)]
pub enum CommandAction {
    /// Download the link, as audio when asked.
    Download { url: String, audio: bool },
    /// Show how a download command is used.
    DownloadUsage { audio: bool },
    Start,
    Help,
    About,
    Stats,
    Check,
    Speedtest,
    /// Work on the topic whitelist of the group.
    Topics(TopicCommand),
    /// `/settingsid` outside a group.
    GroupOnly,
    /// An owner command from someone else.
    PermissionDenied,
}

/// The view of a command action.
pub open spec fn action_view(a: CommandAction) -> (int, Seq<char>, bool, (int, Seq<i32>)) {
    let none = (0int, Seq::<i32>::empty());
    match a {
        CommandAction::Download { url, audio } => (0, url@, audio, none),
        CommandAction::DownloadUsage { audio } => (1, Seq::empty(), audio, none),
        CommandAction::Start => (2, Seq::empty(), false, none),
        CommandAction::Help => (3, Seq::empty(), false, none),
        CommandAction::About => (4, Seq::empty(), false, none),
        CommandAction::Stats => (5, Seq::empty(), false, none),
        CommandAction::Check => (6, Seq::empty(), false, none),
        CommandAction::Speedtest => (7, Seq::empty(), false, none),
        CommandAction::Topics(t) => (8, Seq::empty(), false, topic_command_view(t)),
        CommandAction::GroupOnly => (9, Seq::empty(), false, none),
        CommandAction::PermissionDenied => (10, Seq::empty(), false, none),
    }
}

/// Commands that only the owner may run.
pub open spec fn owner_only(c: BotCommand) -> bool {
    c == BotCommand::Stats || c == BotCommand::Check || c == BotCommand::Speedtest || c == BotCommand::SettingsId
}

/// The action for a command: downloads need a link (else the usage is
/// shown); owner commands from others are refused; `/settingsid` works only
/// in groups.
pub open spec fn decide_spec(c: BotCommand, args: Seq<char>, is_owner: bool, is_group: bool) -> (int, Seq<char>, bool, (int, Seq<i32>)) {
    let none = (0int, Seq::<i32>::empty());
    if owner_only(c) && !is_owner {
        (10, Seq::empty(), false, none)
    } else {
        match c {
            BotCommand::Download => if args.len() > 0 {
                (0, args, false, none)
            } else {
                (1, Seq::empty(), false, none)
            },
            BotCommand::Audio => if args.len() > 0 {
                (0, args, true, none)
            } else {
                (1, Seq::empty(), true, none)
            },
            BotCommand::Start => (2, Seq::empty(), false, none),
            BotCommand::Help => (3, Seq::empty(), false, none),
            BotCommand::About => (4, Seq::empty(), false, none),
            BotCommand::Stats => (5, Seq::empty(), false, none),
            BotCommand::Check => (6, Seq::empty(), false, none),
            BotCommand::Speedtest => (7, Seq::empty(), false, none),
            BotCommand::SettingsId => if is_group {
                (8, Seq::empty(), false, topic_command_spec(args))
            } else {
                (9, Seq::empty(), false, none)
            },
        }
    }
}

/// Only the owner runs the owner commands: from anyone else, `/stats`,
/// `/check`, `/speedtest` and `/settingsid` are refused, whatever their
/// arguments and wherever they are sent.
pub proof fn law_owner_commands_refused(c: BotCommand, args: Seq<char>, is_group: bool)
    requires
        owner_only(c),
    ensures
        decide_spec(c, args, false, is_group).0 == 10,
{
}

/// Decides what to do with a command from a sender (see `decide_spec`).
pub fn decide_command(cmd: &ParsedCommand, sender_id: i64, owner_id: i64, is_group: bool) -> (r: CommandAction)
    ensures
        action_view(r) == decide_spec(cmd.command, cmd.args@, sender_id == owner_id, is_group),
{
    let c = cmd.command;
    let is_owner = sender_id == owner_id;
    if (c == BotCommand::Stats || c == BotCommand::Check || c == BotCommand::Speedtest || c == BotCommand::SettingsId) && !is_owner {
        return CommandAction::PermissionDenied;
    }
    let has_args = !cmd.args.as_str().is_empty();
    match c {
        BotCommand::Download => if has_args {
            CommandAction::Download { url: cmd.args.clone(), audio: false }
        } else {
            CommandAction::DownloadUsage { audio: false }
        },
        BotCommand::Audio => if has_args {
            CommandAction::Download { url: cmd.args.clone(), audio: true }
        } else {
            CommandAction::DownloadUsage { audio: true }
        },
        BotCommand::Start => CommandAction::Start,
        BotCommand::Help => CommandAction::Help,
        BotCommand::About => CommandAction::About,
        BotCommand::Stats => CommandAction::Stats,
        BotCommand::Check => CommandAction::Check,
        BotCommand::Speedtest => CommandAction::Speedtest,
        BotCommand::SettingsId => if is_group {
            CommandAction::Topics(parse_topic_command(cmd.args.as_str()))
        } else {
            CommandAction::GroupOnly
        },
    }
}

} // verus!

verus! {

/// What a button press asks for.
#[derive(Debug, PartialEq, Eq)]
pub enum CallbackAction {
    /// Download the pending link `id` in `format`.
    Download { format: String, id: String },
    /// Drop the pending link `id`.
    Cancel { id: String },
    ShowStart,
    ShowHelp,
    ShowAbout,
    /// Data that the bot does not act on.
    Ignore,
}

/// The view of a button action.
pub open spec fn callback_view(a: CallbackAction) -> (int, Seq<char>, Seq<char>) {
    match a {
        CallbackAction::Download { format, id } => (0, format@, id@),
        CallbackAction::Cancel { id } => (1, Seq::empty(), id@),
        CallbackAction::ShowStart => (2, Seq::empty(), Seq::empty()),
        CallbackAction::ShowHelp => (3, Seq::empty(), Seq::empty()),
        CallbackAction::ShowAbout => (4, Seq::empty(), Seq::empty()),
        CallbackAction::Ignore => (5, Seq::empty(), Seq::empty()),
    }
}

/// `dl:<format>:<id>` with exactly three `:`-separated parts downloads (or,
/// for the format `cancel`, drops) the pending link; `cmd:start`,
/// `cmd:help` and `cmd:about` show those pages; anything else is ignored.
pub open spec fn callback_spec(data: Seq<char>) -> (int, Seq<char>, Seq<char>) {
    if "dl:"@.is_prefix_of(data) {
        let parts = split_spec(data, ':');
        if parts.len() == 3 {
            if parts[1] == "cancel"@ {
                (1, Seq::empty(), parts[2])
            } else {
                (0, parts[1], parts[2])
            }
        } else {
            (5, Seq::empty(), Seq::empty())
        }
    } else if data == "cmd:start"@ {
        (2, Seq::empty(), Seq::empty())
    } else if data == "cmd:help"@ {
        (3, Seq::empty(), Seq::empty())
    } else if data == "cmd:about"@ {
        (4, Seq::empty(), Seq::empty())
    } else {
        (5, Seq::empty(), Seq::empty())
    }
}

/// Reads the data of a pressed button (see `callback_spec`).
pub fn parse_callback(data: &str) -> (r: CallbackAction)
    ensures
        callback_view(r) == callback_spec(data@),
{
    let cs = chars_of(data);
    let is_dl = cs.len() >= 3 && cs[0] == 'd' && cs[1] == 'l' && cs[2] == ':';
    proof {
        reveal_strlit("dl:");
        if is_dl {
            assert("dl:"@.is_prefix_of(data@));
        } else if "dl:"@.is_prefix_of(data@) {
            assert(data@[0] == "dl:"@[0]);
            assert(data@[1] == "dl:"@[1]);
            assert(data@[2] == "dl:"@[2]);
        }
    }
    if is_dl {
        let parts = split_char(data, ':');
        if parts.len() == 3 {
            if str_eq(parts[1].as_str(), "cancel") {
                return CallbackAction::Cancel { id: parts[2].clone() };
            } else {
                return CallbackAction::Download { format: parts[1].clone(), id: parts[2].clone() };
            }
        }
        return CallbackAction::Ignore;
    }
    if str_eq(data, "cmd:start") {
        CallbackAction::ShowStart
    } else if str_eq(data, "cmd:help") {
        CallbackAction::ShowHelp
    } else if str_eq(data, "cmd:about") {
        CallbackAction::ShowAbout
    } else {
        CallbackAction::Ignore
    }
}

/// The data of the button that downloads pending link `id` in `format`.
pub open spec fn button_data(format: Seq<char>, id: Seq<char>) -> Seq<char> {
    "dl:"@ + format + ":"@ + id
}

/// One button: its label and its data.
pub struct Button {
    pub label: String,
    pub data: String,
}

/// The view of a row of buttons.
pub open spec fn row_view(r: Vec<Button>) -> Seq<(Seq<char>, Seq<char>)> {
    r@.map_values(|b: Button| (b.label@, b.data@))
}

/// The view of a keyboard.
pub open spec fn keyboard_view(k: Vec<Vec<Button>>) -> Seq<Seq<(Seq<char>, Seq<char>)>> {
    k@.map_values(|r: Vec<Button>| row_view(r))
}

/// The keyboard that offers a link's media: a row with Video and Photo (those
/// the link has), a row with Download All (when it has both) and Audio (when
/// it has sound), and a Cancel row; empty rows are left out.
pub open spec fn keyboard_spec(v: bool, p: bool, a: bool, id: Seq<char>) -> Seq<Seq<(Seq<char>, Seq<char>)>> {
    let media = (if v { seq![("Video"@, button_data("video"@, id))] } else { Seq::empty() }) + (if p {
        seq![("Photo"@, button_data("photo"@, id))]
    } else {
        Seq::empty()
    });
    let extra = (if v && p { seq![("Download All"@, button_data("both"@, id))] } else { Seq::empty() }) + (if a {
        seq![("Audio"@, button_data("audio"@, id))]
    } else {
        Seq::empty()
    });
    let rows1: Seq<Seq<(Seq<char>, Seq<char>)>> = if media.len() > 0 { seq![media] } else { Seq::empty() };
    let rows2: Seq<Seq<(Seq<char>, Seq<char>)>> = if extra.len() > 0 { seq![extra] } else { Seq::empty() };
    rows1 + rows2 + seq![seq![("Cancel"@, button_data("cancel"@, id))]]
}

fn button(label: &str, format: &str, id: &str) -> (r: Button)
    ensures
        r.label@ == label@,
        r.data@ == button_data(format@, id@),
{
    let mut data = "dl:".to_owned();
    data.append(format);
    data.append(":");
    data.append(id);
    Button { label: label.to_owned(), data }
}

/// The buttons that offer a link's media (see `keyboard_spec`); `None` when
/// the link has no media at all.
pub fn download_keyboard(has_video: bool, has_photo: bool, has_audio: bool, id: &str) -> (r: Option<Vec<Vec<Button>>>)
    ensures
        !has_video && !has_photo && !has_audio ==> r is None,
        has_video || has_photo || has_audio ==> (r matches Some(k) && keyboard_view(k) == keyboard_spec(has_video, has_photo, has_audio, id@)),
{
    if !has_video && !has_audio && !has_photo {
        return None;
    }
    let mut rows: Vec<Vec<Button>> = Vec::new();
    let mut media: Vec<Button> = Vec::new();
    if has_video {
        media.push(button("Video", "video", id));
    }
    if has_photo {
        media.push(button("Photo", "photo", id));
    }
    let mut extra: Vec<Button> = Vec::new();
    if has_video && has_photo {
        extra.push(button("Download All", "both", id));
    }
    if has_audio {
        extra.push(button("Audio", "audio", id));
    }
    let ghost mv = row_view(media);
    let ghost ev = row_view(extra);
    let ghost spec = keyboard_spec(has_video, has_photo, has_audio, id@);
    assert(mv =~= (if has_video { seq![("Video"@, button_data("video"@, id@))] } else { Seq::empty() }) + (if has_photo {
        seq![("Photo"@, button_data("photo"@, id@))]
    } else {
        Seq::empty()
    }));
    assert(ev =~= (if has_video && has_photo { seq![("Download All"@, button_data("both"@, id@))] } else { Seq::empty() }) + (if has_audio {
        seq![("Audio"@, button_data("audio"@, id@))]
    } else {
        Seq::empty()
    }));
    let ghost r1: Seq<Seq<(Seq<char>, Seq<char>)>> = if mv.len() > 0 { seq![mv] } else { Seq::empty() };
    let ghost r2: Seq<Seq<(Seq<char>, Seq<char>)>> = if ev.len() > 0 { seq![ev] } else { Seq::empty() };
    if media.len() > 0 {
        rows.push(media);
    }
    assert(keyboard_view(rows) =~= r1);
    if extra.len() > 0 {
        rows.push(extra);
    }
    assert(keyboard_view(rows) =~= r1 + r2);
    let mut cancel: Vec<Button> = Vec::new();
    cancel.push(button("Cancel", "cancel", id));
    let ghost cv = row_view(cancel);
    assert(cv =~= seq![("Cancel"@, button_data("cancel"@, id@))]);
    rows.push(cancel);
    assert(keyboard_view(rows) =~= r1 + r2 + seq![cv]);
    assert(keyboard_view(rows) =~= spec);
    Some(rows)
}

} // verus!

verus! {

/// Pressing an offered download button asks for the format and the pending
/// link that the button was made with, when neither holds a `:`.
pub proof fn law_button_round_trip(format: Seq<char>, id: Seq<char>)
    requires
        !format.contains(':'),
        !id.contains(':'),
    ensures
        format == "cancel"@ ==> callback_spec(button_data(format, id)) == (1int, Seq::<char>::empty(), id),
        format != "cancel"@ ==> callback_spec(button_data(format, id)) == (0int, format, id),
{
    reveal_strlit("dl:");
    reveal_strlit(":");
    let dl = seq!['d', 'l'];
    let data = button_data(format, id);
    assert(data =~= ((dl.push(':') + format).push(':')) + id);
    assert(!dl.contains(':')) by {
        if dl.contains(':') {
            let k = choose|k: int| 0 <= k < dl.len() && dl[k] == ':';
        }
    }
    assert(Seq::<char>::empty() + dl =~= dl);
    lemma_split_scan_append_core(Seq::empty(), dl, ':');
    lemma_split_scan_sep(dl, ':');
    lemma_split_scan_append_core(dl.push(':'), format, ':');
    lemma_split_scan_sep(dl.push(':') + format, ':');
    lemma_split_scan_append_core((dl.push(':') + format).push(':'), id, ':');
    let parts = split_spec(data, ':');
    assert(Seq::<char>::empty() + format =~= format);
    assert(Seq::<char>::empty() + id =~= id);
    assert(parts =~= seq![dl, format, id]);
    assert("dl:"@.is_prefix_of(data));
}

} // verus!

verus! {

/// A word that is a supported link: it starts with `http://` or `https://`,
/// the URL parser accepts it, and an endpoint serves its serialization.
pub open spec fn supported_link(w: Seq<char>) -> bool {
    &&& ("http://"@.is_prefix_of(w) || "https://"@.is_prefix_of(w))
    &&& url_parses(w)
    &&& AstraEndpoint::can_handle_spec(url_serialization(w))
}

/// The first word of a message that is a supported link.
pub open spec fn first_link_spec(ws: Seq<Seq<char>>) -> Option<Seq<char>>
    decreases ws.len(),
{
    if ws.len() == 0 {
        None
    } else if supported_link(ws[0]) {
        Some(ws[0])
    } else {
        first_link_spec(ws.drop_first())
    }
}

fn has_prefix(cs: &Vec<char>, p: &str) -> (r: bool)
    ensures
        r == p@.is_prefix_of(cs@),
{
    let pc = chars_of(p);
    if pc.len() > cs.len() {
        return false;
    }
    let mut i: usize = 0;
    while i < pc.len()
        invariant
            pc@ == p@,
            pc@.len() <= cs@.len(),
            i <= pc@.len(),
            forall|k: int| 0 <= k < i ==> cs@[k] == pc@[k],
        decreases pc@.len() - i,
    {
        if cs[i] != pc[i] {
            proof {
                if p@.is_prefix_of(cs@) {
                    assert(cs@.subrange(0, p@.len() as int)[i as int] == cs@[i as int]);
                }
            }
            return false;
        }
        i = i + 1;
    }
    assert(cs@.subrange(0, p@.len() as int) =~= p@);
    true
}

fn is_supported_link(w: &str) -> (r: bool)
    ensures
        r == supported_link(w@),
{
    let cs = chars_of(w);
    if !(has_prefix(&cs, "http://") || has_prefix(&cs, "https://")) {
        return false;
    }
    match parse_url(w) {
        None => false,
        Some(p) => AstraEndpoint::can_handle(p.serialized.as_str()),
    }
}

/// The first word of a message that is a supported link (see
/// `supported_link`), returned as it stands in the message.
pub fn first_supported_link(text: &str) -> (r: Option<String>)
    ensures
        r.deep_view() == first_link_spec(words(text@)),
{
    let ws = split_words(text);
    let mut i: usize = 0;
    assert(ws.deep_view().skip(0) =~= ws.deep_view());
    while i < ws.len()
        invariant
            ws.deep_view() == words(text@),
            i <= ws@.len(),
            first_link_spec(words(text@)) == first_link_spec(ws.deep_view().skip(i as int)),
        decreases ws@.len() - i,
    {
        assert(ws.deep_view().skip(i as int)[0] == ws@[i as int]@);
        assert(ws.deep_view().skip(i as int).drop_first() =~= ws.deep_view().skip(i + 1));
        if is_supported_link(ws[i].as_str()) {
            return Some(ws[i].clone());
        }
        i = i + 1;
    }
    assert(ws.deep_view().skip(i as int).len() == 0);
    None
}

/// How a sender is named in a caption: `@username`, else a mention link that
/// shows the (escaped) first name, or "User" when there is none.
pub open spec fn sender_mention_spec(username: Option<Seq<char>>, first_name: Option<Seq<char>>, user_id: i64) -> Seq<char> {
    match username {
        Some(u) => "@"@ + u,
        None => {
            let name = match first_name {
                Some(f) => f,
                None => "User"@,
            };
            "<a href=\"tg://user?id="@ + crate::text::int_decimal(user_id as int) + "\">"@
                + crate::links::html_escape_spec(name) + "</a>"@
        },
    }
}

/// Names a sender in a caption (see `sender_mention_spec`).
pub fn sender_mention(username: Option<&str>, first_name: Option<&str>, user_id: i64) -> (r: String)
    ensures
        r@ == sender_mention_spec(
            match username { Some(u) => Some(u@), None => None },
            match first_name { Some(f) => Some(f@), None => None },
            user_id,
        ),
{
    match username {
        Some(u) => {
            let mut s = "@".to_owned();
            s.append(u);
            s
        },
        None => {
            let name = match first_name {
                Some(f) => f,
                None => "User",
            };
            let mut s = "<a href=\"tg://user?id=".to_owned();
            let id = crate::text::int_string(user_id);
            s.append(id.as_str());
            s.append("\">");
            let esc = crate::links::html_escape(name);
            s.append(esc.as_str());
            s.append("</a>");
            s
        },
    }
}

} // verus!

verus! {

/// What the bot does about a pressed button.
#[derive(Debug, PartialEq, Eq)]
pub enum ButtonEffect {
    /// Answer with this alert, and nothing more.
    Alert { text: String },
    /// Answer, delete the buttons' message, drop the pending link `id`, and
    /// download `url` in `format`.
    StartDownload { id: String, url: String, format: String },
    /// Answer, delete the buttons' message and drop the pending link `id`.
    Dismiss { id: String },
    /// Answer and show the start page in the buttons' message.
    ShowStart,
    /// Answer and show the help page in the buttons' message.
    ShowHelp,
    /// Answer and show the about page in the buttons' message.
    ShowAbout,
    /// Nothing.
    Nothing,
}

/// The view of a button's effect.
pub open spec fn effect_view(e: ButtonEffect) -> (int, Seq<char>, Seq<char>, Seq<char>) {
    match e {
        ButtonEffect::Alert { text } => (0, text@, Seq::empty(), Seq::empty()),
        ButtonEffect::StartDownload { id, url, format } => (1, id@, url@, format@),
        ButtonEffect::Dismiss { id } => (2, id@, Seq::empty(), Seq::empty()),
        ButtonEffect::ShowStart => (3, Seq::empty(), Seq::empty(), Seq::empty()),
        ButtonEffect::ShowHelp => (4, Seq::empty(), Seq::empty(), Seq::empty()),
        ButtonEffect::ShowAbout => (5, Seq::empty(), Seq::empty(), Seq::empty()),
        ButtonEffect::Nothing => (6, Seq::empty(), Seq::empty(), Seq::empty()),
    }
}

/// The alert for a button whose pending link is gone.
pub open spec fn expired_alert() -> Seq<char> {
    "Download request expired or invalid."@
}

/// What a press does, given the action's view and the link pending under
/// its id (if it is still pending): a download or a cancel whose link is
/// gone gets the expired alert; otherwise a download starts and a cancel
/// dismisses, each dropping the link; the pages are shown; anything else
/// does nothing.
pub open spec fn button_effect_spec(a: (int, Seq<char>, Seq<char>), pending: Option<Seq<char>>) -> (
    int,
    Seq<char>,
    Seq<char>,
    Seq<char>,
) {
    let (tag, format, id) = a;
    if tag == 0 || tag == 1 {
        match pending {
            None => (0, expired_alert(), Seq::empty(), Seq::empty()),
            Some(url) => if tag == 0 {
                (1, id, url, format)
            } else {
                (2, id, Seq::empty(), Seq::empty())
            },
        }
    } else if tag == 2 {
        (3, Seq::empty(), Seq::empty(), Seq::empty())
    } else if tag == 3 {
        (4, Seq::empty(), Seq::empty(), Seq::empty())
    } else if tag == 4 {
        (5, Seq::empty(), Seq::empty(), Seq::empty())
    } else {
        (6, Seq::empty(), Seq::empty(), Seq::empty())
    }
}

/// The pending link that a button refers to: the id of a download or a
/// cancel.
pub fn callback_pending_id(a: &CallbackAction) -> (r: Option<String>)
    ensures
        match r {
            Some(id) => (callback_view(*a).0 == 0 || callback_view(*a).0 == 1) && id@ == callback_view(*a).2,
            None => !(callback_view(*a).0 == 0 || callback_view(*a).0 == 1),
        },
{
    match a {
        CallbackAction::Download { id, .. } => Some(id.clone()),
        CallbackAction::Cancel { id } => Some(id.clone()),
        _ => None,
    }
}

/// What a press does (see `button_effect_spec`); `pending` is the link still
/// pending under the action's id, if any.
pub fn button_effect(action: &CallbackAction, pending: Option<String>) -> (r: ButtonEffect)
    ensures
        effect_view(r) == button_effect_spec(
            callback_view(*action),
            match pending {
                Some(u) => Some(u@),
                None => None,
            },
        ),
{
    match action {
        CallbackAction::Download { format, id } => match pending {
            None => ButtonEffect::Alert { text: String::from_str("Download request expired or invalid.") },
            Some(url) => ButtonEffect::StartDownload { id: id.clone(), url, format: format.clone() },
        },
        CallbackAction::Cancel { id } => match pending {
            None => ButtonEffect::Alert { text: String::from_str("Download request expired or invalid.") },
            Some(_) => ButtonEffect::Dismiss { id: id.clone() },
        },
        CallbackAction::ShowStart => ButtonEffect::ShowStart,
        CallbackAction::ShowHelp => ButtonEffect::ShowHelp,
        CallbackAction::ShowAbout => ButtonEffect::ShowAbout,
        CallbackAction::Ignore => ButtonEffect::Nothing,
    }
}

/// The pending links after an effect: a started download or a dismissal
/// drops the link it names; nothing else changes them.
pub open spec fn pending_after(pending: Map<Seq<char>, Seq<char>>, e: (int, Seq<char>, Seq<char>, Seq<char>)) -> Map<
    Seq<char>,
    Seq<char>,
> {
    if e.0 == 1 || e.0 == 2 {
        pending.remove(e.1)
    } else {
        pending
    }
}

/// A download or cancel button is used up by its press: afterwards its link
/// is no longer pending, whether it was (and is dropped) or was already gone
/// (and the press gets the expired alert). A download starts only for the
/// link pending under the pressed id, and no other link is touched.
pub proof fn law_button_consumes_pending(a: (int, Seq<char>, Seq<char>), pending: Map<Seq<char>, Seq<char>>)
    ensures
        ({
            let found = if pending.contains_key(a.2) {
                Some(pending[a.2])
            } else {
                None
            };
            let e = button_effect_spec(a, found);
            &&& (a.0 == 0 || a.0 == 1) ==> !pending_after(pending, e).contains_key(a.2)
            &&& (a.0 == 0 || a.0 == 1) && !pending.contains_key(a.2) ==> e == (
                0int,
                expired_alert(),
                Seq::<char>::empty(),
                Seq::<char>::empty(),
            )
            &&& e.0 == 1 ==> pending.contains_key(a.2) && e.1 == a.2 && e.2 == pending[a.2]
            &&& forall|k: Seq<char>|
                k != a.2 ==> (#[trigger] pending_after(pending, e).contains_key(k) == pending.contains_key(k))
        }),
{
}

} // verus!

verus! {

/// Each command word, with or without this bot's `@name`, starts the command
/// it names: `/dl` and `/l` download, `/mp` and `/audio` fetch audio, and
/// `/start`, `/stats`, `/check`, `/speedtest`, `/settingsid`, `/help` and
/// `/about` their pages; the arguments are the rest of the message.
pub proof fn law_command_words(text: Seq<char>, bot: Seq<char>, name: Seq<char>)
    requires
        text.len() > 0,
        text[0] == '/',
        addressed(first_word(text), bot) == (name, true),
    ensures
        (name == "/dl"@ || name == "/l"@) ==> parse_command_spec(text, bot) == Some(
            (BotCommand::Download, command_args(text)),
        ),
        (name == "/mp"@ || name == "/audio"@) ==> parse_command_spec(text, bot) == Some(
            (BotCommand::Audio, command_args(text)),
        ),
        name == "/start"@ ==> parse_command_spec(text, bot) == Some((BotCommand::Start, command_args(text))),
        name == "/stats"@ ==> parse_command_spec(text, bot) == Some((BotCommand::Stats, command_args(text))),
        name == "/check"@ ==> parse_command_spec(text, bot) == Some((BotCommand::Check, command_args(text))),
        name == "/speedtest"@ ==> parse_command_spec(text, bot) == Some(
            (BotCommand::Speedtest, command_args(text)),
        ),
        name == "/settingsid"@ ==> parse_command_spec(text, bot) == Some(
            (BotCommand::SettingsId, command_args(text)),
        ),
        name == "/help"@ ==> parse_command_spec(text, bot) == Some((BotCommand::Help, command_args(text))),
        name == "/about"@ ==> parse_command_spec(text, bot) == Some((BotCommand::About, command_args(text))),
{
    reveal_strlit("/dl");
    reveal_strlit("/l");
    reveal_strlit("/mp");
    reveal_strlit("/audio");
    reveal_strlit("/start");
    reveal_strlit("/stats");
    reveal_strlit("/check");
    reveal_strlit("/speedtest");
    reveal_strlit("/settingsid");
    reveal_strlit("/help");
    reveal_strlit("/about");
    assert("/speedtest"@.len() == 10 && "/settingsid"@.len() == 11 && "/help"@.len() == 5);
    assert("/dl"@.len() == 3 && "/l"@.len() == 2 && "/mp"@.len() == 3 && "/audio"@.len() == 6);
    assert("/start"@.len() == 6 && "/stats"@.len() == 6 && "/check"@.len() == 6 && "/about"@.len() == 6);
    assert("/dl"@[1] != "/mp"@[1]);
    assert("/audio"@[1] != "/start"@[1]);
    assert("/audio"@[1] != "/stats"@[1]);
    assert("/audio"@[1] != "/check"@[1]);
    assert("/audio"@[2] != "/about"@[2]);
    assert("/start"@[4] != "/stats"@[4]);
    assert("/start"@[1] != "/check"@[1]);
    assert("/start"@[1] != "/about"@[1]);
    assert("/stats"@[1] != "/check"@[1]);
    assert("/stats"@[1] != "/about"@[1]);
    assert("/check"@[1] != "/about"@[1]);
}

/// `/audio` and `/mp` are one command: a message that starts with either
/// word (all else alike) is read the same way.
pub proof fn law_audio_is_mp(t1: Seq<char>, t2: Seq<char>, bot: Seq<char>)
    requires
        t1.len() > 0 && t1[0] == '/',
        t2.len() > 0 && t2[0] == '/',
        addressed(first_word(t1), bot) == ("/audio"@, true),
        addressed(first_word(t2), bot) == ("/mp"@, true),
        command_args(t1) == command_args(t2),
    ensures
        parse_command_spec(t1, bot) == parse_command_spec(t2, bot),
        parse_command_spec(t1, bot) matches Some((c, _)) && c == BotCommand::Audio,
{
    law_command_words(t1, bot, "/audio"@);
    law_command_words(t2, bot, "/mp"@);
}

} // verus!

verus! {

/// Some button of the keyboard carries `data`.
pub open spec fn offers(k: Seq<Seq<(Seq<char>, Seq<char>)>>, data: Seq<char>) -> bool {
    exists|i: int, j: int| 0 <= i < k.len() && 0 <= j < k[i].len() && #[trigger] k[i][j].1 == data
}

proof fn lemma_button_data_letter(f: Seq<char>, id: Seq<char>)
    requires
        f.len() > 0,
    ensures
        button_data(f, id).len() > 3,
        button_data(f, id)[3] == f[0],
{
    reveal_strlit("dl:");
    reveal_strlit(":");
}

/// The keyboard offers a format's button exactly when the link has that
/// medium: `dl:video:<id>` with video, `dl:photo:<id>` with photos,
/// `dl:audio:<id>` with sound, `dl:both:<id>` with video and photos; and it
/// always offers `dl:cancel:<id>`.
pub proof fn law_keyboard_offers(v: bool, p: bool, a: bool, id: Seq<char>)
    ensures
        offers(keyboard_spec(v, p, a, id), "dl:video:"@ + id) == v,
        offers(keyboard_spec(v, p, a, id), "dl:photo:"@ + id) == p,
        offers(keyboard_spec(v, p, a, id), "dl:audio:"@ + id) == a,
        offers(keyboard_spec(v, p, a, id), "dl:both:"@ + id) == (v && p),
        offers(keyboard_spec(v, p, a, id), "dl:cancel:"@ + id),
{
    reveal_strlit("dl:");
    reveal_strlit(":");
    reveal_strlit("video");
    reveal_strlit("photo");
    reveal_strlit("audio");
    reveal_strlit("both");
    reveal_strlit("cancel");
    reveal_strlit("dl:video:");
    reveal_strlit("dl:photo:");
    reveal_strlit("dl:audio:");
    reveal_strlit("dl:both:");
    reveal_strlit("dl:cancel:");
    let dv = button_data("video"@, id);
    let dp = button_data("photo"@, id);
    let da = button_data("audio"@, id);
    let db = button_data("both"@, id);
    let dc = button_data("cancel"@, id);
    assert(dv =~= "dl:video:"@ + id);
    assert(dp =~= "dl:photo:"@ + id);
    assert(da =~= "dl:audio:"@ + id);
    assert(db =~= "dl:both:"@ + id);
    assert(dc =~= "dl:cancel:"@ + id);
    lemma_button_data_letter("video"@, id);
    lemma_button_data_letter("photo"@, id);
    lemma_button_data_letter("audio"@, id);
    lemma_button_data_letter("both"@, id);
    lemma_button_data_letter("cancel"@, id);
    let k = keyboard_spec(v, p, a, id);
    let media = (if v { seq![("Video"@, dv)] } else { Seq::empty() }) + (if p {
        seq![("Photo"@, dp)]
    } else {
        Seq::empty()
    });
    let extra = (if v && p { seq![("Download All"@, db)] } else { Seq::empty() }) + (if a {
        seq![("Audio"@, da)]
    } else {
        Seq::empty()
    });
    let rows1: Seq<Seq<(Seq<char>, Seq<char>)>> = if media.len() > 0 { seq![media] } else { Seq::empty() };
    let rows2: Seq<Seq<(Seq<char>, Seq<char>)>> = if extra.len() > 0 { seq![extra] } else { Seq::empty() };
    assert(k == rows1 + rows2 + seq![seq![("Cancel"@, dc)]]);
    // Every button's data is one of the five, told apart by its fourth letter.
    assert forall|i: int, j: int| 0 <= i < k.len() && 0 <= j < k[i].len() implies {
        let d = #[trigger] k[i][j].1;
        (d == dv && v) || (d == dp && p) || (d == da && a) || (d == db && v && p) || d == dc
    } by {
        if i < rows1.len() {
            assert(k[i] == media);
        } else if i < rows1.len() + rows2.len() {
            assert(k[i] == extra);
        } else {
            assert(k[i] == seq![("Cancel"@, dc)]);
        }
    }
    // Witnesses for the buttons that are there.
    let last = k.len() - 1;
    assert(k[last] == seq![("Cancel"@, dc)]);
    assert(k[last][0].1 == dc);
    if v {
        assert(k[0] == media);
        assert(k[0][0].1 == dv);
    }
    if p {
        assert(k[0] == media);
        assert(k[0][media.len() - 1].1 == dp);
    }
    if v && p {
        assert(k[1] == extra);
        assert(k[1][0].1 == db);
    }
    if a {
        assert(k[rows1.len() as int] == extra);
        assert(k[rows1.len() as int][extra.len() - 1].1 == da);
    }
}

} // verus!
