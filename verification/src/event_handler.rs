//! The decisions taken on gateway events: the `honeypot-set` command, deleted
//! channels and guilds, and messages written in a honeypot channel.
//!
//! Each handler takes the plain facts of an event and the guild settings, and
//! returns what is to be done; sending requests is left to the caller.
use vstd::prelude::*;
use vstd::std_specs::hash::{group_hash_axioms, spec_hash_map_iter};
use vstd::std_specs::iter::IteratorSpec;
use vstd::string::StringExecFns;
use crate::config::{
    chars_equal, config_text, lemma_config_file_roundtrip, lists_entries, parse_action,
    parse_config, ActionType, GuildConfigBody, GuildConfigMap,
};
use crate::text::{decimal, lemma_decimal_parse_roundtrip, parse_u64, push_decimal, str_chars};

verus! {

broadcast use group_hash_axioms;

/// The value of an option of a slash command, as far as the handler reads it.
pub enum CommandOptionValue {
    Channel(u64),
    Text(String),
    Other,
}

/// One option of a slash command, by name.
pub struct CommandOption {
    pub name: String,
    pub value: CommandOptionValue,
}

/// The first option named `name`.
pub open spec fn find_option(options: Seq<CommandOption>, name: Seq<char>) -> Option<CommandOption>
    decreases options.len(),
{
    if options.len() == 0 {
        None
    } else if options[0].name@ == name {
        Some(options[0])
    } else {
        find_option(options.drop_first(), name)
    }
}

/// The index of the first option named `name`.
pub fn find_option_index(options: &Vec<CommandOption>, name: &str) -> (r: Option<usize>)
    ensures
        match r {
            Some(i) => i < options@.len() && find_option(options@, name@) == Some(options@[i as int]),
            None => find_option(options@, name@) is None,
        },
{
    let wanted = str_chars(name);
    let mut i: usize = 0;
    assert(options@.skip(0) =~= options@);
    while i < options.len()
        invariant
            i <= options@.len(),
            wanted@ == name@,
            find_option(options@, name@) == find_option(options@.skip(i as int), name@),
        decreases options.len() - i,
    {
        let option_name = str_chars(options[i].name.as_str());
        assert(options@.skip(i as int)[0] == options@[i as int]);
        if chars_equal(&option_name, &wanted) {
            return Some(i);
        }
        assert(options@.skip(i as int).drop_first() =~= options@.skip(i + 1));
        i += 1;
    }
    None
}

/// The settings that a `honeypot-set` command asks for.
#[derive(Debug, Clone, Copy, PartialEq, Eq, Structural)]
pub struct HoneypotSetRequest {
    pub channel_id: u64,
    pub action_type: ActionType,
    pub log_channel: Option<u64>,
}

/// The request that the options of a `honeypot-set` command make: the first
/// `channel` option must name a channel and the first `type` option must be
/// text (an unknown action name means `Ban`); the first `log_channel` option,
/// if it names a channel, is the log channel. Without those two options the
/// command is malformed (`None`).
pub open spec fn spec_read_honeypot_set(options: Seq<CommandOption>) -> Option<HoneypotSetRequest> {
    match (find_option(options, "channel"@), find_option(options, "type"@)) {
        (Some(channel), Some(kind)) => match (channel.value, kind.value) {
            (CommandOptionValue::Channel(channel_id), CommandOptionValue::Text(action)) => Some(
                HoneypotSetRequest {
                    channel_id,
                    action_type: match parse_action(action@) {
                        Ok(a) => a,
                        Err(_) => ActionType::Ban,
                    },
                    log_channel: match find_option(options, "log_channel"@) {
                        Some(log) => match log.value {
                            CommandOptionValue::Channel(id) => Some(id),
                            _ => None,
                        },
                        None => None,
                    },
                },
            ),
            _ => None,
        },
        _ => None,
    }
}

/// Reads the options of a `honeypot-set` command.
pub fn read_honeypot_set(options: &Vec<CommandOption>) -> (r: Option<HoneypotSetRequest>)
    ensures
        r == spec_read_honeypot_set(options@),
{
    let channel_at = find_option_index(options, "channel");
    let channel_id = match channel_at {
        Some(i) => match &options[i].value {
            CommandOptionValue::Channel(id) => *id,
            _ => return None,
        },
        None => return None,
    };
    let kind_at = find_option_index(options, "type");
    let action_type = match kind_at {
        Some(i) => match &options[i].value {
            CommandOptionValue::Text(action) => match ActionType::from_str(action.as_str()) {
                Ok(a) => a,
                Err(_) => ActionType::Ban,
            },
            _ => return None,
        },
        None => return None,
    };
    let log_at = find_option_index(options, "log_channel");
    let log_channel = match log_at {
        Some(i) => match &options[i].value {
            CommandOptionValue::Channel(id) => Some(*id),
            _ => None,
        },
        None => None,
    };
    Some(HoneypotSetRequest { channel_id, action_type, log_channel })
}


/// The settings after a `honeypot-set` command in guild `guild_id`: the
/// guild's entry is removed for `Disabled`, and replaced otherwise.
pub open spec fn config_after_set(
    m: Map<u64, GuildConfigBody>,
    guild_id: u64,
    req: HoneypotSetRequest,
) -> Map<u64, GuildConfigBody> {
    if req.action_type == ActionType::Disabled {
        m.remove(guild_id)
    } else {
        m.insert(
            guild_id,
            GuildConfigBody {
                honeypot_channel: req.channel_id,
                log_channel: req.log_channel,
                action_type: req.action_type,
            },
        )
    }
}

/// The reply to a `honeypot-set` command.
pub open spec fn set_response(req: HoneypotSetRequest) -> Seq<char> {
    if req.action_type == ActionType::Disabled {
        "Honeypot configuration updated: Disabled honeypot for this server."@
    } else {
        "Honeypot configuration updated: Will **"@ + req.action_type.name()
            + "** anyone who types in <#"@ + decimal(req.channel_id as nat) + "> "@ + match req.log_channel {
            Some(log) => "and log actions to <#"@ + decimal(log as nat) + ">"@,
            None => "and won't log actions"@,
        } + "."@
    }
}

/// Applies a `honeypot-set` command of guild `guild_id` and returns the reply.
pub fn apply_honeypot_set(config: &mut GuildConfigMap, guild_id: u64, req: HoneypotSetRequest) -> (response: String)
    ensures
        final(config)@ == config_after_set(old(config)@, guild_id, req),
        response@ == set_response(req),
{
    if req.action_type == ActionType::Disabled {
        config.remove(&guild_id);
        "Honeypot configuration updated: Disabled honeypot for this server.".to_owned()
    } else {
        config.insert(
            guild_id,
            GuildConfigBody {
                honeypot_channel: req.channel_id,
                log_channel: req.log_channel,
                action_type: req.action_type,
            },
        );
        let mut s = "Honeypot configuration updated: Will **".to_owned();
        let name = req.action_type.to_string();
        s.append(name.as_str());
        s.append("** anyone who types in <#");
        push_decimal(&mut s, req.channel_id);
        s.append("> ");
        match req.log_channel {
            Some(log) => {
                s.append("and log actions to <#");
                push_decimal(&mut s, log);
                s.append(">");
            },
            None => {
                s.append("and won't log actions");
            },
        }
        s.append(".");
        assert(s@ =~= set_response(req));
        s
    }
}

/// What the handler of an interaction did.
pub enum InteractionOutcome {
    /// Not a command of this bot in a guild: nothing to do.
    Ignored,
    /// A `honeypot-set` command without its required options.
    Malformed,
    /// The settings were changed; the new settings are to be saved and
    /// `response` sent back.
    Updated { response: String },
}

/// Handles a slash command `command_name` with `options`, sent in guild
/// `guild_id` (none outside a guild). Only `honeypot-set` in a guild is acted
/// on.
pub fn handle_interaction(
    config: &mut GuildConfigMap,
    guild_id: Option<u64>,
    command_name: &str,
    options: &Vec<CommandOption>,
) -> (r: InteractionOutcome)
    ensures
        guild_id is None || command_name@ != "honeypot-set"@ ==> r is Ignored && final(config)@ == old(config)@,
        guild_id matches Some(g) ==> (command_name@ == "honeypot-set"@ ==> match spec_read_honeypot_set(options@) {
            None => r is Malformed && final(config)@ == old(config)@,
            Some(req) => r matches InteractionOutcome::Updated { response } && response@ == set_response(req)
                && final(config)@ == config_after_set(old(config)@, g, req),
        }),
{
    let g = match guild_id {
        Some(g) => g,
        None => return InteractionOutcome::Ignored,
    };
    let name = str_chars(command_name);
    let wanted = str_chars("honeypot-set");
    if !chars_equal(&name, &wanted) {
        return InteractionOutcome::Ignored;
    }
    match read_honeypot_set(options) {
        None => InteractionOutcome::Malformed,
        Some(req) => {
            let response = apply_honeypot_set(config, g, req);
            InteractionOutcome::Updated { response }
        },
    }
}

/// The settings after the channel `channel_id` was deleted: every guild whose
/// honeypot channel it was loses its entry.
pub open spec fn config_without_channel(m: Map<u64, GuildConfigBody>, channel_id: u64) -> Map<
    u64,
    GuildConfigBody,
> {
    Map::new(
        |k: u64| m.contains_key(k) && m[k].honeypot_channel != channel_id,
        |k: u64| m[k],
    )
}

/// Handles the deletion of channel `channel_id`.
pub fn handle_channel_delete(config: &mut GuildConfigMap, channel_id: u64)
    ensures
        final(config)@ == config_without_channel(old(config)@, channel_id),
{
    let mut doomed: Vec<u64> = Vec::new();
    let ghost m = config@;
    let entries = config.iter();
    for (guild_id, body) in it: entries
        invariant
            m == config@,
            it.seq() == spec_hash_map_iter(config).remaining(),
            forall|i: int| 0 <= i < it.seq().len() ==> m.contains_key(*it.seq()[i].0) && m[*it.seq()[i].0] == *it.seq()[i].1,
            forall|j: int| 0 <= j < doomed@.len() ==> m.contains_key(#[trigger] doomed@[j]) && m[doomed@[j]].honeypot_channel == channel_id,
            forall|i: int| 0 <= i < it.index() && (*it.seq()[i].1).honeypot_channel == channel_id ==> doomed@.contains(*it.seq()[i].0),
    {
        let ghost before = doomed@;
        if body.honeypot_channel == channel_id {
            doomed.push(*guild_id);
            assert(doomed@[doomed@.len() - 1] == *guild_id);
        }
        assert forall|x: u64| before.contains(x) implies doomed@.contains(x) by {
            let i = choose|i: int| 0 <= i < before.len() && before[i] == x;
            assert(doomed@[i] == x);
        }
    }
    assert forall|k: u64| m.contains_key(k) && m[k].honeypot_channel == channel_id implies doomed@.contains(k) by {
        assert(spec_hash_map_iter(config).remaining().contains((&k, &m[k])));
    }
    let mut j: usize = 0;
    while j < doomed.len()
        invariant
            j <= doomed@.len(),
            forall|i: int| 0 <= i < doomed@.len() ==> m.contains_key(#[trigger] doomed@[i]) && m[doomed@[i]].honeypot_channel == channel_id,
            forall|k: u64| m.contains_key(k) && m[k].honeypot_channel == channel_id ==> doomed@.contains(k),
            config@ == Map::new(
                |k: u64| m.contains_key(k) && !doomed@.take(j as int).contains(k),
                |k: u64| m[k],
            ),
        decreases doomed.len() - j,
    {
        let k = doomed[j];
        config.remove(&k);
        let ghost t0 = doomed@.take(j as int);
        let ghost t1 = doomed@.take(j + 1);
        assert forall|x: u64| t1.contains(x) <==> (t0.contains(x) || x == k) by {
            if t0.contains(x) {
                let i = choose|i: int| 0 <= i < t0.len() && t0[i] == x;
                assert(t1[i] == x);
            }
            if x == k {
                assert(t1[j as int] == k);
            }
            if t1.contains(x) {
                let i = choose|i: int| 0 <= i < t1.len() && t1[i] == x;
                if i < j {
                    assert(t0[i] == x);
                }
            }
        }
        assert(config@ =~= Map::new(
            |k: u64| m.contains_key(k) && !doomed@.take(j + 1).contains(k),
            |k: u64| m[k],
        ));
        j += 1;
    }
    assert(doomed@.take(doomed@.len() as int) =~= doomed@);
    assert(config@ =~= config_without_channel(m, channel_id));
}

/// Handles the bot leaving (or losing) guild `guild_id`.
pub fn handle_guild_delete(config: &mut GuildConfigMap, guild_id: u64)
    ensures
        final(config)@ == old(config)@.remove(guild_id),
{
    config.remove(&guild_id);
}


/// What a message says of the interaction that produced it.
#[derive(Debug, Clone, Copy, PartialEq, Eq, Structural)]
pub struct InteractionMetadataInfo {
    /// The user who invoked the interaction.
    pub user: u64,
}

/// The facts of a new message that the honeypot looks at.
#[derive(Debug, Clone, Copy, PartialEq, Eq, Structural)]
pub struct MessageInfo {
    pub author_id: u64,
    pub author_is_bot: bool,
    pub guild_id: Option<u64>,
    pub channel_id: u64,
    /// The application that sent the message, for messages of applications.
    pub application_id: Option<u64>,
    /// Present when the message answers an interaction.
    pub interaction_metadata: Option<InteractionMetadataInfo>,
}

/// How someone who wrote in the honeypot channel is punished.
#[derive(Debug, Clone, Copy, PartialEq, Eq, Structural)]
pub enum PunishmentKind {
    /// Banned for good.
    Ban,
    /// Banned and at once unbanned, which deletes their recent messages.
    Softban,
}

/// A punishment to carry out.
#[derive(Debug, Clone, Copy, PartialEq, Eq, Structural)]
pub struct Punishment {
    pub guild_id: u64,
    pub user_id: u64,
    pub kind: PunishmentKind,
    pub log_channel: Option<u64>,
    /// The honeypot channel, in which the message was written.
    pub message_channel: u64,
}

/// How far back, in seconds, a ban deletes the user's messages (one hour).
pub const DELETE_MESSAGE_SECONDS: u32 = 3600;

/// The user to punish for a message: for a message that answers an
/// interaction, the user who invoked it counts as the author; otherwise the
/// author.
pub open spec fn offender(msg: MessageInfo) -> u64 {
    match msg.interaction_metadata {
        Some(meta) => meta.user,
        None => msg.author_id,
    }
}

/// The punishment that a message calls for, if any. Messages of bots are
/// ignored, except those that answer an interaction of another application
/// (the invoker counts as author then). A message is punished when it is
/// written in the honeypot channel of a guild whose action is `Ban` or
/// `Softban`.
pub open spec fn spec_decide_message(
    m: Map<u64, GuildConfigBody>,
    own_application_id: u64,
    msg: MessageInfo,
) -> Option<Punishment> {
    if msg.author_is_bot && (msg.interaction_metadata is None || msg.application_id == Some(
        own_application_id,
    )) {
        None
    } else {
        match msg.guild_id {
            None => None,
            Some(guild_id) => if !m.contains_key(guild_id) || m[guild_id].honeypot_channel
                != msg.channel_id {
                None
            } else {
                let config = m[guild_id];
                let kind = match config.action_type {
                    ActionType::Ban => Some(PunishmentKind::Ban),
                    ActionType::Softban => Some(PunishmentKind::Softban),
                    ActionType::Disabled => None,
                };
                match kind {
                    Some(kind) => Some(
                        Punishment {
                            guild_id,
                            user_id: offender(msg),
                            kind,
                            log_channel: config.log_channel,
                            message_channel: msg.channel_id,
                        },
                    ),
                    None => None,
                }
            },
        }
    }
}

/// Decides whether a new message is to be punished, and how. The bot's own
/// application id is `own_application_id`.
pub fn decide_message(config: &GuildConfigMap, own_application_id: u64, msg: &MessageInfo) -> (r:
    Option<Punishment>)
    ensures
        r == spec_decide_message(config@, own_application_id, *msg),
{
    if msg.author_is_bot && (msg.interaction_metadata.is_none() || msg.application_id == Some(
        own_application_id,
    )) {
        return None;
    }
    let guild_id = match msg.guild_id {
        Some(g) => g,
        None => return None,
    };
    let body = match config.get(&guild_id) {
        Some(b) => *b,
        None => return None,
    };
    if body.honeypot_channel != msg.channel_id {
        return None;
    }
    let kind = match body.action_type {
        ActionType::Ban => PunishmentKind::Ban,
        ActionType::Softban => PunishmentKind::Softban,
        ActionType::Disabled => return None,
    };
    let user_id = match msg.interaction_metadata {
        Some(meta) => meta.user,
        None => msg.author_id,
    };
    Some(
        Punishment {
            guild_id,
            user_id,
            kind,
            log_channel: body.log_channel,
            message_channel: msg.channel_id,
        },
    )
}

/// A message to post about a punishment.
pub struct Report {
    pub channel_id: u64,
    pub content: String,
}

impl PunishmentKind {
    /// The verb used in a report: `ban` or `softban`.
    pub open spec fn verb(self) -> Seq<char> {
        match self {
            PunishmentKind::Ban => "ban"@,
            PunishmentKind::Softban => "softban"@,
        }
    }

    /// The past form used in a report: `banned` or `softbanned`.
    pub open spec fn past(self) -> Seq<char> {
        match self {
            PunishmentKind::Ban => "banned"@,
            PunishmentKind::Softban => "softbanned"@,
        }
    }
}

/// The audit log reason of the ban.
pub open spec fn ban_reason_text(kind: PunishmentKind) -> Seq<char> {
    match kind {
        PunishmentKind::Ban => "User typed in #honeypot channel -> ban"@,
        PunishmentKind::Softban => "User typed in #honeypot channel -> softban (1/2)"@,
    }
}

/// The report about a punishment: when the ban failed, a warning to the log
/// channel (or, without one, to the honeypot channel); when it succeeded, a
/// note to the log channel if there is one, and nothing otherwise.
pub open spec fn spec_report(p: Punishment, ban_failed: bool) -> Option<(u64, Seq<char>)> {
    if ban_failed {
        Some(
            (
                match p.log_channel {
                    Some(log) => log,
                    None => p.message_channel,
                },
                "User <@"@ + decimal(p.user_id as nat) + "> triggered the honeypot but I **failed** to "@
                    + p.kind.verb() + " them, please check my permissions to ensure I can "@
                    + p.kind.verb() + " them."@,
            ),
        )
    } else {
        match p.log_channel {
            Some(log) => Some(
                (
                    log,
                    "User <@"@ + decimal(p.user_id as nat) + "> was "@ + p.kind.past()
                        + " for triggering the honeypot in <#"@ + decimal(p.message_channel as nat)
                        + ">"@,
                ),
            ),
            None => None,
        }
    }
}

impl Punishment {
    /// The audit log reason of the ban.
    pub fn ban_reason(&self) -> (r: String)
        ensures
            r@ == ban_reason_text(self.kind),
    {
        match self.kind {
            PunishmentKind::Ban => "User typed in #honeypot channel -> ban".to_owned(),
            PunishmentKind::Softban => "User typed in #honeypot channel -> softban (1/2)".to_owned(),
        }
    }

    /// For a softban, the audit log reason of the unban that follows the ban;
    /// none for a ban.
    pub fn unban_reason(&self) -> (r: Option<String>)
        ensures
            match self.kind {
                PunishmentKind::Ban => r is None,
                PunishmentKind::Softban => r matches Some(text) && text@
                    == "User typed in #honeypot channel -> softban (2/2)"@,
            },
    {
        match self.kind {
            PunishmentKind::Ban => None,
            PunishmentKind::Softban => Some(
                "User typed in #honeypot channel -> softban (2/2)".to_owned(),
            ),
        }
    }

    /// The message to post once the ban was tried; `ban_failed` tells whether
    /// it failed.
    pub fn report(&self, ban_failed: bool) -> (r: Option<Report>)
        ensures
            match spec_report(*self, ban_failed) {
                Some((channel_id, content)) => r matches Some(rep) && rep.channel_id == channel_id
                    && rep.content@ == content,
                None => r is None,
            },
    {
        let verb = match self.kind {
            PunishmentKind::Ban => "ban",
            PunishmentKind::Softban => "softban",
        };
        if ban_failed {
            let channel_id = match self.log_channel {
                Some(log) => log,
                None => self.message_channel,
            };
            let mut s = "User <@".to_owned();
            push_decimal(&mut s, self.user_id);
            s.append("> triggered the honeypot but I **failed** to ");
            s.append(verb);
            s.append(" them, please check my permissions to ensure I can ");
            s.append(verb);
            s.append(" them.");
            assert(s@ =~= spec_report(*self, ban_failed).unwrap().1);
            Some(Report { channel_id, content: s })
        } else {
            match self.log_channel {
                Some(log) => {
                    let past = match self.kind {
                        PunishmentKind::Ban => "banned",
                        PunishmentKind::Softban => "softbanned",
                    };
                    let mut s = "User <@".to_owned();
                    push_decimal(&mut s, self.user_id);
                    s.append("> was ");
                    s.append(past);
                    s.append(" for triggering the honeypot in <#");
                    push_decimal(&mut s, self.message_channel);
                    s.append(">");
                    assert(s@ =~= spec_report(*self, ban_failed).unwrap().1);
                    Some(Report { channel_id: log, content: s })
                },
                None => None,
            }
        }
    }
}


/// What follows a ban attempt: the unban that completes a softban, and the
/// report to post.
pub struct AfterBan {
    /// The audit log reason of the unban to send, if one is to be sent.
    pub unban_reason: Option<String>,
    pub report: Option<Report>,
}

impl Punishment {
    /// What to do once the ban was tried; `ban_ok` tells whether it
    /// succeeded. A softban is completed by an unban only after a successful
    /// ban; a failed ban is reported and nothing else is done.
    pub fn after_ban(&self, ban_ok: bool) -> (r: AfterBan)
        ensures
            ban_ok && self.kind == PunishmentKind::Softban ==> (r.unban_reason matches Some(text)
                && text@ == "User typed in #honeypot channel -> softban (2/2)"@),
            !(ban_ok && self.kind == PunishmentKind::Softban) ==> r.unban_reason is None,
            match spec_report(*self, !ban_ok) {
                Some((channel_id, content)) => r.report matches Some(rep) && rep.channel_id
                    == channel_id && rep.content@ == content,
                None => r.report is None,
            },
    {
        let unban_reason = if ban_ok {
            self.unban_reason()
        } else {
            None
        };
        let report = self.report(!ban_ok);
        AfterBan { unban_reason, report }
    }
}

/// A kind of channel that a channel option accepts.
#[derive(Debug, Clone, Copy, PartialEq, Eq, Structural)]
pub enum ChannelKind {
    GuildText,
    PublicThread,
    PrivateThread,
}

/// A permission that members need, by default, to use a command.
#[derive(Debug, Clone, Copy, PartialEq, Eq, Structural)]
pub enum Permission {
    BanMembers,
    ManageGuild,
    ManageChannels,
}

/// A fixed choice of a text option: the label shown and the value sent.
pub struct ChoiceSpec {
    pub name: String,
    pub value: String,
}

/// What an option of a command takes.
pub enum OptionKind {
    /// A channel of one of these kinds.
    Channel { channel_types: Vec<ChannelKind> },
    /// Text, one of these choices.
    Text { choices: Vec<ChoiceSpec> },
}

/// An option of a slash command.
pub struct CommandOptionSpec {
    pub name: String,
    pub description: String,
    pub required: bool,
    pub kind: OptionKind,
}

/// A chat-input (slash) command to register.
pub struct CommandSpec {
    pub name: String,
    pub description: String,
    /// Members need all of these, unless the server says otherwise.
    pub default_member_permissions: Vec<Permission>,
    pub options: Vec<CommandOptionSpec>,
}

/// `o` is the option `name`, described by `description`.
pub open spec fn option_is(o: CommandOptionSpec, name: Seq<char>, description: Seq<char>, required: bool) -> bool {
    o.name@ == name && o.description@ == description && o.required == required
}

/// `c` is the choice labelled `name` with value `value`.
pub open spec fn choice_is(c: ChoiceSpec, name: Seq<char>, value: Seq<char>) -> bool {
    c.name@ == name && c.value@ == value
}

/// The `honeypot-set` command: a required text channel, a required action
/// chosen among ban, softban and disabled, and an optional log channel (a
/// text channel or a thread); by default it needs the permissions to ban
/// members, to manage the server and to manage channels.
pub open spec fn is_honeypot_set_command(c: CommandSpec) -> bool {
    &&& c.name@ == "honeypot-set"@
    &&& c.description@ == "Set/update honeypot channel (note: this overrides previous config set)"@
    &&& c.default_member_permissions@ == seq![
        Permission::BanMembers,
        Permission::ManageGuild,
        Permission::ManageChannels,
    ]
    &&& c.options@.len() == 3
    &&& option_is(c.options@[0], "channel"@, "The channel to ban people that message in it"@, true)
    &&& c.options@[0].kind matches OptionKind::Channel { channel_types } && channel_types@ == seq![
        ChannelKind::GuildText,
    ]
    &&& option_is(
        c.options@[1],
        "type"@,
        "The action to take when someone messages in the honeypot channel"@,
        true,
    )
    &&& c.options@[1].kind matches OptionKind::Text { choices } && choices@.len() == 3 && choice_is(
        choices@[0],
        "Ban"@,
        "ban"@,
    ) && choice_is(choices@[1], "Softban"@, "softban"@) && choice_is(
        choices@[2],
        "Disabled"@,
        "disabled"@,
    )
    &&& option_is(
        c.options@[2],
        "log_channel"@,
        "The channel to log actions in (if ommited, then it won't log anywhere)"@,
        false,
    )
    &&& c.options@[2].kind matches OptionKind::Channel { channel_types } && channel_types@ == seq![
        ChannelKind::GuildText,
        ChannelKind::PublicThread,
        ChannelKind::PrivateThread,
    ]
}

fn choice(name: &str, value: &str) -> (c: ChoiceSpec)
    ensures
        choice_is(c, name@, value@),
{
    ChoiceSpec { name: name.to_owned(), value: value.to_owned() }
}

/// The commands that the bot registers: `honeypot-set` only.
pub fn global_commands() -> (r: Vec<CommandSpec>)
    ensures
        r@.len() == 1,
        is_honeypot_set_command(r@[0]),
{
    let mut permissions: Vec<Permission> = Vec::new();
    permissions.push(Permission::BanMembers);
    permissions.push(Permission::ManageGuild);
    permissions.push(Permission::ManageChannels);
    let mut channel_types: Vec<ChannelKind> = Vec::new();
    channel_types.push(ChannelKind::GuildText);
    assert(channel_types@ =~= seq![ChannelKind::GuildText]);
    let channel = CommandOptionSpec {
        name: "channel".to_owned(),
        description: "The channel to ban people that message in it".to_owned(),
        required: true,
        kind: OptionKind::Channel { channel_types },
    };
    let mut choices: Vec<ChoiceSpec> = Vec::new();
    choices.push(choice("Ban", "ban"));
    choices.push(choice("Softban", "softban"));
    choices.push(choice("Disabled", "disabled"));
    let kind = CommandOptionSpec {
        name: "type".to_owned(),
        description: "The action to take when someone messages in the honeypot channel".to_owned(),
        required: true,
        kind: OptionKind::Text { choices },
    };
    let mut log_types: Vec<ChannelKind> = Vec::new();
    log_types.push(ChannelKind::GuildText);
    log_types.push(ChannelKind::PublicThread);
    log_types.push(ChannelKind::PrivateThread);
    assert(log_types@ =~= seq![
        ChannelKind::GuildText,
        ChannelKind::PublicThread,
        ChannelKind::PrivateThread,
    ]);
    let log_channel = CommandOptionSpec {
        name: "log_channel".to_owned(),
        description: "The channel to log actions in (if ommited, then it won't log anywhere)".to_owned(),
        required: false,
        kind: OptionKind::Channel { channel_types: log_types },
    };
    let mut options: Vec<CommandOptionSpec> = Vec::new();
    options.push(channel);
    options.push(kind);
    options.push(log_channel);
    let command = CommandSpec {
        name: "honeypot-set".to_owned(),
        description: "Set/update honeypot channel (note: this overrides previous config set)".to_owned(),
        default_member_permissions: permissions,
        options,
    };
    let mut r: Vec<CommandSpec> = Vec::new();
    r.push(command);
    assert(r@[0].default_member_permissions@ =~= seq![
        Permission::BanMembers,
        Permission::ManageGuild,
        Permission::ManageChannels,
    ]);
    r
}


/// No one is punished but for a message in the honeypot channel of a guild
/// whose action is `Ban` or `Softban`, and never for a message of this bot or
/// of another bot that does not answer an interaction.
pub proof fn lemma_only_honeypot_messages_punished(
    m: Map<u64, GuildConfigBody>,
    own_application_id: u64,
    msg: MessageInfo,
)
    ensures
        spec_decide_message(m, own_application_id, msg) matches Some(p) ==> {
            &&& msg.guild_id == Some(p.guild_id)
            &&& m.contains_key(p.guild_id)
            &&& m[p.guild_id].honeypot_channel == msg.channel_id
            &&& m[p.guild_id].action_type != ActionType::Disabled
            &&& msg.author_is_bot ==> msg.interaction_metadata is Some && msg.application_id != Some(
                own_application_id,
            )
        },
{
}

/// Once `honeypot-set` has chosen `Ban` or `Softban` for a guild, anyone but
/// a bot who writes in the chosen channel is punished that way, with the
/// chosen log channel.
pub proof fn lemma_set_then_message_punished(
    m: Map<u64, GuildConfigBody>,
    guild_id: u64,
    req: HoneypotSetRequest,
    own_application_id: u64,
    msg: MessageInfo,
)
    requires
        req.action_type != ActionType::Disabled,
        msg.guild_id == Some(guild_id),
        msg.channel_id == req.channel_id,
        !msg.author_is_bot,
    ensures
        spec_decide_message(config_after_set(m, guild_id, req), own_application_id, msg) == Some(
            Punishment {
                guild_id,
                user_id: offender(msg),
                kind: if req.action_type == ActionType::Ban {
                    PunishmentKind::Ban
                } else {
                    PunishmentKind::Softban
                },
                log_channel: req.log_channel,
                message_channel: req.channel_id,
            },
        ),
{
}

/// Once `honeypot-set` has disabled the honeypot of a guild, no message in
/// that guild is punished.
pub proof fn lemma_disabled_guild_not_punished(
    m: Map<u64, GuildConfigBody>,
    guild_id: u64,
    req: HoneypotSetRequest,
    own_application_id: u64,
    msg: MessageInfo,
)
    requires
        req.action_type == ActionType::Disabled,
        msg.guild_id == Some(guild_id),
    ensures
        spec_decide_message(config_after_set(m, guild_id, req), own_application_id, msg) is None,
{
}

/// After the bot has left a guild, no message in that guild is punished.
pub proof fn lemma_deleted_guild_not_punished(
    m: Map<u64, GuildConfigBody>,
    guild_id: u64,
    own_application_id: u64,
    msg: MessageInfo,
)
    requires
        msg.guild_id == Some(guild_id),
    ensures
        spec_decide_message(m.remove(guild_id), own_application_id, msg) is None,
{
}

/// After a channel is deleted, no message in it is punished, and the
/// settings of guilds whose honeypot is elsewhere are kept.
pub proof fn lemma_deleted_channel_not_punished(
    m: Map<u64, GuildConfigBody>,
    channel_id: u64,
    own_application_id: u64,
    msg: MessageInfo,
)
    requires
        msg.channel_id == channel_id,
    ensures
        spec_decide_message(config_without_channel(m, channel_id), own_application_id, msg) is None,
        forall|g: u64|
            #![trigger config_without_channel(m, channel_id).contains_key(g)]
            m.contains_key(g) && m[g].honeypot_channel != channel_id ==> config_without_channel(
                m,
                channel_id,
            ).contains_key(g) && config_without_channel(m, channel_id)[g] == m[g],
{
}

/// A report is posted exactly when the ban failed or a log channel is set;
/// a failure goes to the log channel, or to the honeypot channel without one.
pub proof fn lemma_report_destination(p: Punishment, ban_failed: bool)
    ensures
        spec_report(p, ban_failed) is Some <==> (ban_failed || p.log_channel is Some),
        spec_report(p, ban_failed) matches Some((channel_id, _)) ==> channel_id == match p.log_channel {
            Some(log) => log,
            None => p.message_channel,
        },
{
}

/// A `honeypot-set` command survives a save and a load of the settings: the
/// guild then has the settings asked for, or none if it was disabled.
pub proof fn lemma_set_survives_save(
    m: Map<u64, GuildConfigBody>,
    guild_id: u64,
    req: HoneypotSetRequest,
    es: Seq<(u64, GuildConfigBody)>,
)
    requires
        lists_entries(es, config_after_set(m, guild_id, req)),
    ensures
        parse_config(config_text(es)).contains_key(guild_id) <==> req.action_type
            != ActionType::Disabled,
        req.action_type != ActionType::Disabled ==> parse_config(config_text(es))[guild_id]
            == (GuildConfigBody {
            honeypot_channel: req.channel_id,
            log_channel: req.log_channel,
            action_type: req.action_type,
        }),
{
    lemma_config_file_roundtrip(config_after_set(m, guild_id, req), es);
}


/// From position `at`, `t` holds an id written out in full, closed by `>`,
/// and that id reads back as `id`.
pub open spec fn mentions_at(t: Seq<char>, at: int, id: u64) -> bool {
    exists|k: int| at < k < t.len() && t[k] == '>' && parse_u64(t.subrange(at, k)) == Some(id)
}

proof fn lemma_mention_between(a: Seq<char>, n: u64, b: Seq<char>)
    requires
        b.len() > 0,
        b[0] == '>',
    ensures
        (a + decimal(n as nat) + b).subrange(0, a.len() as int) == a,
        mentions_at(a + decimal(n as nat) + b, a.len() as int, n),
{
    let d = decimal(n as nat);
    let t = a + d + b;
    lemma_decimal_parse_roundtrip(n);
    assert(t.subrange(0, a.len() as int) =~= a);
    let k: int = (a.len() + d.len()) as int;
    assert(t.subrange(a.len() as int, k) =~= d);
    assert(t[k] == b[0]);
}

/// Reading a `honeypot-set` command keeps the chosen channel: when the first
/// `channel` option is the channel `c` and the first `type` option is text,
/// the request is for channel `c`, with the action that text names (`Ban` for
/// an unknown name) and the log channel of the first `log_channel` option
/// when that names a channel.
pub proof fn lemma_read_honeypot_set_keeps_options(
    options: Seq<CommandOption>,
    c: u64,
    action: String,
)
    requires
        find_option(options, "channel"@) matches Some(o) && o.value == CommandOptionValue::Channel(c),
        find_option(options, "type"@) matches Some(o) && o.value == CommandOptionValue::Text(action),
    ensures
        spec_read_honeypot_set(options) is Some,
        spec_read_honeypot_set(options).unwrap().channel_id == c,
        spec_read_honeypot_set(options).unwrap().action_type == match parse_action(action@) {
            Ok(a) => a,
            Err(_) => ActionType::Ban,
        },
        spec_read_honeypot_set(options).unwrap().log_channel == match find_option(
            options,
            "log_channel"@,
        ) {
            Some(o) => match o.value {
                CommandOptionValue::Channel(l) => Some(l),
                _ => None,
            },
            None => None,
        },
{
}

/// A `honeypot-set` command is refused exactly when it lacks a `channel`
/// option naming a channel or a `type` option holding text.
pub proof fn lemma_read_honeypot_set_refuses(options: Seq<CommandOption>)
    ensures
        spec_read_honeypot_set(options) is None <==> !(
            (find_option(options, "channel"@) matches Some(o) && o.value is Channel)
            && (find_option(options, "type"@) matches Some(o) && o.value is Text)),
{
}

/// A `honeypot-set` command in guild `guild_id` touches that guild only:
/// every other guild keeps exactly its settings, and the guild itself ends up
/// with the asked settings, or with none when the action is `Disabled`.
pub proof fn lemma_set_touches_only_its_guild(
    m: Map<u64, GuildConfigBody>,
    guild_id: u64,
    req: HoneypotSetRequest,
)
    ensures
        forall|k: u64|
            k != guild_id ==> (#[trigger] config_after_set(m, guild_id, req).contains_key(k)
                <==> m.contains_key(k)),
        forall|k: u64|
            k != guild_id && m.contains_key(k) ==> #[trigger] config_after_set(m, guild_id, req)[k]
                == m[k],
        config_after_set(m, guild_id, req).contains_key(guild_id) <==> req.action_type
            != ActionType::Disabled,
        req.action_type != ActionType::Disabled ==> config_after_set(m, guild_id, req)[guild_id]
            .honeypot_channel == req.channel_id && config_after_set(m, guild_id, req)[guild_id].log_channel
            == req.log_channel && config_after_set(m, guild_id, req)[guild_id].action_type
            == req.action_type,
{
}

/// The reply to a `honeypot-set` command that sets a honeypot names the
/// chosen channel in full: right after the fixed opening and the action's
/// name comes the channel's id, which reads back as `req.channel_id`.
pub proof fn lemma_set_response_names_channel(req: HoneypotSetRequest)
    requires
        req.action_type != ActionType::Disabled,
    ensures
        ({
            let opening = "Honeypot configuration updated: Will **"@ + req.action_type.name()
                + "** anyone who types in <#"@;
            let t = set_response(req);
            &&& t.subrange(0, opening.len() as int) == opening
            &&& mentions_at(t, opening.len() as int, req.channel_id)
        }),
{
    let opening = "Honeypot configuration updated: Will **"@ + req.action_type.name()
        + "** anyone who types in <#"@;
    let rest = "> "@ + match req.log_channel {
        Some(log) => "and log actions to <#"@ + decimal(log as nat) + ">"@,
        None => "and won't log actions"@,
    } + "."@;
    reveal_strlit("> ");
    assert(set_response(req) =~= opening + decimal(req.channel_id as nat) + rest);
    lemma_mention_between(opening, req.channel_id, rest);
}

/// Whom a message's punishment is for, and where: the author, or for a
/// message answering an interaction the user who invoked it; in the guild
/// and channel of the message; with the guild's action and log channel.
pub proof fn lemma_punishment_targets(
    m: Map<u64, GuildConfigBody>,
    own_application_id: u64,
    msg: MessageInfo,
)
    ensures
        spec_decide_message(m, own_application_id, msg) matches Some(p) ==> {
            &&& msg.interaction_metadata is None ==> p.user_id == msg.author_id
            &&& msg.interaction_metadata matches Some(meta) ==> p.user_id == meta.user
            &&& msg.guild_id == Some(p.guild_id)
            &&& p.message_channel == msg.channel_id
            &&& p.log_channel == m[p.guild_id].log_channel
            &&& (p.kind == PunishmentKind::Ban <==> m[p.guild_id].action_type == ActionType::Ban)
            &&& (p.kind == PunishmentKind::Softban <==> m[p.guild_id].action_type
                == ActionType::Softban)
        },
        msg.guild_id matches Some(g) ==> (!msg.author_is_bot && m.contains_key(g)
            && m[g].honeypot_channel == msg.channel_id && m[g].action_type != ActionType::Disabled
            ==> spec_decide_message(m, own_application_id, msg) is Some),
{
}

/// A report names the punished user in full: it opens with `User <@`, and
/// the id that follows reads back as the punished user's. A note about a
/// successful punishment ends by naming the honeypot channel in full.
pub proof fn lemma_report_names_user(p: Punishment, ban_failed: bool)
    ensures
        spec_report(p, ban_failed) matches Some((channel_id, t)) ==> {
            &&& t.subrange(0, "User <@"@.len() as int) == "User <@"@
            &&& mentions_at(t, "User <@"@.len() as int, p.user_id)
        },
        !ban_failed ==> (spec_report(p, ban_failed) matches Some((channel_id, t)) ==> {
            exists|j: int|
                2 <= j < t.len() && #[trigger] t.subrange(j - 2, j) == "<#"@ && t.last() == '>'
                    && parse_u64(t.subrange(j, t.len() - 1)) == Some(p.message_channel)
        }),
{
    let head = "User <@"@;
    if ban_failed {
        let rest = "> triggered the honeypot but I **failed** to "@ + p.kind.verb()
            + " them, please check my permissions to ensure I can "@ + p.kind.verb() + " them."@;
        reveal_strlit("> triggered the honeypot but I **failed** to ");
        assert(spec_report(p, ban_failed).unwrap().1 =~= head + decimal(p.user_id as nat) + rest);
        lemma_mention_between(head, p.user_id, rest);
    } else if p.log_channel is Some {
        let d = decimal(p.message_channel as nat);
        let mid = "> was "@ + p.kind.past() + " for triggering the honeypot in <#"@;
        let rest = mid + d + ">"@;
        reveal_strlit("> was ");
        reveal_strlit(">");
        reveal_strlit("<#");
        reveal_strlit(" for triggering the honeypot in <#");
        let t = spec_report(p, ban_failed).unwrap().1;
        assert(t =~= head + decimal(p.user_id as nat) + rest);
        lemma_mention_between(head, p.user_id, rest);
        let j = t.len() - 1 - d.len();
        lemma_decimal_parse_roundtrip(p.message_channel);
        assert(t.subrange(j, t.len() - 1) =~= d);
        assert(t.subrange(j - 2, j) =~= "<#"@);
        assert(t.last() == '>');
    }
}

} // verus!
