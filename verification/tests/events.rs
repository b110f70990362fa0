use honeypot_lite::config::{ActionType, GuildConfigBody, GuildConfigMap};
use honeypot_lite::event_handler::{
    decide_message, global_commands, handle_channel_delete, handle_guild_delete,
    handle_interaction, read_honeypot_set, ChannelKind, CommandOption, CommandOptionValue,
    HoneypotSetRequest, InteractionMetadataInfo, InteractionOutcome, MessageInfo, OptionKind,
    Permission, Punishment, PunishmentKind, DELETE_MESSAGE_SECONDS,
};

fn opt(name: &str, value: CommandOptionValue) -> CommandOption {
    CommandOption { name: name.to_string(), value }
}

fn set_options(channel: u64, action: &str, log: Option<u64>) -> Vec<CommandOption> {
    let mut v = vec![
        opt("channel", CommandOptionValue::Channel(channel)),
        opt("type", CommandOptionValue::Text(action.to_string())),
    ];
    if let Some(l) = log {
        v.push(opt("log_channel", CommandOptionValue::Channel(l)));
    }
    v
}

fn response(outcome: InteractionOutcome) -> String {
    match outcome {
        InteractionOutcome::Updated { response } => response,
        _ => panic!("not updated"),
    }
}

#[test]
fn honeypot_set_ban_with_log() {
    let mut config = GuildConfigMap::new();
    let out = handle_interaction(&mut config, Some(1), "honeypot-set", &set_options(22, "ban", Some(33)));
    assert_eq!(
        response(out),
        "Honeypot configuration updated: Will **ban** anyone who types in <#22> and log actions to <#33>."
    );
    assert_eq!(
        config.get(&1),
        Some(&GuildConfigBody { honeypot_channel: 22, log_channel: Some(33), action_type: ActionType::Ban })
    );
}

#[test]
fn honeypot_set_softban_without_log() {
    let mut config = GuildConfigMap::new();
    let out = handle_interaction(&mut config, Some(1), "honeypot-set", &set_options(22, "softban", None));
    assert_eq!(
        response(out),
        "Honeypot configuration updated: Will **softban** anyone who types in <#22> and won't log actions."
    );
    assert_eq!(config.get(&1).unwrap().action_type, ActionType::Softban);
}

#[test]
fn honeypot_set_unknown_action_means_ban() {
    let req = read_honeypot_set(&set_options(5, "kick", None));
    assert_eq!(req, Some(HoneypotSetRequest { channel_id: 5, action_type: ActionType::Ban, log_channel: None }));
}

#[test]
fn honeypot_set_disabled_removes_guild() {
    let mut config = GuildConfigMap::new();
    config.insert(1, GuildConfigBody { honeypot_channel: 2, log_channel: None, action_type: ActionType::Ban });
    config.insert(9, GuildConfigBody { honeypot_channel: 3, log_channel: None, action_type: ActionType::Ban });
    let out = handle_interaction(&mut config, Some(1), "honeypot-set", &set_options(2, "disabled", None));
    assert_eq!(response(out), "Honeypot configuration updated: Disabled honeypot for this server.");
    assert!(config.get(&1).is_none());
    assert!(config.get(&9).is_some());
}

#[test]
fn interaction_ignored_outside_guild_or_other_command() {
    let mut config = GuildConfigMap::new();
    assert!(matches!(
        handle_interaction(&mut config, None, "honeypot-set", &set_options(2, "ban", None)),
        InteractionOutcome::Ignored
    ));
    assert!(matches!(
        handle_interaction(&mut config, Some(1), "other", &set_options(2, "ban", None)),
        InteractionOutcome::Ignored
    ));
    assert!(config.is_empty());
}

#[test]
fn interaction_malformed_options() {
    let mut config = GuildConfigMap::new();
    let missing_type = vec![opt("channel", CommandOptionValue::Channel(2))];
    assert!(matches!(
        handle_interaction(&mut config, Some(1), "honeypot-set", &missing_type),
        InteractionOutcome::Malformed
    ));
    let wrong_channel = vec![
        opt("channel", CommandOptionValue::Text("x".to_string())),
        opt("type", CommandOptionValue::Text("ban".to_string())),
    ];
    assert_eq!(read_honeypot_set(&wrong_channel), None);
    assert!(config.is_empty());
}

#[test]
fn log_channel_of_other_kind_is_ignored_and_first_option_wins() {
    let options = vec![
        opt("type", CommandOptionValue::Text(" softban ".to_string())),
        opt("log_channel", CommandOptionValue::Other),
        opt("channel", CommandOptionValue::Channel(4)),
        opt("channel", CommandOptionValue::Channel(5)),
        opt("log_channel", CommandOptionValue::Channel(6)),
    ];
    assert_eq!(
        read_honeypot_set(&options),
        Some(HoneypotSetRequest { channel_id: 4, action_type: ActionType::Softban, log_channel: None })
    );
}

#[test]
fn channel_delete_removes_guilds_using_it() {
    let mut config = GuildConfigMap::new();
    config.insert(1, GuildConfigBody { honeypot_channel: 7, log_channel: None, action_type: ActionType::Ban });
    config.insert(2, GuildConfigBody { honeypot_channel: 7, log_channel: Some(3), action_type: ActionType::Softban });
    config.insert(3, GuildConfigBody { honeypot_channel: 8, log_channel: Some(7), action_type: ActionType::Ban });
    handle_channel_delete(&mut config, 7);
    assert_eq!(config.len(), 1);
    assert!(config.contains_key(&3));
    handle_channel_delete(&mut config, 99);
    assert_eq!(config.len(), 1);
}

#[test]
fn guild_delete_removes_guild() {
    let mut config = GuildConfigMap::new();
    config.insert(1, GuildConfigBody { honeypot_channel: 7, log_channel: None, action_type: ActionType::Ban });
    handle_guild_delete(&mut config, 2);
    assert_eq!(config.len(), 1);
    handle_guild_delete(&mut config, 1);
    assert!(config.is_empty());
}

fn message(author: u64, guild: Option<u64>, channel: u64) -> MessageInfo {
    MessageInfo {
        author_id: author,
        author_is_bot: false,
        guild_id: guild,
        channel_id: channel,
        application_id: None,
        interaction_metadata: None,
    }
}

fn config_one(action: ActionType, log: Option<u64>) -> GuildConfigMap {
    let mut config = GuildConfigMap::new();
    config.insert(1, GuildConfigBody { honeypot_channel: 10, log_channel: log, action_type: action });
    config
}

#[test]
fn message_in_honeypot_is_punished() {
    let config = config_one(ActionType::Softban, Some(11));
    let p = decide_message(&config, 500, &message(42, Some(1), 10)).unwrap();
    assert_eq!(
        p,
        Punishment { guild_id: 1, user_id: 42, kind: PunishmentKind::Softban, log_channel: Some(11), message_channel: 10 }
    );
    assert_eq!(p.ban_reason(), "User typed in #honeypot channel -> softban (1/2)");
    assert_eq!(p.unban_reason(), Some("User typed in #honeypot channel -> softban (2/2)".to_string()));
    assert_eq!(DELETE_MESSAGE_SECONDS, 3600);
}

#[test]
fn message_elsewhere_is_not_punished() {
    let config = config_one(ActionType::Ban, None);
    assert_eq!(decide_message(&config, 500, &message(42, Some(1), 11)), None);
    assert_eq!(decide_message(&config, 500, &message(42, Some(2), 10)), None);
    assert_eq!(decide_message(&config, 500, &message(42, None, 10)), None);
    let disabled = config_one(ActionType::Disabled, None);
    assert_eq!(decide_message(&disabled, 500, &message(42, Some(1), 10)), None);
}

#[test]
fn bot_messages() {
    let config = config_one(ActionType::Ban, None);
    let mut m = message(42, Some(1), 10);
    m.author_is_bot = true;
    assert_eq!(decide_message(&config, 500, &m), None);
    m.interaction_metadata = Some(InteractionMetadataInfo { user: 77 });
    m.application_id = Some(500);
    assert_eq!(decide_message(&config, 500, &m), None);
    m.application_id = Some(600);
    let p = decide_message(&config, 500, &m).unwrap();
    assert_eq!(p.user_id, 77);
    assert_eq!(p.kind, PunishmentKind::Ban);
    assert_eq!(p.ban_reason(), "User typed in #honeypot channel -> ban");
    assert_eq!(p.unban_reason(), None);
}

#[test]
fn other_bot_answer_punishes_the_invoker() {
    let config = config_one(ActionType::Ban, None);
    let m = MessageInfo {
        author_id: 77,
        author_is_bot: true,
        guild_id: Some(1),
        channel_id: 10,
        application_id: Some(999),
        interaction_metadata: Some(InteractionMetadataInfo { user: 42 }),
    };
    let p = decide_message(&config, 500, &m).unwrap();
    assert_eq!(p.user_id, 42);
    assert_eq!(p.guild_id, 1);
    // a person's message that answers an interaction counts for its invoker too
    let mut h = m;
    h.author_is_bot = false;
    assert_eq!(decide_message(&config, 500, &h).unwrap().user_id, 42);
}

#[test]
fn after_ban_steps() {
    let soft = Punishment { guild_id: 1, user_id: 42, kind: PunishmentKind::Softban, log_channel: Some(11), message_channel: 10 };
    let ok = soft.after_ban(true);
    assert_eq!(ok.unban_reason, Some("User typed in #honeypot channel -> softban (2/2)".to_string()));
    let r = ok.report.unwrap();
    assert_eq!(r.channel_id, 11);
    assert_eq!(r.content, "User <@42> was softbanned for triggering the honeypot in <#10>");
    let failed = soft.after_ban(false);
    assert_eq!(failed.unban_reason, None);
    assert_eq!(
        failed.report.unwrap().content,
        "User <@42> triggered the honeypot but I **failed** to softban them, please check my permissions to ensure I can softban them."
    );
    let ban = Punishment { kind: PunishmentKind::Ban, log_channel: None, ..soft };
    let ok = ban.after_ban(true);
    assert_eq!(ok.unban_reason, None);
    assert!(ok.report.is_none());
    let failed = ban.after_ban(false);
    assert_eq!(failed.report.unwrap().channel_id, 10);
}

#[test]
fn reports() {
    let p = Punishment { guild_id: 1, user_id: 42, kind: PunishmentKind::Ban, log_channel: Some(11), message_channel: 10 };
    let r = p.report(false).unwrap();
    assert_eq!(r.channel_id, 11);
    assert_eq!(r.content, "User <@42> was banned for triggering the honeypot in <#10>");
    let r = p.report(true).unwrap();
    assert_eq!(r.channel_id, 11);
    assert_eq!(
        r.content,
        "User <@42> triggered the honeypot but I **failed** to ban them, please check my permissions to ensure I can ban them."
    );
    let q = Punishment { log_channel: None, kind: PunishmentKind::Softban, ..p };
    assert!(q.report(false).is_none());
    let r = q.report(true).unwrap();
    assert_eq!(r.channel_id, 10);
    assert_eq!(
        r.content,
        "User <@42> triggered the honeypot but I **failed** to softban them, please check my permissions to ensure I can softban them."
    );
    let s = Punishment { kind: PunishmentKind::Softban, ..p };
    assert_eq!(s.report(false).unwrap().content, "User <@42> was softbanned for triggering the honeypot in <#10>");
}

#[test]
fn set_then_punish_then_disable() {
    let mut config = GuildConfigMap::new();
    handle_interaction(&mut config, Some(3), "honeypot-set", &set_options(30, "ban", None));
    assert!(decide_message(&config, 500, &message(1, Some(3), 30)).is_some());
    handle_interaction(&mut config, Some(3), "honeypot-set", &set_options(30, "disabled", None));
    assert!(decide_message(&config, 500, &message(1, Some(3), 30)).is_none());
}

#[test]
fn the_registered_command() {
    let cmds = global_commands();
    assert_eq!(cmds.len(), 1);
    let c = &cmds[0];
    assert_eq!(c.name, "honeypot-set");
    assert_eq!(c.description, "Set/update honeypot channel (note: this overrides previous config set)");
    assert_eq!(c.default_member_permissions, vec![Permission::BanMembers, Permission::ManageGuild, Permission::ManageChannels]);
    assert_eq!(c.options.len(), 3);
    assert_eq!(c.options[0].name, "channel");
    assert!(c.options[0].required);
    match &c.options[0].kind {
        OptionKind::Channel { channel_types } => assert_eq!(channel_types, &vec![ChannelKind::GuildText]),
        _ => panic!(),
    }
    assert_eq!(c.options[1].name, "type");
    match &c.options[1].kind {
        OptionKind::Text { choices } => {
            let pairs: Vec<(&str, &str)> = choices.iter().map(|c| (c.name.as_str(), c.value.as_str())).collect();
            assert_eq!(pairs, vec![("Ban", "ban"), ("Softban", "softban"), ("Disabled", "disabled")]);
        }
        _ => panic!(),
    }
    assert_eq!(c.options[2].name, "log_channel");
    assert!(!c.options[2].required);
    match &c.options[2].kind {
        OptionKind::Channel { channel_types } => assert_eq!(
            channel_types,
            &vec![ChannelKind::GuildText, ChannelKind::PublicThread, ChannelKind::PrivateThread]
        ),
        _ => panic!(),
    }
}
