use honeypot_lite::config::{
    invalid_config_lines, parse_guild_config, serialize_guild_config, ActionType, GuildConfigBody, GuildConfigMap,
};
use honeypot_lite::text::{parse_u64_chars, push_decimal, split_chars, trim_chars};

fn chars(s: &str) -> Vec<char> {
    s.chars().collect()
}

#[test]
fn action_names_round_trip() {
    for a in [ActionType::Ban, ActionType::Softban, ActionType::Disabled] {
        let name = a.to_string();
        assert_eq!(ActionType::from_str(&name), Ok(a));
    }
    assert_eq!(ActionType::Ban.to_string(), "ban");
    assert_eq!(ActionType::Softban.to_string(), "softban");
    assert_eq!(ActionType::Disabled.to_string(), "disabled");
}

#[test]
fn action_from_str_trims_and_rejects() {
    assert_eq!(ActionType::from_str("  softban\r\n"), Ok(ActionType::Softban));
    assert_eq!(ActionType::from_str("\u{a0}ban\u{3000}"), Ok(ActionType::Ban));
    assert_eq!(ActionType::from_str("Ban"), Err(()));
    assert_eq!(ActionType::from_str("bann"), Err(()));
    assert_eq!(ActionType::from_str(""), Err(()));
    assert_eq!(ActionType::from_str("dis abled"), Err(()));
}

#[test]
fn u64_parsing_matches_std() {
    for s in ["0", "42", "+7", "007", "18446744073709551615", "18446744073709551616", "", "+", "-1", "1a", " 1", "++1", "99999999999999999999999"] {
        assert_eq!(parse_u64_chars(&chars(s)), s.parse::<u64>().ok(), "input {:?}", s);
    }
}

#[test]
fn decimal_matches_display() {
    for n in [0u64, 9, 10, 1234567890123456789, u64::MAX] {
        let mut s = String::from("x");
        push_decimal(&mut s, n);
        assert_eq!(s, format!("x{}", n));
    }
}

#[test]
fn split_and_trim_match_std() {
    for s in ["a,b,,c", "", ",", "abc", "a,b,"] {
        let pieces: Vec<String> = split_chars(&chars(s), ',').into_iter().map(|p| p.into_iter().collect()).collect();
        let expected: Vec<String> = s.split(',').map(|p| p.to_string()).collect();
        assert_eq!(pieces, expected);
    }
    for s in ["  a b \t", "", "   ", "\u{2028}x\u{85}", "x"] {
        let t: String = trim_chars(&chars(s)).into_iter().collect();
        assert_eq!(t, s.trim());
    }
}

#[test]
fn load_example_file() {
    let contents = "guild_id,honeypot_channel_id,log_channel_id,action_type\n\
1234567890123456789,234567890123456789,345678901234567890,ban\n\
1234567890123456788,234567890123456789,,softban\n";
    let m = parse_guild_config(contents);
    assert_eq!(m.len(), 2);
    assert_eq!(
        m.get(&1234567890123456789),
        Some(&GuildConfigBody {
            honeypot_channel: 234567890123456789,
            log_channel: Some(345678901234567890),
            action_type: ActionType::Ban,
        })
    );
    assert_eq!(
        m.get(&1234567890123456788),
        Some(&GuildConfigBody {
            honeypot_channel: 234567890123456789,
            log_channel: None,
            action_type: ActionType::Softban,
        })
    );
}

#[test]
fn load_skips_bad_lines() {
    let contents = "\r\n\
 1 , 2 , 3 , ban \r\n\
x,2,3,ban\n\
4,5,oops,softban\n\
6,7,8,kick\n\
9,10,11\n\
12,13,14,ban,extra\n\
guild_id,1,2,ban\n\
+15,16,,disabled\n\
1,20,,softban";
    let m = parse_guild_config(contents);
    assert_eq!(m.len(), 3);
    // a later line for the same guild wins
    assert_eq!(
        m.get(&1),
        Some(&GuildConfigBody { honeypot_channel: 20, log_channel: None, action_type: ActionType::Softban })
    );
    // an unreadable log channel counts as none
    assert_eq!(
        m.get(&4),
        Some(&GuildConfigBody { honeypot_channel: 5, log_channel: None, action_type: ActionType::Softban })
    );
    assert_eq!(
        m.get(&15),
        Some(&GuildConfigBody { honeypot_channel: 16, log_channel: None, action_type: ActionType::Disabled })
    );
}

#[test]
fn load_empty_file() {
    assert!(parse_guild_config("").is_empty());
}

#[test]
fn save_writes_header_and_active_guilds() {
    let mut m = GuildConfigMap::new();
    m.insert(5, GuildConfigBody { honeypot_channel: 6, log_channel: Some(7), action_type: ActionType::Ban });
    m.insert(8, GuildConfigBody { honeypot_channel: 9, log_channel: None, action_type: ActionType::Disabled });
    let text = serialize_guild_config(&m);
    assert_eq!(text, "guild_id,honeypot_channel_id,log_channel_id,action_type\n5,6,7,ban\n");
}

#[test]
fn save_then_load_keeps_active_guilds() {
    let mut m = GuildConfigMap::new();
    m.insert(1, GuildConfigBody { honeypot_channel: 10, log_channel: Some(100), action_type: ActionType::Ban });
    m.insert(2, GuildConfigBody { honeypot_channel: 20, log_channel: None, action_type: ActionType::Softban });
    m.insert(3, GuildConfigBody { honeypot_channel: 30, log_channel: None, action_type: ActionType::Disabled });
    m.insert(u64::MAX, GuildConfigBody { honeypot_channel: u64::MAX, log_channel: Some(0), action_type: ActionType::Softban });
    let back = parse_guild_config(&serialize_guild_config(&m));
    let mut expected = m.clone();
    expected.remove(&3);
    assert_eq!(back, expected);
}

#[test]
fn action_parses_through_the_from_str_trait() {
    assert_eq!(" disabled ".parse::<ActionType>(), Ok(ActionType::Disabled));
    assert_eq!("nope".parse::<ActionType>(), Err(()));
}

#[test]
fn lines_with_unreadable_ids_are_reported() {
    let contents = "guild_id,honeypot_channel_id,log_channel_id,action_type\r\n\
x,2,3,ban\r\n\
1,2,3,ban\n\
4,y,,softban\n\
5,6,7,kick\n\
a,b\n\
guild_id,z,1,ban\n\
-1,2,3,ban\r";
    let lines = invalid_config_lines(contents);
    let expected: Vec<String> = contents
        .lines()
        .filter(|line| {
            let parts: Vec<&str> = line.split(',').map(|s| s.trim()).collect();
            parts.len() == 4
                && parts[0] != "guild_id"
                && (parts[0].parse::<u64>().is_err() || parts[1].parse::<u64>().is_err())
        })
        .map(|l| l.to_string())
        .collect();
    assert_eq!(lines, expected);
    assert_eq!(lines, vec!["x,2,3,ban", "4,y,,softban", "-1,2,3,ban\r"]);
    assert!(invalid_config_lines("").is_empty());
}
