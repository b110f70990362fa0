//! Guild configuration: the honeypot action, the per-guild settings, and the
//! CSV text in which they are kept between runs.
//!
//! The file holds a header line and then one line per guild:
//! `guild_id,honeypot_channel_id,log_channel_id,action_type`, where the log
//! channel may be empty.
use std::collections::HashMap;
use vstd::prelude::*;
use vstd::std_specs::hash::{group_hash_axioms, spec_hash_map_iter};
use vstd::string::StringExecFns;
use vstd::std_specs::iter::IteratorSpec;
use crate::text::{
    is_digit, is_white_space, lemma_decimal_digits, lemma_decimal_parse_roundtrip,
    lemma_split_append_sep, lemma_split_no_sep, lemma_trim_unchanged, lemma_split_nonempty,
    decimal, parse_u64, parse_u64_chars, push_decimal, split, split_chars, str_chars, trim,
    trim_chars, views,
};

verus! {

broadcast use group_hash_axioms;

/// What happens to someone who writes in the honeypot channel.
#[derive(Debug, Clone, Copy, PartialEq, Eq, Structural)]
pub enum ActionType {
    Ban,
    Softban,
    Disabled,
}

impl ActionType {
    /// The name under which the action is shown and stored.
    pub open spec fn name(self) -> Seq<char> {
        match self {
            ActionType::Ban => seq!['b', 'a', 'n'],
            ActionType::Softban => seq!['s', 'o', 'f', 't', 'b', 'a', 'n'],
            ActionType::Disabled => seq!['d', 'i', 's', 'a', 'b', 'l', 'e', 'd'],
        }
    }

    /// The action's name: `ban`, `softban` or `disabled`.
    pub fn to_string(&self) -> (s: String)
        ensures
            s@ == self.name(),
    {
        let mut s = String::new();
        match self {
            ActionType::Ban => {
                s.push('b');
                s.push('a');
                s.push('n');
            },
            ActionType::Softban => {
                s.push('s');
                s.push('o');
                s.push('f');
                s.push('t');
                s.push('b');
                s.push('a');
                s.push('n');
            },
            ActionType::Disabled => {
                s.push('d');
                s.push('i');
                s.push('s');
                s.push('a');
                s.push('b');
                s.push('l');
                s.push('e');
                s.push('d');
            },
        }
        assert(s@ =~= self.name());
        s
    }

    /// Reads an action name, ignoring white space around it.
    pub fn from_str(s: &str) -> (r: Result<ActionType, ()>)
        ensures
            r == parse_action(s@),
    {
        let chars = str_chars(s);
        action_from_chars(&chars)
    }
}

impl std::str::FromStr for ActionType {
    type Err = ();

    fn from_str(s: &str) -> (r: Result<ActionType, ()>)
        ensures
            r == parse_action(s@),
    {
        ActionType::from_str(s)
    }
}

/// The action whose name `s` is, once trimmed.
pub open spec fn parse_action(s: Seq<char>) -> Result<ActionType, ()> {
    let t = trim(s);
    if t == ActionType::Ban.name() {
        Ok(ActionType::Ban)
    } else if t == ActionType::Softban.name() {
        Ok(ActionType::Softban)
    } else if t == ActionType::Disabled.name() {
        Ok(ActionType::Disabled)
    } else {
        Err(())
    }
}

/// Whether `a` holds exactly the characters of `b`.
pub fn chars_equal(a: &[char], b: &[char]) -> (r: bool)
    ensures
        r == (a@ == b@),
{
    if a.len() != b.len() {
        return false;
    }
    let mut i: usize = 0;
    while i < a.len()
        invariant
            i <= a@.len() == b@.len(),
            forall|j: int| 0 <= j < i ==> a@[j] == b@[j],
        decreases a.len() - i,
    {
        if a[i] != b[i] {
            return false;
        }
        i += 1;
    }
    assert(a@ =~= b@);
    true
}

/// Reads an action name from characters, ignoring white space around it.
pub fn action_from_chars(s: &[char]) -> (r: Result<ActionType, ()>)
    ensures
        r == parse_action(s@),
{
    let t = trim_chars(s);
    let ban = ['b', 'a', 'n'];
    let softban = ['s', 'o', 'f', 't', 'b', 'a', 'n'];
    let disabled = ['d', 'i', 's', 'a', 'b', 'l', 'e', 'd'];
    assert(ban@ =~= ActionType::Ban.name());
    assert(softban@ =~= ActionType::Softban.name());
    assert(disabled@ =~= ActionType::Disabled.name());
    if chars_equal(&t, &ban) {
        Ok(ActionType::Ban)
    } else if chars_equal(&t, &softban) {
        Ok(ActionType::Softban)
    } else if chars_equal(&t, &disabled) {
        Ok(ActionType::Disabled)
    } else {
        Err(())
    }
}

/// The honeypot settings of one guild.
#[derive(Debug, Clone, Copy, PartialEq, Eq, Structural)]
pub struct GuildConfigBody {
    pub honeypot_channel: u64,
    pub log_channel: Option<u64>,
    pub action_type: ActionType,
}

/// The settings of every configured guild, by guild id.
pub type GuildConfigMap = HashMap<u64, GuildConfigBody>;


/// The first field of the header line.
pub open spec fn guild_id_label() -> Seq<char> {
    seq!['g', 'u', 'i', 'l', 'd', '_', 'i', 'd']
}

/// The fields of a line: split at commas, each trimmed.
pub open spec fn line_fields(line: Seq<char>) -> Seq<Seq<char>> {
    split(line, ',').map_values(|p: Seq<char>| trim(p))
}

/// The guild settings that one line of the file holds, if it holds any: four
/// fields, the first not the header's, two ids, an optional log channel (an
/// unreadable one counts as none), and an action name.
pub open spec fn parse_line(line: Seq<char>) -> Option<(u64, GuildConfigBody)> {
    let parts = line_fields(line);
    if parts.len() != 4 || parts[0] == guild_id_label() {
        None
    } else {
        match (parse_u64(parts[0]), parse_u64(parts[1]), parse_action(parts[3])) {
            (Some(guild_id), Some(honeypot_channel), Ok(action_type)) => Some(
                (
                    guild_id,
                    GuildConfigBody {
                        honeypot_channel,
                        log_channel: if parts[2].len() == 0 {
                            None
                        } else {
                            parse_u64(parts[2])
                        },
                        action_type,
                    },
                ),
            ),
            _ => None,
        }
    }
}

/// The settings after reading `lines` in order into `m`; a later line for the
/// same guild replaces an earlier one.
pub open spec fn apply_lines(m: Map<u64, GuildConfigBody>, lines: Seq<Seq<char>>) -> Map<
    u64,
    GuildConfigBody,
>
    decreases lines.len(),
{
    if lines.len() == 0 {
        m
    } else {
        let before = apply_lines(m, lines.drop_last());
        match parse_line(lines.last()) {
            Some((guild_id, body)) => before.insert(guild_id, body),
            None => before,
        }
    }
}

/// The settings that the file text `contents` holds.
pub open spec fn parse_config(contents: Seq<char>) -> Map<u64, GuildConfigBody> {
    apply_lines(Map::empty(), split(contents, '\n'))
}

/// Reads one line of the file.
pub fn parse_config_line(line: &[char]) -> (r: Option<(u64, GuildConfigBody)>)
    ensures
        r == parse_line(line@),
{
    let raw = split_chars(line, ',');
    let ghost parts = line_fields(line@);
    assert(parts.len() == raw@.len());
    if raw.len() != 4 {
        return None;
    }
    let f0 = trim_chars(&raw[0]);
    let f1 = trim_chars(&raw[1]);
    let f2 = trim_chars(&raw[2]);
    let f3 = trim_chars(&raw[3]);
    assert(f0@ == parts[0] && f1@ == parts[1] && f2@ == parts[2] && f3@ == parts[3]) by {
        assert(views(raw@)[0] == raw@[0]@);
        assert(views(raw@)[1] == raw@[1]@);
        assert(views(raw@)[2] == raw@[2]@);
        assert(views(raw@)[3] == raw@[3]@);
    }
    let label = ['g', 'u', 'i', 'l', 'd', '_', 'i', 'd'];
    assert(label@ =~= guild_id_label());
    if chars_equal(&f0, &label) {
        return None;
    }
    let guild_id = parse_u64_chars(&f0);
    let honeypot_channel = parse_u64_chars(&f1);
    match (guild_id, honeypot_channel) {
        (Some(guild_id), Some(honeypot_channel)) => {
            let log_channel = if f2.len() == 0 {
                None
            } else {
                parse_u64_chars(&f2)
            };
            match action_from_chars(&f3) {
                Ok(action_type) => Some(
                    (guild_id, GuildConfigBody { honeypot_channel, log_channel, action_type }),
                ),
                Err(_) => None,
            }
        },
        _ => None,
    }
}

/// Reads the settings from the text of the configuration file. Lines that
/// are not guild settings (the header, blank or malformed lines) are skipped.
pub fn parse_guild_config(contents: &str) -> (m: GuildConfigMap)
    ensures
        m@ == parse_config(contents@),
{
    let chars = str_chars(contents);
    let lines = split_chars(&chars, '\n');
    let ghost all = views(lines@);
    let mut m: GuildConfigMap = HashMap::new();
    let mut i: usize = 0;
    assert(all.take(0) =~= Seq::<Seq<char>>::empty());
    while i < lines.len()
        invariant
            i <= lines@.len(),
            all == views(lines@),
            m@ == apply_lines(Map::empty(), all.take(i as int)),
        decreases lines.len() - i,
    {
        let parsed = parse_config_line(&lines[i]);
        assert(all.take(i + 1).drop_last() =~= all.take(i as int));
        assert(all.take(i + 1).last() == lines@[i as int]@);
        match parsed {
            Some((guild_id, body)) => {
                m.insert(guild_id, body);
            },
            None => {},
        }
        i += 1;
    }
    assert(all.take(lines@.len() as int) =~= all);
    m
}


/// A line of four fields, not the header, whose guild id or honeypot channel
/// id does not read as a number. Such lines are skipped when reading, and are
/// worth telling the operator about.
pub open spec fn has_bad_ids(line: Seq<char>) -> bool {
    let parts = line_fields(line);
    &&& parts.len() == 4
    &&& parts[0] != guild_id_label()
    &&& (parse_u64(parts[0]) is None || parse_u64(parts[1]) is None)
}

/// The text of the line at `i` among the pieces of a file split at line
/// breaks, as `str::lines` gives it: a `\r` just before a line break is not
/// part of the line.
pub open spec fn line_text(pieces: Seq<Seq<char>>, i: int) -> Seq<char> {
    if i + 1 < pieces.len() && pieces[i].len() > 0 && pieces[i].last() == '\r' {
        pieces[i].drop_last()
    } else {
        pieces[i]
    }
}

/// The texts of the lines with unreadable ids among the first `n` pieces.
pub open spec fn bad_id_lines_upto(pieces: Seq<Seq<char>>, n: nat) -> Seq<Seq<char>>
    decreases n,
{
    if n == 0 {
        Seq::<Seq<char>>::empty()
    } else {
        let before = bad_id_lines_upto(pieces, (n - 1) as nat);
        if has_bad_ids(pieces[n - 1]) {
            before.push(line_text(pieces, n - 1))
        } else {
            before
        }
    }
}

/// The texts of the lines of the file with unreadable ids, in file order.
pub open spec fn bad_id_lines(contents: Seq<char>) -> Seq<Seq<char>> {
    bad_id_lines_upto(split(contents, '\n'), split(contents, '\n').len())
}

/// Whether a line has four fields, is not the header, and has an unreadable
/// guild id or honeypot channel id.
pub fn line_has_bad_ids(line: &[char]) -> (r: bool)
    ensures
        r == has_bad_ids(line@),
{
    let raw = split_chars(line, ',');
    let ghost parts = line_fields(line@);
    assert(parts.len() == raw@.len());
    if raw.len() != 4 {
        return false;
    }
    let f0 = trim_chars(&raw[0]);
    let f1 = trim_chars(&raw[1]);
    assert(f0@ == parts[0] && f1@ == parts[1]) by {
        assert(views(raw@)[0] == raw@[0]@);
        assert(views(raw@)[1] == raw@[1]@);
    }
    let label = ['g', 'u', 'i', 'l', 'd', '_', 'i', 'd'];
    assert(label@ =~= guild_id_label());
    if chars_equal(&f0, &label) {
        return false;
    }
    parse_u64_chars(&f0).is_none() || parse_u64_chars(&f1).is_none()
}

/// A line reported for its unreadable ids adds no guild when the file is
/// read.
pub proof fn lemma_bad_id_line_skipped(line: Seq<char>)
    requires
        has_bad_ids(line),
    ensures
        parse_line(line) is None,
{
}

/// The string made of `s[from..to]`.
pub fn chars_to_string(s: &[char], from: usize, to: usize) -> (r: String)
    requires
        from <= to <= s@.len(),
    ensures
        r@ == s@.subrange(from as int, to as int),
{
    let mut r = String::new();
    let mut i = from;
    while i < to
        invariant
            from <= i <= to <= s@.len(),
            r@ == s@.subrange(from as int, i as int),
        decreases to - i,
    {
        r.push(s[i]);
        i += 1;
        assert(r@ =~= s@.subrange(from as int, i as int));
    }
    r
}

/// The lines of the file text `contents` that have four fields but an
/// unreadable guild id or honeypot channel id, as `str::lines` gives them,
/// in file order. `parse_guild_config` skips these lines.
pub fn invalid_config_lines(contents: &str) -> (r: Vec<String>)
    ensures
        r@.len() == bad_id_lines(contents@).len(),
        forall|i: int| 0 <= i < r@.len() ==> #[trigger] r@[i]@ == bad_id_lines(contents@)[i],
{
    let chars = str_chars(contents);
    let lines = split_chars(&chars, '\n');
    let ghost pieces = views(lines@);
    let mut r: Vec<String> = Vec::new();
    let mut i: usize = 0;
    while i < lines.len()
        invariant
            i <= lines@.len(),
            pieces == views(lines@),
            pieces == split(contents@, '\n'),
            r@.len() == bad_id_lines_upto(pieces, i as nat).len(),
            forall|j: int| 0 <= j < r@.len() ==> #[trigger] r@[j]@ == bad_id_lines_upto(pieces, i as nat)[j],
        decreases lines.len() - i,
    {
        let line = &lines[i];
        assert(pieces[i as int] == line@);
        if line_has_bad_ids(line) {
            let n = line.len();
            let end = if i + 1 < lines.len() && n > 0 && line[n - 1] == '\r' {
                n - 1
            } else {
                n
            };
            let text = chars_to_string(line, 0, end);
            assert(text@ == line_text(pieces, i as int)) by {
                assert(line@.drop_last() =~= line@.subrange(0, n - 1));
                assert(line@ =~= line@.subrange(0, n as int));
            }
            let ghost before = r@;
            r.push(text);
            assert forall|j: int| 0 <= j < r@.len() implies #[trigger] r@[j]@ == bad_id_lines_upto(
                pieces,
                (i + 1) as nat,
            )[j] by {
                if j < before.len() {
                    assert(r@[j] == before[j]);
                }
            }
        }
        i += 1;
    }
    r
}

/// The decimal form of an optional id; nothing for none.
pub open spec fn optional_decimal(o: Option<u64>) -> Seq<char> {
    match o {
        Some(v) => decimal(v as nat),
        None => Seq::<char>::empty(),
    }
}

/// The file line of one guild, without its line break:
/// `guild_id,honeypot_channel,log_channel,action`.
pub open spec fn config_line(guild_id: u64, body: GuildConfigBody) -> Seq<char> {
    decimal(guild_id as nat) + seq![','] + decimal(body.honeypot_channel as nat) + seq![',']
        + optional_decimal(body.log_channel) + seq![','] + body.action_type.name()
}

/// The lines of the entries in `es`, each ended by a line break, leaving out
/// the entries whose action is `Disabled`.
pub open spec fn render_entries(es: Seq<(u64, GuildConfigBody)>) -> Seq<char>
    decreases es.len(),
{
    if es.len() == 0 {
        Seq::<char>::empty()
    } else {
        let before = render_entries(es.drop_last());
        let (guild_id, body) = es.last();
        if body.action_type == ActionType::Disabled {
            before
        } else {
            before + config_line(guild_id, body).push('\n')
        }
    }
}

/// The header line of the file, with its line break.
pub open spec fn header_text() -> Seq<char> {
    "guild_id,honeypot_channel_id,log_channel_id,action_type\n"@
}

/// The file text for the entries `es`, in that order.
pub open spec fn config_text(es: Seq<(u64, GuildConfigBody)>) -> Seq<char> {
    header_text() + render_entries(es)
}

/// `es` lists every entry of `m` exactly once, in some order.
pub open spec fn lists_entries(es: Seq<(u64, GuildConfigBody)>, m: Map<u64, GuildConfigBody>) -> bool {
    &&& forall|i: int| 0 <= i < es.len() ==> #[trigger] m.contains_key(es[i].0) && m[es[i].0] == es[i].1
    &&& forall|i: int, j: int| 0 <= i < j < es.len() ==> #[trigger] es[i].0 != #[trigger] es[j].0
    &&& forall|k: u64| #[trigger] m.contains_key(k) ==> exists|i: int| 0 <= i < es.len() && #[trigger] es[i].0 == k
}

/// A walk of a map that visits each entry once, as the walk of a `HashMap`
/// does, lists its entries.
proof fn lemma_walk_lists_entries(
    v: Seq<(&u64, &GuildConfigBody)>,
    m: Map<u64, GuildConfigBody>,
)
    requires
        v.no_duplicates(),
        forall|i: int| 0 <= i < v.len() ==> m.contains_key(*v[i].0) && m[*v[i].0] == *v[i].1,
        forall|k: u64| #[trigger] m.contains_key(k) ==> v.contains((&k, &m[k])),
    ensures
        lists_entries(v.unref(), m),
{
    let es = v.unref();
    assert forall|i: int| 0 <= i < es.len() implies #[trigger] m.contains_key(es[i].0) && m[es[i].0]
        == es[i].1 by {
        assert(m.contains_key(*v[i].0));
    }
    assert forall|i: int, j: int| 0 <= i < j < es.len() implies #[trigger] es[i].0
        != #[trigger] es[j].0 by {
        assert(m.contains_key(*v[i].0) && m.contains_key(*v[j].0));
        if es[i].0 == es[j].0 {
            assert(v[i] == v[j]);
        }
    }
    assert forall|k: u64| #[trigger] m.contains_key(k) implies exists|i: int|
        0 <= i < es.len() && #[trigger] es[i].0 == k by {
        let i = choose|i: int| 0 <= i < v.len() && v[i] == (&k, &m[k]);
        assert(es[i].0 == k);
    }
}

/// Appends the file line of one guild and its line break.
pub fn push_config_line(s: &mut String, guild_id: u64, body: &GuildConfigBody)
    ensures
        final(s)@ == old(s)@ + config_line(guild_id, *body).push('\n'),
{
    push_decimal(s, guild_id);
    s.push(',');
    push_decimal(s, body.honeypot_channel);
    s.push(',');
    match body.log_channel {
        Some(log_channel) => push_decimal(s, log_channel),
        None => {},
    }
    s.push(',');
    let name = body.action_type.to_string();
    s.append(name.as_str());
    s.push('\n');
    assert(s@ =~= old(s)@ + config_line(guild_id, *body).push('\n'));
}

/// The text of the configuration file for `config`: the header, then one line
/// per guild whose action is not `Disabled`, in the order in which the map is
/// walked.
pub fn serialize_guild_config(config: &GuildConfigMap) -> (s: String)
    ensures
        exists|es: Seq<(u64, GuildConfigBody)>| lists_entries(es, config@) && s@ == config_text(es),
{
    let mut s = "guild_id,honeypot_channel_id,log_channel_id,action_type\n".to_owned();
    let ghost mut done: Seq<(u64, GuildConfigBody)> = Seq::empty();
    let entries = config.iter();
    proof {
        lemma_walk_lists_entries(entries.remaining(), config@);
    }
    for (guild_id, body) in it: entries
        invariant
            it.seq() == spec_hash_map_iter(config).remaining(),
            done == it.seq().unref().take(it.index()),
            s@ == header_text() + render_entries(done),
            lists_entries(it.seq().unref(), config@),
    {
        assert(it.seq().unref().take(it.index() + 1) =~= done.push((*guild_id, *body)));
        let ghost before = done;
        if body.action_type != ActionType::Disabled {
            push_config_line(&mut s, *guild_id, body);
        }
        assert(before.push((*guild_id, *body)).drop_last() =~= before);
        proof {
            done = done.push((*guild_id, *body));
        }
        assert(s@ =~= header_text() + render_entries(done));
    }
    assert(done =~= spec_hash_map_iter(config).remaining().unref());
    assert(lists_entries(done, config@) && s@ == config_text(done));
    s
}


/// The header line, without its line break, as characters.
pub open spec fn header_line() -> Seq<char> {
    seq!['g', 'u', 'i', 'l', 'd', '_', 'i', 'd', ',', 'h', 'o', 'n', 'e', 'y', 'p', 'o', 't', '_', 'c', 'h', 'a', 'n', 'n', 'e', 'l', '_', 'i', 'd', ',', 'l', 'o', 'g', '_', 'c', 'h', 'a', 'n', 'n', 'e', 'l', '_', 'i', 'd', ',', 'a', 'c', 't', 'i', 'o', 'n', '_', 't', 'y', 'p', 'e']
}

/// The header is its first field, a comma, the other fields, and a line
/// break, with no other line break in it.
proof fn lemma_header_shape()
    ensures
        header_text() == header_line().push('\n'),
        header_line() == guild_id_label().push(',') + header_line().skip(9),
        forall|i: int| 0 <= i < header_line().len() ==> header_line()[i] != '\n',
{
    reveal_strlit("guild_id,honeypot_channel_id,log_channel_id,action_type\n");
    assert(header_text() =~= header_line().push('\n'));
    assert(header_line() =~= guild_id_label().push(',') + header_line().skip(9));
    assert forall|i: int| 0 <= i < header_line().len() implies header_line()[i] != '\n' by {
    }
}


/// An action name has no comma and no white space at its ends.
proof fn lemma_name_shape(a: ActionType)
    ensures
        a.name().len() > 0,
        forall|i: int| 0 <= i < a.name().len() ==> a.name()[i] != ',',
        !is_white_space(a.name()[0]),
        !is_white_space(a.name().last()),
{
    assert forall|i: int| 0 <= i < a.name().len() implies a.name()[i] != ',' by {}
}

/// Every action name reads back as that action.
pub proof fn lemma_action_name_roundtrip(a: ActionType)
    ensures
        parse_action(a.name()) == Ok::<ActionType, ()>(a),
{
    lemma_name_shape(a);
    lemma_trim_unchanged(a.name());
    assert(ActionType::Ban.name() != ActionType::Softban.name());
    assert(ActionType::Ban.name() != ActionType::Disabled.name());
    assert(ActionType::Softban.name() != ActionType::Disabled.name());
}

/// A decimal form is digits only: no comma, no white space.
proof fn lemma_decimal_shape(n: nat)
    ensures
        decimal(n).len() > 0,
        forall|i: int| 0 <= i < decimal(n).len() ==> decimal(n)[i] != ',' && decimal(n)[i] != '\n'
            && !is_white_space(#[trigger] decimal(n)[i]),
{
    lemma_decimal_digits(n);
    assert forall|i: int| 0 <= i < decimal(n).len() implies decimal(n)[i] != ',' && decimal(n)[i]
        != '\n' && !is_white_space(#[trigger] decimal(n)[i]) by {
        assert(is_digit(decimal(n)[i]));
    }
}

/// The line written for an active guild reads back as that guild's settings.
pub proof fn lemma_config_line_roundtrip(guild_id: u64, body: GuildConfigBody)
    requires
        body.action_type != ActionType::Disabled,
    ensures
        parse_line(config_line(guild_id, body)) == Some((guild_id, body)),
        forall|i: int| 0 <= i < config_line(guild_id, body).len() ==> config_line(guild_id, body)[i] != '\n',
{
    let g = decimal(guild_id as nat);
    let h = decimal(body.honeypot_channel as nat);
    let o = optional_decimal(body.log_channel);
    let n = body.action_type.name();
    lemma_decimal_shape(guild_id as nat);
    lemma_decimal_shape(body.honeypot_channel as nat);
    lemma_name_shape(body.action_type);
    match body.log_channel {
        Some(l) => lemma_decimal_shape(l as nat),
        None => {},
    }
    let line = config_line(guild_id, body);
    let a1 = g.push(',') + h;
    let a2 = a1.push(',') + o;
    assert(line =~= a2.push(',') + n);
    lemma_split_append_sep(a2, n, ',');
    lemma_split_append_sep(a1, o, ',');
    lemma_split_append_sep(g, h, ',');
    lemma_split_no_sep(g, ',');
    lemma_split_no_sep(h, ',');
    lemma_split_no_sep(o, ',');
    lemma_split_no_sep(n, ',');
    assert(split(line, ',') =~= seq![g, h, o, n]);
    lemma_trim_unchanged(g);
    lemma_trim_unchanged(h);
    lemma_trim_unchanged(o);
    lemma_trim_unchanged(n);
    let parts = line_fields(line);
    assert(parts =~= seq![g, h, o, n]);
    assert(parts[0] != guild_id_label()) by {
        lemma_decimal_digits(guild_id as nat);
        assert(is_digit(g[0]));
        assert(!is_digit(guild_id_label()[0]));
    }
    lemma_decimal_parse_roundtrip(guild_id);
    lemma_decimal_parse_roundtrip(body.honeypot_channel);
    match body.log_channel {
        Some(l) => lemma_decimal_parse_roundtrip(l),
        None => {},
    }
    lemma_action_name_roundtrip(body.action_type);
    assert forall|i: int| 0 <= i < line.len() implies line[i] != '\n' by {
        assert(n[0] != '\n');
    }
}


/// The file lines (without line breaks) of the active entries of `es`.
pub open spec fn active_lines(es: Seq<(u64, GuildConfigBody)>) -> Seq<Seq<char>>
    decreases es.len(),
{
    if es.len() == 0 {
        Seq::<Seq<char>>::empty()
    } else {
        let before = active_lines(es.drop_last());
        let (guild_id, body) = es.last();
        if body.action_type == ActionType::Disabled {
            before
        } else {
            before.push(config_line(guild_id, body))
        }
    }
}

/// The map that inserting the active entries of `es` in order builds.
pub open spec fn entries_map(es: Seq<(u64, GuildConfigBody)>) -> Map<u64, GuildConfigBody>
    decreases es.len(),
{
    if es.len() == 0 {
        Map::empty()
    } else {
        let before = entries_map(es.drop_last());
        let (guild_id, body) = es.last();
        if body.action_type == ActionType::Disabled {
            before
        } else {
            before.insert(guild_id, body)
        }
    }
}

/// The entries of `m` whose action is not `Disabled`.
pub open spec fn active_configs(m: Map<u64, GuildConfigBody>) -> Map<u64, GuildConfigBody> {
    Map::new(|k: u64| m.contains_key(k) && m[k].action_type != ActionType::Disabled, |k: u64| m[k])
}

proof fn lemma_render_split(es: Seq<(u64, GuildConfigBody)>)
    ensures
        split(render_entries(es), '\n') == active_lines(es).push(Seq::<char>::empty()),
        render_entries(es).len() > 0 ==> render_entries(es).last() == '\n',
    decreases es.len(),
{
    if es.len() > 0 {
        let es1 = es.drop_last();
        lemma_render_split(es1);
        let (g, b) = es.last();
        if b.action_type != ActionType::Disabled {
            let r = render_entries(es1);
            let l = config_line(g, b);
            lemma_config_line_roundtrip(g, b);
            lemma_split_no_sep(l, '\n');
            assert(l.push('\n').drop_last() =~= l);
            assert(split(l.push('\n'), '\n') =~= seq![l, Seq::<char>::empty()]);
            if r.len() == 0 {
                assert(render_entries(es) =~= l.push('\n'));
                assert(active_lines(es1) =~= Seq::<Seq<char>>::empty()) by {
                    lemma_split_nonempty(r, '\n');
                }
                assert(split(render_entries(es), '\n') =~= active_lines(es).push(Seq::<char>::empty()));
            } else {
                let r1 = r.drop_last();
                assert(r =~= r1.push('\n'));
                assert(r1.push('\n').drop_last() =~= r1);
                assert(split(r, '\n') == split(r1, '\n').push(Seq::<char>::empty()));
                assert(split(r1, '\n') =~= split(r, '\n').drop_last());
                assert(active_lines(es1) =~= split(r, '\n').drop_last());
                assert(render_entries(es) =~= r1.push('\n') + l.push('\n'));
                lemma_split_append_sep(r1, l.push('\n'), '\n');
                assert(split(render_entries(es), '\n') =~= active_lines(es).push(Seq::<char>::empty()));
            }
        }
    }
}

/// The header line holds no guild settings.
#[verifier::spinoff_prover]
#[verifier::rlimit(40)]
proof fn lemma_header_skipped()
    ensures
        parse_line(header_line()) is None,
{
    lemma_header_shape();
    let h = header_line();
    let rest = h.skip(9);
    lemma_split_append_sep(guild_id_label(), rest, ',');
    lemma_split_no_sep(guild_id_label(), ',');
    lemma_split_nonempty(rest, ',');
    lemma_trim_unchanged(guild_id_label());
    assert(split(h, ',')[0] == guild_id_label());
    assert(line_fields(h)[0] == guild_id_label());
}

proof fn lemma_apply_active_lines(es: Seq<(u64, GuildConfigBody)>)
    ensures
        apply_lines(Map::empty(), seq![header_line()] + active_lines(es)) == entries_map(es),
    decreases es.len(),
{
    if es.len() == 0 {
        lemma_header_skipped();
        let h = header_line();
        assert(active_lines(es) =~= Seq::<Seq<char>>::empty());
        assert(seq![h] + active_lines(es) =~= seq![h]);
        assert(seq![h].drop_last() =~= Seq::<Seq<char>>::empty());
        assert(seq![h].last() == h);
        assert(apply_lines(Map::empty(), Seq::<Seq<char>>::empty()) == Map::<u64, GuildConfigBody>::empty());
        assert(apply_lines(Map::empty(), seq![h]) == Map::<u64, GuildConfigBody>::empty());
        assert(entries_map(es) == Map::<u64, GuildConfigBody>::empty());
    } else {
        let es1 = es.drop_last();
        lemma_apply_active_lines(es1);
        let (g, b) = es.last();
        if b.action_type != ActionType::Disabled {
            lemma_config_line_roundtrip(g, b);
            assert((seq![header_line()] + active_lines(es)).drop_last() =~= seq![header_line()]
                + active_lines(es1));
            assert((seq![header_line()] + active_lines(es)).last() == config_line(g, b));
        } else {
            assert(seq![header_line()] + active_lines(es) == seq![header_line()] + active_lines(es1));
        }
    }
}

proof fn lemma_entries_map_content(es: Seq<(u64, GuildConfigBody)>)
    requires
        forall|i: int, j: int| 0 <= i < j < es.len() ==> #[trigger] es[i].0 != #[trigger] es[j].0,
    ensures
        forall|k: u64| #[trigger] entries_map(es).contains_key(k) <==> exists|i: int|
            0 <= i < es.len() && #[trigger] es[i].0 == k && es[i].1.action_type != ActionType::Disabled,
        forall|i: int| 0 <= i < es.len() && #[trigger] es[i].1.action_type != ActionType::Disabled
            ==> entries_map(es)[es[i].0] == es[i].1,
    decreases es.len(),
{
    if es.len() > 0 {
        let es1 = es.drop_last();
        assert forall|i: int, j: int| 0 <= i < j < es1.len() implies #[trigger] es1[i].0
            != #[trigger] es1[j].0 by {
            assert(es1[i] == es[i] && es1[j] == es[j]);
        }
        lemma_entries_map_content(es1);
        let n = es.len() - 1;
        let (g, b) = es.last();
        assert forall|k: u64| #[trigger] entries_map(es).contains_key(k) <==> exists|i: int|
            0 <= i < es.len() && #[trigger] es[i].0 == k && es[i].1.action_type
                != ActionType::Disabled by {
            if entries_map(es).contains_key(k) {
                if b.action_type != ActionType::Disabled && k == g {
                    assert(es[n].0 == k);
                } else {
                    assert(entries_map(es1).contains_key(k));
                    let i = choose|i: int|
                        0 <= i < es1.len() && #[trigger] es1[i].0 == k && es1[i].1.action_type
                            != ActionType::Disabled;
                    assert(es[i] == es1[i]);
                }
            }
            if exists|i: int|
                0 <= i < es.len() && #[trigger] es[i].0 == k && es[i].1.action_type
                    != ActionType::Disabled {
                let i = choose|i: int|
                    0 <= i < es.len() && #[trigger] es[i].0 == k && es[i].1.action_type
                        != ActionType::Disabled;
                if i < n {
                    assert(es1[i] == es[i]);
                }
            }
        }
        assert forall|i: int| 0 <= i < es.len() && #[trigger] es[i].1.action_type
            != ActionType::Disabled implies entries_map(es)[es[i].0] == es[i].1 by {
            if i < n {
                assert(es1[i] == es[i]);
                assert(es[i].0 != es[n].0);
            }
        }
    }
}

/// Saving the configuration and loading it back gives the configuration
/// without its `Disabled` guilds, whatever order the save wrote the guilds in.
pub proof fn lemma_config_file_roundtrip(
    m: Map<u64, GuildConfigBody>,
    es: Seq<(u64, GuildConfigBody)>,
)
    requires
        lists_entries(es, m),
    ensures
        parse_config(config_text(es)) == active_configs(m),
{
    lemma_header_shape();
    let h = header_line();
    let r = render_entries(es);
    lemma_render_split(es);
    lemma_split_no_sep(h, '\n');
    assert(config_text(es) =~= h.push('\n') + r);
    lemma_split_append_sep(h, r, '\n');
    let ls = seq![h] + active_lines(es);
    assert(split(config_text(es), '\n') =~= ls.push(Seq::<char>::empty()));
    assert(ls.push(Seq::<char>::empty()).drop_last() =~= ls);
    assert(split(Seq::<char>::empty(), ',').len() == 1);
    lemma_apply_active_lines(es);
    lemma_entries_map_content(es);
    assert(entries_map(es) =~= active_configs(m)) by {
        assert forall|k: u64| #[trigger] entries_map(es).contains_key(k) implies active_configs(
            m,
        ).contains_key(k) && entries_map(es)[k] == active_configs(m)[k] by {
            let i = choose|i: int|
                0 <= i < es.len() && #[trigger] es[i].0 == k && es[i].1.action_type
                    != ActionType::Disabled;
            assert(m.contains_key(es[i].0));
        }
        assert forall|k: u64| #[trigger] active_configs(m).contains_key(k) implies entries_map(
            es,
        ).contains_key(k) by {
            assert(m.contains_key(k));
            let i = choose|i: int| 0 <= i < es.len() && #[trigger] es[i].0 == k;
            assert(m.contains_key(es[i].0));
        }
    }
}

} // verus!
