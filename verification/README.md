# honeypot_lite

The logic of a Discord "honeypot" bot: anyone who writes in a guild's
honeypot channel is banned or softbanned, as the guild configured it with the
`/honeypot-set` command.

- `src/` is the library, verified with Verus:
  - `text.rs`: white space, trimming, splitting, and decimal numbers as the
    standard library reads and writes them;
  - `config.rs`: the action type, the per-guild settings, and the CSV file
    that holds them (reading, writing, and the proof that writing then reading
    gives back every guild that is not disabled);
  - `event_handler.rs`: what to do on the `honeypot-set` command, on deleted
    channels and guilds, and on new messages, and the command to register.
- `app/` is the bot itself: gateway connection, HTTP requests, the
  configuration file on disk. It turns Discord's types into the library's
  plain values and carries out what the library decides.
- `tests/` runs the library on concrete values.

Run with `DISCORD_TOKEN=... CONFIG_FILE_PATH=.guild_config.csv`.
