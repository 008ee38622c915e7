# osu_bot

The logic of an osu! Discord bot, verified with Verus, and the bot around it.

- `src/` is the verified library:
  - `text.rs` and `strings.rs`: decimal and comma-grouped numbers, trimming,
    substring search and `u32` parsing;
  - `utils/osu_utils.rs`: reading the beatmapset and beatmap ids of a link,
    finding the osu! link of a chat message, and the osu! specific texts
    (hits, song length, grades, slider misses);
  - `utils/osu_pp.rs` and `utils/pp_order.rs`: where a play stands among a
    player's best plays, and what its pp gain is reckoned from (pp values are
    carried as `u32` keys ordered like `f32::total_cmp`);
  - `utils/database.rs`: the accounts linked to Discord users (a redb file)
    and the last beatmap link seen in each channel;
  - `embeds/`: the texts of the replies; `commands.rs`: the commands'
    decisions; `resource_handler.rs`: where files are stored.
- `app/` is the bot: Discord and osu! API calls, files, the pp calculator and
  everything computed with floating point.
- `tests/` runs the library on concrete values.
