# reze_bridge

A bridge between a Minecraft server and Discord. The library in `src/` holds
the bridge's logic, each function with a contract that Verus proves:

- `mc_log`: the grammar of a server log line and what a line reports (chat,
  joins and leaves, advancements, deaths, or nothing).
- `event_handler`: the RCON command that shows a Discord message in game, and
  the Discord message for a Minecraft event.
- `discord_bot`: the event types; `dc_bot` holds the list of bridged channels
  (a type invariant) with its laws; `commands` holds the bot's replies (help, bridging, server
  status, welcome) and the decision which Discord messages reach Minecraft.
- `storage`: the stored list of bridged channels as JSON text. Bridging and
  unbridging hand back the text to store, and `restore_bridge_list` rebuilds
  the list from it at start-up.
- `text`: searching, trimming and number formatting on character sequences.

`app/` is the program around it: Discord (poise/serenity), RCON, the log file
watcher, the server status ping, files and the async plumbing. `tests/` runs
the library on concrete values.
