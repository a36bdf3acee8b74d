# apatite

The logic of a Twitch chat bot, verified with Verus.

- `src/` is the verified library: configuration defaults, the command
  registry and the parsing of `!name arg ...` messages, the built-in `help`
  and `stop` commands, the reaction to EventSub messages, the OAuth token
  flow as a state machine, the reading of the OAuth callback, the Helix
  requests and bodies, the filter for plugin files and the user-id cache.
- `app/` is the program around it: configuration, token and cache files,
  HTTP through `reqwest`, the EventSub websocket, the OAuth callback server,
  plugin loading with `libloading`, and the main loop, which hands each
  message to the library and carries out what it decides.
- `tests/` runs the library on concrete inputs.
