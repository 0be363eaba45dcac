# rpgmv_tool

Tools for RPG Maker MV and MZ games: decrypting and encrypting their image
and audio files, turning event command lists into Python-like source,
dumping maps, common events and troops, and checking message text for lines
that overflow their windows.

The library in `src/` is written in Verus and proved against its contracts:

- `rpgmvp`, `encrypterator`, `key_hex`: the encrypted file format, key
  recovery and key parsing, with the round trips between encryption and
  decryption proved.
- `message_parser`: the message text-code parser.
- `json`, `types`, `database`, `command`, `conditional_branch`,
  `command_decode`, `param_reader`, `event_list`: the game data model and the
  decoding of raw event commands into typed commands.
- `code`, `config`, `function_call_writer`, `generate`, `dump`: the source
  generator and the naming of dumped files.
- `line_size`, `image_files`, `completions`: the decisions behind the
  line-size check, the image viewer and the installing of shell completions.

`app/` holds the command line program around it: argument handling, file
access, JSON and TOML parsing, and font measurement.
