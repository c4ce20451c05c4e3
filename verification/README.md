# record

A chat client core for Discord, verified with Verus.

`src/` is the library. Every function of it is proved against its contract,
but for a few small trusted wrappers around `String::push` and the
`secure-string` crate, whose contracts are stated beside them:

- `adaptors`: the platform-neutral types (places of messages, users,
  messages) and the Discord adaptor: its requests, and what it makes of the
  answers (contacts, conversations, guilds and their cached icons, messages).
- `client`: the Slint client's sign-in store, its Discord backend and the
  data behind its chat view (the private-channel, friend and guild lists with
  their avatars, and the chat pane).
- `desktop` and `tray`: the sign-in stores and pages of the iced and tray
  front ends.
- `token_file`: the `platform:token` file every front end keeps its
  sign-ins in, with the proof that what is written is read back.
- `text` and `selection`: the string and list helpers the above build on.

`app/` runs the library against the network and the disk: HTTP requests,
the icon cache, the token files, the gateway connection.
`tests/` checks the library on concrete values.
