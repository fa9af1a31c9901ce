# rust_openai_bot

A Telegram bot that answers button presses and `/commands` with a stock photo from
Pexels, and any other text with a chat-completion reply.

- `src/` is the verified library (Verus): the command table built from the text of
  `commands.yaml` (the YAML parse itself is a trusted call of `serde_yaml`; what is
  done with its result is verified), the reply keyboard, routing of incoming messages, the photo search and its retries,
  the steps of delivering a photo, the chat conversation, and the settings.
- `app/` is the program around it: environment, reading files, HTTP, Telegram, JSON
  decoding, the database, logging, and image resizing.
- `tests/` runs the library on concrete values.
