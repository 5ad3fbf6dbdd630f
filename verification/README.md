# omarchygram-ui

The model behind the windows of a Telegram client, verified with Verus.

`src/` holds what each view knows and what each event does to it: the messages of
the open chat, the chat list with its search and folders, the info panel, the login,
the dialogs, calls, shortcuts, stickers and the optional effects. Every function
states what it returns and what it changes; the laws that span several functions are
public proof functions whose names begin with `law_`. Those on rendered messages
stand in `markup_laws.rs`.

`app/` holds the GTK widgets around the model and the services that need the desktop:
drawing, sound, location and the engine that draws animated stickers.

`tests/` runs the library on concrete values.

## What is taken on trust

- `text.rs`: five functions of the standard library on strings and characters.
- `clock.rs`: chrono's calendar.
- `lottie_backend.rs`: flate2's gzip decoder.
- `lottie.rs`: the channel by which the drawing thread wakes the window.
- `markup.rs`: looking a spoiler up in a set.
- `messages/store.rs`: that a path is a value of its own, of which nothing is said.
