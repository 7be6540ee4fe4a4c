# kulua

Kulua connects Android phones with a computer: the clipboard goes both ways, notifications
of a phone appear on the desktop, its audio is played, and its applications get windows of
their own. `src/` is the part of it that decides and computes, with contracts that Verus
proves. `app/` opens the sockets, starts the programs and draws the windows.

## Layout

| Place | What it holds |
|-------|---------------|
| `src/wire.rs`, `src/text.rs`, `src/text_set.rs`, `src/seqs.rs` | bytes, texts and sequences |
| `src/types.rs`, `src/device_map.rs`, `src/device_refresh.rs` | devices, and what adb says of them |
| `src/adb_cmd.rs`, `src/scrcpy.rs`, `src/apps.rs`, `src/protocol/` | commands for a phone, and how its replies are read |
| `src/proto/` | the protocol with the server on a phone: datagrams, reliable delivery, sessions |
| `src/session/` | one phone's session: bringing the server up, clipboard, audio |
| `src/app.rs`, `src/console.rs` | what the daemon, and the program in a terminal, do about devices and sessions |
| `src/ipc/`, `src/ui.rs`, `src/ui/` | the daemon and its window, from both ends |
| `src/fusion.rs`, `src/viewer/` | windows of single applications |
| `src/settings.rs`, `src/autostart.rs`, `src/notification.rs`, `src/tray.rs`, `src/wireless_pair.rs`, `src/audio_player.rs`, `src/daemon.rs` | what the daemon needs besides |
| `tests/` | tests of the library as it runs |
| `app/` | the programs |

## How it is put together

The library holds no socket, no file, no process and no clock. Where a program would wait
for something, the library has a state with one function for each thing that can happen:
it takes the event, changes the state and returns what is to be done next. Times are
nanoseconds on a clock that never goes back, and are handed in.

Most types have a view, an ordinary mathematical value, and the contracts are written over
it. A state machine has its steps as functions of that view (`SessionState::tick`,
`CoreState::synced`, `Sending::ack`, ...), and the laws, which are public proof functions
named `law_...`, are about those.

The contracts of functions that call other crates are believed and not proved: MD5 (`md-5`),
random numbers (`rand`), identifiers (`uuid`), QR codes (`qrcode`), buffers (`bytes`), JSON
(`serde_json`), pictures (`image`), and a few functions of the standard library. Each such
function has a comment that says what is believed.
