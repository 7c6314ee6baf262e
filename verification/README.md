# MMD

MMD dims the monitors on which no window shows, and returns them to their
earlier brightness when one does. It lives in the tray of a Windows desktop.

`src/` is the library: everything that is decided, with contracts proved by
Verus. It makes no call into the operating system. Where a decision needs an
answer from outside, the library says what is to be asked and is resumed with
the answer.

| module | what it holds |
| --- | --- |
| `brightness` | dimming states, pending operations, the brightness scale |
| `target` | a monitor, and a conversation with it |
| `display` | a display, and how its state follows what is on it |
| `manager` | all displays, and the jobs that go over them |
| `snapshot`, `ledger` | what is remembered of displays that are found anew |
| `enumeration`, `discovery` | finding displays, and what that comes to |
| `inspection`, `tracking` | which windows count, and which keep a display lit |
| `settings`, `text`, `utf16`, `geometry` | the basics |
| `events`, `messages`, `commands` | what comes in, and what it calls for |
| `state` | the program as a whole: timers, errors, the tray text |
| `diagnostics` | counting displays and telling how they are |
| `outcome`, `laws` | what jobs come to, and what holds of them |

`app/` is the program around it: the hidden window, the tray icon, and the calls
that answer the library's questions. It builds on Windows only.
