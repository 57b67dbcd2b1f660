# eorzea_bot

A Discord bot for a Final Fantasy XIV free company, split in two:

- `src/` is the verified library (Verus): the Eorzean clock and gathering
  windows (`clock`), the gathering-node timetable (`nodes`), the free-company
  chest page and answer (`chest`), timed reminders (`reminders`), the smaller
  command decisions (`discord`) and text helpers (`text`).
- `app/` is the program around it: the Discord client (serenity), HTTP
  requests, the Reddit client, reading `out.json`, the clock and the async tasks.
