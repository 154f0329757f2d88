# discord_bot

The command logic of a Discord bot, verified with Verus.

- `src/` is the library: the replies of every command, delay parsing for
  reminders, the next-birthday calculation on the proleptic Gregorian calendar,
  rock-paper-scissors, dice and random numbers, and the decisions of the daily
  birthday check and the reminder loop. Calls into chrono, rand and `char::is_numeric`
  stand behind a few trusted items with stated contracts.
- `app/` is the bot itself: Discord (poise/serenity), MongoDB, the weather service
  and the two background loops, which hand each outcome to the library's step
  functions. It reads `DISCORD_TOKEN`, `MONGODB_URI`, `OPENWEATHER_API_KEY` and
  `BIRTHDAY_CHANNEL` from the environment.
- `tests/` runs the library on concrete values.
