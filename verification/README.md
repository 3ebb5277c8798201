# cgu_notices

A chat bot that tells its subscribers about new notices on a college's
notice board page.

- `src/` is the verified library: reading the notice table from the page's
  HTML (`site_scraper`, over the parsed document of `html`), deciding which
  notices are new and which requests go out (`notifier`), the message text
  (`utils`, `text`), the bot's answers (`bot`), the subscriber list and the
  database collections (`db`), and the settings (`parse_env`).
- `app/` is the program around it: reading the environment, the database and
  web requests, the chat bot's dispatcher and the notification loop.
- `tests/` runs the library on concrete pages, notices and commands.
