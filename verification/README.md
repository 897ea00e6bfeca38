# Studentenwerk Leipzig Mensa Bot

A Telegram bot that shows the meal plans of the canteens in Leipzig, sends them every working day at
a time that the user picks, and tells its subscribers when a plan has changed. For one account it
also watches CampusDual for new results and exams.

* `src/` is the library. It decides what is sent, registered, scheduled and stored; all of it is
  verified with Verus against the contracts that stand beside the code.
  * `data_backend` writes the messages that show a plan, `markdown`, `lines` and `text` are
    about the text in them, and `calendar` finds the day whose plan is shown.
  * `bot_command_handlers`, `bot_command_helpers` and `shared_main` answer commands and pressed
    buttons with lists of `actions`.
  * `task_scheduler_funcs` and `db_operations` keep registrations, daily jobs and the database in
    step.
  * `campusdual_fetcher` logs in to CampusDual, reads its pages and finds out what is new.
  * `button_bot` is the bot whose messages carry buttons for the days.
* `app/` is the program around it: the Telegram API, the web services, SQLite and the cron scheduler.
* `tests/` runs the library on given values.

A bot has to be created with [@BotFather](https://t.me/BotFather), which hands out a token. If
CampusDual is used, the `GEANT OV RSA CA 4` certificate must be installed. What is stored goes to
SQLite databases in the working directory.
