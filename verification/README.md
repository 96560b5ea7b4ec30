# reservation_mailer

E-mail templates for reservations, with their logic verified by Verus.

- `src/` — the verified library: text operations (`text`), decimal numbers
  (`numbers`), templates, placeholders, rendering and the configuration
  (`configshandler`), database connection strings and previews (`dbadapt`),
  and the states of the screens (`first_configuration`, `home`, `app`,
  `window`).
- `app/` — the desktop program: egui screens, JSON files and ODBC
  connections, calling the library for every decision.
- `tests/` — tests of the library on concrete values.
