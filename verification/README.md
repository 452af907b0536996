# mealdesk

The verified core of MealDesk, an offline restaurant point-of-sale backed by
SQLite. The library decides what each command may do and what it writes; the
application around it reads and writes the database.

- `src/` — the library, with its contracts and proofs:
  - `orders` — editing an order (which lines are kept, rewritten, added or
    dropped; lines already sent to the kitchen stay as they are), cancelling a
    whole order or part of a line, and what goes back to the kitchen;
  - `kitchen` — the kitchen ticket lifecycle Pending → Preparing → Ready →
    Completed and print counting;
  - `tables` — table transfers and the table status changes of an order;
  - `billing` — bill numbers and the payment that gives change;
  - `catalog` — guards on deleting categories and products, upsert choices;
  - `auth` — password digests (SHA-256 through `sha2`) and sign-in outcomes;
  - `seed`, `migration` — the data a new database starts with and the upgrade
    of the older schema;
  - `status`, `audit`, `text`, `model` — vocabularies, audit entries, exact
    text rendering, and the records shown to the user interface.
- `tests/` — tests of the library.
- `app/` — the Tauri application: commands, database access, and the
  floating-point money arithmetic.
