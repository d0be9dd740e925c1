# Lieutenant

A terminal tool for building Magic: The Gathering commander decks: a card
database filtered through an omnibar, decks with tags on their cards, deck
statistics, and import and export of deck lists.

## Layout

- `src/` is the library, verified with Verus. Each public function states in
  its contract what it returns or changes.
  - `omni.rs`: the omnibar's query language, parsed from characters.
  - `db.rs`: the SQL the card filter writes, tag lists as stored, set and
    rarity updates, and the small stored-text formats.
  - `field_filter.rs`: the field-based card filter and its SQL.
  - `cards.rs`: card layouts, face names, colour identities, price lookup
    names, deck import rules and meld links; `import.rs` runs the import of
    a deck list as a state machine.
  - `util.rs`: settings and their file text, cards, decks and lists;
    `util/views.rs` (settings, deck list and deck creation screens),
    `util/deck_view.rs` (the deck screen) and `util/stats.rs` (deck
    statistics).
  - `ui.rs` and `ui/omnibar.rs`: the interface as state machines that take a
    key or the answer to a database request and yield the next request.
  - `text.rs`: character-level helpers with the meaning of the matching
    `str` methods stated as spec functions.
- `app/` is the program around the library: the command line, the SQLite
  database, the network lookups, the settings file and the terminal drawing.
- `tests/` runs the library on concrete values.
