# listening

The bookkeeping of a word-listening trainer, written in Verus.

- `src/` is the verified library: the text form of stored times and the proof
  that comparing those texts compares the times (`clock`), the review interval
  (`schedule`), the cleaning of resource-pack names and the word listings
  (`records`), pack paths (`paths`), resource packs and the views built from
  them (`resource`, `view`), picture media types (`mime`), and the start-up
  hint and download address (`app_info`).
- `app/` is the program around it: the SQLite store (sqlx), reading resource
  packs (tokio, serde_json), downloading pronunciations (reqwest), and the
  requests of the front end, taken here from the command line.
- `tests/` runs the library on concrete values.
