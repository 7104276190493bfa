# shmtu_terminal

The core of a desktop client for the campus card of Shanghai Maritime University: it
syncs an identity's card bills from the campus platform, merges and de-duplicates them,
classifies them, computes statistics, exports and backs them up, and shares them between
devices.

- `src/` is the library, written in Verus: every function carries a contract that Verus
  proves. Calls into outside crates (hashing, AES-GCM, base64, regex, JSON, the clock, the
  random source) stand behind small trusted wrappers whose contracts say what the crate
  documents.
- `tests/` exercises the library on concrete values.
- `app/` holds what the verifier does not see: configuration and rule files, archives,
  network addresses, the threads of the background services and the floating-point
  statistics built on the library's groupings.

Modules of the library:

| module | what it decides |
|--------|-----------------|
| `text`, `numbers` | text helpers; transaction numbers and number lists |
| `store`, `bill_merge` | stored bill records, de-duplication, back-filling, known numbers, bath-bill merging |
| `classification`, `reclassify` | bill categories, meals and locations; re-classification tallies |
| `sync`, `services` | sync ranges and options, account selection, progress, captcha hand-offs, automatic login, periodic services |
| `accounts`, `models`, `error` | identity, account and session records; error texts |
| `crypto`, `backup`, `webdav` | secret encryption, encrypted archives, cloud backups |
| `query`, `stats`, `export` | bill queries and pages, statistics groupings, CSV/JSON/Qianji exports, snapshots |
| `net`, `ocr`, `remote`, `p2p`, `captcha` | tokens and addresses, the OCR server, remote access, device pairing, captcha tests |
| `config`, `frontend` | configuration and the values shown to the frontend |
