# mdk_snapshot_bug

Shows that a group snapshot loses cryptographic state when it looks tables up
under the wrong encoding of the group id.

The mismatch is that of MDK at commit `fe69c3e50e4a66755ed4f04d34f5453c1ac6fd5f`,
before its release 0.6.0. There MDK's own tables keep a group id as raw bytes,
while the OpenMLS tables keep the JSON form of the same id,
`{"value":{"vec":[82,64,..]}}`. The two are never the same bytes, so a snapshot
that looks every table up under the raw bytes captures `groups` and none of the
`openmls_*` tables.

The program links MDK 0.6.0, the first release with snapshots. That release
keeps and looks up the OpenMLS rows under another, binary form of the id. The
seed still writes them under the JSON form, which the lookup of 0.6.0 misses as
well: a confirmed mismatch there speaks of the seeded keys, not of rows that
0.6.0 itself has written.

`src/` is a library verified with Verus:

- `key`: both encodings of a group id; they always differ, and JSON keys of
  different ids differ.
- `seed`: the rows a database is seeded with, and the key each is found under.
- `snapshot`: the queries after a snapshot, the captured tables, the verdict.
- `store`: stored rows, and what snapshots and restores can do by the keys that
  they go by, for the four OpenMLS tables and MDK's own three.
- `report`, `text`: what is printed.

`app/` opens the database, takes the snapshot with MDK and prints the report. It
exits with 1 where the mismatch is confirmed, else with 0.
