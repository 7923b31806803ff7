# tnid

TNIDs are UUIDv8-compatible 128-bit identifiers that carry a short name (1 to 4
characters of `0-4a-z`) and have a sortable, unambiguous string form
`<name>.<17 data characters>`. This crate builds, parses, converts, encrypts and
filters them. The library's own functions are proved against their contracts with
Verus; the calls into the `aes`/`fpe`, `aho-corasick`, `time`, `rand` and `uuid`
crates, and `String::push`, go through a few small wrappers whose contracts are
trusted, each documented with what it claims of the outside code.

A kind of id is a type implementing `TnidName`, whose `id_name()` method returns the
name (a method, where a constant would be more usual, so that its result can carry a
contract); a verified implementation also gives the name as `spec_id_name()`.

## Layout

- `src/` — the verified library.
  - `name_encoding`, `data_encoding`: the 5-bit name alphabet and the 6-bit data
    alphabet, with their bit layouts and the laws that decoding undoes encoding.
  - `layout`, `v0`, `v1`, `tnid_variant`, `utils`: the bit layout of an id, the two
    defined variants, and the UUID hex form.
  - `typed` (`Tnid<Name>`), `dynamic_tnid` (`DynamicTnid`), `tnid_opt` (`TNID<Name>`),
    `uuidlike` (`UuidLike`): the id types and their parsers and printers.
  - `encryption`: FF1 (AES-128) encryption of the 100 data bits of a v0 id into a
    v1 id and back.
  - `filter`: generation of ids whose data string avoids a list of words.
  - `ordering`: the laws that every string form sorts as the value it encodes.
  - `uuid_interop`, `clock`: the calls into the `uuid`, `time` and `rand` crates.
  - `cli`: the commands of the `tnid` program, from parsed arguments to output text.
- `tests/` — tests run against the compiled library.
- `app/` — the `tnid` command-line program (argument parsing with `clap`), and serde
  forms of the id types.
